[package]
name = "nsm_attest"
version = "0.1.0"
edition = "2021"
publish = false

[dependencies]
x509-parser = "*"
p384 = "*"
clap = "2"
serde_json = "1"
serde_bytes = "*"
aws-nitro-enclaves-nsm-api = "*"
