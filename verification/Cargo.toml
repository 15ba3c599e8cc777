[package]
name = "aes128_gcm"
version = "0.1.0"
edition = "2021"
publish = false

[dependencies]
hacspec-lib = "=0.1.0-beta.1"
num-bigint = "=0.4.4"
num-traits = "=0.2.17"
