[package]
name = "gherkin_tests"
version = "0.1.0"
edition = "2021"
publish = false

[dependencies]
cbor-diag = "*"
cddl = "=0.9.5"
rand = "=0.8.8"
