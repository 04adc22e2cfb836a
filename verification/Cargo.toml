[package]
name = "turtle-syntax"
version = "0.1.0"
edition = "2021"
publish = false

[dependencies]
locspan = "=0.8.2"
rdf-types = "=0.18.5"
iref = "=3.2.2"
static-iref = "=3.0.0"
decoded-char = "=0.1.1"
thiserror = "=1.0.69"
