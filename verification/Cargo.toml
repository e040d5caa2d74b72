[package]
name = "graphml2mm"
version = "0.1.0"
edition = "2021"
publish = false

[dependencies]
xml-rs = "=0.8.4"
structopt = "=0.3.26"
