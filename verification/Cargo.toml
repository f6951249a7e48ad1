[package]
name = "xml_iterator"
version = "0.1.0"
edition = "2021"
publish = false

[dependencies]
quick-xml = "0.31"
encoding_rs_io = "0.1"
