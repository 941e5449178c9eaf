[package]
name = "expectorate"
version = "0.1.0"
edition = "2021"
publish = false

[dependencies]
atomicwrites = "*"
console = "*"
fs-err = "*"
predicates = "*"
similar = "*"

[dev-dependencies]
filetime = "*"
tempfile = "*"
