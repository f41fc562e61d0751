[package]
name = "tuke"
version = "0.1.0"
edition = "2021"
publish = false

[dependencies]
noargs = "=0.4.3"
nojson = "=0.3.15"
orfail = "=2.0.0"
tuinix = "=0.4.0"
