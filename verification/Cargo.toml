[package]
name = "bvh_anim"
version = "0.1.0"
edition = "2021"
publish = false

[dependencies]
atomic_refcell = "0.1"
bstr = "0.2"
lexical = "2.2"
mint = "0.5"
smallvec = "1"
