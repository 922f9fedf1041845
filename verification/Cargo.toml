[package]
name = "inline_c"
version = "0.1.0"
edition = "2021"
publish = false

[dependencies]
target-lexicon = "*"
cc = "*"
tempfile = "*"
assert_cmd = "*"
