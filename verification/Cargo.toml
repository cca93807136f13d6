[package]
name = "miel_lib"
version = "0.1.0"
edition = "2021"
publish = false

[dependencies]
language-tags = "*"
radix_trie = "*"
semver = "*"
