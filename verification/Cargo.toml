[package]
name = "novel_words"
version = "0.1.0"
edition = "2021"
publish = false

[dependencies]
derive_more = { version = "*", features = ["deref", "deref_mut", "display", "from"] }
fxhash = "0.2"
thiserror = "*"
