[package]
name = "cpf_cnpj"
version = "0.1.0"
edition = "2021"
publish = false

[dependencies]
md-5 = "0.10"
regex = "1"
serde = { version = "1", features = ["derive"] }
serde_json = "1"
sha1 = "0.10"
sha2 = "0.10"
tokio = { version = "1", features = ["macros", "rt-multi-thread"] }
warp = "0.3"
