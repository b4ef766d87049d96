[package]
name = "clippy_lints"
version = "0.1.0"
edition = "2021"
publish = false

[dependencies]
clippy_config = "=0.0.1"
clippy_utils = "=0.1.101"
rustc-ap-rustc_ast = "*"
rustc-ap-rustc_session = "*"
rustc_data_structures = "=0.1.2"
rustc_errors = "=0.1.2"
rustc_span = "=0.1.2"
