[package]
name = "rpn_shell"
version = "0.1.0"
edition = "2021"
publish = false

[dependencies]
fastrand = "1"
rustyline = "9"
argparse = "0.2"
atty = "0.2"
thiserror = "1"
