[package]
name = "p3-uni-stark-mt"
version = "0.1.0"
edition = "2021"
publish = false

[dependencies]
p3-air = "*"
p3-challenger = "*"
p3-commit = { version = "*", features = ["test-utils"] }
p3-field = "*"
p3-matrix = "*"
p3-util = "*"
p3-baby-bear = "*"
p3-dft = "*"
p3-symmetric = "*"
p3-keccak = "*"
p3-fri = "*"
p3-merkle-tree = "*"
