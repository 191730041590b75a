[package]
name = "tll_array"
version = "0.1.0"
edition = "2021"
publish = false

[dependencies]
type-level-logic = "0.1.0"
type-operators = "*"
unreachable = "*"
