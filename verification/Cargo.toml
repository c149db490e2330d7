[package]
name = "prim_overlay"
version = "0.1.0"
edition = "2021"

[dependencies]
align_constr = "*"
just_prim = "*"
