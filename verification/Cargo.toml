[package]
name = "anti_join_limit"
version = "0.1.0"
edition = "2021"
publish = false

[dependencies]
arrow = "55"
datafusion-common = "49"
datafusion-execution = "49"
datafusion-physical-plan = "49"
