[package]
name = "postgres_logical_replication"
version = "0.1.0"
edition = "2021"
publish = false

[dependencies]
postgres-protocol = "*"
bytes = "1"
fallible-iterator = "0.2"
