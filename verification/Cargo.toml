[package]
name = "midi_merge"
version = "0.1.0"
edition = "2021"
publish = false

[dependencies]
heapless = "=0.8.0"
embassy-time = { version = "=0.3.2", features = ["std"] }
embassy-sync = { version = "=0.6.2", features = ["std"] }
embassy-executor = { version = "=0.6.3", features = ["arch-std", "executor-thread"] }
embassy-rp = "=0.2.0"
embedded-io-async = "=0.6.1"
defmt = "=0.3.101"
defmt-rtt = "=0.4.2"
panic-probe = "=0.3.2"
