[package]
name = "school_election"
version = "0.1.0"
edition = "2021"
publish = false

[dependencies]
diesel = { version = "2", features = ["postgres"] }
dotenv = "0.15"
jsonwebtoken = "9"
rocket = { version = "0.5", features = ["json"] }
rocket_sync_db_pools = { version = "0.1", features = ["diesel_postgres_pool"] }
serde = { version = "1", features = ["derive"] }
