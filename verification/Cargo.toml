[package]
name = "todo_list"
version = "0.1.0"
edition = "2021"
publish = false

[dependencies]
dioxus = { version = "=0.6.3", default-features = false, features = ["macro", "html", "signals", "hooks", "launch", "document", "devtools", "web"] }
