[package]
name = "autour_process"
version = "0.1.0"
edition = "2021"
publish = false

[dependencies]
autour_core = "=0.2.0"
graph_process_manager_core = "=0.4.0"
graph_process_manager_loggers = { version = "=0.4.1", features = ["graphviz"] }
graphviz_dot_builder = "=0.1.5"
