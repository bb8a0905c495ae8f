[package]
name = "kube_minion"
version = "0.1.0"
edition = "2021"
publish = false

[dependencies]
sysinfo = "0.29"
regex = "1"
serde_json = "1"
json_comments = "0.2"
args = "2"
getopts = "0.2"
signal-hook = "0.3"
