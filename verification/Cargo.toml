[package]
name = "exfat_utils"
version = "0.1.0"
edition = "2021"
publish = false

[dependencies]
byteorder = "=1.5.0"
getopts = "=0.2.24"
log = "=0.4.34"
env_logger = "=0.11.11"
