[package]
name = "naru"
version = "0.1.0"
edition = "2021"
publish = false

[dependencies]
infer = "*"
flate2 = "1"
xz2 = "0.1"
bzip2 = "*"
tempfile = "3"
chrono = "0.4"
fatfs = "0.3"
glob = "0.3"
indicatif = "*"
log = "0.4"
owning_ref = "0.4"
size = "*"
stderrlog = "*"
structopt = "0.3"
typed-builder = "*"
walkdir = "2"
tar = "0.4"
zip = { version = "*", default-features = false, features = ["deflate"] }
ar = "*"
cab = "*"
cpio = "*"
