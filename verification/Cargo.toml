[package]
name = "cppbuild"
version = "0.1.0"
edition = "2021"
publish = false

[dependencies]
clang = { version = "=2.1.0", features = ["runtime"] }
dirs = "=7.0.0"
itertools = "=0.15.0"
libc = "=0.2.191"
libflate = "=1.4.0"
llvm-sys = { version = "=140.1.3", features = ["no-llvm-linking", "disable-alltargets-init"] }
pkg-config = "=0.3.34"
reqwest = { version = "=0.11.27", default-features = false, features = ["blocking"] }
rust_info = "=0.3.3"
serde = "=1.0.229"
serde_derive = "=1.0.229"
tar = "=0.4.46"
toml = "=0.5.11"
walkdir = "=2.5.0"
whoami = "=1.6.1"
