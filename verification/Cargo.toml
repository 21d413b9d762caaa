[package]
name = "puree_core"
version = "0.1.0"
edition = "2021"
publish = false

[dependencies]
rayon = "*"
serde_yaml = "*"
grass = "*"
lightningcss = "1.0.0-alpha.72"
regex = "*"
once_cell = "*"
notify = "*"
crossbeam-channel = "*"
palette = "*"
csscolorparser = "*"
