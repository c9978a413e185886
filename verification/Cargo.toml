[package]
name = "grid_sketch"
version = "0.1.0"
edition = "2021"
publish = false

[dependencies]
rand = "0.8"
csscolorparser = "*"
roughr = "*"
points_on_curve = "*"
nannou = "*"
nannou_egui = "*"
async-std = "*"
wasm-bindgen = "*"
console_error_panic_hook = "*"
