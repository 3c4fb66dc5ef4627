[package]
name = "rat_distortion"
version = "0.1.0"
edition = "2021"
publish = false

[dependencies]
fastapprox = "=0.3.1"
real_time_fir_iir_filters = "=0.1.1"
vst = "=0.4.0"
