[package]
name = "dsp_toolkit"
version = "0.1.0"
edition = "2021"
publish = false

[dependencies]
rustc_apfloat = "=0.1.3"
biquad = "=0.6.0"
dsp = { version = "=0.11.0", default-features = false }
find_peaks = "=0.1.5"
rustfft = "=6.4.1"
sdr = "=0.7.0"
