[package]
name = "normalized_path"
version = "0.1.0"
edition = "2021"
publish = false

[dependencies]
icu_normalizer = "=2.1.1"
icu_casemap = "=2.1.1"
icu_properties = "=2.1.2"
simd_cesu8 = "=1.2.0"
jni = "=0.22.4"
