[package]
name = "bevy_bootloader"
version = "0.1.0"
edition = "2021"
publish = false

[dependencies]
bevy = { version = "=0.6.1", default-features = false }
parking_lot = "=0.11.2"
# Nothing here calls darling. Its macros switch on the `full` feature of
# syn 1, which the derive macros of bevy 0.6 need and do not ask for;
# without this line bevy does not build.
darling = "=0.13.4"
