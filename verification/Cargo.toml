[package]
name = "audio_midi_shell"
version = "0.1.0"
edition = "2021"
publish = false

[dependencies]
midir = "0.11.0"
log = "0.4.34"
