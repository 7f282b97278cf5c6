[package]
name = "track_session"
version = "0.1.0"
edition = "2021"
publish = false

[dependencies]
librespot-audio = "=0.8.0"
librespot-core = "=0.8.0"
librespot-metadata = "=0.8.0"
librespot-playback = { version = "=0.8.0", default-features = false }
futures-util = "*"
tokio = { version = "*", features = ["macros", "rt-multi-thread", "sync"] }
tokio-stream = "*"
serde = { version = "*", features = ["derive"] }
serde_urlencoded = "*"
# Nothing here names vergen; the pin only keeps librespot-core's build
# script on a vergen release that works with vergen-gitcl 1.0, which its
# newest minor does not.
vergen = { version = "=9.0.6", default-features = false }
