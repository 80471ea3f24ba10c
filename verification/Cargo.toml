[package]
name = "music_motion"
version = "0.1.0"
edition = "2021"
publish = false

[dependencies]
base64 = "0.22"
serde = { version = "1", features = ["derive"] }
serde_json = "1"
dirs = "6"
zbus = { version = "5", default-features = false, features = ["tokio", "blocking-api"] }
gtk = "0.18"
gdk = "0.18"
windows = { version = "0.61", features = ["Foundation", "Media_Control", "Storage_Streams", "Win32_Foundation", "Win32_Media_Audio", "Win32_Media_Audio_Endpoints", "Win32_System_Com", "Win32_System_ProcessStatus", "Win32_System_Threading", "Win32_UI_WindowsAndMessaging"] }
