[package]
name = "winnas_launcher"
version = "0.1.1"
edition = "2021"
publish = false

[dependencies]
base64 = "0.22"
image = { version = "0.25", default-features = false, features = ["png"] }
serde = { version = "1", features = ["derive"] }
serde_json = "1"
chrono = "0.4"
winreg = "0.55"
gilrs = "0.11"
windows = { version = "0.61", features = ["Win32_Foundation", "Win32_System_Threading", "Win32_UI_Accessibility", "Win32_UI_WindowsAndMessaging", "Win32_Graphics_Gdi", "Win32_System_Com", "Win32_UI_Shell", "Win32_UI_Shell_Common", "Win32_UI_Input_KeyboardAndMouse", "Win32_System_LibraryLoader", "Win32_System_Power", "Win32_System_JobObjects", "Win32_System_Diagnostics_ToolHelp", "Win32_Security", "Win32_Media_Audio", "Win32_Media_Audio_Endpoints", "Win32_Globalization", "Win32_System_Shutdown", "Win32_System_Recovery", "Win32_UI_HiDpi"] }
