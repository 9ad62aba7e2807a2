[package]
name = "assetview"
version = "0.1.0"
edition = "2021"
publish = false

[dependencies]
egui = "0.27"
image = { version = "=0.25.10", default-features = false, features = ["bmp", "gif", "jpeg", "png", "tiff", "webp"] }
notify = "8"
raw-window-handle = "0.6"
rayon = "1"
rusqlite = { version = "0.31", features = ["bundled"] }
winapi = { version = "0.3", features = ["shellapi", "wingdi", "winuser"] }
windows-sys = { version = "0.60", features = ["Win32_Foundation", "Win32_Graphics_Gdi", "Win32_Security", "Win32_Storage_Xps", "Win32_System_Com", "Win32_System_Com_StructuredStorage", "Win32_System_DataExchange", "Win32_System_LibraryLoader", "Win32_System_Memory", "Win32_System_Ole", "Win32_System_Threading", "Win32_System_Variant", "Win32_UI_Shell", "Win32_UI_Shell_Common", "Win32_UI_WindowsAndMessaging"] }
