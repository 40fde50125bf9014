[package]
name = "quarry"
version = "0.1.0"
edition = "2021"
publish = false

[dependencies]
eframe = { version = "0.33", default-features = false, features = ["accesskit", "default_fonts", "glow", "x11"] }
egui_extras = { version = "0.33", default-features = false }
libc = "0.2"
objc2 = "0.6"
objc2-app-kit = { version = "0.3", default-features = false, features = ["std", "NSApplication", "NSResponder"] }
objc2-foundation = { version = "0.3", default-features = false, features = ["std", "NSArray", "NSObject", "NSString", "NSURL"] }
rfd = { version = "0.15", default-features = false, features = ["xdg-portal", "async-std"] }
tempfile = "3"
winit = { version = "0.30", default-features = false, features = ["x11", "rwh_06"] }
