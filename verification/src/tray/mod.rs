//! The controller behind the tray icon: what it knows, what can happen, what it asks for.

pub mod laws;
pub mod machine;
pub mod menu;
pub mod progress;
pub mod signs;
