//! Verified core of a terminal control centre for ASUS ROG laptops.
pub mod asusctl;
pub mod command;
pub mod error;
pub mod supergfxctl;
pub mod sysfs;
pub mod tabs;
pub mod text;
pub mod theme;
pub mod state;
pub mod app;
pub mod display;
