//! GPIOnext: configuration model, pin arithmetic and input-event decisions
//! for a Raspberry Pi GPIO / I2C game-controller daemon.

pub mod text;
pub mod config;
pub mod peripheral;
pub mod constants;
pub mod gpio;
pub mod i2c;
pub mod presets;
pub mod init_sys;
pub mod ipc;
pub mod uinput;
pub mod ui;
pub mod log;
pub mod daemon;
pub mod core_start;
pub mod properties;
