//! The configuration tool's interaction logic: keys, tabs, modal dialogs and
//! the wizards that chain them. Drawing is left to the terminal front end.

pub mod keys;
pub mod modals;
pub mod i2c_table;
pub mod wizard;
pub mod live_pins;
pub mod counts;
pub mod tabs;
pub mod app_state;
