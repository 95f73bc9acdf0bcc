//! Keys as the interaction logic sees them, the tab order, and the actions a
//! closed dialog hands back to the application.

use vstd::prelude::*;
use crate::init_sys::DaemonCmd;

verus! {

/// A key press, reduced to what the dialogs and tabs tell apart.
#[derive(Debug, Clone, Copy, PartialEq, Eq, Structural)]
pub enum Key {
    /// A character; `ctrl` when the Control modifier was held.
    Char { c: char, ctrl: bool },
    Enter,
    Esc,
    Backspace,
    Tab,
    BackTab,
    Up,
    Down,
    Left,
    Right,
    Delete,
    /// Function key F1..F12.
    F(u8),
    /// Any other key.
    Other,
}

/// Whether the key is the character `c`, with or without Control.
pub open spec fn is_char(k: Key, c: char) -> bool {
    k matches Key::Char { c: d, .. } && d == c
}

/// The tabs of the configuration tool, in display order.
#[derive(Debug, Clone, Copy, PartialEq, Eq, Structural)]
pub enum TabIndex {
    Devices,
    Mappings,
    I2cSettings,
    PresetsConfig,
}

/// Position of a tab in display order.
pub open spec fn tab_pos(t: TabIndex) -> int {
    match t {
        TabIndex::Devices => 0,
        TabIndex::Mappings => 1,
        TabIndex::I2cSettings => 2,
        TabIndex::PresetsConfig => 3,
    }
}

/// The tab to the right of `t`, wrapping from the last to the first.
pub open spec fn next_tab(t: TabIndex) -> TabIndex {
    match t {
        TabIndex::Devices => TabIndex::Mappings,
        TabIndex::Mappings => TabIndex::I2cSettings,
        TabIndex::I2cSettings => TabIndex::PresetsConfig,
        TabIndex::PresetsConfig => TabIndex::Devices,
    }
}

/// The tab to the left of `t`, wrapping from the first to the last.
pub open spec fn prev_tab(t: TabIndex) -> TabIndex {
    match t {
        TabIndex::Devices => TabIndex::PresetsConfig,
        TabIndex::Mappings => TabIndex::Devices,
        TabIndex::I2cSettings => TabIndex::Mappings,
        TabIndex::PresetsConfig => TabIndex::I2cSettings,
    }
}

impl TabIndex {
    /// The tab to the right, wrapping from the last to the first.
    pub fn next(self) -> (r: Self)
        ensures
            r == next_tab(self),
            tab_pos(r) == (tab_pos(self) + 1) % 4,
    {
        match self {
            TabIndex::Devices => TabIndex::Mappings,
            TabIndex::Mappings => TabIndex::I2cSettings,
            TabIndex::I2cSettings => TabIndex::PresetsConfig,
            TabIndex::PresetsConfig => TabIndex::Devices,
        }
    }

    /// The tab to the left, wrapping from the first to the last.
    pub fn prev(self) -> (r: Self)
        ensures
            r == prev_tab(self),
            tab_pos(r) == (tab_pos(self) + 3) % 4,
    {
        match self {
            TabIndex::Devices => TabIndex::PresetsConfig,
            TabIndex::Mappings => TabIndex::Devices,
            TabIndex::I2cSettings => TabIndex::Mappings,
            TabIndex::PresetsConfig => TabIndex::I2cSettings,
        }
    }
}

/// Tab then Shift-Tab (or the reverse) comes back to the same tab; four
/// steps to the right go all the way round, and no step stays in place.
pub proof fn lemma_tab_cycle(t: TabIndex)
    ensures
        prev_tab(next_tab(t)) == t,
        next_tab(prev_tab(t)) == t,
        next_tab(next_tab(next_tab(next_tab(t)))) == t,
        next_tab(t) != t,
        prev_tab(t) != t,
{
}

/// What a closed dialog asks of the application.
#[derive(Debug, Clone)]
pub enum ModalAction {
    /// Persist the configuration.
    Save,
    /// Show a transient message in the status bar.
    StatusMsg(String),
    /// Rebuild the Devices tab.
    RefreshDevicesTab,
    /// Load this device in the Mappings tab and switch to it.
    RefreshMappingsTab(String),
    /// Set the Mappings tab filter without switching tabs (`None`: all).
    SetMappingsFilter(Option<String>),
    /// Send a lifecycle command to the daemon.
    DaemonAction(DaemonCmd),
    /// Write the configuration as pretty JSON to this path.
    ExportConfig(String),
    /// Replace the configuration with the JSON read from this path.
    ImportConfig(String),
}

} // verus!
