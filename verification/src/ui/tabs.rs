//! The four tabs of the configuration tool: their cursors, and what a key
//! does to them, to the configuration, and which dialog it opens.

use vstd::prelude::*;
use crate::config::{get_device_rows, same_key, DeviceRow, GpioConfig};
use crate::constants::{device_list, device_list_spec};
use crate::init_sys::DaemonCmd;
use crate::presets::{preset_names, presets};
use crate::text::{
    dec_chars, is_digit, parse_u32, pop_char, push_char, push_decimal, push_str, str_eq,
    string_of,
};
use crate::ui::i2c_table::{i2c_row_label, i2c_row_label_spec, i2c_rows_count, i2c_rows_spec};
use crate::ui::keys::{is_char, Key};
use crate::ui::live_pins::{total_rows, total_rows_spec};
use crate::ui::modals::{AddI2cModal, ConfirmModal, TextInputModal};
use crate::ui::wizard::{
    add_wizard, choose_device_modal, is_confirm, is_select, launch_add_wizard, Modal, ModalKind, Purpose,
    PurposeView,
};

verus! {

/// A tab's context-sensitive footer text.
pub trait TabHint {
    fn hint(&self) -> &'static str;
}

// ---------------------------------------------------------------------------
// Devices
// ---------------------------------------------------------------------------

/// The 3x2 grid of devices.
#[derive(Debug, Clone, Copy)]
pub struct DevicesTab {
    /// Selected cell, 0-5 in display order.
    pub selected: usize,
}

/// What a key does on the devices tab `t0` with configuration `c0`: the tab
/// becomes `t1`, the configuration `c1`, and `m` is the dialog it opens.
pub open spec fn devices_key(t0: DevicesTab, key: Key, t1: DevicesTab, c0: GpioConfig, c1: GpioConfig, m: Option<Modal>) -> bool {
    &&& c1 == c0
    &&& key is Left ==> m is None && t1.selected == (t0.selected + 5) % 6
    &&& key is Right ==> m is None && t1.selected == (t0.selected + 1) % 6
    &&& (key is Up || key is Down) ==> m is None && t1.selected == (t0.selected
            + 3) % 6
    &&& (is_char(key, 'd') || key is Delete) ==> t1.selected == t0.selected
            && is_confirm(
            m,
            PurposeView::DeleteDevice(device_list_spec()[t0.selected as int]),
            "Delete Device"@,
            "Delete all mappings for '"@ + device_list_spec()[t0.selected as int] + "'?"@,
        )
    &&& !(key is Left || key is Right || key is Up || key is Down || is_char(key, 'd')
            || key is Delete) ==> m is None && t1.selected == t0.selected
}

impl DevicesTab {
    pub fn new(_cfg: &GpioConfig) -> (t: Self)
        ensures
            t.selected == 0,
    {
        DevicesTab { selected: 0 }
    }

    /// Left/Right step through the six cells, Up/Down jump between the two
    /// rows (all wrapping); `d`/Delete asks to delete every mapping of the
    /// selected device.
    pub fn handle_key(&mut self, key: Key, cfg: &mut GpioConfig) -> (m: Option<Modal>)
        requires
            old(self).selected < 6,
        ensures
            final(self).selected < 6,
            m matches Some(md) ==> md.wf(),
            devices_key(*old(self), key, *final(self), *old(cfg), *final(cfg), m),
    {
        match key {
            Key::Left => {
                self.selected = (self.selected + 5) % 6;
                None
            },
            Key::Right => {
                self.selected = (self.selected + 1) % 6;
                None
            },
            Key::Up | Key::Down => {
                self.selected = (self.selected + 3) % 6;
                None
            },
            _ => {
                let del = match key {
                    Key::Delete => true,
                    Key::Char { c, .. } => c == 'd',
                    _ => false,
                };
                if del {
                    let names = device_list();
                    assert(names@.map_values(|s: &str| s@).len() == names@.len());
                    assert(names@.map_values(|s: &str| s@)[self.selected as int]
                        == names@[self.selected as int]@);
                    let device = names[self.selected];
                    let mut msg = string_of("Delete all mappings for '");
                    push_str(&mut msg, device);
                    push_str(&mut msg, "'?");
                    Some(
                        Modal {
                            kind: ModalKind::Confirm(ConfirmModal::new("Delete Device", msg.as_str())),
                            purpose: Purpose::DeleteDevice(string_of(device)),
                        },
                    )
                } else {
                    None
                }
            },
        }
    }
}

/// On the device grid, Left undoes Right (and the reverse), and Up or Down
/// pressed twice comes back to the same cell.
pub proof fn lemma_grid_moves(s: usize)
    requires
        s < 6,
    ensures
        ((s + 1) % 6 + 5) % 6 == s,
        ((s + 5) % 6 + 1) % 6 == s,
        ((s + 3) % 6 + 3) % 6 == s,
        (s + 3) % 6 != s,
{
}

impl TabHint for DevicesTab {
    fn hint(&self) -> (s: &'static str)
        ensures
            s@ == "\u{2190}\u{2192}\u{2191}\u{2193}: navigate  Enter: edit mappings  d: delete device  s: save  q: quit"@,
    {
        "\u{2190}\u{2192}\u{2191}\u{2193}: navigate  Enter: edit mappings  d: delete device  s: save  q: quit"
    }
}

// ---------------------------------------------------------------------------
// Mappings
// ---------------------------------------------------------------------------

/// The mapping table of one device.
#[derive(Debug, Clone)]
pub struct MappingsTab {
    pub selected_device: Option<String>,
    /// Highlighted row of the device's mappings.
    pub selected: Option<usize>,
}

/// The rows of device `d`, in table order.
pub open spec fn rows_of(cfg: GpioConfig, d: Seq<char>) -> Seq<DeviceRow> {
    cfg.devices@.filter(|x: DeviceRow| x.device@ == d)
}

/// What a key does on the mappings tab `t0` with configuration `c0`: the tab
/// becomes `t1`, the configuration `c1`, and `m` is the dialog it opens.
pub open spec fn mappings_key(t0: MappingsTab, key: Key, t1: MappingsTab, c0: GpioConfig, c1: GpioConfig, m: Option<Modal>) -> bool {
    &&& c1 == c0
    &&& t1.selected_device == t0.selected_device
    &&& t0.selected_device is None && !(key is Tab) ==> m is None && t1.selected
            == t0.selected
    &&& t0.selected_device is None && key is Tab ==> is_select(
            m,
            PurposeView::ChooseDevice,
            "Select Device"@,
            device_list_spec(),
        ) && t1.selected == t0.selected
    &&& (t0.selected_device matches Some(d) ==> {
            let i: int = match t0.selected {
                Some(i) => i as int,
                None => 0,
            };
            let n = rows_of(c0, d@).len();
            &&& (key is Up || is_char(key, 'k')) ==> m is None && t1.selected == if i
                > 0 {
                Some((i - 1) as usize)
            } else {
                t0.selected
            }
            &&& (key is Down || is_char(key, 'j')) ==> m is None && t1.selected == if i
                + 1 < n {
                Some((i + 1) as usize)
            } else {
                t0.selected
            }
            &&& (is_char(key, 'n') || is_char(key, 'N')) ==> t1.selected
                == t0.selected && add_wizard(d@, m)
            &&& (is_char(key, 'd') || key is Delete) ==> t1.selected == t0.selected && match t0.selected {
                Some(k) => if k < n {
                    is_confirm(
                        m,
                        PurposeView::DeleteMapping(d@, rows_of(c0, d@)[k as int].name@),
                        "Delete Mapping"@,
                        "Delete '"@ + rows_of(c0, d@)[k as int].name@ + "' from "@ + d@
                            + "?"@,
                    )
                } else {
                    m is None
                },
                None => m is None,
            }
            &&& !(key is Up || is_char(key, 'k') || key is Down || is_char(key, 'j') || is_char(
                key,
                'n',
            ) || is_char(key, 'N') || is_char(key, 'd') || key is Delete) ==> m is None
                && t1.selected == t0.selected
        })
}

impl MappingsTab {
    /// No device chosen, no row highlighted.
    pub fn new() -> (t: Self)
        ensures
            t.selected_device is None,
            t.selected is None,
    {
        MappingsTab { selected_device: None, selected: None }
    }

    /// Shows `device`, first row highlighted.
    pub fn load_device(&mut self, device: &str, _cfg: &GpioConfig)
        ensures
            final(self).selected_device matches Some(d) && d@ == device@,
            final(self).selected == Some(0usize),
    {
        self.selected_device = Some(string_of(device));
        self.selected = Some(0);
    }

    /// Up/`k` and Down/`j` move within the device's rows; Tab without a
    /// device opens the device picker; `n` starts the add wizard of the
    /// device; `d`/Delete asks to delete the highlighted mapping. Without a
    /// device (or, for delete, a highlighted existing row) nothing happens.
    pub fn handle_key(&mut self, key: Key, cfg: &mut GpioConfig) -> (m: Option<Modal>)
        ensures
            m matches Some(md) ==> md.wf(),
            mappings_key(*old(self), key, *final(self), *old(cfg), *final(cfg), m),
    {
        let c: char = match key {
            Key::Char { c, .. } => c,
            _ => '\0',
        };
        let device = match &self.selected_device {
            Some(d) => d.clone(),
            None => {
                return match key {
                    Key::Tab => Some(choose_device_modal()),
                    _ => None,
                };
            },
        };
        let i: usize = match self.selected {
            Some(i) => i,
            None => 0,
        };
        let up = match key {
            Key::Up => true,
            Key::Char { .. } => c == 'k',
            _ => false,
        };
        let down = match key {
            Key::Down => true,
            Key::Char { .. } => c == 'j',
            _ => false,
        };
        let add = match key {
            Key::Char { .. } => c == 'n' || c == 'N',
            _ => false,
        };
        let del = match key {
            Key::Delete => true,
            Key::Char { .. } => c == 'd',
            _ => false,
        };
        if up {
            if i > 0 {
                self.selected = Some(i - 1);
            }
            None
        } else if down {
            let rows = get_device_rows(cfg, device.as_str());
            assert(rows@.map_values(|x: &DeviceRow| *x).len() == rows@.len());
            if i < rows.len() && i + 1 < rows.len() {
                self.selected = Some(i + 1);
            }
            None
        } else if add {
            launch_add_wizard(device)
        } else if del {
            match self.selected {
                None => None,
                Some(k) => {
                    let rows = get_device_rows(cfg, device.as_str());
                    assert(rows@.map_values(|x: &DeviceRow| *x).len() == rows@.len());
                    if k < rows.len() {
                        assert(rows@.map_values(|x: &DeviceRow| *x)[k as int] == *rows@[k as int]);
                        let name = rows[k].name.clone();
                        let mut msg = string_of("Delete '");
                        push_str(&mut msg, name.as_str());
                        push_str(&mut msg, "' from ");
                        push_str(&mut msg, device.as_str());
                        push_str(&mut msg, "?");
                        Some(
                            Modal {
                                kind: ModalKind::Confirm(
                                    ConfirmModal::new("Delete Mapping", msg.as_str()),
                                ),
                                purpose: Purpose::DeleteMapping { device, name },
                            },
                        )
                    } else {
                        None
                    }
                },
            }
        } else {
            None
        }
    }
}

// ---------------------------------------------------------------------------
// I2C & settings
// ---------------------------------------------------------------------------

/// Which panel of the I2C & settings tab takes the keys.
#[derive(Debug, Clone, Copy, PartialEq, Eq, Structural)]
pub enum I2cFocus {
    Settings,
    I2cTable,
    LivePins,
}

/// The daemon settings panel, the chip table and the live pin monitor.
#[derive(Debug, Clone)]
pub struct I2cSettingsTab {
    pub focus: I2cFocus,
    pub i2c_selected: Option<usize>,
    /// Highlighted setting, 0-6.
    pub settings_field: usize,
    pub edit_buf: String,
    pub editing: bool,
    pub live_selected: Option<usize>,
}

/// Number of settings in the panel.
pub const N_FIELDS: usize = 7;

pub open spec fn bool_text(b: bool) -> Seq<char> {
    if b {
        "true"@
    } else {
        "false"@
    }
}

/// The text of setting `f` (combo delay, key hold delay, debounce, active
/// pins, pull-down, dev mode, debug logging).
pub open spec fn field_value_spec(d: crate::config::DaemonSettings, f: usize) -> Seq<char> {
    if f == 0 {
        dec_chars(d.combo_delay as nat)
    } else if f == 1 {
        dec_chars(d.key_hold_delay as nat)
    } else if f == 2 {
        dec_chars(d.debounce as nat)
    } else if f == 3 {
        d.pins@
    } else if f == 4 {
        bool_text(d.pulldown)
    } else if f == 5 {
        bool_text(d.dev)
    } else if f == 6 {
        bool_text(d.debug)
    } else {
        Seq::empty()
    }
}

/// The settings after committing `buf` to setting `f`: a number is kept
/// when the text is not one, a flag is set exactly when the text is
/// `"true"`.
pub open spec fn committed(old: crate::config::DaemonSettings, new: crate::config::DaemonSettings, f: usize, buf: Seq<char>) -> bool {
    let n = parse_u32(buf);
    &&& new.combo_delay == if f == 0 && n is Some {
        n->0
    } else {
        old.combo_delay
    }
    &&& new.key_hold_delay == if f == 1 && n is Some {
        n->0
    } else {
        old.key_hold_delay
    }
    &&& new.debounce == if f == 2 && n is Some {
        n->0
    } else {
        old.debounce
    }
    &&& (f == 3 ==> new.pins@ == buf)
    &&& (f != 3 ==> new.pins == old.pins)
    &&& new.pulldown == if f == 4 {
        buf == "true"@
    } else {
        old.pulldown
    }
    &&& new.dev == if f == 5 {
        buf == "true"@
    } else {
        old.dev
    }
    &&& new.debug == if f == 6 {
        buf == "true"@
    } else {
        old.debug
    }
}

/// The settings after Space on setting `f`: flags 4-6 flip, others stay.
pub open spec fn toggled(old: crate::config::DaemonSettings, new: crate::config::DaemonSettings, f: usize) -> bool {
    &&& new.combo_delay == old.combo_delay
    &&& new.key_hold_delay == old.key_hold_delay
    &&& new.debounce == old.debounce
    &&& new.pins == old.pins
    &&& new.pulldown == if f == 4 {
        !old.pulldown
    } else {
        old.pulldown
    }
    &&& new.dev == if f == 5 {
        !old.dev
    } else {
        old.dev
    }
    &&& new.debug == if f == 6 {
        !old.debug
    } else {
        old.debug
    }
}

fn bool_string(b: bool) -> (s: String)
    ensures
        s@ == bool_text(b),
{
    if b {
        string_of("true")
    } else {
        string_of("false")
    }
}

/// The panel that F1, F2 or F3 focuses.
pub open spec fn f_focus(k: Key) -> Option<I2cFocus> {
    match k {
        Key::F(n) => if n == 1 {
            Some(I2cFocus::Settings)
        } else if n == 2 {
            Some(I2cFocus::I2cTable)
        } else if n == 3 {
            Some(I2cFocus::LivePins)
        } else {
            None
        },
        _ => None,
    }
}

/// The character of a key typed without Control.
pub open spec fn plain_char(k: Key) -> Option<char> {
    match k {
        Key::Char { c, ctrl } => if ctrl {
            None
        } else {
            Some(c)
        },
        _ => None,
    }
}

/// A fresh add-chip dialog.
pub open spec fn is_add_chip(m: Option<Modal>) -> bool {
    &&& m matches Some(md)
    &&& md.purpose@ == PurposeView::AddChip
    &&& md.wf()
    &&& md.kind matches ModalKind::AddI2c(a)
    &&& a.step == crate::ui::modals::I2cStep::ChipType
    &&& a.chip_cursor == 0
    &&& a.chip_type is None
    &&& a.bus@ == "1"@
    &&& a.address@ == "0x20"@
    &&& a.int_pin@.len() == 0
}

/// Whether the key edits the buffer by dropping its last character.
pub open spec fn is_erase(k: Key) -> bool {
    k is Backspace || is_char(k, '\x7f') || is_char(k, '\x08') || (k matches Key::Char {
        c,
        ctrl,
    } && c == 'h' && ctrl)
}

/// What a key does to the settings panel `t0` with configuration `c0`: while
/// editing, Enter/Esc commit the buffer and erase keys and plain characters
/// edit it; otherwise Up/Down move, Enter/`e` start editing and Space flips
/// a flag. The panel becomes `t1` and the configuration `c1`.
pub open spec fn settings_key(t0: I2cSettingsTab, key: Key, t1: I2cSettingsTab, c0: GpioConfig, c1: GpioConfig) -> bool {
    if t0.editing {
        if key is Enter || key is Esc {
            &&& t1 == (I2cSettingsTab { editing: false, ..t0 })
            &&& committed(c0.daemon, c1.daemon, t0.settings_field, t0.edit_buf@)
            &&& c1 == (GpioConfig { daemon: c1.daemon, ..c0 })
        } else {
            &&& c1 == c0
            &&& t1 == (I2cSettingsTab { edit_buf: t1.edit_buf, ..t0 })
            &&& t1.edit_buf@ == if is_erase(key) {
                if t0.edit_buf@.len() > 0 {
                    t0.edit_buf@.drop_last()
                } else {
                    t0.edit_buf@
                }
            } else if plain_char(key) is Some {
                t0.edit_buf@.push(plain_char(key)->0)
            } else {
                t0.edit_buf@
            }
        }
    } else if key is Up {
        c1 == c0 && t1 == (I2cSettingsTab {
            settings_field: if t0.settings_field > 0 {
                (t0.settings_field - 1) as usize
            } else {
                0usize
            },
            ..t0
        })
    } else if key is Down {
        c1 == c0 && t1 == (I2cSettingsTab {
            settings_field: if t0.settings_field + 1 < N_FIELDS {
                (t0.settings_field + 1) as usize
            } else {
                t0.settings_field
            },
            ..t0
        })
    } else if key is Enter || is_char(key, 'e') {
        &&& c1 == c0
        &&& t1 == (I2cSettingsTab { edit_buf: t1.edit_buf, editing: true, ..t0 })
        &&& t1.edit_buf@ == field_value_spec(c0.daemon, t0.settings_field)
    } else if is_char(key, ' ') {
        &&& t1 == t0
        &&& toggled(c0.daemon, c1.daemon, t0.settings_field)
        &&& c1 == (GpioConfig { daemon: c1.daemon, ..c0 })
    } else {
        c1 == c0 && t1 == t0
    }
}

/// What a key does to the chip table `t0` with configuration `c0`: Up/Down
/// move the highlight, `a` opens the add-chip dialog, `d`/Delete asks to
/// remove the highlighted chip; the table becomes `t1` and `m` is the dialog.
pub open spec fn chip_table_key(t0: I2cSettingsTab, key: Key, t1: I2cSettingsTab, c0: GpioConfig, m: Option<Modal>) -> bool {
    let i: int = match t0.i2c_selected {
        Some(i) => i as int,
        None => 0,
    };
    &&& t1 == (I2cSettingsTab { i2c_selected: t1.i2c_selected, ..t0 })
    &&& if key is Up {
        m is None && t1.i2c_selected == if i > 0 {
            Some((i - 1) as usize)
        } else {
            t0.i2c_selected
        }
    } else if key is Down {
        m is None && t1.i2c_selected == if i + 1 < i2c_rows_spec(c0) {
            Some((i + 1) as usize)
        } else {
            t0.i2c_selected
        }
    } else {
        &&& t1.i2c_selected == t0.i2c_selected
        &&& if is_char(key, 'a') || is_char(key, 'A') {
            is_add_chip(m)
        } else if is_char(key, 'd') || key is Delete {
            match t0.i2c_selected {
                Some(k) => is_confirm(
                    m,
                    PurposeView::RemoveI2c(k),
                    "Remove I2C Device"@,
                    "Remove '"@ + i2c_row_label_spec(c0, k as int) + "'?"@,
                ),
                None => m is None,
            }
        } else {
            m is None
        }
    }
}

/// What a key does to the live pin list `t0` of a board of class `class`
/// with configuration `c0`: Up/Down scroll; the list becomes `t1`.
pub open spec fn live_list_key(t0: I2cSettingsTab, key: Key, t1: I2cSettingsTab, c0: GpioConfig, class: u32) -> bool {
    let i: int = match t0.live_selected {
        Some(i) => i as int,
        None => 0,
    };
    &&& t1 == (I2cSettingsTab { live_selected: t1.live_selected, ..t0 })
    &&& t1.live_selected == if key is Up {
        Some((if i > 0 {
            i - 1
        } else {
            0
        }) as usize)
    } else if key is Down && i + 1 < total_rows_spec(c0, class) {
        Some((i + 1) as usize)
    } else {
        t0.live_selected
    }
}

/// What a key does on the I2C & settings tab `t0` with configuration `c0` on a
/// board of class `class`: F1-F3 focus a panel, other keys go to the focused
/// one. The tab becomes `t1`, the configuration `c1`, and `m` is the dialog it
/// opens.
pub open spec fn i2c_tab_key(t0: I2cSettingsTab, key: Key, t1: I2cSettingsTab, c0: GpioConfig, c1: GpioConfig, m: Option<Modal>, class: u32) -> bool {
    match f_focus(key) {
        Some(f) => m is None && c1 == c0 && t1 == (I2cSettingsTab { focus: f, ..t0 }),
        None => match t0.focus {
            I2cFocus::Settings => m is None && settings_key(t0, key, t1, c0, c1),
            I2cFocus::I2cTable => c1 == c0 && chip_table_key(t0, key, t1, c0, m),
            I2cFocus::LivePins => m is None && c1 == c0 && live_list_key(t0, key, t1, c0, class),
        },
    }
}

impl I2cSettingsTab {
    /// Settings panel focused, first setting and first chip highlighted.
    pub fn new(_cfg: &GpioConfig) -> (t: Self)
        ensures
            t.focus == I2cFocus::Settings,
            t.i2c_selected == Some(0usize),
            t.settings_field == 0,
            t.edit_buf@.len() == 0,
            !t.editing,
            t.live_selected is None,
    {
        I2cSettingsTab {
            focus: I2cFocus::Settings,
            i2c_selected: Some(0),
            settings_field: 0,
            edit_buf: String::new(),
            editing: false,
            live_selected: None,
        }
    }

    /// Nothing in this tab changes with time.
    pub fn tick(&mut self)
        ensures
            *final(self) == *old(self),
    {
    }

    /// The text of the highlighted setting.
    pub fn current_field_value(&self, cfg: &GpioConfig) -> (s: String)
        ensures
            s@ == field_value_spec(cfg.daemon, self.settings_field),
    {
        let d = &cfg.daemon;
        let mut s = String::new();
        if self.settings_field == 0 {
            push_decimal(&mut s, d.combo_delay as u64);
        } else if self.settings_field == 1 {
            push_decimal(&mut s, d.key_hold_delay as u64);
        } else if self.settings_field == 2 {
            push_decimal(&mut s, d.debounce as u64);
        } else if self.settings_field == 3 {
            s = d.pins.clone();
        } else if self.settings_field == 4 {
            s = bool_string(d.pulldown);
        } else if self.settings_field == 5 {
            s = bool_string(d.dev);
        } else if self.settings_field == 6 {
            s = bool_string(d.debug);
        }
        assert(s@ =~= field_value_spec(cfg.daemon, self.settings_field));
        s
    }

    /// Writes the edit buffer into the highlighted setting.
    pub fn commit_edit(&self, cfg: &mut GpioConfig)
        ensures
            committed(old(cfg).daemon, final(cfg).daemon, self.settings_field, self.edit_buf@),
            final(cfg).version == old(cfg).version,
            final(cfg).devices == old(cfg).devices,
            final(cfg).i2c == old(cfg).i2c,
    {
        let f = self.settings_field;
        let n = crate::text::parse_u32_str(self.edit_buf.as_str());
        if f == 0 {
            if let Some(v) = n {
                cfg.daemon.combo_delay = v;
            }
        } else if f == 1 {
            if let Some(v) = n {
                cfg.daemon.key_hold_delay = v;
            }
        } else if f == 2 {
            if let Some(v) = n {
                cfg.daemon.debounce = v;
            }
        } else if f == 3 {
            cfg.daemon.pins = self.edit_buf.clone();
        } else if f == 4 {
            cfg.daemon.pulldown = str_eq(self.edit_buf.as_str(), "true");
        } else if f == 5 {
            cfg.daemon.dev = str_eq(self.edit_buf.as_str(), "true");
        } else if f == 6 {
            cfg.daemon.debug = str_eq(self.edit_buf.as_str(), "true");
        }
    }

    /// Space on a flag setting flips it.
    pub fn toggle_bool_field(&mut self, cfg: &mut GpioConfig)
        ensures
            *final(self) == *old(self),
            toggled(old(cfg).daemon, final(cfg).daemon, old(self).settings_field),
            final(cfg).version == old(cfg).version,
            final(cfg).devices == old(cfg).devices,
            final(cfg).i2c == old(cfg).i2c,
    {
        let f = self.settings_field;
        if f == 4 {
            cfg.daemon.pulldown = !cfg.daemon.pulldown;
        } else if f == 5 {
            cfg.daemon.dev = !cfg.daemon.dev;
        } else if f == 6 {
            cfg.daemon.debug = !cfg.daemon.debug;
        }
    }

    /// F1/F2/F3 focus a panel; other keys go to the focused panel.
    /// Settings, while editing: Enter/Esc commit and stop editing, erase
    /// keys drop a character, other plain characters are typed. Settings,
    /// otherwise: Up/Down move, Enter/`e` start editing the highlighted
    /// value, Space flips a flag. Chip table: Up/Down move, `a` adds a chip,
    /// `d`/Delete asks to remove the highlighted one. Live pins: Up/Down
    /// scroll. `class` is the board class the live monitor shows.
    pub fn handle_key(&mut self, key: Key, cfg: &mut GpioConfig, class: u32) -> (m: Option<Modal>)
        requires
            old(self).settings_field < N_FIELDS,
            i2c_rows_spec(*old(cfg)) <= usize::MAX,
            total_rows_spec(*old(cfg), class) <= usize::MAX,
            old(self).focus == I2cFocus::I2cTable && (is_char(key, 'd') || key is Delete) ==> (
            old(self).i2c_selected matches Some(i) ==> i < i2c_rows_spec(*old(cfg))),
        ensures
            final(self).settings_field < N_FIELDS,
            m matches Some(md) ==> md.wf(),
            i2c_tab_key(*old(self), key, *final(self), *old(cfg), *final(cfg), m, class),
    {
        match key {
            Key::F(n) => {
                if n == 1 {
                    self.focus = I2cFocus::Settings;
                    return None;
                } else if n == 2 {
                    self.focus = I2cFocus::I2cTable;
                    return None;
                } else if n == 3 {
                    self.focus = I2cFocus::LivePins;
                    return None;
                }
            },
            _ => {},
        }
        match self.focus {
            I2cFocus::Settings => {
                self.handle_settings_key(key, cfg);
                None
            },
            I2cFocus::I2cTable => self.handle_i2c_key(key, cfg),
            I2cFocus::LivePins => {
                self.handle_live_pin_key(key, cfg, class);
                None
            },
        }
    }

    fn handle_settings_key(&mut self, key: Key, cfg: &mut GpioConfig)
        requires
            old(self).settings_field < N_FIELDS,
        ensures
            final(self).settings_field < N_FIELDS,
            settings_key(*old(self), key, *final(self), *old(cfg), *final(cfg)),
    {
        if self.editing {
            match key {
                Key::Enter | Key::Esc => {
                    self.commit_edit(cfg);
                    self.editing = false;
                },
                Key::Backspace => {
                    let _ = pop_char(&mut self.edit_buf);
                },
                Key::Char { c, ctrl } => {
                    if c == '\x7f' || c == '\x08' || (c == 'h' && ctrl) {
                        let _ = pop_char(&mut self.edit_buf);
                    } else if !ctrl {
                        push_char(&mut self.edit_buf, c);
                    }
                },
                _ => {},
            }
        } else {
            match key {
                Key::Up => {
                    if self.settings_field > 0 {
                        self.settings_field = self.settings_field - 1;
                    }
                },
                Key::Down => {
                    if self.settings_field + 1 < N_FIELDS {
                        self.settings_field = self.settings_field + 1;
                    }
                },
                Key::Enter => {
                    self.edit_buf = self.current_field_value(cfg);
                    self.editing = true;
                },
                Key::Char { c, .. } => {
                    if c == 'e' {
                        self.edit_buf = self.current_field_value(cfg);
                        self.editing = true;
                    } else if c == ' ' {
                        self.toggle_bool_field(cfg);
                    }
                },
                _ => {},
            }
        }
    }

    fn handle_i2c_key(&mut self, key: Key, cfg: &mut GpioConfig) -> (m: Option<Modal>)
        requires
            i2c_rows_spec(*old(cfg)) <= usize::MAX,
            (is_char(key, 'd') || key is Delete) ==> (old(self).i2c_selected matches Some(i) ==> i
                < i2c_rows_spec(*old(cfg))),
        ensures
            *final(cfg) == *old(cfg),
            m matches Some(md) ==> md.wf(),
            chip_table_key(*old(self), key, *final(self), *old(cfg), m),
    {
        let count = i2c_rows_count(cfg);
        let i: usize = match self.i2c_selected {
            Some(i) => i,
            None => 0,
        };
        match key {
            Key::Up => {
                if i > 0 {
                    self.i2c_selected = Some(i - 1);
                }
                None
            },
            Key::Down => {
                if i < count && i + 1 < count {
                    self.i2c_selected = Some(i + 1);
                }
                None
            },
            _ => {
                let (add, del) = match key {
                    Key::Delete => (false, true),
                    Key::Char { c, .. } => (c == 'a' || c == 'A', c == 'd'),
                    _ => (false, false),
                };
                if add {
                    let a = AddI2cModal::new();
                    Some(Modal { kind: ModalKind::AddI2c(a), purpose: Purpose::AddChip })
                } else if del {
                    match self.i2c_selected {
                        Some(k) => {
                            let label = i2c_row_label(cfg, k);
                            let mut msg = string_of("Remove '");
                            push_str(&mut msg, label.as_str());
                            push_str(&mut msg, "'?");
                            Some(
                                Modal {
                                    kind: ModalKind::Confirm(
                                        ConfirmModal::new("Remove I2C Device", msg.as_str()),
                                    ),
                                    purpose: Purpose::RemoveI2c(k),
                                },
                            )
                        },
                        None => None,
                    }
                } else {
                    None
                }
            },
        }
    }

    fn handle_live_pin_key(&mut self, key: Key, cfg: &GpioConfig, class: u32)
        requires
            total_rows_spec(*cfg, class) <= usize::MAX,
        ensures
            live_list_key(*old(self), key, *final(self), *cfg, class),
    {
        let total = total_rows(cfg, class);
        let i: usize = match self.live_selected {
            Some(i) => i,
            None => 0,
        };
        match key {
            Key::Up => {
                self.live_selected = Some(if i > 0 {
                    i - 1
                } else {
                    0
                });
            },
            Key::Down => {
                if i < total && i + 1 < total {
                    self.live_selected = Some(i + 1);
                }
            },
            _ => {},
        }
    }
}

impl TabHint for I2cSettingsTab {
    fn hint(&self) -> (s: &'static str)
        ensures
            self.focus == I2cFocus::Settings ==> s@ == "Settings [F1] | \u{2191}\u{2193}: move  Enter/e: edit  Space: toggle  F2: I2C Chips  F3: Live Pins"@,
            self.focus == I2cFocus::I2cTable ==> s@ == "I2C Chips [F2] | \u{2191}\u{2193}: move  a: add  d: delete  F1: Settings  F3: Live Pins"@,
            self.focus == I2cFocus::LivePins ==> s@ == "Live Pins [F3] | \u{2191}\u{2193}: scroll  F1: Settings  F2: I2C Chips"@,
    {
        match self.focus {
            I2cFocus::Settings => "Settings [F1] | \u{2191}\u{2193}: move  Enter/e: edit  Space: toggle  F2: I2C Chips  F3: Live Pins",
            I2cFocus::I2cTable => "I2C Chips [F2] | \u{2191}\u{2193}: move  a: add  d: delete  F1: Settings  F3: Live Pins",
            I2cFocus::LivePins => "Live Pins [F3] | \u{2191}\u{2193}: scroll  F1: Settings  F2: I2C Chips",
        }
    }
}

// ---------------------------------------------------------------------------
// Presets & config
// ---------------------------------------------------------------------------

/// Which panel of the presets & config tab takes the keys.
#[derive(Debug, Clone, Copy, PartialEq, Eq, Structural)]
pub enum PresetsFocus {
    Presets,
    DaemonControl,
    ExportImport,
}

/// Built-in layouts, daemon control buttons, export/import buttons.
#[derive(Debug, Clone, Copy)]
pub struct PresetsConfigTab {
    pub focus: PresetsFocus,
    pub preset_selected: Option<usize>,
    /// 0 Start, 1 Stop, 2 Reload.
    pub daemon_cursor: usize,
    /// 0 Export, 1 Import.
    pub export_import_cursor: usize,
}

/// The daemon command of a daemon-control button.
pub open spec fn daemon_cmd_at(i: usize) -> DaemonCmd {
    if i == 0 {
        DaemonCmd::Start
    } else if i == 1 {
        DaemonCmd::Stop
    } else {
        DaemonCmd::Reload
    }
}

/// How the command is named in the confirmation question.
pub open spec fn daemon_cmd_name(c: DaemonCmd) -> Seq<char> {
    match c {
        DaemonCmd::Start => "Start"@,
        DaemonCmd::Stop => "Stop"@,
        DaemonCmd::Reload => "Reload"@,
    }
}

/// A fresh text prompt with this title, prompt, initial value and purpose.
pub open spec fn is_text_prompt(m: Option<Modal>, p: PurposeView, title: Seq<char>, prompt: Seq<char>, initial: Seq<char>) -> bool {
    &&& m matches Some(md)
    &&& md.purpose@ == p
    &&& md.wf()
    &&& md.kind matches ModalKind::TextInput(t)
    &&& t.title@ == title
    &&& t.prompt@ == prompt
    &&& t.value@ == initial
}

/// The panel that F1, F2 or F3 focuses.
pub open spec fn p_focus(k: Key) -> Option<PresetsFocus> {
    match k {
        Key::F(n) => if n == 1 {
            Some(PresetsFocus::Presets)
        } else if n == 2 {
            Some(PresetsFocus::DaemonControl)
        } else if n == 3 {
            Some(PresetsFocus::ExportImport)
        } else {
            None
        },
        _ => None,
    }
}

pub open spec fn is_left(k: Key) -> bool {
    k is Left || is_char(k, 'h')
}

pub open spec fn is_right(k: Key) -> bool {
    k is Right || is_char(k, 'l')
}

/// What a key does on the presets & config tab `t0` with configuration `c0`:
/// the tab becomes `t1`, the configuration `c1`, and `m` is the dialog it opens.
pub open spec fn presets_key(t0: PresetsConfigTab, key: Key, t1: PresetsConfigTab, c0: GpioConfig, c1: GpioConfig, m: Option<Modal>) -> bool {
    &&& c1 == c0
    &&& match p_focus(key) {
        Some(f) => m is None && t1 == (PresetsConfigTab { focus: f, ..t0 }),
        None => match t0.focus {
            PresetsFocus::Presets => {
                let i: int = match t0.preset_selected {
                    Some(i) => i as int,
                    None => 0,
                };
                &&& t1 == (PresetsConfigTab { preset_selected: t1.preset_selected, ..t0 })
                &&& if key is Up || is_char(key, 'k') {
                    m is None && t1.preset_selected == if i > 0 {
                        Some((i - 1) as usize)
                    } else {
                        t0.preset_selected
                    }
                } else if key is Down || is_char(key, 'j') {
                    m is None && t1.preset_selected == if i + 1 < 3 {
                        Some((i + 1) as usize)
                    } else {
                        t0.preset_selected
                    }
                } else {
                    &&& t1.preset_selected == t0.preset_selected
                    &&& if key is Enter {
                        match t0.preset_selected {
                            Some(k) => is_confirm(
                                m,
                                PurposeView::LoadPreset(k),
                                "Load Preset"@,
                                "Load '"@ + preset_names()[k as int]
                                    + "'? This will overwrite existing Joypad 1 mappings."@,
                            ),
                            None => m is None,
                        }
                    } else {
                        m is None
                    }
                }
            },
            PresetsFocus::DaemonControl => {
                &&& t1 == (PresetsConfigTab { daemon_cursor: t1.daemon_cursor, ..t0 })
                &&& if is_left(key) {
                    m is None && t1.daemon_cursor == if t0.daemon_cursor > 0 {
                        (t0.daemon_cursor - 1) as usize
                    } else {
                        0usize
                    }
                } else if is_right(key) {
                    m is None && t1.daemon_cursor == if t0.daemon_cursor < 2 {
                        (t0.daemon_cursor + 1) as usize
                    } else {
                        2usize
                    }
                } else {
                    &&& t1.daemon_cursor == t0.daemon_cursor
                    &&& if key is Enter {
                        is_confirm(
                            m,
                            PurposeView::DaemonControl(daemon_cmd_at(t0.daemon_cursor)),
                            "Daemon Control"@,
                            daemon_cmd_name(daemon_cmd_at(t0.daemon_cursor)) + " gpionext daemon?"@,
                        )
                    } else {
                        m is None
                    }
                }
            },
            PresetsFocus::ExportImport => {
                &&& t1 == (PresetsConfigTab { export_import_cursor: t1.export_import_cursor, ..t0 })
                &&& if is_left(key) {
                    m is None && t1.export_import_cursor == 0
                } else if is_right(key) {
                    m is None && t1.export_import_cursor == 1
                } else {
                    &&& t1.export_import_cursor == t0.export_import_cursor
                    &&& if key is Enter && t0.export_import_cursor == 0 {
                        is_text_prompt(
                            m,
                            PurposeView::ExportConfig,
                            "Export Config"@,
                            "Output file path:"@,
                            "./gpionext_backup.json"@,
                        )
                    } else if key is Enter {
                        is_text_prompt(
                            m,
                            PurposeView::ImportConfig,
                            "Import Config"@,
                            "JSON file path:"@,
                            "./gpionext_backup.json"@,
                        )
                    } else {
                        m is None
                    }
                }
            },
        },
    }
}

impl PresetsConfigTab {
    /// Layout list focused, first layout highlighted, Start and Export.
    pub fn new() -> (t: Self)
        ensures
            t.focus == PresetsFocus::Presets,
            t.preset_selected == Some(0usize),
            t.daemon_cursor == 0,
            t.export_import_cursor == 0,
    {
        PresetsConfigTab {
            focus: PresetsFocus::Presets,
            preset_selected: Some(0),
            daemon_cursor: 0,
            export_import_cursor: 0,
        }
    }

    pub open spec fn wf(&self) -> bool {
        &&& self.preset_selected matches Some(i) ==> i < 3
        &&& self.daemon_cursor <= 2
        &&& self.export_import_cursor <= 1
    }

    /// F1/F2/F3 focus a panel; other keys go to the focused panel. Layouts:
    /// Up/`k` and Down/`j` move, Enter asks to load the highlighted one.
    /// Daemon control: Left/`h` and Right/`l` move, Enter asks to run the
    /// command. Export/import: Left/`h` and Right/`l` move, Enter opens the
    /// path prompt.
    pub fn handle_key(&mut self, key: Key, cfg: &mut GpioConfig) -> (m: Option<Modal>)
        requires
            old(self).wf(),
        ensures
            final(self).wf(),
            m matches Some(md) ==> md.wf(),
            presets_key(*old(self), key, *final(self), *old(cfg), *final(cfg), m),
    {
        match key {
            Key::F(n) => {
                if n == 1 {
                    self.focus = PresetsFocus::Presets;
                    return None;
                } else if n == 2 {
                    self.focus = PresetsFocus::DaemonControl;
                    return None;
                } else if n == 3 {
                    self.focus = PresetsFocus::ExportImport;
                    return None;
                }
            },
            _ => {},
        }
        let c: char = match key {
            Key::Char { c, .. } => c,
            _ => '\0',
        };
        let is_ch = match key {
            Key::Char { .. } => true,
            _ => false,
        };
        match self.focus {
            PresetsFocus::Presets => {
                let i: usize = match self.preset_selected {
                    Some(i) => i,
                    None => 0,
                };
                if key == Key::Up || (is_ch && c == 'k') {
                    if i > 0 {
                        self.preset_selected = Some(i - 1);
                    }
                    None
                } else if key == Key::Down || (is_ch && c == 'j') {
                    if i < 3 && i + 1 < 3 {
                        self.preset_selected = Some(i + 1);
                    }
                    None
                } else if key == Key::Enter {
                    match self.preset_selected {
                        Some(k) => {
                            let ps = presets();
                            let display = ps[k].display_name;
                            let mut msg = string_of("Load '");
                            push_str(&mut msg, display);
                            push_str(&mut msg, "'? This will overwrite existing Joypad 1 mappings.");
                            Some(
                                Modal {
                                    kind: ModalKind::Confirm(
                                        ConfirmModal::new("Load Preset", msg.as_str()),
                                    ),
                                    purpose: Purpose::LoadPreset(k),
                                },
                            )
                        },
                        None => None,
                    }
                } else {
                    None
                }
            },
            PresetsFocus::DaemonControl => {
                if key == Key::Left || (is_ch && c == 'h') {
                    if self.daemon_cursor > 0 {
                        self.daemon_cursor = self.daemon_cursor - 1;
                    }
                    None
                } else if key == Key::Right || (is_ch && c == 'l') {
                    if self.daemon_cursor < 2 {
                        self.daemon_cursor = self.daemon_cursor + 1;
                    }
                    None
                } else if key == Key::Enter {
                    let (cmd, name) = if self.daemon_cursor == 0 {
                        (DaemonCmd::Start, "Start")
                    } else if self.daemon_cursor == 1 {
                        (DaemonCmd::Stop, "Stop")
                    } else {
                        (DaemonCmd::Reload, "Reload")
                    };
                    let mut msg = string_of(name);
                    push_str(&mut msg, " gpionext daemon?");
                    Some(
                        Modal {
                            kind: ModalKind::Confirm(ConfirmModal::new("Daemon Control", msg.as_str())),
                            purpose: Purpose::DaemonControl(cmd),
                        },
                    )
                } else {
                    None
                }
            },
            PresetsFocus::ExportImport => {
                if key == Key::Left || (is_ch && c == 'h') {
                    if self.export_import_cursor > 0 {
                        self.export_import_cursor = self.export_import_cursor - 1;
                    }
                    None
                } else if key == Key::Right || (is_ch && c == 'l') {
                    if self.export_import_cursor < 1 {
                        self.export_import_cursor = self.export_import_cursor + 1;
                    }
                    None
                } else if key == Key::Enter {
                    if self.export_import_cursor == 0 {
                        Some(
                            Modal {
                                kind: ModalKind::TextInput(
                                    TextInputModal::new(
                                        "Export Config",
                                        "Output file path:",
                                        "./gpionext_backup.json",
                                    ),
                                ),
                                purpose: Purpose::ExportConfig,
                            },
                        )
                    } else {
                        Some(
                            Modal {
                                kind: ModalKind::TextInput(
                                    TextInputModal::new(
                                        "Import Config",
                                        "JSON file path:",
                                        "./gpionext_backup.json",
                                    ),
                                ),
                                purpose: Purpose::ImportConfig,
                            },
                        )
                    }
                } else {
                    None
                }
            },
        }
    }
}

impl TabHint for PresetsConfigTab {
    fn hint(&self) -> (s: &'static str)
        ensures
            self.focus == PresetsFocus::Presets ==> s@ == "HAT Presets [F1] | \u{2191}\u{2193}: select  Enter: load  F2: Daemon Ctrl  F3: Export/Import"@,
            self.focus == PresetsFocus::DaemonControl ==> s@ == "Daemon Control [F2] | \u{2190}\u{2192}/hl: select  Enter: run  F1: Presets  F3: Export/Import"@,
            self.focus == PresetsFocus::ExportImport ==> s@ == "Export/Import [F3] | \u{2190}\u{2192}/hl: select  Enter: open dialog  F1: Presets  F2: Daemon Ctrl"@,
    {
        match self.focus {
            PresetsFocus::Presets => "HAT Presets [F1] | \u{2191}\u{2193}: select  Enter: load  F2: Daemon Ctrl  F3: Export/Import",
            PresetsFocus::DaemonControl => "Daemon Control [F2] | \u{2190}\u{2192}/hl: select  Enter: run  F1: Presets  F3: Export/Import",
            PresetsFocus::ExportImport => "Export/Import [F3] | \u{2190}\u{2192}/hl: select  Enter: open dialog  F1: Presets  F2: Daemon Ctrl",
        }
    }
}

} // verus!
