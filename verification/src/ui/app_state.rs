//! The configuration tool as a whole: which tab is shown, the open dialog,
//! the status line, and the requests (save, daemon control, export,
//! import) that the front end carries out and reports back.

use vstd::prelude::*;
use crate::config::GpioConfig;
use crate::constants::{device_list, device_list_spec};
use crate::init_sys::DaemonCmd;
use crate::text::{push_str, string_of};
use crate::ui::i2c_table::i2c_rows_spec;
use crate::ui::keys::{is_char, next_tab, prev_tab, Key, ModalAction, TabIndex};
use crate::ui::live_pins::total_rows_spec;
use crate::ui::tabs::{
    devices_key, i2c_tab_key, mappings_key, presets_key, DevicesTab, I2cFocus, I2cSettingsTab,
    MappingsTab, PresetsConfigTab, N_FIELDS,
};
use crate::ui::modals::HOLD_MS;
use crate::ui::wizard::{capture_cfg, modal_key, Modal, ModalKind};

verus! {

/// Work the front end does for the application.
#[derive(Debug, Clone)]
pub enum Request {
    /// Write the configuration file, then report with `save_done`.
    Save,
    /// Run the lifecycle command, then report with `daemon_done`.
    Daemon(DaemonCmd),
    /// Write the configuration as pretty JSON to the path, then report with
    /// `export_done`.
    Export(String),
    /// Read a configuration from the path, then report with `import_done`.
    Import(String),
}

/// Why an export failed.
#[derive(Debug, Clone)]
pub enum ExportError {
    Serialise(String),
    Write(String),
}

/// Why an import failed.
#[derive(Debug, Clone)]
pub enum ImportError {
    Read(String),
    Parse(String),
}

/// The state of the configuration tool.
#[derive(Debug, Clone)]
pub struct App {
    pub should_quit: bool,
    pub tab: TabIndex,
    pub modal: Option<Modal>,
    pub devices_tab: DevicesTab,
    pub mappings_tab: MappingsTab,
    pub i2c_settings_tab: I2cSettingsTab,
    pub presets_config_tab: PresetsConfigTab,
    /// Transient status line message; cleared on the next key press.
    pub status_msg: Option<String>,
    /// Board class of the machine, for the live pin monitor.
    pub board_class: u32,
}

/// What a key that no dialog and no global binding takes does: it goes to the
/// shown tab, whose outcome gives the tab's new state, the configuration and
/// the dialog that opens; everything else stays but the cleared status line.
pub open spec fn tab_key_outcome(a0: App, key: Key, a1: App, c0: GpioConfig, c1: GpioConfig) -> bool {
    match a0.tab {
        TabIndex::Devices => devices_key(a0.devices_tab, key, a1.devices_tab, c0, c1, a1.modal)
            && a1 == (App { devices_tab: a1.devices_tab, modal: a1.modal, status_msg: None, ..a0 }),
        TabIndex::Mappings => mappings_key(a0.mappings_tab, key, a1.mappings_tab, c0, c1, a1.modal)
            && a1 == (App { mappings_tab: a1.mappings_tab, modal: a1.modal, status_msg: None, ..a0 }),
        TabIndex::I2cSettings => i2c_tab_key(
            a0.i2c_settings_tab,
            key,
            a1.i2c_settings_tab,
            c0,
            c1,
            a1.modal,
            a0.board_class,
        ) && a1 == (App {
            i2c_settings_tab: a1.i2c_settings_tab,
            modal: a1.modal,
            status_msg: None,
            ..a0
        }),
        TabIndex::PresetsConfig => presets_key(
            a0.presets_config_tab,
            key,
            a1.presets_config_tab,
            c0,
            c1,
            a1.modal,
        ) && a1 == (App {
            presets_config_tab: a1.presets_config_tab,
            modal: a1.modal,
            status_msg: None,
            ..a0
        }),
    }
}

/// What applying a closed dialog's `action` does to the application `a0`: it
/// becomes `a1`, and `r` is the request for the front end.
pub open spec fn action_applied(a0: App, action: ModalAction, a1: App, r: Option<Request>) -> bool {
    match action {
        ModalAction::Save => r matches Some(Request::Save) && a1 == a0,
        ModalAction::DaemonAction(c) => r == Some(Request::Daemon(c)) && a1 == a0,
        ModalAction::ExportConfig(p) => (r matches Some(Request::Export(q)) && q@ == p@) && a1 == a0,
        ModalAction::ImportConfig(p) => (r matches Some(Request::Import(q)) && q@ == p@) && a1 == a0,
        ModalAction::SetMappingsFilter(_) => r is None && a1 == a0,
        ModalAction::StatusMsg(m) => r is None && (a1.status_msg matches Some(s) && s@ == m@) && a1
            == (App { status_msg: a1.status_msg, ..a0 }),
        ModalAction::RefreshDevicesTab => r is None && a1.devices_tab.selected == 0 && a1 == (App {
            devices_tab: a1.devices_tab,
            ..a0
        }),
        ModalAction::RefreshMappingsTab(d) => r is None && (a1.mappings_tab.selected_device matches Some(
            s,
        ) && s@ == d@) && a1.mappings_tab.selected == Some(0usize) && a1 == (App {
            tab: TabIndex::Mappings,
            mappings_tab: a1.mappings_tab,
            ..a0
        }),
    }
}

impl App {
    pub open spec fn wf(&self) -> bool {
        &&& self.devices_tab.selected < 6
        &&& self.i2c_settings_tab.settings_field < N_FIELDS
        &&& self.presets_config_tab.wf()
        &&& self.modal matches Some(m) ==> m.wf()
    }

    /// Devices tab shown, no dialog, no status message.
    pub fn new(cfg: &GpioConfig, board_class: u32) -> (a: Self)
        ensures
            a.wf(),
            !a.should_quit,
            a.tab == TabIndex::Devices,
            a.modal is None,
            a.status_msg is None,
            a.board_class == board_class,
    {
        App {
            should_quit: false,
            tab: TabIndex::Devices,
            modal: None,
            devices_tab: DevicesTab::new(cfg),
            mappings_tab: MappingsTab::new(),
            i2c_settings_tab: I2cSettingsTab::new(cfg),
            presets_config_tab: PresetsConfigTab::new(),
            status_msg: None,
            board_class,
        }
    }

    /// The keys the tool can take in this state: the chip table's delete key
    /// needs its highlighted row to exist.
    pub open spec fn key_ok(&self, key: Key, cfg: GpioConfig) -> bool {
        &&& i2c_rows_spec(cfg) <= usize::MAX
        &&& total_rows_spec(cfg, self.board_class) <= usize::MAX
        &&& (self.modal is None && self.tab == TabIndex::I2cSettings && self.i2c_settings_tab.focus
            == I2cFocus::I2cTable && (is_char(key, 'd') || key is Delete)
            && self.i2c_settings_tab.i2c_selected is Some) ==> self.i2c_settings_tab.i2c_selected->0
            < i2c_rows_spec(cfg)
    }

    /// What a closed dialog's action does to the application; the work that
    /// needs the outside world comes back as a request.
    pub fn apply_modal_action(&mut self, action: ModalAction, cfg: &GpioConfig) -> (r: Option<Request>)
        requires
            old(self).wf(),
        ensures
            final(self).wf(),
            action_applied(*old(self), action, *final(self), r),
    {
        match action {
            ModalAction::Save => Some(Request::Save),
            ModalAction::StatusMsg(m) => {
                self.status_msg = Some(m);
                None
            },
            ModalAction::RefreshDevicesTab => {
                self.devices_tab = DevicesTab::new(cfg);
                None
            },
            ModalAction::RefreshMappingsTab(d) => {
                self.mappings_tab.load_device(d.as_str(), cfg);
                self.tab = TabIndex::Mappings;
                None
            },
            ModalAction::SetMappingsFilter(_) => None,
            ModalAction::DaemonAction(c) => Some(Request::Daemon(c)),
            ModalAction::ExportConfig(p) => Some(Request::Export(p)),
            ModalAction::ImportConfig(p) => Some(Request::Import(p)),
        }
    }

    /// A key press. The status message is cleared first. An open dialog
    /// takes every key. Otherwise Tab/Shift-Tab change tabs, `q` quits, `s`
    /// saves, Enter on the Devices tab opens the selected device in the
    /// Mappings tab, and other keys go to the shown tab. Returns whether to
    /// quit and the request to carry out.
    pub fn handle_key(&mut self, key: Key, cfg: &mut GpioConfig) -> (r: (bool, Option<Request>))
        requires
            old(self).wf(),
            old(self).key_ok(key, *old(cfg)),
        ensures
            final(self).wf(),
            final(self).board_class == old(self).board_class,
            old(self).modal is None ==> final(self).status_msg is None,
            old(self).modal is None && old(self).tab != TabIndex::I2cSettings ==> *final(cfg)
                == *old(cfg),
            old(self).modal is None && !(key is Tab || key is BackTab) && !(key is Enter && old(
                self,
            ).tab == TabIndex::Devices) ==> final(self).tab == old(self).tab,
            old(self).modal matches Some(md) ==> !r.0 && exists|
                r3: (Option<Modal>, Option<ModalAction>, bool),
            | #[trigger] modal_key(md, key, *old(cfg), *final(cfg), r3) && match r3.1 {
                None => r.1 is None && *final(self) == (App {
                    modal: r3.0,
                    status_msg: None,
                    ..*old(self)
                }),
                Some(a) => action_applied(
                    App { modal: r3.0, status_msg: None, ..*old(self) },
                    a,
                    *final(self),
                    r.1,
                ),
            },
            old(self).modal is None && key is Tab ==> r == (false, None::<Request>) && *final(cfg)
                == *old(cfg) && *final(self) == (App {
                tab: next_tab(old(self).tab),
                status_msg: None,
                ..*old(self)
            }),
            old(self).modal is None && key is BackTab ==> r == (false, None::<Request>)
                && *final(cfg) == *old(cfg) && *final(self) == (App {
                tab: prev_tab(old(self).tab),
                status_msg: None,
                ..*old(self)
            }),
            old(self).modal is None && (is_char(key, 'q') || is_char(key, 'Q')) ==> r == (
            true,
            None::<Request>,
            ) && *final(cfg) == *old(cfg) && *final(self) == (App { status_msg: None, ..*old(self) }),
            old(self).modal is None && (is_char(key, 's') || is_char(key, 'S')) ==> !r.0 && (
            r.1 matches Some(Request::Save)) && *final(cfg) == *old(cfg) && *final(self) == (App {
                status_msg: None,
                ..*old(self)
            }),
            old(self).modal is None && key is Enter && old(self).tab == TabIndex::Devices ==> !r.0
                && r.1 is None && final(self).tab == TabIndex::Mappings && (
            final(self).mappings_tab.selected_device matches Some(d) && d@ == device_list_spec()[old(
                self,
            ).devices_tab.selected as int]) && *final(cfg) == *old(cfg) && *final(self) == (App {
                tab: TabIndex::Mappings,
                mappings_tab: final(self).mappings_tab,
                status_msg: None,
                ..*old(self)
            }),
            old(self).modal is None && !(key is Tab || key is BackTab || is_char(key, 'q') || is_char(
                key,
                'Q',
            ) || is_char(key, 's') || is_char(key, 'S') || (key is Enter && old(self).tab
                == TabIndex::Devices)) ==> r == (false, None::<Request>) && tab_key_outcome(
                *old(self),
                key,
                *final(self),
                *old(cfg),
                *final(cfg),
            ),
    {
        self.status_msg = None;
        if self.modal.is_some() {
            let modal = self.modal.take().unwrap();
            let (next, action, quit) = modal.handle_key(key, cfg);
            self.modal = next;
            let req = match action {
                Some(a) => self.apply_modal_action(a, cfg),
                None => None,
            };
            return (quit, req);
        }
        let c: char = match key {
            Key::Char { c, .. } => c,
            _ => '\0',
        };
        let is_ch = match key {
            Key::Char { .. } => true,
            _ => false,
        };
        if key == Key::Tab {
            self.tab = self.tab.next();
            (false, None)
        } else if key == Key::BackTab {
            self.tab = self.tab.prev();
            (false, None)
        } else if is_ch && (c == 'q' || c == 'Q') {
            (true, None)
        } else if is_ch && (c == 's' || c == 'S') {
            (false, Some(Request::Save))
        } else if key == Key::Enter && self.tab == TabIndex::Devices {
            let names = device_list();
            assert(names@.map_values(|s: &str| s@).len() == names@.len());
            assert(names@.map_values(|s: &str| s@)[self.devices_tab.selected as int]
                == names@[self.devices_tab.selected as int]@);
            let device = names[self.devices_tab.selected];
            self.mappings_tab.load_device(device, cfg);
            self.tab = TabIndex::Mappings;
            (false, None)
        } else {
            let m = match self.tab {
                TabIndex::Devices => self.devices_tab.handle_key(key, cfg),
                TabIndex::Mappings => self.mappings_tab.handle_key(key, cfg),
                TabIndex::I2cSettings => self.i2c_settings_tab.handle_key(
                    key,
                    cfg,
                    self.board_class,
                ),
                TabIndex::PresetsConfig => self.presets_config_tab.handle_key(key, cfg),
            };
            if m.is_some() {
                self.modal = m;
            }
            (false, None)
        }
    }

    /// One poll of the live pins: an open pin capture follows them and,
    /// once the same pins have been held for the full second, closes with
    /// them: the mapping is upserted and a save is requested. Any other
    /// dialog, or no dialog, is left alone.
    pub fn tick(&mut self, connected: bool, pressed: Vec<u8>, now_ms: u64, cfg: &mut GpioConfig) -> (r: Option<Request>)
        requires
            old(self).wf(),
        ensures
            final(self).wf(),
            final(self).tab == old(self).tab,
            final(self).status_msg == old(self).status_msg,
            old(self).modal is None ==> r is None && *final(cfg) == *old(cfg) && final(self).modal
                is None,
            old(self).modal matches Some(m) && !(m.kind is PinCapture) ==> r is None && *final(cfg)
                == *old(cfg) && final(self).modal == old(self).modal,
            old(self).modal matches Some(m) ==> (m.kind matches ModalKind::PinCapture(c) ==> {
                let (held, since) = c.after_tick(connected, pressed@, now_ms);
                if held is Some && (since matches Some(s) && now_ms >= s && now_ms - s >= HOLD_MS) {
                    &&& final(self).modal is None
                    &&& capture_cfg(m.purpose@, held, *old(cfg), *final(cfg))
                    &&& if m.purpose@ is CaptureMapping {
                        r matches Some(Request::Save)
                    } else {
                        r is None
                    }
                } else {
                    &&& r is None
                    &&& *final(cfg) == *old(cfg)
                    &&& final(self).modal matches Some(n)
                    &&& n.purpose == m.purpose
                    &&& n.kind matches ModalKind::PinCapture(d)
                    &&& d.title == c.title
                    &&& d.held() == held
                    &&& d.hold_since == since
                }
            }),
    {
        let mut req: Option<Request> = None;
        if self.modal.is_some() {
            let modal = self.modal.take().unwrap();
            let (next, action) = modal.tick(connected, pressed, now_ms, cfg);
            self.modal = next;
            req = match action {
                Some(a) => self.apply_modal_action(a, cfg),
                None => None,
            };
        }
        if self.tab == TabIndex::I2cSettings {
            self.i2c_settings_tab.tick();
        }
        req
    }

    /// The save finished: `"Saved."`, or `"Save failed: ..."` with the error.
    pub fn save_done(&mut self, error: Option<String>)
        ensures
            error is None ==> (final(self).status_msg matches Some(s) && s@ == "Saved."@),
            error matches Some(e) ==> (final(self).status_msg matches Some(s) && s@ == "Save failed: "@
                + e@),
    {
        match error {
            None => {
                self.status_msg = Some(string_of("Saved."));
            },
            Some(e) => {
                let mut s = string_of("Save failed: ");
                push_str(&mut s, e.as_str());
                self.status_msg = Some(s);
            },
        }
    }

    /// The daemon command finished; a failure shows `"Daemon error: ..."`.
    pub fn daemon_done(&mut self, error: Option<String>)
        ensures
            error is None ==> final(self).status_msg == old(self).status_msg,
            error matches Some(e) ==> (final(self).status_msg matches Some(s) && s@
                == "Daemon error: "@ + e@),
    {
        match error {
            None => {},
            Some(e) => {
                let mut s = string_of("Daemon error: ");
                push_str(&mut s, e.as_str());
                self.status_msg = Some(s);
            },
        }
    }

    /// The export to `path` finished.
    pub fn export_done(&mut self, path: &str, result: Result<(), ExportError>)
        ensures
            result is Ok ==> (final(self).status_msg matches Some(s) && s@ == "Exported to "@
                + path@),
            result matches Err(ExportError::Write(e)) ==> (final(self).status_msg matches Some(s)
                && s@ == "Export failed: "@ + e@),
            result matches Err(ExportError::Serialise(e)) ==> (final(self).status_msg matches Some(
                s,
            ) && s@ == "Serialise error: "@ + e@),
    {
        let s = match result {
            Ok(()) => {
                let mut s = string_of("Exported to ");
                push_str(&mut s, path);
                s
            },
            Err(ExportError::Write(e)) => {
                let mut s = string_of("Export failed: ");
                push_str(&mut s, e.as_str());
                s
            },
            Err(ExportError::Serialise(e)) => {
                let mut s = string_of("Serialise error: ");
                push_str(&mut s, e.as_str());
                s
            },
        };
        self.status_msg = Some(s);
    }

    /// The import finished. A read configuration replaces the current one
    /// and is saved; a failure shows why.
    pub fn import_done(&mut self, result: Result<GpioConfig, ImportError>, cfg: &mut GpioConfig) -> (r: Option<Request>)
        ensures
            result matches Ok(c) ==> *final(cfg) == c && (r matches Some(Request::Save)),
            result is Err ==> *final(cfg) == *old(cfg) && r is None,
            result matches Err(ImportError::Read(e)) ==> (final(self).status_msg matches Some(s)
                && s@ == "Read error: "@ + e@),
            result matches Err(ImportError::Parse(e)) ==> (final(self).status_msg matches Some(s)
                && s@ == "Parse error: "@ + e@),
    {
        match result {
            Ok(c) => {
                *cfg = c;
                Some(Request::Save)
            },
            Err(ImportError::Read(e)) => {
                let mut s = string_of("Read error: ");
                push_str(&mut s, e.as_str());
                self.status_msg = Some(s);
                None
            },
            Err(ImportError::Parse(e)) => {
                let mut s = string_of("Parse error: ");
                push_str(&mut s, e.as_str());
                self.status_msg = Some(s);
                None
            },
        }
    }

    /// The footer hint of the shown tab.
    pub fn tab_hint(&self) -> (s: &'static str)
        ensures
            self.tab == TabIndex::Devices ==> s@ == "n: add device  d: delete  Enter: edit mappings  Tab: next tab  q: quit  s: save"@,
            self.tab == TabIndex::Mappings ==> s@ == "n: add mapping  d: delete  c: change device  Tab: next tab  q: quit  s: save"@,
            self.tab == TabIndex::I2cSettings ==> s@ == "F1: Settings  F2: I2C chips  F3: Live pins  \u{2191}\u{2193}: move  Enter/Space: edit  Tab: next tab"@,
            self.tab == TabIndex::PresetsConfig ==> s@ == "\u{2191}\u{2193}: select preset  Enter: load  e: export  i: import  Tab: focus daemon ctrl  q: quit"@,
    {
        match self.tab {
            TabIndex::Devices => "n: add device  d: delete  Enter: edit mappings  Tab: next tab  q: quit  s: save",
            TabIndex::Mappings => "n: add mapping  d: delete  c: change device  Tab: next tab  q: quit  s: save",
            TabIndex::I2cSettings => "F1: Settings  F2: I2C chips  F3: Live pins  \u{2191}\u{2193}: move  Enter/Space: edit  Tab: next tab",
            TabIndex::PresetsConfig => "\u{2191}\u{2193}: select preset  Enter: load  e: export  i: import  Tab: focus daemon ctrl  q: quit",
        }
    }
}

} // verus!
