//! What each dialog is for, and what happens when it closes: the mapping
//! wizards (device -> kind -> action -> held pins), deletions, presets,
//! daemon control, chip additions and configuration export/import.

use vstd::prelude::*;
use crate::config::{delete_device, delete_mapping, key_index, same_key, upsert_mapping, DeviceRow, GpioConfig};
use crate::constants::{
    button_list, button_list_spec, command_presets, command_presets_spec, device_list,
    device_list_spec, join_numbers, key_list, key_list_spec, push_joined,
};
use crate::init_sys::DaemonCmd;
use crate::presets::{apply_preset, fields_of, preset_keys, preset_rows_spec, presets, upsert_rows};
use crate::text::{dec_chars, push_decimal, push_str, starts_with, str_eq, string_of};
use crate::ui::i2c_table::{apply_i2c_entry, i2c_appended, i2c_removed, remove_i2c_by_index};
use crate::ui::keys::ModalAction;
use crate::ui::modals::{
    AddI2cModal, CommandInputModal, ConfirmModal, I2cEntry, MultiSelectModal, PinCaptureModal,
    SingleSelectModal, TextInputModal,
};

verus! {

/// What a dialog is for: the data its outcome needs.
#[derive(Debug, Clone)]
pub enum Purpose {
    /// Confirm: delete every mapping of this device.
    DeleteDevice(String),
    /// Confirm: delete one mapping.
    DeleteMapping { device: String, name: String },
    /// Confirm: remove row `idx` of the chip table.
    RemoveI2c(usize),
    /// Confirm: load the built-in layout with this index.
    LoadPreset(usize),
    /// Confirm: send this command to the daemon.
    DaemonControl(DaemonCmd),
    /// Select: the device to show in the Mappings tab.
    ChooseDevice,
    /// Select: axis or button, for a joypad.
    JoypadType(String),
    /// Select: the D-pad direction of a new axis mapping.
    AxisDirection(String),
    /// Select: the gamepad button of a new mapping.
    JoypadButton(String),
    /// Select: the keyboard key of a new mapping.
    KeyboardKey(String),
    /// Select: a ready-made shell command, or a custom one.
    CommandChoice(String),
    /// Capture: the pins of a new mapping with these fields; `combo` allows
    /// several pins held together, otherwise the first pin is taken.
    CaptureMapping { device: String, name: String, event_type: String, command: String, combo: bool },
    /// Command input: the shell command of a new Commands mapping.
    CustomCommand(String),
    /// Add chip: a new I2C chip.
    AddChip,
    /// Text input: the file to export the configuration to.
    ExportConfig,
    /// Text input: the file to import a configuration from.
    ImportConfig,
    /// A dialog whose outcome changes nothing.
    Unbound,
}

pub enum PurposeView {
    DeleteDevice(Seq<char>),
    DeleteMapping(Seq<char>, Seq<char>),
    RemoveI2c(usize),
    LoadPreset(usize),
    DaemonControl(DaemonCmd),
    ChooseDevice,
    JoypadType(Seq<char>),
    AxisDirection(Seq<char>),
    JoypadButton(Seq<char>),
    KeyboardKey(Seq<char>),
    CommandChoice(Seq<char>),
    CaptureMapping(Seq<char>, Seq<char>, Seq<char>, Seq<char>, bool),
    CustomCommand(Seq<char>),
    AddChip,
    ExportConfig,
    ImportConfig,
    Unbound,
}

impl View for Purpose {
    type V = PurposeView;

    open spec fn view(&self) -> PurposeView {
        match self {
            Purpose::DeleteDevice(d) => PurposeView::DeleteDevice(d@),
            Purpose::DeleteMapping { device, name } => PurposeView::DeleteMapping(device@, name@),
            Purpose::RemoveI2c(i) => PurposeView::RemoveI2c(*i),
            Purpose::LoadPreset(i) => PurposeView::LoadPreset(*i),
            Purpose::DaemonControl(c) => PurposeView::DaemonControl(*c),
            Purpose::ChooseDevice => PurposeView::ChooseDevice,
            Purpose::JoypadType(d) => PurposeView::JoypadType(d@),
            Purpose::AxisDirection(d) => PurposeView::AxisDirection(d@),
            Purpose::JoypadButton(d) => PurposeView::JoypadButton(d@),
            Purpose::KeyboardKey(d) => PurposeView::KeyboardKey(d@),
            Purpose::CommandChoice(d) => PurposeView::CommandChoice(d@),
            Purpose::CaptureMapping { device, name, event_type, command, combo } =>
                PurposeView::CaptureMapping(device@, name@, event_type@, command@, *combo),
            Purpose::CustomCommand(d) => PurposeView::CustomCommand(d@),
            Purpose::AddChip => PurposeView::AddChip,
            Purpose::ExportConfig => PurposeView::ExportConfig,
            Purpose::ImportConfig => PurposeView::ImportConfig,
            Purpose::Unbound => PurposeView::Unbound,
        }
    }
}

/// The dialog itself.
#[derive(Debug, Clone)]
pub enum ModalKind {
    Confirm(ConfirmModal),
    PinCapture(PinCaptureModal),
    SingleSelect(SingleSelectModal),
    MultiSelect(MultiSelectModal),
    CommandInput(CommandInputModal),
    AddI2c(AddI2cModal),
    TextInput(TextInputModal),
}

/// An open dialog and what it is for.
#[derive(Debug, Clone)]
pub struct Modal {
    pub kind: ModalKind,
    pub purpose: Purpose,
}

pub open spec fn strings(v: Seq<String>) -> Seq<Seq<char>> {
    v.map_values(|s: String| s@)
}

/// A fresh selection list with this title, entries and purpose.
pub open spec fn is_select(m: Option<Modal>, p: PurposeView, title: Seq<char>, items: Seq<Seq<char>>) -> bool {
    &&& m matches Some(md)
    &&& md.purpose@ == p
    &&& md.wf()
    &&& md.kind matches ModalKind::SingleSelect(s)
    &&& s.title@ == title
    &&& s.items@.len() == items.len()
    &&& strings(s.items@) == items
    &&& s.selected == if items.len() > 0 {
        Some(0usize)
    } else {
        None
    }
}

/// A fresh pin capture with this title and purpose.
pub open spec fn is_capture(m: Option<Modal>, p: PurposeView, title: Seq<char>) -> bool {
    &&& m matches Some(md)
    &&& md.purpose@ == p
    &&& md.wf()
    &&& md.kind matches ModalKind::PinCapture(c)
    &&& c.title@ == title
    &&& c.hold_pins is None
    &&& c.hold_since is None
}

/// A question with this title, message and purpose.
pub open spec fn is_confirm(m: Option<Modal>, p: PurposeView, title: Seq<char>, message: Seq<char>) -> bool {
    &&& m matches Some(md)
    &&& md.purpose@ == p
    &&& md.wf()
    &&& md.kind matches ModalKind::Confirm(c)
    &&& c.title@ == title
    &&& c.message@ == message
}

// ---------------------------------------------------------------------------
// Helpers
// ---------------------------------------------------------------------------

/// The pin field of captured pins: one pin as a number, several as
/// `"(a, b, ...)"`.
pub open spec fn pins_text(vpins: Seq<u8>) -> Seq<char> {
    if vpins.len() == 1 {
        dec_chars(vpins[0] as nat)
    } else {
        "("@ + join_numbers(vpins) + ")"@
    }
}

pub fn pins_string(vpins: &Vec<u8>) -> (r: String)
    ensures
        r@ == pins_text(vpins@),
{
    if vpins.len() == 1 {
        let mut s = String::new();
        push_decimal(&mut s, vpins[0] as u64);
        assert(s@ =~= pins_text(vpins@));
        s
    } else {
        let mut s = string_of("(");
        push_joined(&mut s, vpins);
        push_str(&mut s, ")");
        s
    }
}

fn strings_of(items: &Vec<&'static str>) -> (r: Vec<String>)
    ensures
        strings(r@) == items@.map_values(|s: &'static str| s@),
{
    let mut r: Vec<String> = Vec::new();
    let mut i: usize = 0;
    while i < items.len()
        invariant
            i <= items@.len(),
            strings(r@) == items@.take(i as int).map_values(|s: &'static str| s@),
        decreases items@.len() - i,
    {
        let ghost before = r@;
        r.push(string_of(items[i]));
        assert(strings(r@) =~= strings(before).push(items@[i as int]@));
        assert(items@.take(i + 1).map_values(|s: &'static str| s@) =~= items@.take(
            i as int,
        ).map_values(|s: &'static str| s@).push(items@[i as int]@));
        i = i + 1;
    }
    assert(items@.take(i as int) =~= items@);
    r
}

fn names_of_codes(items: &Vec<(&'static str, u16)>) -> (r: Vec<String>)
    ensures
        strings(r@) == items@.map_values(|p: (&'static str, u16)| p.0@),
{
    let mut r: Vec<String> = Vec::new();
    let mut i: usize = 0;
    while i < items.len()
        invariant
            i <= items@.len(),
            strings(r@) == items@.take(i as int).map_values(|p: (&'static str, u16)| p.0@),
        decreases items@.len() - i,
    {
        let ghost before = r@;
        r.push(string_of(items[i].0));
        assert(strings(r@) =~= strings(before).push(items@[i as int].0@));
        assert(items@.take(i + 1).map_values(|p: (&'static str, u16)| p.0@) =~= items@.take(
            i as int,
        ).map_values(|p: (&'static str, u16)| p.0@).push(items@[i as int].0@));
        i = i + 1;
    }
    assert(items@.take(i as int) =~= items@);
    r
}

pub open spec fn code_names(t: Seq<(Seq<char>, u16)>) -> Seq<Seq<char>> {
    t.map_values(|p: (Seq<char>, u16)| p.0)
}

pub open spec fn command_choice_items() -> Seq<Seq<char>> {
    command_presets_spec().map_values(|p: (Seq<char>, Seq<char>)| p.0).push("Custom command..."@)
}

// ---------------------------------------------------------------------------
// Launchers
// ---------------------------------------------------------------------------

/// The device picker of the Mappings tab.
pub fn choose_device_modal() -> (m: Modal)
    ensures
        is_select(Some(m), PurposeView::ChooseDevice, "Select Device"@, device_list_spec()),
{
    let items = strings_of(&device_list());
    Modal {
        kind: ModalKind::SingleSelect(SingleSelectModal::new("Select Device", items)),
        purpose: Purpose::ChooseDevice,
    }
}

/// First step of a joypad mapping: axis or button.
pub fn joypad_type_modal(device: String) -> (m: Modal)
    ensures
        is_select(
            Some(m),
            PurposeView::JoypadType(device@),
            "Add Joypad Mapping \u{2014} Type"@,
            seq!["Axis (D-Pad direction)"@, "Button"@],
        ),
{
    let mut items: Vec<String> = Vec::new();
    items.push(string_of("Axis (D-Pad direction)"));
    items.push(string_of("Button"));
    assert(strings(items@) =~= seq!["Axis (D-Pad direction)"@, "Button"@]);
    Modal {
        kind: ModalKind::SingleSelect(
            SingleSelectModal::new("Add Joypad Mapping \u{2014} Type", items),
        ),
        purpose: Purpose::JoypadType(device),
    }
}

/// Axis mapping: the D-pad direction.
pub fn joypad_axis_name_modal(device: String) -> (m: Modal)
    ensures
        is_select(
            Some(m),
            PurposeView::AxisDirection(device@),
            "Add Axis \u{2014} Direction"@,
            seq!["UP"@, "DOWN"@, "LEFT"@, "RIGHT"@],
        ),
{
    let mut items: Vec<String> = Vec::new();
    items.push(string_of("UP"));
    items.push(string_of("DOWN"));
    items.push(string_of("LEFT"));
    items.push(string_of("RIGHT"));
    assert(strings(items@) =~= seq!["UP"@, "DOWN"@, "LEFT"@, "RIGHT"@]);
    Modal {
        kind: ModalKind::SingleSelect(SingleSelectModal::new("Add Axis \u{2014} Direction", items)),
        purpose: Purpose::AxisDirection(device),
    }
}

/// Button mapping: which gamepad button.
pub fn joypad_button_modal(device: String) -> (m: Modal)
    ensures
        is_select(
            Some(m),
            PurposeView::JoypadButton(device@),
            "Add Button \u{2014} Select Type"@,
            code_names(button_list_spec()),
        ),
{
    let table = button_list();
    let items = names_of_codes(&table);
    assert(table@.map_values(|p: (&'static str, u16)| p.0@) =~= code_names(button_list_spec()));
    Modal {
        kind: ModalKind::SingleSelect(
            SingleSelectModal::new("Add Button \u{2014} Select Type", items),
        ),
        purpose: Purpose::JoypadButton(device),
    }
}

/// Keyboard mapping: which key.
pub fn keyboard_wizard_modal(device: String) -> (m: Modal)
    ensures
        is_select(
            Some(m),
            PurposeView::KeyboardKey(device@),
            "Add Key \u{2014} Select Key"@,
            code_names(key_list_spec()),
        ),
{
    let table = key_list();
    let items = names_of_codes(&table);
    assert(table@.map_values(|p: (&'static str, u16)| p.0@) =~= code_names(key_list_spec()));
    Modal {
        kind: ModalKind::SingleSelect(SingleSelectModal::new("Add Key \u{2014} Select Key", items)),
        purpose: Purpose::KeyboardKey(device),
    }
}

/// Commands mapping: a ready-made command or a custom one.
pub fn command_wizard_modal(device: String) -> (m: Modal)
    ensures
        is_select(
            Some(m),
            PurposeView::CommandChoice(device@),
            "Add Command \u{2014} Choose"@,
            command_choice_items(),
        ),
{
    let table = command_presets();
    let mut items: Vec<String> = Vec::new();
    let mut i: usize = 0;
    while i < table.len()
        invariant
            i <= table@.len(),
            table@.map_values(|p: (&'static str, &'static str)| (p.0@, p.1@))
                == command_presets_spec(),
            strings(items@) == command_presets_spec().take(i as int).map_values(
                |p: (Seq<char>, Seq<char>)| p.0,
            ),
        decreases table@.len() - i,
    {
        let ghost before = items@;
        assert(command_presets_spec()[i as int].0 == table@[i as int].0@);
        items.push(string_of(table[i].0));
        assert(strings(items@) =~= strings(before).push(table@[i as int].0@));
        assert(command_presets_spec().take(i + 1).map_values(|p: (Seq<char>, Seq<char>)| p.0)
            =~= command_presets_spec().take(i as int).map_values(
            |p: (Seq<char>, Seq<char>)| p.0,
        ).push(command_presets_spec()[i as int].0));
        i = i + 1;
    }
    assert(command_presets_spec().take(i as int) =~= command_presets_spec());
    let ghost before = items@;
    items.push(string_of("Custom command..."));
    assert(strings(items@) =~= strings(before).push("Custom command..."@));
    Modal {
        kind: ModalKind::SingleSelect(SingleSelectModal::new("Add Command \u{2014} Choose", items)),
        purpose: Purpose::CommandChoice(device),
    }
}

/// The first dialog of the wizard that adds a mapping to device `d`:
/// joypads start with the axis/button choice, the keyboard with the key
/// list, Commands with the command list; any other device has none.
pub open spec fn add_wizard(d: Seq<char>, m: Option<Modal>) -> bool {
    &&& starts_with(d, "Joypad"@) ==> is_select(
        m,
        PurposeView::JoypadType(d),
        "Add Joypad Mapping \u{2014} Type"@,
        seq!["Axis (D-Pad direction)"@, "Button"@],
    )
    &&& !starts_with(d, "Joypad"@) && d == "Keyboard"@ ==> is_select(
        m,
        PurposeView::KeyboardKey(d),
        "Add Key \u{2014} Select Key"@,
        code_names(key_list_spec()),
    )
    &&& !starts_with(d, "Joypad"@) && d == "Commands"@ ==> is_select(
        m,
        PurposeView::CommandChoice(d),
        "Add Command \u{2014} Choose"@,
        command_choice_items(),
    )
    &&& !starts_with(d, "Joypad"@) && d != "Keyboard"@ && d != "Commands"@ ==> m is None
}

/// Starts the wizard that adds a mapping to `device` (see `add_wizard`).
pub fn launch_add_wizard(device: String) -> (m: Option<Modal>)
    ensures
        add_wizard(device@, m),
{
    proof {
        reveal_strlit("Keyboard");
        reveal_strlit("Commands");
        assert("Keyboard"@[0] != "Commands"@[0]);
    }
    let v = crate::text::chars_of(device.as_str());
    assert(v@.subrange(0, v@.len() as int) =~= v@);
    if crate::text::range_starts_with(&v, 0, v.len(), "Joypad") {
        Some(joypad_type_modal(device))
    } else if str_eq(device.as_str(), "Keyboard") {
        Some(keyboard_wizard_modal(device))
    } else if str_eq(device.as_str(), "Commands") {
        Some(command_wizard_modal(device))
    } else {
        None
    }
}

// ---------------------------------------------------------------------------
// Outcomes
// ---------------------------------------------------------------------------

/// What answering a question does, for each purpose.
pub open spec fn confirm_outcome(p: PurposeView, yes: bool, old: GpioConfig, new: GpioConfig, r: (Option<Modal>, Option<ModalAction>)) -> bool {
    &&& (r.0 is None)
    &&& (new.version == old.version)
    &&& (new.daemon == old.daemon)
    &&& (p matches PurposeView::DeleteDevice(d) ==> if yes {
            new.devices@ == old.devices@.filter(|x: DeviceRow| x.device@ != d)
                && new.i2c == old.i2c && r.1 matches Some(ModalAction::RefreshDevicesTab)
        } else {
            new == old && r.1 is None
        })
    &&& (p matches PurposeView::DeleteMapping(d, n) ==> if yes {
            new.devices@ == old.devices@.filter(|x: DeviceRow| !same_key(x, d, n))
                && new.i2c == old.i2c && r.1 matches Some(ModalAction::Save)
        } else {
            new == old && r.1 is None
        })
    &&& (p matches PurposeView::RemoveI2c(i) ==> r.1 matches Some(ModalAction::Save) && if yes {
            i2c_removed(old, new, i as int)
        } else {
            new == old
        })
    &&& (p matches PurposeView::LoadPreset(i) ==> if yes && i < 3 {
            (exists|rows: Seq<DeviceRow>|
                #![trigger fields_of(rows)]
                fields_of(rows) == preset_rows_spec(preset_keys()[i as int]) && new.devices@
                    == upsert_rows(
                    old.devices@.filter(|x: DeviceRow| x.device@ != "Joypad 1"@),
                    rows,
                )) && new.i2c == old.i2c && r.1 matches Some(ModalAction::Save)
        } else {
            new == old && r.1 is None
        })
    &&& (p matches PurposeView::DaemonControl(c) ==> new == old && if yes {
            r.1 == Some(ModalAction::DaemonAction(c))
        } else {
            r.1 is None
        })
    &&& (!(p is DeleteDevice || p is DeleteMapping || p is RemoveI2c
            || p is LoadPreset || p is DaemonControl) ==> new == old
            && r.1 is None)
}

/// A confirmed (or refused) question.
pub fn on_confirm(purpose: Purpose, yes: bool, cfg: &mut GpioConfig) -> (r: (Option<Modal>, Option<ModalAction>))
    ensures
        confirm_outcome(purpose@, yes, *old(cfg), *final(cfg), r),

{
    match purpose {
        Purpose::DeleteDevice(d) => {
            if yes {
                let ghost dv = d@;
                let ds = d.as_str();
                delete_device(cfg, ds);
                assert((|x: DeviceRow| x.device@ != ds@) =~= (|x: DeviceRow| x.device@ != dv));
                (None, Some(ModalAction::RefreshDevicesTab))
            } else {
                (None, None)
            }
        },
        Purpose::DeleteMapping { device, name } => {
            if yes {
                delete_mapping(cfg, device.as_str(), name.as_str());
                (None, Some(ModalAction::Save))
            } else {
                (None, None)
            }
        },
        Purpose::RemoveI2c(i) => {
            if yes {
                remove_i2c_by_index(cfg, i);
            }
            (None, Some(ModalAction::Save))
        },
        Purpose::LoadPreset(i) => {
            if yes && i < 3 {
                let ps = presets();
                apply_preset(cfg, ps[i].key);
                (None, Some(ModalAction::Save))
            } else {
                (None, None)
            }
        },
        Purpose::DaemonControl(c) => {
            if yes {
                (None, Some(ModalAction::DaemonAction(c)))
            } else {
                (None, None)
            }
        },
        _ => (None, None),
    }
}

/// The direction, mapping name and axis command of entry `i` of the
/// direction list (any index past LEFT is RIGHT).
pub open spec fn axis_choice(i: int) -> (Seq<char>, Seq<char>) {
    if i == 0 {
        ("UP"@, "(3, 1, -255)"@)
    } else if i == 1 {
        ("DOWN"@, "(3, 1, 255)"@)
    } else if i == 2 {
        ("LEFT"@, "(3, 0, -255)"@)
    } else {
        ("RIGHT"@, "(3, 0, 255)"@)
    }
}

/// Which selections a purpose can be resumed with: an index into the list
/// that its dialog shows.
pub open spec fn select_index_ok(p: PurposeView, idx: Option<usize>) -> bool {
    match idx {
        None => true,
        Some(i) => match p {
            PurposeView::ChooseDevice => i < device_list_spec().len(),
            PurposeView::JoypadButton(_) => i < button_list_spec().len(),
            PurposeView::KeyboardKey(_) => i < key_list_spec().len(),
            PurposeView::CommandChoice(_) => i <= command_presets_spec().len(),
            _ => true,
        },
    }
}

/// A fresh command prompt for a custom Commands mapping.
pub open spec fn is_command_prompt(m: Option<Modal>, device: Seq<char>) -> bool {
    &&& m matches Some(md)
    &&& md.purpose@ == PurposeView::CustomCommand(device)
    &&& md.wf()
    &&& md.kind matches ModalKind::CommandInput(c)
    &&& c.title@ == "Enter Command"@
    &&& c.command@.len() == 0
    &&& c.timeout@ == "0"@
}

/// What picking entry `idx` of a list (or none) does, for each purpose.
pub open spec fn select_outcome(p: PurposeView, idx: Option<usize>, r: (Option<Modal>, Option<ModalAction>)) -> bool {
    match (p, idx) {
        (PurposeView::ChooseDevice, Some(i)) => r.0 is None && (r.1 matches Some(
            ModalAction::RefreshMappingsTab(d),
        ) && d@ == device_list_spec()[i as int]),
        (PurposeView::JoypadType(d), Some(i)) => if i == 0 {
            r.1 is None && is_select(
                r.0,
                PurposeView::AxisDirection(d),
                "Add Axis \u{2014} Direction"@,
                seq!["UP"@, "DOWN"@, "LEFT"@, "RIGHT"@],
            )
        } else if i == 1 {
            r.1 is None && is_select(
                r.0,
                PurposeView::JoypadButton(d),
                "Add Button \u{2014} Select Type"@,
                code_names(button_list_spec()),
            )
        } else {
            r.0 is None && r.1 is None
        },
        (PurposeView::AxisDirection(d), Some(i)) => {
            let name = "DPAD 1 "@ + axis_choice(i as int).0;
            r.1 is None && is_capture(
                r.0,
                PurposeView::CaptureMapping(d, name, "AXIS"@, axis_choice(i as int).1, true),
                "Hold pin for "@ + name,
            )
        },
        (PurposeView::JoypadButton(d), Some(i)) => {
            let (name, code) = button_list_spec()[i as int];
            r.1 is None && is_capture(
                r.0,
                PurposeView::CaptureMapping(d, name, "BUTTON"@, dec_chars(code as nat), true),
                "Hold pin for "@ + name,
            )
        },
        (PurposeView::KeyboardKey(d), Some(i)) => {
            let (name, code) = key_list_spec()[i as int];
            r.1 is None && is_capture(
                r.0,
                PurposeView::CaptureMapping(d, name, "KEY"@, dec_chars(code as nat), true),
                "Hold pin for "@ + name,
            )
        },
        (PurposeView::CommandChoice(d), Some(i)) => if i < command_presets_spec().len() {
            let (name, cmd) = command_presets_spec()[i as int];
            r.1 is None && is_capture(
                r.0,
                PurposeView::CaptureMapping(d, name, "COMMAND"@, cmd, false),
                "Hold pin for '"@ + name + "'"@,
            )
        } else {
            r.1 is None && is_command_prompt(r.0, d)
        },
        _ => r.0 is None && r.1 is None,
    }
}

fn capture_modal(title: String, purpose: Purpose) -> (m: Modal)
    ensures
        is_capture(Some(m), purpose@, title@),
{
    Modal { kind: ModalKind::PinCapture(PinCaptureModal::new(title.as_str())), purpose }
}

fn hold_title(name: &str) -> (t: String)
    ensures
        t@ == "Hold pin for "@ + name@,
{
    let mut t = string_of("Hold pin for ");
    push_str(&mut t, name);
    t
}

/// The direction chosen in the axis wizard gives the capture a mapping of
/// the device named after that direction, whose command pushes the stick
/// that way: UP -255 and DOWN 255 on the vertical axis (ABS_Y = 1), LEFT
/// -255 and RIGHT 255 on the horizontal one (ABS_X = 0), event type 3.
pub proof fn lemma_axis_wizard_directions(d: Seq<char>, i: usize, r: (Option<Modal>, Option<ModalAction>))
    requires
        i < 4,
        select_outcome(PurposeView::AxisDirection(d), Some(i), r),
    ensures
        r.1 is None,
        r.0 matches Some(m) && m.purpose@ matches PurposeView::CaptureMapping(dev, name, et, cmd, combo)
            && dev == d && et == "AXIS"@ && combo && (i == 0 ==> name == "DPAD 1 UP"@
            && crate::peripheral::axis_command_spec(cmd) == Some((3u32, 1u32, -255i32))) && (i == 1
            ==> name == "DPAD 1 DOWN"@ && crate::peripheral::axis_command_spec(cmd) == Some(
            (3u32, 1u32, 255i32),
        )) && (i == 2 ==> name == "DPAD 1 LEFT"@ && crate::peripheral::axis_command_spec(cmd)
            == Some((3u32, 0u32, -255i32))) && (i == 3 ==> name == "DPAD 1 RIGHT"@
            && crate::peripheral::axis_command_spec(cmd) == Some((3u32, 0u32, 255i32))),
{
    crate::peripheral::lemma_dpad_commands();
    reveal_strlit("DPAD 1 ");
    reveal_strlit("UP");
    reveal_strlit("DOWN");
    reveal_strlit("LEFT");
    reveal_strlit("RIGHT");
    reveal_strlit("DPAD 1 UP");
    reveal_strlit("DPAD 1 DOWN");
    reveal_strlit("DPAD 1 LEFT");
    reveal_strlit("DPAD 1 RIGHT");
    assert("DPAD 1 "@ + "UP"@ =~= "DPAD 1 UP"@);
    assert("DPAD 1 "@ + "DOWN"@ =~= "DPAD 1 DOWN"@);
    assert("DPAD 1 "@ + "LEFT"@ =~= "DPAD 1 LEFT"@);
    assert("DPAD 1 "@ + "RIGHT"@ =~= "DPAD 1 RIGHT"@);
}

/// A picked (or dismissed) list entry.
pub fn on_select(purpose: Purpose, idx: Option<usize>) -> (r: (Option<Modal>, Option<ModalAction>))
    requires
        select_index_ok(purpose@, idx),
    ensures
        select_outcome(purpose@, idx, r),
{
    match (purpose, idx) {
        (Purpose::ChooseDevice, Some(i)) => {
            let devices = device_list();
            assert(devices@[i as int]@ == device_list_spec()[i as int]);
            (None, Some(ModalAction::RefreshMappingsTab(string_of(devices[i]))))
        },
        (Purpose::JoypadType(d), Some(i)) => {
            if i == 0 {
                (Some(joypad_axis_name_modal(d)), None)
            } else if i == 1 {
                (Some(joypad_button_modal(d)), None)
            } else {
                (None, None)
            }
        },
        (Purpose::AxisDirection(d), Some(i)) => {
            let (dir, cmd) = if i == 0 {
                ("UP", "(3, 1, -255)")
            } else if i == 1 {
                ("DOWN", "(3, 1, 255)")
            } else if i == 2 {
                ("LEFT", "(3, 0, -255)")
            } else {
                ("RIGHT", "(3, 0, 255)")
            };
            let mut name = string_of("DPAD 1 ");
            push_str(&mut name, dir);
            let title = hold_title(name.as_str());
            let purpose = Purpose::CaptureMapping {
                device: d,
                name,
                event_type: string_of("AXIS"),
                command: string_of(cmd),
                combo: true,
            };
            (Some(capture_modal(title, purpose)), None)
        },
        (Purpose::JoypadButton(d), Some(i)) => {
            let table = button_list();
            assert(table@.map_values(|p: (&'static str, u16)| (p.0@, p.1))[i as int]
                == button_list_spec()[i as int]);
            let (name, code) = table[i];
            let title = hold_title(name);
            let mut command = String::new();
            push_decimal(&mut command, code as u64);
            let purpose = Purpose::CaptureMapping {
                device: d,
                name: string_of(name),
                event_type: string_of("BUTTON"),
                command,
                combo: true,
            };
            (Some(capture_modal(title, purpose)), None)
        },
        (Purpose::KeyboardKey(d), Some(i)) => {
            let table = key_list();
            assert(table@.map_values(|p: (&'static str, u16)| (p.0@, p.1))[i as int]
                == key_list_spec()[i as int]);
            let (name, code) = table[i];
            let title = hold_title(name);
            let mut command = String::new();
            push_decimal(&mut command, code as u64);
            let purpose = Purpose::CaptureMapping {
                device: d,
                name: string_of(name),
                event_type: string_of("KEY"),
                command,
                combo: true,
            };
            (Some(capture_modal(title, purpose)), None)
        },
        (Purpose::CommandChoice(d), Some(i)) => {
            let table = command_presets();
            if i < table.len() {
                assert(table@.map_values(|p: (&'static str, &'static str)| (p.0@, p.1@))[i as int]
                    == command_presets_spec()[i as int]);
                let (name, cmd) = table[i];
                let mut title = string_of("Hold pin for '");
                push_str(&mut title, name);
                push_str(&mut title, "'");
                let purpose = Purpose::CaptureMapping {
                    device: d,
                    name: string_of(name),
                    event_type: string_of("COMMAND"),
                    command: string_of(cmd),
                    combo: false,
                };
                (Some(capture_modal(title, purpose)), None)
            } else {
                let m = Modal {
                    kind: ModalKind::CommandInput(CommandInputModal::new("Enter Command")),
                    purpose: Purpose::CustomCommand(d),
                };
                (Some(m), None)
            }
        },
        _ => (None, None),
    }
}

/// The configuration after a pin capture ends: a capture purpose upserts
/// the mapping with the captured pins (a combo keeps them all, otherwise the
/// first); a cancelled capture, or any other purpose, changes nothing.
pub open spec fn capture_cfg(p: PurposeView, pins: Option<Seq<u8>>, old: GpioConfig, new: GpioConfig) -> bool {
    &&& new.version == old.version
    &&& new.daemon == old.daemon
    &&& new.i2c == old.i2c
    &&& match p {
        PurposeView::CaptureMapping(d, n, t, c, combo) => {
            &&& pins is None ==> new == old
            &&& pins matches Some(v) ==> exists|row: DeviceRow|
                #![trigger upsert_rows(old.devices@, seq![row])]
                crate::presets::fields(row) == (d, n, t, c, if combo {
                    pins_text(v)
                } else {
                    dec_chars(v[0] as nat)
                }) && new.devices@ == upsert_rows(old.devices@, seq![row])
        },
        _ => new == old,
    }
}

/// What the end of a pin capture does: the dialog closes, the configuration
/// changes as `capture_cfg` says, and a capture purpose asks for a save,
/// also when the capture was cancelled.
pub open spec fn capture_outcome(p: PurposeView, pins: Option<Seq<u8>>, old: GpioConfig, new: GpioConfig, r: (Option<Modal>, Option<ModalAction>)) -> bool {
    &&& r.0 is None
    &&& capture_cfg(p, pins, old, new)
    &&& if p is CaptureMapping {
        r.1 matches Some(ModalAction::Save)
    } else {
        r.1 is None
    }
}

/// A finished (or cancelled) pin capture.
pub fn on_capture(purpose: Purpose, pins: Option<Vec<u8>>, cfg: &mut GpioConfig) -> (r: (Option<Modal>, Option<ModalAction>))
    requires
        pins matches Some(v) ==> v@.len() > 0,
    ensures
        capture_outcome(
            purpose@,
            match pins {
                Some(v) => Some(v@),
                None => None,
            },
            *old(cfg),
            *final(cfg),
            r,
        ),
{
    match purpose {
        Purpose::CaptureMapping { device, name, event_type, command, combo } => {
            match pins {
                Some(v) => {
                    let pins_str = if combo {
                        pins_string(&v)
                    } else {
                        let mut s = String::new();
                        push_decimal(&mut s, v[0] as u64);
                        s
                    };
                    let row = DeviceRow::new(
                        device.as_str(),
                        name.as_str(),
                        event_type.as_str(),
                        command.as_str(),
                        pins_str.as_str(),
                    );
                    let ghost row_v = row;
                    let ghost before = cfg.devices@;
                    upsert_mapping(cfg, row);
                    assert(seq![row_v].drop_last() =~= Seq::<DeviceRow>::empty());
                    assert(seq![row_v].last() == row_v);
                    assert(upsert_rows(before, Seq::<DeviceRow>::empty()) == before);
                    assert(cfg.devices@ == upsert_rows(before, seq![row_v]));
                },
                None => {},
            }
            (None, Some(ModalAction::Save))
        },
        _ => (None, None),
    }
}

/// What the end of the command prompt does.
pub open spec fn command_outcome(p: PurposeView, result: Option<Seq<char>>, r: (Option<Modal>, Option<ModalAction>)) -> bool {
    match (p, result) {
        (PurposeView::CustomCommand(d), Some(cmd)) => r.1 is None && is_capture(
            r.0,
            PurposeView::CaptureMapping(d, cmd, "COMMAND"@, cmd, false),
            "Hold pin for command"@,
        ),
        _ => r.0 is None && r.1 is None,
    }
}

/// An entered (or cancelled) custom command: its pin is captured next.
pub fn on_command(purpose: Purpose, result: Option<(String, u32)>) -> (r: (Option<Modal>, Option<ModalAction>))
    ensures
        command_outcome(
            purpose@,
            match result {
                Some((c, _)) => Some(c@),
                None => None,
            },
            r,
        ),
{
    match (purpose, result) {
        (Purpose::CustomCommand(d), Some((cmd, _timeout))) => {
            let purpose = Purpose::CaptureMapping {
                device: d,
                name: cmd.clone(),
                event_type: string_of("COMMAND"),
                command: cmd,
                combo: false,
            };
            (Some(capture_modal(string_of("Hold pin for command"), purpose)), None)
        },
        _ => (None, None),
    }
}

/// What the end of the add-chip dialog does: the chip is appended, and a
/// save is asked for, also when the dialog was cancelled.
pub open spec fn i2c_outcome(p: PurposeView, entry: Option<I2cEntry>, old: GpioConfig, new: GpioConfig, r: (Option<Modal>, Option<ModalAction>)) -> bool {
    &&& r.0 is None
    &&& match p {
        PurposeView::AddChip => (r.1 matches Some(ModalAction::Save)) && match entry {
            Some(e) => i2c_appended(old, new, e),
            None => new == old,
        },
        _ => new == old && r.1 is None,
    }
}

/// A finished (or cancelled) add-chip dialog.
pub fn on_i2c(purpose: Purpose, entry: Option<I2cEntry>, cfg: &mut GpioConfig) -> (r: (Option<Modal>, Option<ModalAction>))
    ensures
        i2c_outcome(purpose@, entry, *old(cfg), *final(cfg), r),
{
    match purpose {
        Purpose::AddChip => {
            match entry {
                Some(e) => apply_i2c_entry(e, cfg),
                None => {},
            }
            (None, Some(ModalAction::Save))
        },
        _ => (None, None),
    }
}

/// What the end of a text prompt does: a path for export or import is
/// handed to the application.
pub open spec fn text_outcome(p: PurposeView, value: Option<Seq<char>>, r: (Option<Modal>, Option<ModalAction>)) -> bool {
    &&& r.0 is None
    &&& match (p, value) {
        (PurposeView::ExportConfig, Some(v)) => r.1 matches Some(ModalAction::ExportConfig(path))
            && path@ == v,
        (PurposeView::ImportConfig, Some(v)) => r.1 matches Some(ModalAction::ImportConfig(path))
            && path@ == v,
        _ => r.1 is None,
    }
}

/// A confirmed (or cancelled) text prompt.
pub fn on_text(purpose: Purpose, value: Option<String>) -> (r: (Option<Modal>, Option<ModalAction>))
    ensures
        text_outcome(
            purpose@,
            match value {
                Some(v) => Some(v@),
                None => None,
            },
            r,
        ),
{
    match (purpose, value) {
        (Purpose::ExportConfig, Some(p)) => (None, Some(ModalAction::ExportConfig(p))),
        (Purpose::ImportConfig, Some(p)) => (None, Some(ModalAction::ImportConfig(p))),
        _ => (None, None),
    }
}

/// How many entries a selection list for this purpose may show, so that
/// any highlighted entry is one the outcome can use.
pub open spec fn select_items_fit(p: PurposeView, n: nat) -> bool {
    match p {
        PurposeView::ChooseDevice => n <= device_list_spec().len(),
        PurposeView::JoypadButton(_) => n <= button_list_spec().len(),
        PurposeView::KeyboardKey(_) => n <= key_list_spec().len(),
        PurposeView::CommandChoice(_) => n <= command_presets_spec().len() + 1,
        _ => true,
    }
}

pub open spec fn same_tag(a: ModalKind, b: ModalKind) -> bool {
    ||| (a is Confirm && b is Confirm)
    ||| (a is PinCapture && b is PinCapture)
    ||| (a is SingleSelect && b is SingleSelect)
    ||| (a is MultiSelect && b is MultiSelect)
    ||| (a is CommandInput && b is CommandInput)
    ||| (a is AddI2c && b is AddI2c)
    ||| (a is TextInput && b is TextInput)
}

/// The dialog stays open, for the same purpose, and nothing else happens.
pub open spec fn stays(m: Modal, r: (Option<Modal>, Option<ModalAction>, bool)) -> bool {
    &&& r.0 matches Some(n)
    &&& n.purpose == m.purpose
    &&& same_tag(n.kind, m.kind)
    &&& r.1 is None
}

/// What a key does to the open dialog `md` with configuration `c0`: the
/// configuration becomes `c1`, and `r` is the dialog that stays or follows,
/// the action to apply, and whether to quit.
pub open spec fn modal_key(md: Modal, key: crate::ui::keys::Key, c0: GpioConfig, c1: GpioConfig, r: (Option<Modal>, Option<ModalAction>, bool)) -> bool {
    &&& (md.kind matches ModalKind::Confirm(c) ==> match crate::ui::modals::confirm_answer(key) {
            None => r.0 == Some(md) && r.1 is None && c1 == c0,
            Some(yes) => confirm_outcome(md.purpose@, yes, c0, c1, (r.0, r.1)),
        })
    &&& (md.kind matches ModalKind::PinCapture(c) ==> if key is Esc {
            capture_outcome(md.purpose@, None, c0, c1, (r.0, r.1))
        } else {
            r.0 == Some(md) && r.1 is None && c1 == c0
        })
    &&& (md.kind matches ModalKind::SingleSelect(s) ==> c1 == c0 && if key is Enter {
            select_outcome(md.purpose@, s.selected, (r.0, r.1))
        } else if key is Esc {
            select_outcome(md.purpose@, None, (r.0, r.1))
        } else {
            stays(md, r) && (r.0 matches Some(n) && n.kind matches ModalKind::SingleSelect(t)
                && t.title == s.title && t.items == s.items && t.selected == crate::ui::modals::moved_selection(
                s.selected,
                s.items@.len(),
                key,
            ))
        })
    &&& (md.kind matches ModalKind::MultiSelect(s) ==> c1 == c0 && if key is Enter
            || key is Esc {
            r.0 is None && r.1 is None
        } else {
            stays(md, r) && (r.0 matches Some(n) && n.kind matches ModalKind::MultiSelect(t)
                && crate::ui::modals::multi_key(s, key, t, None))
        })
    &&& (md.kind matches ModalKind::CommandInput(c) ==> c1 == c0 && if key is Esc {
            command_outcome(md.purpose@, None, (r.0, r.1))
        } else if key is Enter && c.command@.len() > 0 {
            command_outcome(md.purpose@, Some(c.command@), (r.0, r.1))
        } else {
            stays(md, r) && (r.0 matches Some(n) && n.kind matches ModalKind::CommandInput(d)
                && crate::ui::modals::command_key(c, key, d, None))
        })
    &&& (md.kind matches ModalKind::AddI2c(a) ==> if key is Esc {
            i2c_outcome(md.purpose@, None, c0, c1, (r.0, r.1))
        } else if key is Enter && (a.step == crate::ui::modals::I2cStep::IntPin || (a.step
            == crate::ui::modals::I2cStep::Address && a.chip_type == Some(
            crate::i2c::ChipType::Ads1115,
        ))) {
            exists|e: I2cEntry|
                crate::ui::modals::entry_of(a, e) && #[trigger] i2c_outcome(
                    md.purpose@,
                    Some(e),
                    c0,
                    c1,
                    (r.0, r.1),
                )
        } else {
            stays(md, r) && c1 == c0 && (r.0 matches Some(n)
                && n.kind matches ModalKind::AddI2c(b) && crate::ui::modals::add_chip_key(
                a,
                key,
                b,
                None,
            ))
        })
    &&& (md.kind matches ModalKind::TextInput(t) ==> c1 == c0 && if key is Esc {
            text_outcome(md.purpose@, None, (r.0, r.1))
        } else if key is Enter {
            text_outcome(
                md.purpose@,
                if t.value@.len() == 0 {
                    None
                } else {
                    Some(t.value@)
                },
                (r.0, r.1),
            )
        } else {
            stays(md, r) && (r.0 matches Some(n) && n.kind matches ModalKind::TextInput(u)
                && u.title == t.title && u.prompt == t.prompt && u.value@ == crate::ui::modals::edited(
                    t.value@,
                    key,
                ))
        })
}

impl Modal {
    pub open spec fn wf(&self) -> bool {
        match self.kind {
            ModalKind::SingleSelect(s) => (s.selected matches Some(i) ==> i < s.items@.len())
                && select_items_fit(self.purpose@, s.items@.len()),
            ModalKind::AddI2c(a) => a.wf(),
            ModalKind::PinCapture(c) => c.hold_pins matches Some(p) ==> p@.len() > 0,
            _ => true,
        }
    }

    /// A key for the open dialog. The dialog either stays open (for the same
    /// purpose, configuration untouched) or closes, and its outcome is that
    /// of its purpose for the result it closed with. A dialog never quits
    /// the application.
    pub fn handle_key(self, key: crate::ui::keys::Key, cfg: &mut GpioConfig) -> (r: (Option<Modal>, Option<ModalAction>, bool))
        requires
            self.wf(),
        ensures
            !r.2,
            r.0 matches Some(m) ==> m.wf(),
            modal_key(self, key, *old(cfg), *final(cfg), r),
    {
        let Modal { kind, purpose } = self;
        match kind {
            ModalKind::Confirm(c) => {
                match c.answer(key) {
                    None => (Some(Modal { kind: ModalKind::Confirm(c), purpose }), None, false),
                    Some(yes) => {
                        let (m, a) = on_confirm(purpose, yes, cfg);
                        (m, a, false)
                    },
                }
            },
            ModalKind::PinCapture(c) => {
                if c.cancels(key) {
                    let (m, a) = on_capture(purpose, None, cfg);
                    (m, a, false)
                } else {
                    (Some(Modal { kind: ModalKind::PinCapture(c), purpose }), None, false)
                }
            },
            ModalKind::SingleSelect(s) => {
                let mut s = s;
                match s.handle_key(key) {
                    None => (Some(Modal { kind: ModalKind::SingleSelect(s), purpose }), None, false),
                    Some(idx) => {
                        let (m, a) = on_select(purpose, idx);
                        (m, a, false)
                    },
                }
            },
            ModalKind::MultiSelect(s) => {
                let mut s = s;
                match s.handle_key(key) {
                    None => (Some(Modal { kind: ModalKind::MultiSelect(s), purpose }), None, false),
                    Some(_) => (None, None, false),
                }
            },
            ModalKind::CommandInput(c) => {
                let mut c = c;
                match c.handle_key(key) {
                    None => (Some(Modal { kind: ModalKind::CommandInput(c), purpose }), None, false),
                    Some(res) => {
                        let (m, a) = on_command(purpose, res);
                        (m, a, false)
                    },
                }
            },
            ModalKind::AddI2c(a) => {
                let mut a = a;
                match a.handle_key(key) {
                    None => (Some(Modal { kind: ModalKind::AddI2c(a), purpose }), None, false),
                    Some(entry) => {
                        let (m, act) = on_i2c(purpose, entry, cfg);
                        (m, act, false)
                    },
                }
            },
            ModalKind::TextInput(t) => {
                let mut t = t;
                match t.handle_key(key) {
                    None => (Some(Modal { kind: ModalKind::TextInput(t), purpose }), None, false),
                    Some(v) => {
                        let (m, a) = on_text(purpose, v);
                        (m, a, false)
                    },
                }
            },
        }
    }

    /// One poll of the live pins while the dialog is open. A pin capture
    /// follows the held pins; once the same pins have been held for the full
    /// second it closes with them, with the outcome of its purpose. Any other
    /// dialog is left as it is.
    pub fn tick(self, connected: bool, pressed: Vec<u8>, now_ms: u64, cfg: &mut GpioConfig) -> (r: (Option<Modal>, Option<ModalAction>))
        requires
            self.wf(),
        ensures
            r.0 matches Some(m) ==> m.wf(),
            !(self.kind is PinCapture) ==> r == (Some(self), None::<ModalAction>) && *final(cfg)
                == *old(cfg),
            self.kind matches ModalKind::PinCapture(c) ==> {
                let (held, since) = c.after_tick(connected, pressed@, now_ms);
                if held is Some && (since matches Some(s) && now_ms >= s && now_ms - s
                    >= crate::ui::modals::HOLD_MS) {
                    capture_outcome(self.purpose@, held, *old(cfg), *final(cfg), r)
                } else {
                    &&& r.1 is None
                    &&& *final(cfg) == *old(cfg)
                    &&& r.0 matches Some(m)
                    &&& m.purpose == self.purpose
                    &&& m.kind matches ModalKind::PinCapture(d)
                    &&& d.title == c.title
                    &&& d.held() == held
                    &&& d.hold_since == since
                }
            },
    {
        let Modal { kind, purpose } = self;
        match kind {
            ModalKind::PinCapture(c) => {
                let mut c = c;
                c.tick(connected, pressed, now_ms);
                if c.hold_complete(now_ms) && c.hold_pins.is_some() {
                    let pins = c.hold_pins;
                    on_capture(purpose, pins, cfg)
                } else {
                    (Some(Modal { kind: ModalKind::PinCapture(c), purpose }), None)
                }
            },
            _ => (Some(Modal { kind, purpose }), None),
        }
    }
}

} // verus!
