//! Built-in pin layouts of common controller HATs, as mapping rows ready to
//! be written into the configuration.

use vstd::prelude::*;
use crate::config::{delete_device, key_index, upsert_mapping, DeviceRow, GpioConfig};
use crate::text::{dec_chars, decimal_string, push_str, str_eq, string_of};
use crate::peripheral::{axis_command_spec, lemma_dpad_commands};

verus! {

/// A built-in layout: its lookup key and the name shown to the user.
pub struct Preset {
    pub key: &'static str,
    pub display_name: &'static str,
}

/// The five text fields of a row, in declaration order.
pub open spec fn fields(r: DeviceRow) -> (Seq<char>, Seq<char>, Seq<char>, Seq<char>, Seq<char>) {
    (r.device@, r.name@, r.event_type@, r.command@, r.pins@)
}

/// The fields of every row of a list.
pub open spec fn fields_of(rows: Seq<DeviceRow>) -> Seq<(Seq<char>, Seq<char>, Seq<char>, Seq<char>, Seq<char>)> {
    rows.map_values(|r: DeviceRow| fields(r))
}

pub open spec fn preset_keys() -> Seq<Seq<char>> {
    seq!["adafruit_bonnet"@, "pimoroni_picade"@, "generic_nes"@]
}

pub open spec fn preset_names() -> Seq<Seq<char>> {
    seq!["Adafruit Retrogame Bonnet"@, "Pimoroni Picade HAT"@, "Generic NES/SNES Pinout"@]
}

/// The built-in layouts, in menu order.
pub fn presets() -> (r: Vec<Preset>)
    ensures
        r@.len() == 3,
        forall|i: int| 0 <= i < 3 ==> (#[trigger] r@[i]).key@ == preset_keys()[i],
        forall|i: int| 0 <= i < 3 ==> (#[trigger] r@[i]).display_name@ == preset_names()[i],
{
    let mut r: Vec<Preset> = Vec::new();
    r.push(Preset { key: "adafruit_bonnet", display_name: "Adafruit Retrogame Bonnet" });
    r.push(Preset { key: "pimoroni_picade", display_name: "Pimoroni Picade HAT" });
    r.push(Preset { key: "generic_nes", display_name: "Generic NES/SNES Pinout" });
    r
}

/// The display names of the built-in layouts, in menu order.
pub fn get_preset_names() -> (r: Vec<&'static str>)
    ensures
        r@.map_values(|s: &'static str| s@) == preset_names(),
{
    let ps = presets();
    let mut r: Vec<&'static str> = Vec::new();
    let mut i: usize = 0;
    while i < ps.len()
        invariant
            ps@.len() == 3,
            forall|j: int| 0 <= j < 3 ==> (#[trigger] ps@[j]).display_name@ == preset_names()[j],
            i <= 3,
            r@.len() == i,
            forall|j: int| 0 <= j < i ==> (#[trigger] r@[j])@ == preset_names()[j],
        decreases 3 - i,
    {
        r.push(ps[i].display_name);
        i = i + 1;
    }
    assert(r@.map_values(|s: &'static str| s@) =~= preset_names());
    r
}

/// The fields of an axis row.
pub open spec fn axis_row(device: Seq<char>, name: Seq<char>, dir: Seq<char>, cmd: Seq<char>, pin: u8) -> (Seq<char>, Seq<char>, Seq<char>, Seq<char>, Seq<char>) {
    (device, name + dir, "AXIS"@, cmd, dec_chars(pin as nat))
}

/// The four direction rows of a D-pad.
pub open spec fn axis_rows_spec(device: Seq<char>, name: Seq<char>, up: u8, down: u8, left: u8, right: u8) -> Seq<(Seq<char>, Seq<char>, Seq<char>, Seq<char>, Seq<char>)> {
    seq![
        axis_row(device, name, " UP"@, "(3, 1, -255)"@, up),
        axis_row(device, name, " DOWN"@, "(3, 1, 255)"@, down),
        axis_row(device, name, " LEFT"@, "(3, 0, -255)"@, left),
        axis_row(device, name, " RIGHT"@, "(3, 0, 255)"@, right),
    ]
}

/// The four rows of a D-pad drive the stick of its device: UP and DOWN push
/// the vertical axis (event type 3, ABS_Y = 1) to -255 and 255, LEFT and
/// RIGHT the horizontal one (ABS_X = 0) to -255 and 255, each bound to its
/// own pin and named after its direction.
pub proof fn lemma_dpad_rows_drive_opposite_directions(
    device: Seq<char>,
    name: Seq<char>,
    up: u8,
    down: u8,
    left: u8,
    right: u8,
)
    ensures
        ({
            let r = axis_rows_spec(device, name, up, down, left, right);
            &&& r.len() == 4
            &&& forall|k: int| 0 <= k < 4 ==> (#[trigger] r[k]).0 == device && r[k].2 == "AXIS"@
            &&& r[0].1 == name + " UP"@ && r[0].4 == dec_chars(up as nat)
            &&& axis_command_spec(r[0].3) == Some((3u32, 1u32, -255i32))
            &&& r[1].1 == name + " DOWN"@ && r[1].4 == dec_chars(down as nat)
            &&& axis_command_spec(r[1].3) == Some((3u32, 1u32, 255i32))
            &&& r[2].1 == name + " LEFT"@ && r[2].4 == dec_chars(left as nat)
            &&& axis_command_spec(r[2].3) == Some((3u32, 0u32, -255i32))
            &&& r[3].1 == name + " RIGHT"@ && r[3].4 == dec_chars(right as nat)
            &&& axis_command_spec(r[3].3) == Some((3u32, 0u32, 255i32))
        }),
{
    lemma_dpad_commands();
}

/// The fields of a button row.
pub open spec fn btn_spec(device: Seq<char>, name: Seq<char>, evdev: u16, pin: u8) -> (Seq<char>, Seq<char>, Seq<char>, Seq<char>, Seq<char>) {
    (device, name, "BUTTON"@, dec_chars(evdev as nat), dec_chars(pin as nat))
}

fn axis_row_of(device: &str, name: &str, dir: &str, cmd: &str, pin: u8) -> (r: DeviceRow)
    ensures
        fields(r) == axis_row(device@, name@, dir@, cmd@, pin),
{
    let mut label = string_of(name);
    push_str(&mut label, dir);
    let pins = decimal_string(pin as u64);
    DeviceRow::new(device, label.as_str(), "AXIS", cmd, pins.as_str())
}

/// The four axis rows `UP`, `DOWN`, `LEFT`, `RIGHT` of a D-pad named `name`.
pub fn axis_rows(device: &str, name: &str, up: u8, down: u8, left: u8, right: u8) -> (r: Vec<DeviceRow>)
    ensures
        fields_of(r@) == axis_rows_spec(device@, name@, up, down, left, right),
{
    let mut r: Vec<DeviceRow> = Vec::new();
    r.push(axis_row_of(device, name, " UP", "(3, 1, -255)", up));
    r.push(axis_row_of(device, name, " DOWN", "(3, 1, 255)", down));
    r.push(axis_row_of(device, name, " LEFT", "(3, 0, -255)", left));
    r.push(axis_row_of(device, name, " RIGHT", "(3, 0, 255)", right));
    assert(fields_of(r@) =~= axis_rows_spec(device@, name@, up, down, left, right));
    r
}

/// A joypad button row.
pub fn btn(device: &str, name: &str, evdev: u16, pin: u8) -> (r: DeviceRow)
    ensures
        fields(r) == btn_spec(device@, name@, evdev, pin),
{
    let code = decimal_string(evdev as u64);
    let pins = decimal_string(pin as u64);
    DeviceRow::new(device, name, "BUTTON", code.as_str(), pins.as_str())
}

fn push_btn(rows: &mut Vec<DeviceRow>, name: &str, evdev: u16, pin: u8)
    ensures
        fields_of(final(rows)@) == fields_of(old(rows)@).push(btn_spec("Joypad 1"@, name@, evdev, pin)),
{
    let ghost before = rows@;
    rows.push(btn("Joypad 1", name, evdev, pin));
    assert(fields_of(rows@) =~= fields_of(before).push(btn_spec("Joypad 1"@, name@, evdev, pin)));
}

pub open spec fn adafruit_bonnet_spec() -> Seq<(Seq<char>, Seq<char>, Seq<char>, Seq<char>, Seq<char>)> {
    let j = "Joypad 1"@;
    axis_rows_spec(j, "DPAD 1"@, 11, 13, 29, 31) + seq![
        btn_spec(j, "Button A"@, 304, 7),
        btn_spec(j, "Button B"@, 305, 15),
        btn_spec(j, "Button X"@, 307, 33),
        btn_spec(j, "Button Y"@, 308, 35),
        btn_spec(j, "Start Button"@, 315, 37),
        btn_spec(j, "Select Button"@, 314, 16),
    ]
}

pub open spec fn pimoroni_picade_spec() -> Seq<(Seq<char>, Seq<char>, Seq<char>, Seq<char>, Seq<char>)> {
    let j = "Joypad 1"@;
    axis_rows_spec(j, "DPAD 1"@, 29, 31, 33, 35) + seq![
        btn_spec(j, "Button A"@, 304, 7),
        btn_spec(j, "Button B"@, 305, 11),
        btn_spec(j, "Button X"@, 307, 13),
        btn_spec(j, "Button Y"@, 308, 15),
        btn_spec(j, "Button Left Trigger 1"@, 310, 16),
        btn_spec(j, "Button Right Trigger 1"@, 311, 18),
        btn_spec(j, "Start Button"@, 315, 36),
        btn_spec(j, "Select Button"@, 314, 38),
        btn_spec(j, "Button Generic 1"@, 706, 40),
    ]
}

pub open spec fn generic_nes_spec() -> Seq<(Seq<char>, Seq<char>, Seq<char>, Seq<char>, Seq<char>)> {
    let j = "Joypad 1"@;
    axis_rows_spec(j, "DPAD 1"@, 11, 13, 15, 19) + seq![
        btn_spec(j, "Button A"@, 304, 21),
        btn_spec(j, "Button B"@, 305, 23),
        btn_spec(j, "Start Button"@, 315, 29),
        btn_spec(j, "Select Button"@, 314, 31),
    ]
}

/// Adafruit Retrogame Bonnet: D-pad, four face buttons, Start and Select.
pub fn adafruit_bonnet_rows() -> (r: Vec<DeviceRow>)
    ensures
        fields_of(r@) == adafruit_bonnet_spec(),
{
    let mut rows = axis_rows("Joypad 1", "DPAD 1", 11, 13, 29, 31);
    push_btn(&mut rows, "Button A", 304, 7);
    push_btn(&mut rows, "Button B", 305, 15);
    push_btn(&mut rows, "Button X", 307, 33);
    push_btn(&mut rows, "Button Y", 308, 35);
    push_btn(&mut rows, "Start Button", 315, 37);
    push_btn(&mut rows, "Select Button", 314, 16);
    assert(fields_of(rows@) =~= adafruit_bonnet_spec());
    rows
}

/// Pimoroni Picade HAT: D-pad, six action buttons, Start, Select and coin.
pub fn pimoroni_picade_rows() -> (r: Vec<DeviceRow>)
    ensures
        fields_of(r@) == pimoroni_picade_spec(),
{
    let mut rows = axis_rows("Joypad 1", "DPAD 1", 29, 31, 33, 35);
    push_btn(&mut rows, "Button A", 304, 7);
    push_btn(&mut rows, "Button B", 305, 11);
    push_btn(&mut rows, "Button X", 307, 13);
    push_btn(&mut rows, "Button Y", 308, 15);
    push_btn(&mut rows, "Button Left Trigger 1", 310, 16);
    push_btn(&mut rows, "Button Right Trigger 1", 311, 18);
    push_btn(&mut rows, "Start Button", 315, 36);
    push_btn(&mut rows, "Select Button", 314, 38);
    push_btn(&mut rows, "Button Generic 1", 706, 40);
    assert(fields_of(rows@) =~= pimoroni_picade_spec());
    rows
}

/// Generic NES/SNES pinout: D-pad, A, B, Start and Select.
pub fn generic_nes_rows() -> (r: Vec<DeviceRow>)
    ensures
        fields_of(r@) == generic_nes_spec(),
{
    let mut rows = axis_rows("Joypad 1", "DPAD 1", 11, 13, 15, 19);
    push_btn(&mut rows, "Button A", 304, 21);
    push_btn(&mut rows, "Button B", 305, 23);
    push_btn(&mut rows, "Start Button", 315, 29);
    push_btn(&mut rows, "Select Button", 314, 31);
    assert(fields_of(rows@) =~= generic_nes_spec());
    rows
}

/// The rows of the layout with lookup key `key`; none for an unknown key.
pub open spec fn preset_rows_spec(key: Seq<char>) -> Seq<(Seq<char>, Seq<char>, Seq<char>, Seq<char>, Seq<char>)> {
    if key == "adafruit_bonnet"@ {
        adafruit_bonnet_spec()
    } else if key == "pimoroni_picade"@ {
        pimoroni_picade_spec()
    } else if key == "generic_nes"@ {
        generic_nes_spec()
    } else {
        Seq::empty()
    }
}

/// The rows of the layout with lookup key `key`, or no rows for an unknown key.
pub fn get_preset_rows(key: &str) -> (r: Vec<DeviceRow>)
    ensures
        fields_of(r@) == preset_rows_spec(key@),
{
    if str_eq(key, "adafruit_bonnet") {
        adafruit_bonnet_rows()
    } else if str_eq(key, "pimoroni_picade") {
        pimoroni_picade_rows()
    } else if str_eq(key, "generic_nes") {
        generic_nes_rows()
    } else {
        let r: Vec<DeviceRow> = Vec::new();
        assert(fields_of(r@) =~= Seq::empty());
        r
    }
}

/// The table after upserting each row in turn.
pub open spec fn upsert_rows(table: Seq<DeviceRow>, rows: Seq<DeviceRow>) -> Seq<DeviceRow>
    decreases rows.len(),
{
    if rows.len() == 0 {
        table
    } else {
        let t = upsert_rows(table, rows.drop_last());
        let row = rows.last();
        let k = key_index(t, row.device@, row.name@);
        if k >= 0 {
            t.update(k, row)
        } else {
            t.push(row)
        }
    }
}

/// Loads a layout into Joypad 1: every Joypad 1 mapping is removed, then
/// each row of the layout is upserted in order (an unknown key only clears
/// Joypad 1).
pub fn apply_preset(cfg: &mut GpioConfig, key: &str)
    ensures
        exists|rows: Seq<DeviceRow>|
            #![trigger fields_of(rows)]
            fields_of(rows) == preset_rows_spec(key@) && final(cfg).devices@ == upsert_rows(
                old(cfg).devices@.filter(|r: DeviceRow| r.device@ != "Joypad 1"@),
                rows,
            ),
        final(cfg).version == old(cfg).version,
        final(cfg).daemon == old(cfg).daemon,
        final(cfg).i2c == old(cfg).i2c,
{
    delete_device(cfg, "Joypad 1");
    let ghost base = cfg.devices@;
    let mut rows = get_preset_rows(key);
    let ghost all = rows@;
    let ghost mut k: int = 0;
    assert(all.skip(0) =~= all);
    while rows.len() > 0
        invariant
            0 <= k <= all.len(),
            fields_of(all) == preset_rows_spec(key@),
            rows@ == all.skip(k),
            base == old(cfg).devices@.filter(|r: DeviceRow| r.device@ != "Joypad 1"@),
            cfg.devices@ == upsert_rows(base, all.take(k)),
            cfg.version == old(cfg).version,
            cfg.daemon == old(cfg).daemon,
            cfg.i2c == old(cfg).i2c,
        decreases rows@.len(),
    {
        assert(all.take(k + 1).drop_last() =~= all.take(k));
        assert(all.take(k + 1).last() == all[k]);
        let row = rows.remove(0);
        assert(rows@ =~= all.skip(k + 1));
        upsert_mapping(cfg, row);
        proof {
            k = k + 1;
        }
    }
    assert(all.take(k) =~= all);
}

proof fn lemma_filter_all_kept(s: Seq<DeviceRow>, pred: spec_fn(DeviceRow) -> bool)
    requires
        forall|i: int| 0 <= i < s.len() ==> pred(#[trigger] s[i]),
    ensures
        s.filter(pred) == s,
    decreases s.len(),
{
    reveal(Seq::filter);
    if s.len() > 0 {
        lemma_filter_all_kept(s.drop_last(), pred);
        assert(pred(s[s.len() - 1]));
        assert(s.drop_last().push(s.last()) =~= s);
    }
}

proof fn lemma_filter_push_out(s: Seq<DeviceRow>, x: DeviceRow, pred: spec_fn(DeviceRow) -> bool)
    requires
        !pred(x),
    ensures
        s.push(x).filter(pred) == s.filter(pred),
{
    reveal(Seq::filter);
    assert(s.push(x).drop_last() =~= s);
    assert(s.push(x).last() == x);
}

proof fn lemma_filter_update_out(s: Seq<DeviceRow>, k: int, x: DeviceRow, pred: spec_fn(DeviceRow) -> bool)
    requires
        0 <= k < s.len(),
        !pred(s[k]),
        !pred(x),
    ensures
        s.update(k, x).filter(pred) == s.filter(pred),
    decreases s.len(),
{
    reveal(Seq::filter);
    if k == s.len() - 1 {
        assert(s.update(k, x).drop_last() =~= s.drop_last());
        assert(s.update(k, x).last() == x);
        assert(s.last() == s[k]);
    } else {
        lemma_filter_update_out(s.drop_last(), k, x, pred);
        assert(s.update(k, x).drop_last() =~= s.drop_last().update(k, x));
        assert(s.update(k, x).last() == s.last());
    }
}

/// Upserting rows of one device never touches the rows of other devices.
pub proof fn lemma_upsert_rows_keeps_others(table: Seq<DeviceRow>, rows: Seq<DeviceRow>, d: Seq<char>)
    requires
        forall|i: int| 0 <= i < rows.len() ==> (#[trigger] rows[i]).device@ == d,
    ensures
        upsert_rows(table, rows).filter(|r: DeviceRow| r.device@ != d) == table.filter(
            |r: DeviceRow| r.device@ != d,
        ),
    decreases rows.len(),
{
    let pred = |r: DeviceRow| r.device@ != d;
    if rows.len() > 0 {
        let prev = rows.drop_last();
        assert forall|i: int| 0 <= i < prev.len() implies (#[trigger] prev[i]).device@ == d by {
            assert(prev[i] == rows[i]);
        }
        lemma_upsert_rows_keeps_others(table, prev, d);
        let t = upsert_rows(table, prev);
        let row = rows.last();
        assert(row.device@ == d) by {
            assert(rows[rows.len() - 1] == row);
        }
        let k = key_index(t, row.device@, row.name@);
        crate::config::lemma_key_index_from(t, row.device@, row.name@, 0);
        if k >= 0 {
            lemma_filter_update_out(t, k, row, pred);
        } else {
            lemma_filter_push_out(t, row, pred);
        }
    }
}

proof fn lemma_preset_rows_device(key: Seq<char>)
    ensures
        forall|i: int|
            0 <= i < preset_rows_spec(key).len() ==> (#[trigger] preset_rows_spec(key)[i]).0
                == "Joypad 1"@,
{
}

/// Loading a layout only changes Joypad 1: the mappings of every other
/// device stay as they were, in the same order.
pub proof fn lemma_preset_keeps_other_devices(table: Seq<DeviceRow>, rows: Seq<DeviceRow>, key: Seq<char>)
    requires
        fields_of(rows) == preset_rows_spec(key),
    ensures
        upsert_rows(table.filter(|r: DeviceRow| r.device@ != "Joypad 1"@), rows).filter(
            |r: DeviceRow| r.device@ != "Joypad 1"@,
        ) == table.filter(|r: DeviceRow| r.device@ != "Joypad 1"@),
{
    let pred = |r: DeviceRow| r.device@ != "Joypad 1"@;
    lemma_preset_rows_device(key);
    assert forall|i: int| 0 <= i < rows.len() implies (#[trigger] rows[i]).device@ == "Joypad 1"@ by {
        assert(fields_of(rows)[i] == fields(rows[i]));
    }
    let base = table.filter(pred);
    lemma_upsert_rows_keeps_others(base, rows, "Joypad 1"@);
    let d = "Joypad 1"@;
    assert((|r: DeviceRow| r.device@ != d) =~= pred);
    assert(upsert_rows(base, rows).filter(pred) == base.filter(pred));
    assert forall|i: int| 0 <= i < base.len() implies pred(#[trigger] base[i]) by {
        table.lemma_filter_pred(pred, i);
    }
    lemma_filter_all_kept(base, pred);
}

// ---------------------------------------------------------------------------
// Shape of the layouts
// ---------------------------------------------------------------------------

proof fn lemma_preset_keys_distinct()
    ensures
        "adafruit_bonnet"@ != "pimoroni_picade"@,
        "adafruit_bonnet"@ != "generic_nes"@,
        "pimoroni_picade"@ != "generic_nes"@,
{
    reveal_strlit("adafruit_bonnet");
    reveal_strlit("pimoroni_picade");
    reveal_strlit("generic_nes");
    assert("adafruit_bonnet"@[0] != "pimoroni_picade"@[0]);
}

/// Whether `key` names one of the built-in layouts.
pub open spec fn is_preset_key(key: Seq<char>) -> bool {
    key == "adafruit_bonnet"@ || key == "pimoroni_picade"@ || key == "generic_nes"@
}

/// The BOARD pin of each row of a layout, in row order.
pub open spec fn preset_pins(key: Seq<char>) -> Seq<u8> {
    if key == "adafruit_bonnet"@ {
        seq![11u8, 13, 29, 31, 7, 15, 33, 35, 37, 16]
    } else if key == "pimoroni_picade"@ {
        seq![29u8, 31, 33, 35, 7, 11, 13, 15, 16, 18, 36, 38, 40]
    } else if key == "generic_nes"@ {
        seq![11u8, 13, 15, 19, 21, 23, 29, 31]
    } else {
        Seq::empty()
    }
}

/// A layout name told apart from the others by its length and last
/// character.
pub open spec fn name_sig(n: Seq<char>) -> (nat, char) {
    (n.len(), n[n.len() - 1])
}

spec fn adafruit_rank(sig: (nat, char)) -> int {
    if sig == (9nat, 'P') {
        0
    } else if sig == (11nat, 'N') {
        1
    } else if sig == (11nat, 'T') {
        2
    } else if sig == (12nat, 'T') {
        3
    } else if sig == (8nat, 'A') {
        4
    } else if sig == (8nat, 'B') {
        5
    } else if sig == (8nat, 'X') {
        6
    } else if sig == (8nat, 'Y') {
        7
    } else if sig == (12nat, 'n') {
        8
    } else if sig == (13nat, 'n') {
        9
    } else {
        -1
    }
}

spec fn adafruit_pin_rank(p: u8) -> int {
    match p {
        11u8 => 0,
        13u8 => 1,
        29u8 => 2,
        31u8 => 3,
        7u8 => 4,
        15u8 => 5,
        33u8 => 6,
        35u8 => 7,
        37u8 => 8,
        16u8 => 9,
        _ => -1,
    }
}

proof fn lemma_adafruit_row(i: int)
    requires
        0 <= i < preset_rows_spec("adafruit_bonnet"@).len(),
    ensures
        preset_rows_spec("adafruit_bonnet"@).len() == 10,
        preset_pins("adafruit_bonnet"@).len() == 10,
        adafruit_rank(name_sig(preset_rows_spec("adafruit_bonnet"@)[i].1)) == i,
        adafruit_pin_rank(preset_pins("adafruit_bonnet"@)[i]) == i,
        preset_rows_spec("adafruit_bonnet"@)[i].0 == "Joypad 1"@,
        preset_rows_spec("adafruit_bonnet"@)[i].4 == dec_chars(preset_pins("adafruit_bonnet"@)[i] as nat),
        crate::constants::pins_modern().contains(preset_pins("adafruit_bonnet"@)[i]),
{
    lemma_preset_keys_distinct();
    let r = preset_rows_spec("adafruit_bonnet"@);
    let p = preset_pins("adafruit_bonnet"@);
    let m = crate::constants::pins_modern();
        if i == 0 {
            reveal_strlit("DPAD 1");
            reveal_strlit(" UP");
            assert(r[0].1.len() == 9);
            assert(p[0] == 11u8);
            assert(m[3] == 11u8);
        } else if i == 1 {
            reveal_strlit("DPAD 1");
            reveal_strlit(" DOWN");
            assert(r[1].1.len() == 11);
            assert(p[1] == 13u8);
            assert(m[4] == 13u8);
        } else if i == 2 {
            reveal_strlit("DPAD 1");
            reveal_strlit(" LEFT");
            assert(r[2].1.len() == 11);
            assert(p[2] == 29u8);
            assert(m[9] == 29u8);
        } else if i == 3 {
            reveal_strlit("DPAD 1");
            reveal_strlit(" RIGHT");
            assert(r[3].1.len() == 12);
            assert(p[3] == 31u8);
            assert(m[10] == 31u8);
        } else if i == 4 {
            reveal_strlit("Button A");
            assert(r[4].1.len() == 8);
            assert(p[4] == 7u8);
            assert(m[2] == 7u8);
        } else if i == 5 {
            reveal_strlit("Button B");
            assert(r[5].1.len() == 8);
            assert(p[5] == 15u8);
            assert(m[5] == 15u8);
        } else if i == 6 {
            reveal_strlit("Button X");
            assert(r[6].1.len() == 8);
            assert(p[6] == 33u8);
            assert(m[11] == 33u8);
        } else if i == 7 {
            reveal_strlit("Button Y");
            assert(r[7].1.len() == 8);
            assert(p[7] == 35u8);
            assert(m[12] == 35u8);
        } else if i == 8 {
            reveal_strlit("Start Button");
            assert(r[8].1.len() == 12);
            assert(p[8] == 37u8);
            assert(m[13] == 37u8);
        } else if i == 9 {
            reveal_strlit("Select Button");
            assert(r[9].1.len() == 13);
            assert(p[9] == 16u8);
            assert(m[17] == 16u8);
        }
}

spec fn picade_rank(sig: (nat, char)) -> int {
    if sig == (9nat, 'P') {
        0
    } else if sig == (11nat, 'N') {
        1
    } else if sig == (11nat, 'T') {
        2
    } else if sig == (12nat, 'T') {
        3
    } else if sig == (8nat, 'A') {
        4
    } else if sig == (8nat, 'B') {
        5
    } else if sig == (8nat, 'X') {
        6
    } else if sig == (8nat, 'Y') {
        7
    } else if sig == (21nat, '1') {
        8
    } else if sig == (22nat, '1') {
        9
    } else if sig == (12nat, 'n') {
        10
    } else if sig == (13nat, 'n') {
        11
    } else if sig == (16nat, '1') {
        12
    } else {
        -1
    }
}

spec fn picade_pin_rank(p: u8) -> int {
    match p {
        29u8 => 0,
        31u8 => 1,
        33u8 => 2,
        35u8 => 3,
        7u8 => 4,
        11u8 => 5,
        13u8 => 6,
        15u8 => 7,
        16u8 => 8,
        18u8 => 9,
        36u8 => 10,
        38u8 => 11,
        40u8 => 12,
        _ => -1,
    }
}

proof fn lemma_picade_row(i: int)
    requires
        0 <= i < preset_rows_spec("pimoroni_picade"@).len(),
    ensures
        preset_rows_spec("pimoroni_picade"@).len() == 13,
        preset_pins("pimoroni_picade"@).len() == 13,
        picade_rank(name_sig(preset_rows_spec("pimoroni_picade"@)[i].1)) == i,
        picade_pin_rank(preset_pins("pimoroni_picade"@)[i]) == i,
        preset_rows_spec("pimoroni_picade"@)[i].0 == "Joypad 1"@,
        preset_rows_spec("pimoroni_picade"@)[i].4 == dec_chars(preset_pins("pimoroni_picade"@)[i] as nat),
        crate::constants::pins_modern().contains(preset_pins("pimoroni_picade"@)[i]),
{
    lemma_preset_keys_distinct();
    let r = preset_rows_spec("pimoroni_picade"@);
    let p = preset_pins("pimoroni_picade"@);
    let m = crate::constants::pins_modern();
        if i == 0 {
            reveal_strlit("DPAD 1");
            reveal_strlit(" UP");
            assert(r[0].1.len() == 9);
            assert(p[0] == 29u8);
            assert(m[9] == 29u8);
        } else if i == 1 {
            reveal_strlit("DPAD 1");
            reveal_strlit(" DOWN");
            assert(r[1].1.len() == 11);
            assert(p[1] == 31u8);
            assert(m[10] == 31u8);
        } else if i == 2 {
            reveal_strlit("DPAD 1");
            reveal_strlit(" LEFT");
            assert(r[2].1.len() == 11);
            assert(p[2] == 33u8);
            assert(m[11] == 33u8);
        } else if i == 3 {
            reveal_strlit("DPAD 1");
            reveal_strlit(" RIGHT");
            assert(r[3].1.len() == 12);
            assert(p[3] == 35u8);
            assert(m[12] == 35u8);
        } else if i == 4 {
            reveal_strlit("Button A");
            assert(r[4].1.len() == 8);
            assert(p[4] == 7u8);
            assert(m[2] == 7u8);
        } else if i == 5 {
            reveal_strlit("Button B");
            assert(r[5].1.len() == 8);
            assert(p[5] == 11u8);
            assert(m[3] == 11u8);
        } else if i == 6 {
            reveal_strlit("Button X");
            assert(r[6].1.len() == 8);
            assert(p[6] == 13u8);
            assert(m[4] == 13u8);
        } else if i == 7 {
            reveal_strlit("Button Y");
            assert(r[7].1.len() == 8);
            assert(p[7] == 15u8);
            assert(m[5] == 15u8);
        } else if i == 8 {
            reveal_strlit("Button Left Trigger 1");
            assert(r[8].1.len() == 21);
            assert(p[8] == 16u8);
            assert(m[17] == 16u8);
        } else if i == 9 {
            reveal_strlit("Button Right Trigger 1");
            assert(r[9].1.len() == 22);
            assert(p[9] == 18u8);
            assert(m[18] == 18u8);
        } else if i == 10 {
            reveal_strlit("Start Button");
            assert(r[10].1.len() == 12);
            assert(p[10] == 36u8);
            assert(m[23] == 36u8);
        } else if i == 11 {
            reveal_strlit("Select Button");
            assert(r[11].1.len() == 13);
            assert(p[11] == 38u8);
            assert(m[24] == 38u8);
        } else if i == 12 {
            reveal_strlit("Button Generic 1");
            assert(r[12].1.len() == 16);
            assert(p[12] == 40u8);
            assert(m[25] == 40u8);
        }
}

spec fn nes_rank(sig: (nat, char)) -> int {
    if sig == (9nat, 'P') {
        0
    } else if sig == (11nat, 'N') {
        1
    } else if sig == (11nat, 'T') {
        2
    } else if sig == (12nat, 'T') {
        3
    } else if sig == (8nat, 'A') {
        4
    } else if sig == (8nat, 'B') {
        5
    } else if sig == (12nat, 'n') {
        6
    } else if sig == (13nat, 'n') {
        7
    } else {
        -1
    }
}

spec fn nes_pin_rank(p: u8) -> int {
    match p {
        11u8 => 0,
        13u8 => 1,
        15u8 => 2,
        19u8 => 3,
        21u8 => 4,
        23u8 => 5,
        29u8 => 6,
        31u8 => 7,
        _ => -1,
    }
}

proof fn lemma_nes_row(i: int)
    requires
        0 <= i < preset_rows_spec("generic_nes"@).len(),
    ensures
        preset_rows_spec("generic_nes"@).len() == 8,
        preset_pins("generic_nes"@).len() == 8,
        nes_rank(name_sig(preset_rows_spec("generic_nes"@)[i].1)) == i,
        nes_pin_rank(preset_pins("generic_nes"@)[i]) == i,
        preset_rows_spec("generic_nes"@)[i].0 == "Joypad 1"@,
        preset_rows_spec("generic_nes"@)[i].4 == dec_chars(preset_pins("generic_nes"@)[i] as nat),
        crate::constants::pins_modern().contains(preset_pins("generic_nes"@)[i]),
{
    lemma_preset_keys_distinct();
    let r = preset_rows_spec("generic_nes"@);
    let p = preset_pins("generic_nes"@);
    let m = crate::constants::pins_modern();
        if i == 0 {
            reveal_strlit("DPAD 1");
            reveal_strlit(" UP");
            assert(r[0].1.len() == 9);
            assert(p[0] == 11u8);
            assert(m[3] == 11u8);
        } else if i == 1 {
            reveal_strlit("DPAD 1");
            reveal_strlit(" DOWN");
            assert(r[1].1.len() == 11);
            assert(p[1] == 13u8);
            assert(m[4] == 13u8);
        } else if i == 2 {
            reveal_strlit("DPAD 1");
            reveal_strlit(" LEFT");
            assert(r[2].1.len() == 11);
            assert(p[2] == 15u8);
            assert(m[5] == 15u8);
        } else if i == 3 {
            reveal_strlit("DPAD 1");
            reveal_strlit(" RIGHT");
            assert(r[3].1.len() == 12);
            assert(p[3] == 19u8);
            assert(m[6] == 19u8);
        } else if i == 4 {
            reveal_strlit("Button A");
            assert(r[4].1.len() == 8);
            assert(p[4] == 21u8);
            assert(m[7] == 21u8);
        } else if i == 5 {
            reveal_strlit("Button B");
            assert(r[5].1.len() == 8);
            assert(p[5] == 23u8);
            assert(m[8] == 23u8);
        } else if i == 6 {
            reveal_strlit("Start Button");
            assert(r[6].1.len() == 12);
            assert(p[6] == 29u8);
            assert(m[9] == 29u8);
        } else if i == 7 {
            reveal_strlit("Select Button");
            assert(r[7].1.len() == 13);
            assert(p[7] == 31u8);
            assert(m[10] == 31u8);
        }
}

/// Each built-in layout: 10, 13 or 8 rows, all on Joypad 1, with distinct
/// names, each bound to one BOARD pin of the 40-pin header, no pin twice.
pub proof fn lemma_preset_shape(key: Seq<char>)
    requires
        is_preset_key(key),
    ensures
        preset_rows_spec(key).len() == preset_pins(key).len(),
        preset_rows_spec(key).len() == if key == "adafruit_bonnet"@ {
            10int
        } else if key == "pimoroni_picade"@ {
            13int
        } else {
            8int
        },
        forall|i: int|
            0 <= i < preset_rows_spec(key).len() ==> (#[trigger] preset_rows_spec(key)[i]).0
                == "Joypad 1"@ && preset_rows_spec(key)[i].4 == dec_chars(
                preset_pins(key)[i] as nat,
            ) && crate::constants::pins_modern().contains(preset_pins(key)[i]),
        forall|i: int, j: int|
            0 <= i < preset_rows_spec(key).len() && 0 <= j < preset_rows_spec(key).len() && i != j
                ==> (#[trigger] preset_rows_spec(key)[i]).1 != (#[trigger] preset_rows_spec(key)[j]).1,
        preset_pins(key).no_duplicates(),
{
    lemma_preset_keys_distinct();
    let r = preset_rows_spec(key);
    let p = preset_pins(key);
    if key == "adafruit_bonnet"@ {
        lemma_adafruit_row(0);
    } else if key == "pimoroni_picade"@ {
        lemma_picade_row(0);
    } else {
        lemma_nes_row(0);
    }
    assert forall|i: int| 0 <= i < r.len() implies (#[trigger] r[i]).0 == "Joypad 1"@ && r[i].4
        == dec_chars(p[i] as nat) && crate::constants::pins_modern().contains(p[i]) by {
        if key == "adafruit_bonnet"@ {
            lemma_adafruit_row(i);
        } else if key == "pimoroni_picade"@ {
            lemma_picade_row(i);
        } else {
            lemma_nes_row(i);
        }
    }
    assert forall|i: int, j: int| 0 <= i < r.len() && 0 <= j < r.len() && i != j implies (
    #[trigger] r[i]).1 != (#[trigger] r[j]).1 by {
        if key == "adafruit_bonnet"@ {
            lemma_adafruit_row(i);
            lemma_adafruit_row(j);
        } else if key == "pimoroni_picade"@ {
            lemma_picade_row(i);
            lemma_picade_row(j);
        } else {
            lemma_nes_row(i);
            lemma_nes_row(j);
        }
    }
    assert forall|i: int, j: int| 0 <= i < p.len() && 0 <= j < p.len() && i != j implies p[i]
        != p[j] by {
        if key == "adafruit_bonnet"@ {
            lemma_adafruit_row(i);
            lemma_adafruit_row(j);
        } else if key == "pimoroni_picade"@ {
            lemma_picade_row(i);
            lemma_picade_row(j);
        } else {
            lemma_nes_row(i);
            lemma_nes_row(j);
        }
    }
}

/// Upserting rows of device `d` with distinct names into a table without
/// rows of `d` appends them.
proof fn lemma_upsert_fresh(base: Seq<DeviceRow>, rows: Seq<DeviceRow>, d: Seq<char>)
    requires
        forall|i: int| 0 <= i < base.len() ==> (#[trigger] base[i]).device@ != d,
        forall|i: int| 0 <= i < rows.len() ==> (#[trigger] rows[i]).device@ == d,
        forall|i: int, j: int|
            0 <= i < rows.len() && 0 <= j < rows.len() && i != j ==> (#[trigger] rows[i]).name@
                != (#[trigger] rows[j]).name@,
    ensures
        upsert_rows(base, rows) == base + rows,
    decreases rows.len(),
{
    if rows.len() == 0 {
        assert(base + rows =~= base);
    } else {
        let prev = rows.drop_last();
        assert forall|i: int| 0 <= i < prev.len() implies (#[trigger] prev[i]).device@ == d by {
            assert(prev[i] == rows[i]);
        }
        assert forall|i: int, j: int| 0 <= i < prev.len() && 0 <= j < prev.len() && i != j implies (
        #[trigger] prev[i]).name@ != (#[trigger] prev[j]).name@ by {
            assert(prev[i] == rows[i] && prev[j] == rows[j]);
        }
        lemma_upsert_fresh(base, prev, d);
        let t = base + prev;
        let row = rows.last();
        assert(row == rows[rows.len() - 1]);
        crate::config::lemma_key_index_from(t, row.device@, row.name@, 0);
        let k = key_index(t, row.device@, row.name@);
        if k >= 0 {
            if k < base.len() {
                assert(t[k] == base[k]);
            } else {
                assert(t[k] == rows[k - base.len()]);
            }
            assert(false);
        }
        assert(t.push(row) =~= base + rows);
    }
}

proof fn lemma_filter_none_kept(s: Seq<DeviceRow>, pred: spec_fn(DeviceRow) -> bool)
    requires
        forall|i: int| 0 <= i < s.len() ==> !pred(#[trigger] s[i]),
    ensures
        s.filter(pred) == Seq::<DeviceRow>::empty(),
    decreases s.len(),
{
    reveal(Seq::filter);
    if s.len() > 0 {
        lemma_filter_none_kept(s.drop_last(), pred);
        assert(!pred(s[s.len() - 1]));
    }
}

/// Loading a built-in layout leaves exactly its rows, in its order, as the
/// rows of Joypad 1, after the rows of the other devices.
pub proof fn lemma_preset_loads_exactly(table: Seq<DeviceRow>, rows: Seq<DeviceRow>, key: Seq<char>)
    requires
        is_preset_key(key),
        fields_of(rows) == preset_rows_spec(key),
    ensures
        upsert_rows(table.filter(|r: DeviceRow| r.device@ != "Joypad 1"@), rows) == table.filter(
            |r: DeviceRow| r.device@ != "Joypad 1"@,
        ) + rows,
        upsert_rows(table.filter(|r: DeviceRow| r.device@ != "Joypad 1"@), rows).filter(
            |r: DeviceRow| r.device@ == "Joypad 1"@,
        ) == rows,
{
    let d = "Joypad 1"@;
    let out = |r: DeviceRow| r.device@ != d;
    let inn = |r: DeviceRow| r.device@ == d;
    let base = table.filter(out);
    lemma_preset_shape(key);
    let spec_rows = preset_rows_spec(key);
    assert forall|i: int| 0 <= i < base.len() implies (#[trigger] base[i]).device@ != d by {
        table.lemma_filter_pred(out, i);
    }
    assert forall|i: int| 0 <= i < rows.len() implies (#[trigger] rows[i]).device@ == d by {
        assert(fields_of(rows)[i] == fields(rows[i]));
        assert(spec_rows[i].0 == d);
    }
    assert forall|i: int, j: int| 0 <= i < rows.len() && 0 <= j < rows.len() && i != j implies (
    #[trigger] rows[i]).name@ != (#[trigger] rows[j]).name@ by {
        assert(fields_of(rows)[i] == fields(rows[i]));
        assert(fields_of(rows)[j] == fields(rows[j]));
        assert(spec_rows[i].1 != spec_rows[j].1);
    }
    lemma_upsert_fresh(base, rows, d);
    assert((|r: DeviceRow| r.device@ != "Joypad 1"@) =~= out);
    assert((|r: DeviceRow| r.device@ == "Joypad 1"@) =~= inn);
    Seq::filter_distributes_over_add(base, rows, inn);
    lemma_filter_none_kept(base, inn);
    lemma_filter_all_kept(rows, inn);
    assert(Seq::<DeviceRow>::empty() + rows =~= rows);
}

} // verus!
