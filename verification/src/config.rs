//! The configuration model shared by the daemon and the configuration tool:
//! daemon settings, device mapping rows and I2C chip entries, with the
//! mapping table's editing operations and the pin-field notation.

use vstd::prelude::*;
use crate::text::{
    all_digits, chars_of, parse_hex_u8, parse_hex_u8_range, parse_u8, parse_u8_range, pieces_of,
    range_starts_with, split_on, split_range, starts_with, str_eq, string_of, string_of_range,
    strip_prefix_all, strip_prefix_all_range, trim, trim_by, trim_range, CharClass,
};

verus! {

// ---------------------------------------------------------------------------
// Types
// ---------------------------------------------------------------------------

/// The whole configuration file.
#[derive(Debug, Clone)]
pub struct GpioConfig {
    pub version: u32,
    pub daemon: DaemonSettings,
    pub devices: Vec<DeviceRow>,
    pub i2c: I2cConfig,
}

/// Runtime settings of the daemon.
#[derive(Debug, Clone)]
pub struct DaemonSettings {
    /// Combo window in milliseconds.
    pub combo_delay: u32,
    /// Key hold delay before auto-repeat, in milliseconds.
    pub key_hold_delay: u32,
    /// Debounce time in milliseconds.
    pub debounce: u32,
    /// `"default"` or a comma-separated list of BOARD pins.
    pub pins: String,
    pub pulldown: bool,
    pub dev: bool,
    pub debug: bool,
}

/// One mapping: a named action of a virtual device, bound to a pin field.
#[derive(Debug, Clone, PartialEq)]
pub struct DeviceRow {
    /// `"Joypad 1"` .. `"Joypad 4"`, `"Keyboard"` or `"Commands"`.
    pub device: String,
    /// Label of the action, unique per device.
    pub name: String,
    /// `BUTTON`, `KEY`, `AXIS` or `COMMAND`.
    pub event_type: String,
    /// evdev code, axis triple `"(type, code, value)"` or shell command.
    pub command: String,
    /// `"11"`, `"(11, 13)"` or an I2C pin id such as `"i2c-0x20-A0"`.
    pub pins: String,
}

/// Configured I2C chips.
#[derive(Debug, Clone)]
pub struct I2cConfig {
    pub mcp23017: Vec<Mcp23017Entry>,
    pub ads1115: Vec<Ads1115Entry>,
    pub pcf8574: Vec<Pcf8574Entry>,
}

#[derive(Debug, Clone)]
pub struct Mcp23017Entry {
    pub bus: u8,
    /// Hex string such as `"0x20"`.
    pub address: String,
    /// BOARD pin of the interrupt line, or `""`.
    pub int_pin: String,
}

#[derive(Debug, Clone)]
pub struct Ads1115Entry {
    pub bus: u8,
    pub address: String,
}

#[derive(Debug, Clone)]
pub struct Pcf8574Entry {
    pub bus: u8,
    pub address: String,
    pub int_pin: String,
}

impl Default for DaemonSettings {
    fn default() -> (s: Self)
        ensures
            s.combo_delay == 50,
            s.key_hold_delay == 350,
            s.debounce == 1,
            s.pins@ == "default"@,
            !s.pulldown,
            !s.dev,
            !s.debug,
    {
        DaemonSettings {
            combo_delay: 50,
            key_hold_delay: 350,
            debounce: 1,
            pins: string_of("default"),
            pulldown: false,
            dev: false,
            debug: false,
        }
    }
}

impl Default for I2cConfig {
    fn default() -> (c: Self)
        ensures
            c.mcp23017@.len() == 0,
            c.ads1115@.len() == 0,
            c.pcf8574@.len() == 0,
    {
        I2cConfig { mcp23017: Vec::new(), ads1115: Vec::new(), pcf8574: Vec::new() }
    }
}

impl Default for GpioConfig {
    fn default() -> (c: Self)
        ensures
            c.version == 1,
            c.daemon.combo_delay == 50,
            c.daemon.key_hold_delay == 350,
            c.daemon.debounce == 1,
            c.daemon.pins@ == "default"@,
            !c.daemon.pulldown,
            !c.daemon.dev,
            !c.daemon.debug,
            c.devices@.len() == 0,
            c.i2c.mcp23017@.len() == 0,
            c.i2c.ads1115@.len() == 0,
            c.i2c.pcf8574@.len() == 0,
    {
        GpioConfig {
            version: 1,
            daemon: DaemonSettings::default(),
            devices: Vec::new(),
            i2c: I2cConfig::default(),
        }
    }
}

impl DeviceRow {
    pub fn new(device: &str, name: &str, event_type: &str, command: &str, pins: &str) -> (r: Self)
        ensures
            r.device@ == device@,
            r.name@ == name@,
            r.event_type@ == event_type@,
            r.command@ == command@,
            r.pins@ == pins@,
    {
        DeviceRow {
            device: string_of(device),
            name: string_of(name),
            event_type: string_of(event_type),
            command: string_of(command),
            pins: string_of(pins),
        }
    }
}

// ---------------------------------------------------------------------------
// Mapping table operations
// ---------------------------------------------------------------------------

/// A row carries the uniqueness key `(device, name)`.
pub open spec fn same_key(r: DeviceRow, device: Seq<char>, name: Seq<char>) -> bool {
    r.device@ == device && r.name@ == name
}

/// Index of the first row at or after `i` with the given key, or -1.
pub open spec fn key_index_from(rows: Seq<DeviceRow>, device: Seq<char>, name: Seq<char>, i: int) -> int
    decreases rows.len() - i,
{
    if i < 0 || i >= rows.len() {
        -1
    } else if same_key(rows[i], device, name) {
        i
    } else {
        key_index_from(rows, device, name, i + 1)
    }
}

/// Index of the first row with the given key, or -1.
pub open spec fn key_index(rows: Seq<DeviceRow>, device: Seq<char>, name: Seq<char>) -> int {
    key_index_from(rows, device, name, 0)
}

pub proof fn lemma_key_index_from(rows: Seq<DeviceRow>, device: Seq<char>, name: Seq<char>, i: int)
    requires
        0 <= i <= rows.len(),
    ensures
        ({
            let k = key_index_from(rows, device, name, i);
            (k == -1 && forall|j: int| i <= j < rows.len() ==> !same_key(#[trigger] rows[j], device, name))
            || (i <= k < rows.len() && same_key(rows[k], device, name)
                && forall|j: int| i <= j < k ==> !same_key(#[trigger] rows[j], device, name))
        }),
    decreases rows.len() - i,
{
    if i < rows.len() && !same_key(rows[i], device, name) {
        lemma_key_index_from(rows, device, name, i + 1);
    }
}

/// Position of the first row with the key `(device, name)`.
fn find_key(rows: &Vec<DeviceRow>, device: &String, name: &String) -> (r: Option<usize>)
    ensures
        match r {
            Some(k) => k == key_index(rows@, device@, name@),
            None => key_index(rows@, device@, name@) == -1,
        },
{
    let mut i: usize = 0;
    while i < rows.len()
        invariant
            i <= rows@.len(),
            key_index_from(rows@, device@, name@, i as int) == key_index(rows@, device@, name@),
        decreases rows@.len() - i,
    {
        if rows[i].device == *device && rows[i].name == *name {
            return Some(i);
        }
        i = i + 1;
    }
    None
}

/// Adds a mapping, or replaces the first one with the same `(device, name)`.
pub fn upsert_mapping(cfg: &mut GpioConfig, row: DeviceRow)
    ensures
        ({
            let k = key_index(old(cfg).devices@, row.device@, row.name@);
            &&& k >= 0 ==> final(cfg).devices@ == old(cfg).devices@.update(k, row)
            &&& k < 0 ==> final(cfg).devices@ == old(cfg).devices@.push(row)
        }),
        final(cfg).version == old(cfg).version,
        final(cfg).daemon == old(cfg).daemon,
        final(cfg).i2c == old(cfg).i2c,
{
    match find_key(&cfg.devices, &row.device, &row.name) {
        Some(k) => {
            proof {
                lemma_key_index_from(cfg.devices@, row.device@, row.name@, 0);
            }
            cfg.devices.set(k, row);
        },
        None => {
            cfg.devices.push(row);
        },
    }
}

/// Removes every mapping whose key is `(device, name)`.
pub fn delete_mapping(cfg: &mut GpioConfig, device: &str, name: &str)
    ensures
        final(cfg).devices@ == old(cfg).devices@.filter(
            |r: DeviceRow| !same_key(r, device@, name@),
        ),
        final(cfg).version == old(cfg).version,
        final(cfg).daemon == old(cfg).daemon,
        final(cfg).i2c == old(cfg).i2c,
{
    let ghost start = cfg.devices@;
    let ghost keep = |r: DeviceRow| !same_key(r, device@, name@);
    let mut i: usize = 0;
    let ghost mut j: int = 0;
    assert(start.take(0) =~= Seq::<DeviceRow>::empty());
    proof {
        reveal(Seq::filter);
    }
    while i < cfg.devices.len()
        invariant
            0 <= i <= j <= start.len(),
            cfg.devices@.len() - i == start.len() - j,
            cfg.devices@.take(i as int) == start.take(j).filter(keep),
            cfg.devices@.skip(i as int) == start.skip(j),
            cfg.version == old(cfg).version,
            cfg.daemon == old(cfg).daemon,
            cfg.i2c == old(cfg).i2c,
            start == old(cfg).devices@,
            keep == (|r: DeviceRow| !same_key(r, device@, name@)),
        decreases cfg.devices@.len() - i,
    {
        let ghost cur = cfg.devices@;
        assert(cur.skip(i as int)[0] == cur[i as int]);
        assert(start.skip(j)[0] == start[j]);
        assert(cur[i as int] == start[j]);
        assert(cur.skip(i as int + 1) =~= cur.skip(i as int).drop_first());
        assert(start.skip(j + 1) =~= start.skip(j).drop_first());
        assert(start.take(j + 1).drop_last() =~= start.take(j));
        assert(start.take(j + 1).last() == start[j]);
        proof {
            reveal(Seq::filter);
        }
        let drop = str_eq(cfg.devices[i].device.as_str(), device) && str_eq(
            cfg.devices[i].name.as_str(),
            name,
        );
        if drop {
            cfg.devices.remove(i);
            assert(cfg.devices@.take(i as int) =~= cur.take(i as int));
            assert(cfg.devices@.skip(i as int) =~= start.skip(j + 1));
        } else {
            i = i + 1;
            assert(cfg.devices@.take(i as int) =~= cur.take(i - 1).push(cur[i - 1]));
            assert(cfg.devices@.skip(i as int) =~= start.skip(j + 1));
        }
        proof {
            j = j + 1;
        }
    }
    proof {
        assert(cfg.devices@.skip(i as int).len() == 0);
        assert(j == start.len());
        assert(cfg.devices@.take(i as int) =~= cfg.devices@);
        assert(start.take(j) =~= start);
    }
}

/// Removes every mapping that belongs to `device`.
pub fn delete_device(cfg: &mut GpioConfig, device: &str)
    ensures
        final(cfg).devices@ == old(cfg).devices@.filter(|r: DeviceRow| r.device@ != device@),
        final(cfg).version == old(cfg).version,
        final(cfg).daemon == old(cfg).daemon,
        final(cfg).i2c == old(cfg).i2c,
{
    let ghost start = cfg.devices@;
    let ghost keep = |r: DeviceRow| r.device@ != device@;
    let mut i: usize = 0;
    let ghost mut j: int = 0;
    assert(start.take(0) =~= Seq::<DeviceRow>::empty());
    proof {
        reveal(Seq::filter);
    }
    while i < cfg.devices.len()
        invariant
            0 <= i <= j <= start.len(),
            cfg.devices@.len() - i == start.len() - j,
            cfg.devices@.take(i as int) == start.take(j).filter(keep),
            cfg.devices@.skip(i as int) == start.skip(j),
            cfg.version == old(cfg).version,
            cfg.daemon == old(cfg).daemon,
            cfg.i2c == old(cfg).i2c,
            start == old(cfg).devices@,
            keep == (|r: DeviceRow| r.device@ != device@),
        decreases cfg.devices@.len() - i,
    {
        let ghost cur = cfg.devices@;
        assert(cur.skip(i as int)[0] == cur[i as int]);
        assert(start.skip(j)[0] == start[j]);
        assert(cur[i as int] == start[j]);
        assert(cur.skip(i as int + 1) =~= cur.skip(i as int).drop_first());
        assert(start.skip(j + 1) =~= start.skip(j).drop_first());
        assert(start.take(j + 1).drop_last() =~= start.take(j));
        assert(start.take(j + 1).last() == start[j]);
        proof {
            reveal(Seq::filter);
        }
        if str_eq(cfg.devices[i].device.as_str(), device) {
            cfg.devices.remove(i);
            assert(cfg.devices@.take(i as int) =~= cur.take(i as int));
            assert(cfg.devices@.skip(i as int) =~= start.skip(j + 1));
        } else {
            i = i + 1;
            assert(cfg.devices@.take(i as int) =~= cur.take(i - 1).push(cur[i - 1]));
            assert(cfg.devices@.skip(i as int) =~= start.skip(j + 1));
        }
        proof {
            j = j + 1;
        }
    }
    proof {
        assert(cfg.devices@.skip(i as int).len() == 0);
        assert(j == start.len());
        assert(cfg.devices@.take(i as int) =~= cfg.devices@);
        assert(start.take(j) =~= start);
    }
}

/// All mappings of `device`, in table order.
pub fn get_device_rows<'a>(cfg: &'a GpioConfig, device: &str) -> (r: Vec<&'a DeviceRow>)
    ensures
        r@.map_values(|x: &DeviceRow| *x) == cfg.devices@.filter(
            |x: DeviceRow| x.device@ == device@,
        ),
{
    let ghost keep = |x: DeviceRow| x.device@ == device@;
    let mut r: Vec<&'a DeviceRow> = Vec::new();
    let mut i: usize = 0;
    proof {
        reveal(Seq::filter);
    }
    assert(cfg.devices@.take(0) =~= Seq::<DeviceRow>::empty());
    assert(r@.map_values(|x: &DeviceRow| *x) =~= Seq::<DeviceRow>::empty());
    while i < cfg.devices.len()
        invariant
            i <= cfg.devices@.len(),
            r@.map_values(|x: &DeviceRow| *x) == cfg.devices@.take(i as int).filter(keep),
            keep == (|x: DeviceRow| x.device@ == device@),
        decreases cfg.devices@.len() - i,
    {
        proof {
            reveal(Seq::filter);
        }
        assert(cfg.devices@.take(i + 1).drop_last() =~= cfg.devices@.take(i as int));
        assert(cfg.devices@.take(i + 1).last() == cfg.devices@[i as int]);
        let ghost before = r@;
        if str_eq(cfg.devices[i].device.as_str(), device) {
            r.push(&cfg.devices[i]);
            assert(r@.map_values(|x: &DeviceRow| *x) =~= before.map_values(
                |x: &DeviceRow| *x,
            ).push(cfg.devices@[i as int]));
        }
        i = i + 1;
    }
    assert(cfg.devices@.take(i as int) =~= cfg.devices@);
    r
}

/// Device names in order of first appearance, each once.
pub open spec fn distinct_devices(rows: Seq<DeviceRow>) -> Seq<Seq<char>>
    decreases rows.len(),
{
    if rows.len() == 0 {
        Seq::empty()
    } else {
        let prev = distinct_devices(rows.drop_last());
        if prev.contains(rows.last().device@) {
            prev
        } else {
            prev.push(rows.last().device@)
        }
    }
}

/// The names of the devices that have at least one mapping, each once, in
/// order of first appearance.
pub fn active_devices(cfg: &GpioConfig) -> (r: Vec<String>)
    ensures
        r@.map_values(|s: String| s@) == distinct_devices(cfg.devices@),
{
    let mut r: Vec<String> = Vec::new();
    let mut i: usize = 0;
    assert(cfg.devices@.take(0) =~= Seq::<DeviceRow>::empty());
    assert(r@.map_values(|s: String| s@) =~= Seq::<Seq<char>>::empty());
    while i < cfg.devices.len()
        invariant
            i <= cfg.devices@.len(),
            r@.map_values(|s: String| s@) == distinct_devices(cfg.devices@.take(i as int)),
        decreases cfg.devices@.len() - i,
    {
        let ghost seen = r@.map_values(|s: String| s@);
        assert(cfg.devices@.take(i + 1).drop_last() =~= cfg.devices@.take(i as int));
        assert(cfg.devices@.take(i + 1).last() == cfg.devices@[i as int]);
        let mut found = false;
        let mut k: usize = 0;
        while k < r.len()
            invariant
                k <= r@.len(),
                seen == r@.map_values(|s: String| s@),
                i < cfg.devices@.len(),
                found ==> seen.contains(cfg.devices@[i as int].device@),
                !found ==> forall|m: int| 0 <= m < k ==> seen[m] != cfg.devices@[i as int].device@,
            decreases r@.len() - k,
        {
            if r[k] == cfg.devices[i].device {
                found = true;
                assert(seen[k as int] == cfg.devices@[i as int].device@);
            }
            k = k + 1;
        }
        if found {
            assert(seen.contains(cfg.devices@[i as int].device@));
        } else {
            assert(!seen.contains(cfg.devices@[i as int].device@));
            r.push(cfg.devices[i].device.clone());
            assert(r@.map_values(|s: String| s@) =~= seen.push(cfg.devices@[i as int].device@));
        }
        i = i + 1;
    }
    assert(cfg.devices@.take(i as int) =~= cfg.devices@);
    r
}

/// Each device name occurs once in `distinct_devices`, and exactly the
/// devices of the table occur there.
pub proof fn lemma_distinct_devices(rows: Seq<DeviceRow>)
    ensures
        forall|a: int, b: int|
            0 <= a < b < distinct_devices(rows).len() ==> distinct_devices(rows)[a]
                != distinct_devices(rows)[b],
        forall|d: Seq<char>|
            distinct_devices(rows).contains(d) <==> exists|i: int|
                0 <= i < rows.len() && (#[trigger] rows[i]).device@ == d,
    decreases rows.len(),
{
    if rows.len() > 0 {
        let prev = distinct_devices(rows.drop_last());
        lemma_distinct_devices(rows.drop_last());
        assert forall|d: Seq<char>|
            distinct_devices(rows).contains(d) implies exists|i: int|
                0 <= i < rows.len() && (#[trigger] rows[i]).device@ == d by {
            if prev.contains(d) {
                let i = choose|i: int|
                    0 <= i < rows.drop_last().len() && (#[trigger] rows.drop_last()[i]).device@
                        == d;
                assert(rows[i] == rows.drop_last()[i]);
            } else {
                assert(rows[rows.len() - 1] == rows.last());
            }
        }
        assert forall|d: Seq<char>|
            (exists|i: int| 0 <= i < rows.len() && (#[trigger] rows[i]).device@ == d) implies
            distinct_devices(rows).contains(d) by {
            let i = choose|i: int| 0 <= i < rows.len() && (#[trigger] rows[i]).device@ == d;
            if i < rows.len() - 1 {
                assert(rows.drop_last()[i] == rows[i]);
                assert(prev.contains(d));
                if !prev.contains(rows.last().device@) {
                    let k = choose|k: int| 0 <= k < prev.len() && prev[k] == d;
                    assert(prev.push(rows.last().device@)[k] == d);
                }
            } else {
                if !prev.contains(d) {
                    assert(distinct_devices(rows)[prev.len() as int] == d);
                }
            }
        }
    }
}

// ---------------------------------------------------------------------------
// Pin field notation
// ---------------------------------------------------------------------------

/// A parsed pin field.
#[derive(Debug, Clone, PartialEq)]
pub enum PinSpec {
    Single(u8),
    Combo(Vec<u8>),
    I2c(String),
}

/// The mathematical value of a `PinSpec`.
pub enum PinSpecView {
    Single(u8),
    Combo(Seq<u8>),
    I2c(Seq<char>),
}

impl View for PinSpec {
    type V = PinSpecView;

    open spec fn view(&self) -> PinSpecView {
        match self {
            PinSpec::Single(n) => PinSpecView::Single(*n),
            PinSpec::Combo(v) => PinSpecView::Combo(v@),
            PinSpec::I2c(s) => PinSpecView::I2c(s@),
        }
    }
}

/// The numbers among comma-separated pieces: each piece is trimmed and kept
/// when it parses as a `u8`.
pub open spec fn pin_numbers(pieces: Seq<Seq<char>>) -> Seq<u8>
    decreases pieces.len(),
{
    if pieces.len() == 0 {
        Seq::empty()
    } else {
        let prev = pin_numbers(pieces.drop_last());
        match parse_u8(trim(pieces.last())) {
            Some(n) => prev.push(n),
            None => prev,
        }
    }
}

/// The pins of a combo field `"(a, b, ...)"`: parentheses stripped from both
/// ends, then the numeric pieces between commas.
pub open spec fn combo_pins(t: Seq<char>) -> Seq<u8> {
    pin_numbers(split_on(trim_by(t, CharClass::Paren), ','))
}

/// How the configuration tool reads a pin field.
pub open spec fn parse_pins_spec(s: Seq<char>) -> PinSpecView {
    let t = trim(s);
    if starts_with(t, "i2c-"@) {
        PinSpecView::I2c(t)
    } else if starts_with(t, "("@) {
        let nums = combo_pins(t);
        if nums.len() == 1 {
            PinSpecView::Single(nums[0])
        } else {
            PinSpecView::Combo(nums)
        }
    } else {
        match parse_u8(t) {
            Some(n) => PinSpecView::Single(n),
            None => PinSpecView::I2c(t),
        }
    }
}

/// The numbers among the pieces `ranges` of `v`.
fn parse_pin_pieces(v: &Vec<char>, ranges: &Vec<(usize, usize)>) -> (r: Vec<u8>)
    requires
        forall|k: int| 0 <= k < ranges@.len() ==> #[trigger] ranges@[k].0 <= ranges@[k].1 <= v@.len(),
    ensures
        r@ == pin_numbers(pieces_of(v@, ranges@)),
{
    let ghost pieces = pieces_of(v@, ranges@);
    let mut r: Vec<u8> = Vec::new();
    let mut k: usize = 0;
    assert(pieces.take(0) =~= Seq::<Seq<char>>::empty());
    while k < ranges.len()
        invariant
            k <= ranges@.len(),
            pieces == pieces_of(v@, ranges@),
            forall|m: int| 0 <= m < ranges@.len() ==> #[trigger] ranges@[m].0 <= ranges@[m].1 <= v@.len(),
            r@ == pin_numbers(pieces.take(k as int)),
        decreases ranges@.len() - k,
    {
        let (a, b) = ranges[k];
        assert(pieces.take(k + 1).drop_last() =~= pieces.take(k as int));
        assert(pieces.take(k + 1).last() == v@.subrange(a as int, b as int));
        let (x, y) = trim_range(v, a, b, CharClass::Whitespace);
        match parse_u8_range(v, x, y) {
            Some(n) => {
                r.push(n);
            },
            None => {},
        }
        k = k + 1;
    }
    assert(pieces.take(k as int) =~= pieces);
    r
}

/// The pins of the combo field `v[lo..hi]`.
fn combo_pins_range(v: &Vec<char>, lo: usize, hi: usize) -> (r: Vec<u8>)
    requires
        lo <= hi <= v@.len(),
    ensures
        r@ == combo_pins(v@.subrange(lo as int, hi as int)),
{
    let (a, b) = trim_range(v, lo, hi, CharClass::Paren);
    let ranges = split_range(v, a, b, ',');
    parse_pin_pieces(v, &ranges)
}

/// Parses a pin field: `"11"` is a single pin, `"(11, 13)"` a combo and
/// `"i2c-0x20-A0"` an I2C pin id; anything else is kept as an I2C id.
pub fn parse_pins(s: &str) -> (r: PinSpec)
    ensures
        r@ == parse_pins_spec(s@),
{
    let v = chars_of(s);
    let (lo, hi) = trim_range(&v, 0, v.len(), CharClass::Whitespace);
    assert(v@.subrange(0, v@.len() as int) =~= s@);
    if range_starts_with(&v, lo, hi, "i2c-") {
        return PinSpec::I2c(string_of_range(&v, lo, hi));
    }
    if range_starts_with(&v, lo, hi, "(") {
        let nums = combo_pins_range(&v, lo, hi);
        if nums.len() == 1 {
            return PinSpec::Single(nums[0]);
        }
        return PinSpec::Combo(nums);
    }
    match parse_u8_range(&v, lo, hi) {
        Some(n) => PinSpec::Single(n),
        None => PinSpec::I2c(string_of_range(&v, lo, hi)),
    }
}

pub open spec fn checked_u8(x: int) -> Option<u8> {
    if 0 <= x <= 255 {
        Some(x as u8)
    } else {
        None
    }
}

/// `a.saturating_sub(b)`.
pub open spec fn sat_sub(a: u8, b: u8) -> int {
    if a >= b {
        a - b
    } else {
        0
    }
}

/// `a.saturating_mul(k)` for `u8` operands.
pub open spec fn sat_mul(a: int, k: int) -> int {
    if a * k <= 255 {
        a * k
    } else {
        255
    }
}

/// The virtual pin of the label part of an I2C pin id on the chip at `addr`:
/// `A<bit>`/`B<bit>` (MCP23017), `ch<n>` (ADS1115) or `P<n>` (PCF8574),
/// `None` when the label is malformed or the result does not fit in a `u8`.
pub open spec fn i2c_label_vpin(addr: u8, label: Seq<char>) -> Option<u8> {
    if label.len() > 0 && (label[0] == 'A' || label[0] == 'B') {
        match parse_u8(label.drop_first()) {
            None => None,
            Some(bit) => checked_u8(
                64 + sat_mul(sat_sub(addr, 0x20), 16) + (if label[0] == 'A' {
                    0int
                } else {
                    8int
                }) + bit,
            ),
        }
    } else if starts_with(label, "ch"@) {
        match parse_u8(label.skip(2)) {
            None => None,
            Some(ch) => checked_u8(128 + sat_mul(sat_sub(addr, 0x48), 4) + ch),
        }
    } else if label.len() > 0 && label[0] == 'P' {
        match parse_u8(label.drop_first()) {
            None => None,
            Some(pin) => checked_u8(192 + sat_mul(sat_sub(addr, 0x20), 8) + pin),
        }
    } else {
        None
    }
}

/// The virtual pin of an I2C pin id `"i2c-0xAA-LABEL"`.
pub open spec fn i2c_vpin_spec(id: Seq<char>) -> Option<u8> {
    let parts = split_on(id, '-');
    if parts.len() < 3 {
        None
    } else {
        match parse_hex_u8(strip_prefix_all(parts[1], "0x"@)) {
            None => None,
            Some(addr) => i2c_label_vpin(addr, parts[2]),
        }
    }
}

fn sat_offset(addr: u8, base: u8, k: u32) -> (r: u32)
    requires
        1 <= k <= 16,
    ensures
        r == sat_mul(sat_sub(addr, base), k as int),
        r <= 255,
{
    let off: u32 = if addr >= base {
        (addr - base) as u32
    } else {
        0
    };
    assert(off * k <= 4080) by (nonlinear_arith)
        requires
            off <= 255,
            k <= 16,
    ;
    let m = off * k;
    if m <= 255 {
        m
    } else {
        255
    }
}

fn checked_sum(x: u32) -> (r: Option<u8>)
    ensures
        r == checked_u8(x as int),
{
    if x <= 255 {
        Some(x as u8)
    } else {
        None
    }
}

/// Parses an I2C pin id `"i2c-0xAA-{A|B}N"`, `"i2c-0xAA-chN"` or
/// `"i2c-0xAA-PN"` into its virtual pin number.
pub fn parse_i2c_vpin(id: &str) -> (r: Option<u8>)
    ensures
        r == i2c_vpin_spec(id@),
{
    let v = chars_of(id);
    assert(v@.subrange(0, v@.len() as int) =~= id@);
    let parts = split_range(&v, 0, v.len(), '-');
    let ghost pieces = pieces_of(v@, parts@);
    if parts.len() < 3 {
        return None;
    }
    let (a1, b1) = parts[1];
    assert(pieces[1] == v@.subrange(a1 as int, b1 as int));
    let s1 = strip_prefix_all_range(&v, a1, b1, "0x");
    let addr = match parse_hex_u8_range(&v, s1, b1) {
        Some(x) => x,
        None => {
            return None;
        },
    };
    let (a, b) = parts[2];
    let ghost label = v@.subrange(a as int, b as int);
    assert(pieces[2] == label);
    if a < b && (v[a] == 'A' || v[a] == 'B') {
        assert(label.drop_first() =~= v@.subrange(a + 1, b as int));
        let bit = match parse_u8_range(&v, a + 1, b) {
            Some(x) => x,
            None => {
                return None;
            },
        };
        let port: u32 = if v[a] == 'A' {
            0
        } else {
            8
        };
        checked_sum(64 + sat_offset(addr, 0x20, 16) + port + bit as u32)
    } else if range_starts_with(&v, a, b, "ch") {
        proof {
            reveal_strlit("ch");
        }
        assert(label.skip(2) =~= v@.subrange(a + 2, b as int));
        let ch = match parse_u8_range(&v, a + 2, b) {
            Some(x) => x,
            None => {
                return None;
            },
        };
        checked_sum(128 + sat_offset(addr, 0x48, 4) + ch as u32)
    } else if a < b && v[a] == 'P' {
        assert(label.drop_first() =~= v@.subrange(a + 1, b as int));
        let pin = match parse_u8_range(&v, a + 1, b) {
            Some(x) => x,
            None => {
                return None;
            },
        };
        checked_sum(192 + sat_offset(addr, 0x20, 8) + pin as u32)
    } else {
        None
    }
}

/// The single virtual pin (0-255) that a pin field names, if it names one.
pub open spec fn pin_to_vpin_spec(s: Seq<char>) -> Option<u8> {
    match parse_pins_spec(s) {
        PinSpecView::Single(n) => Some(n),
        PinSpecView::I2c(id) => i2c_vpin_spec(id),
        PinSpecView::Combo(_) => None,
    }
}

/// Maps a pin field to its virtual pin number: BOARD pins map to themselves,
/// I2C ids to 64 and above, combos to `None`.
pub fn pin_to_vpin(s: &str) -> (r: Option<u8>)
    ensures
        r == pin_to_vpin_spec(s@),
{
    match parse_pins(s) {
        PinSpec::Single(n) => Some(n),
        PinSpec::I2c(id) => parse_i2c_vpin(id.as_str()),
        PinSpec::Combo(_) => None,
    }
}

/// How the daemon reads a pin field into the virtual pins it binds.
pub open spec fn pins_to_vpins_spec(s: Seq<char>) -> Seq<u8> {
    let t = trim(s);
    if starts_with(t, "("@) {
        combo_pins(t)
    } else if starts_with(t, "i2c-"@) {
        match i2c_vpin_spec(t) {
            Some(v) => seq![v],
            None => Seq::empty(),
        }
    } else {
        match parse_u8(t) {
            Some(n) => seq![n],
            None => Seq::empty(),
        }
    }
}

/// The virtual pins a pin field binds: all numbers of a combo, the one pin of
/// an I2C id or a plain number, or none when the field is malformed.
pub fn parse_pins_to_vpins(pins_str: &str) -> (r: Vec<u8>)
    ensures
        r@ == pins_to_vpins_spec(pins_str@),
{
    let v = chars_of(pins_str);
    let (lo, hi) = trim_range(&v, 0, v.len(), CharClass::Whitespace);
    assert(v@.subrange(0, v@.len() as int) =~= pins_str@);
    if range_starts_with(&v, lo, hi, "(") {
        return combo_pins_range(&v, lo, hi);
    }
    let mut r: Vec<u8> = Vec::new();
    if range_starts_with(&v, lo, hi, "i2c-") {
        let id = string_of_range(&v, lo, hi);
        match parse_i2c_vpin(id.as_str()) {
            Some(x) => {
                r.push(x);
            },
            None => {},
        }
        assert(r@ =~= pins_to_vpins_spec(pins_str@));
        return r;
    }
    match parse_u8_range(&v, lo, hi) {
        Some(n) => {
            r.push(n);
        },
        None => {},
    }
    assert(r@ =~= pins_to_vpins_spec(pins_str@));
    r
}

/// The GPIO-capable BOARD pins of the 40-pin header (Pi 2B through Pi 5),
/// without power and ground, the I2C pins (3, 5) and the SPI pins (19, 21,
/// 23, 24, 26).
pub open spec fn default_pins_spec() -> Seq<u8> {
    seq![7u8, 8, 10, 11, 12, 13, 15, 16, 18, 22, 29, 31, 32, 33, 35, 36, 37, 38, 40]
}

/// The pins used when the settings say `"default"`: the GPIO-capable BOARD
/// pins without power and ground, the I2C pins and the SPI pins.
pub fn default_pins() -> (r: Vec<u8>)
    ensures
        r@ == default_pins_spec(),
{
    let r = vec![7u8, 8, 10, 11, 12, 13, 15, 16, 18, 22, 29, 31, 32, 33, 35, 36, 37, 38, 40];
    assert(r@ =~= default_pins_spec());
    r
}

pub open spec fn ascii_lower(c: char) -> char {
    if 65 <= c as u32 && c as u32 <= 90 {
        ((c as u32) + 32) as char
    } else {
        c
    }
}

/// `t.eq_ignore_ascii_case("default")`.
pub open spec fn is_default_word(t: Seq<char>) -> bool {
    t.len() == 7 && forall|i: int| 0 <= i < 7 ==> #[trigger] ascii_lower(t[i]) == "default"@[i]
}

/// The BOARD pins that the settings activate: the default list for
/// `"default"` (any ASCII case, surrounding whitespace ignored), otherwise the
/// numeric entries of the comma-separated list.
pub open spec fn effective_pins_spec(pins: Seq<char>) -> Seq<u8> {
    if is_default_word(trim(pins)) {
        default_pins_spec()
    } else {
        pin_numbers(split_on(pins, ','))
    }
}

fn is_default_range(v: &Vec<char>, lo: usize, hi: usize) -> (r: bool)
    requires
        lo <= hi <= v@.len(),
    ensures
        r == is_default_word(v@.subrange(lo as int, hi as int)),
{
    let ghost t = v@.subrange(lo as int, hi as int);
    proof {
        reveal_strlit("default");
    }
    if hi - lo != 7 {
        return false;
    }
    let word = chars_of("default");
    let mut i: usize = 0;
    while i < 7
        invariant
            hi - lo == 7,
            lo <= hi <= v@.len(),
            word@ == "default"@,
            word@.len() == 7,
            t == v@.subrange(lo as int, hi as int),
            i <= 7,
            forall|j: int| 0 <= j < i ==> #[trigger] ascii_lower(t[j]) == "default"@[j],
        decreases 7 - i,
    {
        let c = v[lo + i];
        let cv = c as u32;
        let lc: char = if 65 <= cv && cv <= 90 {
            ((cv - 65) as u8 + 97u8) as char
        } else {
            c
        };
        assert(lc == ascii_lower(t[i as int]));
        if lc != word[i] {
            return false;
        }
        i = i + 1;
    }
    true
}

/// Resolves the `pins` setting to BOARD pin numbers.
pub fn effective_pins(settings: &DaemonSettings) -> (r: Vec<u8>)
    ensures
        r@ == effective_pins_spec(settings.pins@),
{
    let v = chars_of(settings.pins.as_str());
    assert(v@.subrange(0, v@.len() as int) =~= settings.pins@);
    let (lo, hi) = trim_range(&v, 0, v.len(), CharClass::Whitespace);
    if is_default_range(&v, lo, hi) {
        default_pins()
    } else {
        let ranges = split_range(&v, 0, v.len(), ',');
        parse_pin_pieces(&v, &ranges)
    }
}

/// `u8::from_str_radix` of the string without its `"0x"` and then `"0X"` prefixes.
pub open spec fn hex_addr_spec(s: Seq<char>) -> Option<u8> {
    parse_hex_u8(strip_prefix_all(strip_prefix_all(s, "0x"@), "0X"@))
}

/// Parses a hex address such as `"0x20"` or `"0X48"`.
pub fn parse_hex_addr(s: &str) -> (r: Option<u8>)
    ensures
        r == hex_addr_spec(s@),
{
    let v = chars_of(s);
    assert(v@.subrange(0, v@.len() as int) =~= s@);
    let a = strip_prefix_all_range(&v, 0, v.len(), "0x");
    let b = strip_prefix_all_range(&v, a, v.len(), "0X");
    parse_hex_u8_range(&v, b, v.len())
}

/// The interrupt pin field: `None` when blank, else the pin if it parses.
pub open spec fn int_pin_spec(s: Seq<char>) -> Option<u8> {
    if trim(s).len() == 0 {
        None
    } else {
        parse_u8(trim(s))
    }
}

/// Parses the interrupt pin field; blank or non-numeric gives `None`.
pub fn parse_int_pin(s: &str) -> (r: Option<u8>)
    ensures
        r == int_pin_spec(s@),
{
    let v = chars_of(s);
    assert(v@.subrange(0, v@.len() as int) =~= s@);
    let (lo, hi) = trim_range(&v, 0, v.len(), CharClass::Whitespace);
    if lo == hi {
        None
    } else {
        parse_u8_range(&v, lo, hi)
    }
}

// ---------------------------------------------------------------------------
// Properties of the mapping table
// ---------------------------------------------------------------------------

/// The table after `upsert_mapping` of `row`.
pub open spec fn upserted(rows: Seq<DeviceRow>, row: DeviceRow) -> Seq<DeviceRow> {
    let k = key_index(rows, row.device@, row.name@);
    if k >= 0 {
        rows.update(k, row)
    } else {
        rows.push(row)
    }
}

/// No two rows share a `(device, name)` key.
pub open spec fn keys_unique(rows: Seq<DeviceRow>) -> bool {
    forall|i: int, j: int|
        #![trigger rows[i], rows[j]]
        0 <= i < j < rows.len() ==> !same_key(rows[j], rows[i].device@, rows[i].name@)
}

proof fn lemma_filter_single_out(x: DeviceRow, pred: spec_fn(DeviceRow) -> bool)
    requires
        !pred(x),
    ensures
        seq![x].filter(pred) == Seq::<DeviceRow>::empty(),
{
    reveal_with_fuel(Seq::filter, 2);
    assert(seq![x].drop_last() =~= Seq::<DeviceRow>::empty());
    assert(seq![x].last() == x);
}

proof fn lemma_filter_update_out(s: Seq<DeviceRow>, k: int, x: DeviceRow, pred: spec_fn(DeviceRow) -> bool)
    requires
        0 <= k < s.len(),
        !pred(s[k]),
        !pred(x),
    ensures
        s.update(k, x).filter(pred) == s.filter(pred),
{
    let a = s.take(k);
    let b = s.skip(k + 1);
    Seq::filter_distributes_over_add(a + seq![s[k]], b, pred);
    Seq::filter_distributes_over_add(a + seq![x], b, pred);
    Seq::filter_distributes_over_add(a, seq![s[k]], pred);
    Seq::filter_distributes_over_add(a, seq![x], pred);
    assert(s =~= a + seq![s[k]] + b);
    assert(s.update(k, x) =~= a + seq![x] + b);
    lemma_filter_single_out(s[k], pred);
    lemma_filter_single_out(x, pred);
    assert((a + seq![s[k]]).filter(pred) == a.filter(pred) + seq![s[k]].filter(pred));
    assert((a + seq![x]).filter(pred) == a.filter(pred) + seq![x].filter(pred));
    assert(a.filter(pred) + Seq::<DeviceRow>::empty() =~= a.filter(pred));
}

/// Upserting a row: afterwards the row is the one found under its key; an
/// upsert of the same row again changes nothing; keys stay unique; and
/// deleting the key afterwards leaves what deleting it before would have.
pub proof fn lemma_upsert_laws(rows: Seq<DeviceRow>, row: DeviceRow)
    ensures
        ({
            let u = upserted(rows, row);
            let k = key_index(u, row.device@, row.name@);
            &&& 0 <= k < u.len() && u[k] == row
            &&& upserted(u, row) == u
            &&& keys_unique(rows) ==> keys_unique(u)
            &&& u.filter(|r: DeviceRow| !same_key(r, row.device@, row.name@)) == rows.filter(
                |r: DeviceRow| !same_key(r, row.device@, row.name@),
            )
            &&& u.len() == rows.len() + if key_index(rows, row.device@, row.name@) >= 0 {
                0int
            } else {
                1int
            }
        }),
{
    let d = row.device@;
    let n = row.name@;
    let pred = |r: DeviceRow| !same_key(r, d, n);
    lemma_key_index_from(rows, d, n, 0);
    let k0 = key_index(rows, d, n);
    let u = upserted(rows, row);
    lemma_key_index_from(u, d, n, 0);
    let k = key_index(u, d, n);
    if k0 >= 0 {
        // the row took the place of the first row with its key
        assert(u[k0] == row);
        assert(forall|j: int| 0 <= j < k0 ==> u[j] == rows[j]);
        assert(k == k0) by {
            if k != k0 {
                if k == -1 {
                    assert(!same_key(u[k0], d, n));
                } else if k < k0 {
                    assert(u[k] == rows[k]);
                } else {
                    assert(same_key(u[k0], d, n));
                }
            }
        }
        lemma_filter_update_out(rows, k0, row, pred);
    } else {
        assert(u == rows.push(row));
        assert(u[rows.len() as int] == row);
        assert(forall|j: int| 0 <= j < rows.len() ==> u[j] == rows[j]);
        assert(k == rows.len()) by {
            if k != rows.len() {
                if k == -1 {
                    assert(!same_key(u[rows.len() as int], d, n));
                } else {
                    assert(u[k] == rows[k]);
                    assert(!same_key(rows[k], d, n));
                }
            }
        }
        assert(rows.push(row) =~= rows + seq![row]);
        Seq::filter_distributes_over_add(rows, seq![row], pred);
        lemma_filter_single_out(row, pred);
        assert(rows.filter(pred) + Seq::<DeviceRow>::empty() =~= rows.filter(pred));
    }
    assert(u.update(k, row) =~= u);
    if keys_unique(rows) {
        assert forall|i: int, j: int| #![trigger u[i], u[j]] 0 <= i < j < u.len() implies !same_key(
            u[j],
            u[i].device@,
            u[i].name@,
        ) by {
            if k0 >= 0 {
                if j == k0 {
                    assert(!same_key(rows[i], d, n));
                } else if i == k0 {
                    assert(!same_key(rows[j], rows[k0].device@, rows[k0].name@));
                } else {
                    assert(u[i] == rows[i] && u[j] == rows[j]);
                }
            } else {
                if j == rows.len() {
                    assert(u[i] == rows[i]);
                    assert(!same_key(rows[i], d, n));
                } else {
                    assert(u[i] == rows[i] && u[j] == rows[j]);
                }
            }
        }
    }
}

/// After deleting a key, no row carries it.
pub proof fn lemma_delete_removes_key(rows: Seq<DeviceRow>, device: Seq<char>, name: Seq<char>)
    ensures
        key_index(rows.filter(|r: DeviceRow| !same_key(r, device, name)), device, name) == -1,
{
    let f = rows.filter(|r: DeviceRow| !same_key(r, device, name));
    lemma_key_index_from(f, device, name, 0);
    let k = key_index(f, device, name);
    if k != -1 {
        rows.lemma_filter_pred(|r: DeviceRow| !same_key(r, device, name), k);
    }
}

} // verus!
