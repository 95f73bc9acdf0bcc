//! Pin lists and numbering by Raspberry Pi model, I2C pin ids, and the
//! virtual device list.

use vstd::prelude::*;
use std::collections::HashMap;
use crate::i2c::ChipType;
use crate::text::{
    chars_of, dec_chars, hex2_chars, parse_hex_u32, parse_hex_u32_range, pieces_of,
    push_char, push_decimal, push_hex2, push_str, range_starts_with, split_on, split_range,
    starts_with, trim, trim_range, CharClass,
};

verus! {

broadcast use vstd::std_specs::hash::group_hash_axioms;

// ---------------------------------------------------------------------------
// Pi model detection
// ---------------------------------------------------------------------------

/// Board class of a revision code: 1 for the first Pi 1 boards (codes 2 and
/// 3), 2 for the other 26-pin boards (4 to 15), 3 for 40-pin boards.
pub open spec fn revision_class_of(rev: u32) -> u32 {
    if rev == 2 || rev == 3 {
        1
    } else if 4 <= rev <= 15 {
        2
    } else {
        3
    }
}

/// The class named by the first line that starts with `Revision` and whose
/// value after the first `':'` parses as hexadecimal; 3 when there is none.
pub open spec fn cpuinfo_class_from(lines: Seq<Seq<char>>) -> u32
    decreases lines.len(),
{
    if lines.len() == 0 {
        3
    } else {
        let line = lines[0];
        let parts = split_on(line, ':');
        if starts_with(line, "Revision"@) && parts.len() >= 2 && parse_hex_u32(trim(parts[1])) is Some {
            revision_class_of(parse_hex_u32(trim(parts[1]))->0)
        } else {
            cpuinfo_class_from(lines.drop_first())
        }
    }
}

/// Board class read from the text of `/proc/cpuinfo`.
pub open spec fn cpuinfo_class(text: Seq<char>) -> u32 {
    cpuinfo_class_from(split_on(text, '\n'))
}

/// The revision code of one line, if it is a `Revision` line with a hex value.
fn line_revision(v: &Vec<char>, a: usize, b: usize) -> (r: Option<u32>)
    requires
        a <= b <= v@.len(),
    ensures
        ({
            let line = v@.subrange(a as int, b as int);
            let parts = split_on(line, ':');
            match r {
                Some(rev) => starts_with(line, "Revision"@) && parts.len() >= 2 && parse_hex_u32(
                    trim(parts[1]),
                ) == Some(rev),
                None => !(starts_with(line, "Revision"@) && parts.len() >= 2 && parse_hex_u32(
                    trim(parts[1]),
                ) is Some),
            }
        }),
{
    if !range_starts_with(v, a, b, "Revision") {
        return None;
    }
    let parts = split_range(v, a, b, ':');
    let ghost pieces = pieces_of(v@, parts@);
    if parts.len() < 2 {
        return None;
    }
    let (x, y) = parts[1];
    assert(pieces[1] == v@.subrange(x as int, y as int));
    let (p, q) = trim_range(v, x, y, CharClass::Whitespace);
    parse_hex_u32_range(v, p, q)
}

pub fn revision_class(rev: u32) -> (c: u32)
    ensures
        c == revision_class_of(rev),
{
    if rev == 2 || rev == 3 {
        1
    } else if 4 <= rev && rev <= 15 {
        2
    } else {
        3
    }
}

/// Board class (1, 2 or 3) from the text of `/proc/cpuinfo`.
pub fn pi_revision_from_cpuinfo(text: &str) -> (c: u32)
    ensures
        c == cpuinfo_class(text@),
{
    let v = chars_of(text);
    assert(v@.subrange(0, v@.len() as int) =~= text@);
    let lines = split_range(&v, 0, v.len(), '\n');
    let ghost pieces = pieces_of(v@, lines@);
    let mut k: usize = 0;
    assert(pieces.skip(0) =~= pieces);
    while k < lines.len()
        invariant
            k <= lines@.len(),
            pieces == pieces_of(v@, lines@),
            pieces == split_on(text@, '\n'),
            forall|m: int| 0 <= m < lines@.len() ==> #[trigger] lines@[m].0 <= lines@[m].1 <= v@.len(),
            cpuinfo_class_from(pieces.skip(k as int)) == cpuinfo_class(text@),
        decreases lines@.len() - k,
    {
        let (a, b) = lines[k];
        assert(pieces.skip(k as int)[0] == v@.subrange(a as int, b as int));
        assert(pieces.skip(k as int).drop_first() =~= pieces.skip(k + 1));
        match line_revision(&v, a, b) {
            Some(rev) => {
                return revision_class(rev);
            },
            None => {},
        }
        k = k + 1;
    }
    assert(pieces.skip(k as int).len() == 0);
    3
}

// ---------------------------------------------------------------------------
// Available BOARD pins by board class
// ---------------------------------------------------------------------------

/// Header pins usable as inputs on the first 26-pin boards.
pub open spec fn pins_pi1() -> Seq<u8> {
    seq![3u8, 5, 7, 11, 13, 15, 19, 21, 23, 8, 10, 12, 16, 18, 22, 24, 26]
}

/// Header pins usable as inputs on 40-pin boards.
pub open spec fn pins_modern() -> Seq<u8> {
    seq![3u8, 5, 7, 11, 13, 15, 19, 21, 23, 29, 31, 33, 35, 37, 8, 10, 12, 16, 18, 22, 24, 26, 32, 36, 38, 40]
}

pub open spec fn available_pins_spec(class: u32) -> Seq<u8> {
    if class < 3 {
        pins_pi1()
    } else {
        pins_modern()
    }
}

/// The BOARD pins offered for mapping on a board of the given class.
pub fn available_pins(class: u32) -> (r: Vec<u8>)
    ensures
        r@ == available_pins_spec(class),
{
    if class < 3 {
        let r = vec![3u8, 5, 7, 11, 13, 15, 19, 21, 23, 8, 10, 12, 16, 18, 22, 24, 26];
        assert(r@ =~= pins_pi1());
        r
    } else {
        let r = vec![
            3u8, 5, 7, 11, 13, 15, 19, 21, 23, 29, 31, 33, 35, 37, 8, 10, 12, 16, 18, 22, 24, 26,
            32, 36, 38, 40,
        ];
        assert(r@ =~= pins_modern());
        r
    }
}

/// Decimal numbers joined by `", "`.
pub open spec fn join_numbers(ns: Seq<u8>) -> Seq<char>
    decreases ns.len(),
{
    if ns.len() == 0 {
        Seq::empty()
    } else if ns.len() == 1 {
        dec_chars(ns[0] as nat)
    } else {
        join_numbers(ns.drop_last()) + ", "@ + dec_chars(ns.last() as nat)
    }
}

/// Appends the numbers joined by `", "`.
pub fn push_joined(s: &mut String, ns: &Vec<u8>)
    ensures
        final(s)@ == old(s)@ + join_numbers(ns@),
{
    let ghost start = s@;
    let mut i: usize = 0;
    assert(ns@.take(0) =~= Seq::<u8>::empty());
    assert(s@ =~= start + join_numbers(ns@.take(0)));
    while i < ns.len()
        invariant
            i <= ns@.len(),
            s@ == start + join_numbers(ns@.take(i as int)),
        decreases ns@.len() - i,
    {
        assert(ns@.take(i + 1).drop_last() =~= ns@.take(i as int));
        assert(ns@.take(i + 1).last() == ns@[i as int]);
        if i > 0 {
            push_str(s, ", ");
        }
        push_decimal(s, ns[i] as u64);
        if i == 0 {
            assert(ns@.take(0).len() == 0);
            assert(s@ =~= start + join_numbers(ns@.take(1)));
        } else {
            assert(s@ =~= start + join_numbers(ns@.take(i + 1)));
        }
        i = i + 1;
    }
    assert(ns@.take(i as int) =~= ns@);
}

/// The available pins, as a `", "`-separated list.
pub fn available_pins_string(class: u32) -> (r: String)
    ensures
        r@ == join_numbers(available_pins_spec(class)),
{
    let pins = available_pins(class);
    let mut r = String::new();
    push_joined(&mut r, &pins);
    assert(r@ =~= join_numbers(available_pins_spec(class)));
    r
}

// ---------------------------------------------------------------------------
// BOARD pin -> GPIO (BCM) number
// ---------------------------------------------------------------------------

pub open spec fn board_to_gpio_pi1() -> Map<u8, u8> {
    map![3u8 => 0u8, 5u8 => 1u8, 7u8 => 4u8, 8u8 => 14u8, 10u8 => 15u8, 11u8 => 17u8,
        12u8 => 18u8, 13u8 => 21u8, 15u8 => 22u8, 16u8 => 23u8, 18u8 => 24u8, 19u8 => 10u8,
        21u8 => 9u8, 22u8 => 25u8, 23u8 => 11u8, 24u8 => 8u8, 26u8 => 7u8]
}

pub open spec fn board_to_gpio_modern() -> Map<u8, u8> {
    map![3u8 => 2u8, 5u8 => 3u8, 7u8 => 4u8, 8u8 => 14u8, 10u8 => 15u8, 11u8 => 17u8,
        12u8 => 18u8, 13u8 => 27u8, 15u8 => 22u8, 16u8 => 23u8, 18u8 => 24u8, 19u8 => 10u8,
        21u8 => 9u8, 22u8 => 25u8, 23u8 => 11u8, 24u8 => 8u8, 26u8 => 7u8, 27u8 => 0u8,
        28u8 => 1u8, 29u8 => 5u8, 31u8 => 6u8, 32u8 => 12u8, 33u8 => 13u8, 35u8 => 19u8,
        36u8 => 16u8, 37u8 => 26u8, 38u8 => 20u8, 40u8 => 21u8]
}

pub open spec fn board_to_gpio_spec(class: u32) -> Map<u8, u8> {
    if class == 1 {
        board_to_gpio_pi1()
    } else {
        board_to_gpio_modern()
    }
}

fn map_from_pairs(pairs: &Vec<(u8, u8)>) -> (m: HashMap<u8, u8>)
    ensures
        forall|k: u8|
            m@.contains_key(k) <==> exists|i: int| 0 <= i < pairs@.len() && #[trigger] pairs@[i].0 == k,
        forall|i: int|
            0 <= i < pairs@.len() && (forall|j: int| i < j < pairs@.len() ==> pairs@[j].0 != pairs@[i].0)
                ==> m@[#[trigger] pairs@[i].0] == pairs@[i].1,
{
    let mut m: HashMap<u8, u8> = HashMap::new();
    let mut i: usize = 0;
    while i < pairs.len()
        invariant
            i <= pairs@.len(),
            forall|k: u8|
                m@.contains_key(k) <==> exists|j: int| 0 <= j < i && #[trigger] pairs@[j].0 == k,
            forall|j: int|
                0 <= j < i && (forall|l: int| j < l < i ==> pairs@[l].0 != pairs@[j].0) ==> m@[
                    #[trigger] pairs@[j].0] == pairs@[j].1,
        decreases pairs@.len() - i,
    {
        let (k, v) = pairs[i];
        m.insert(k, v);
        i = i + 1;
    }
    m
}

/// BOARD pin to GPIO number for a board of the given class.
pub fn board_to_gpio(class: u32) -> (m: HashMap<u8, u8>)
    ensures
        m@ == board_to_gpio_spec(class),
{
    let pairs: Vec<(u8, u8)> = if class == 1 {
        vec![
            (3u8, 0u8), (5, 1), (7, 4), (8, 14), (10, 15), (11, 17), (12, 18), (13, 21), (15, 22),
            (16, 23), (18, 24), (19, 10), (21, 9), (22, 25), (23, 11), (24, 8), (26, 7),
        ]
    } else {
        vec![
            (3u8, 2u8), (5, 3), (7, 4), (8, 14), (10, 15), (11, 17), (12, 18), (13, 27), (15, 22),
            (16, 23), (18, 24), (19, 10), (21, 9), (22, 25), (23, 11), (24, 8), (26, 7), (27, 0),
            (28, 1), (29, 5), (31, 6), (32, 12), (33, 13), (35, 19), (36, 16), (37, 26), (38, 20),
            (40, 21),
        ]
    };
    let m = map_from_pairs(&pairs);
    let ghost spec = board_to_gpio_spec(class);
    assert forall|k: u8| #[trigger] m@.contains_key(k) <==> spec.contains_key(k) by {
        if spec.contains_key(k) {
            let i = choose|i: int| 0 <= i < pairs@.len() && pairs@[i].0 == k;
            assert(pairs@[i].0 == k);
        }
    }
    assert forall|k: u8| #[trigger] m@.contains_key(k) implies m@[k] == spec[k] by {
        let i = choose|i: int| 0 <= i < pairs@.len() && #[trigger] pairs@[i].0 == k;
        assert(forall|j: int| i < j < pairs@.len() ==> pairs@[j].0 != pairs@[i].0);
    }
    assert(m@ =~= spec);
    m
}

// ---------------------------------------------------------------------------
// I2C pin ids
// ---------------------------------------------------------------------------

/// `format!("i2c-0x{address:02X}-{port}{bit}")`.
pub open spec fn mcp23017_pin_id_spec(address: u8, port: char, bit: u8) -> Seq<char> {
    "i2c-0x"@ + hex2_chars(address) + seq!['-', port] + dec_chars(bit as nat)
}

/// `format!("i2c-0x{address:02X}-ch{channel}")`.
pub open spec fn ads1115_pin_id_spec(address: u8, channel: u8) -> Seq<char> {
    "i2c-0x"@ + hex2_chars(address) + "-ch"@ + dec_chars(channel as nat)
}

/// `format!("i2c-0x{address:02X}-P{pin}")`.
pub open spec fn pcf8574_pin_id_spec(address: u8, pin: u8) -> Seq<char> {
    "i2c-0x"@ + hex2_chars(address) + "-P"@ + dec_chars(pin as nat)
}

/// Pin id of bit `bit` of port `port` of the MCP23017 at `address`.
pub fn mcp23017_pin_id(address: u8, port: char, bit: u8) -> (s: String)
    ensures
        s@ == mcp23017_pin_id_spec(address, port, bit),
{
    let mut s = String::new();
    push_str(&mut s, "i2c-0x");
    push_hex2(&mut s, address);
    push_char(&mut s, '-');
    push_char(&mut s, port);
    push_decimal(&mut s, bit as u64);
    assert(s@ =~= mcp23017_pin_id_spec(address, port, bit));
    s
}

/// Pin id of channel `channel` of the ADS1115 at `address`.
pub fn ads1115_pin_id(address: u8, channel: u8) -> (s: String)
    ensures
        s@ == ads1115_pin_id_spec(address, channel),
{
    let mut s = String::new();
    push_str(&mut s, "i2c-0x");
    push_hex2(&mut s, address);
    push_str(&mut s, "-ch");
    push_decimal(&mut s, channel as u64);
    assert(s@ =~= ads1115_pin_id_spec(address, channel));
    s
}

/// Pin id of pin `pin` of the PCF8574 at `address`.
pub fn pcf8574_pin_id(address: u8, pin: u8) -> (s: String)
    ensures
        s@ == pcf8574_pin_id_spec(address, pin),
{
    let mut s = String::new();
    push_str(&mut s, "i2c-0x");
    push_hex2(&mut s, address);
    push_str(&mut s, "-P");
    push_decimal(&mut s, pin as u64);
    assert(s@ =~= pcf8574_pin_id_spec(address, pin));
    s
}

/// The 16 pin ids of one MCP23017: `A0`..`A7`, then `B0`..`B7`.
pub open spec fn mcp23017_chip_ids(address: u8) -> Seq<Seq<char>> {
    Seq::new(
        16,
        |j: int| mcp23017_pin_id_spec(address, if j < 8 { 'A' } else { 'B' }, (j % 8) as u8),
    )
}

/// The 4 pin ids of one ADS1115: `ch0`..`ch3`.
pub open spec fn ads1115_chip_ids(address: u8) -> Seq<Seq<char>> {
    Seq::new(4, |j: int| ads1115_pin_id_spec(address, j as u8))
}

/// The 8 pin ids of one PCF8574: `P0`..`P7`.
pub open spec fn pcf8574_chip_ids(address: u8) -> Seq<Seq<char>> {
    Seq::new(8, |j: int| pcf8574_pin_id_spec(address, j as u8))
}

pub open spec fn chip_ids(kind: ChipType, address: u8) -> Seq<Seq<char>> {
    match kind {
        ChipType::Mcp23017 => mcp23017_chip_ids(address),
        ChipType::Ads1115 => ads1115_chip_ids(address),
        ChipType::Pcf8574 => pcf8574_chip_ids(address),
    }
}

/// Pin ids of all chips of one kind, chip after chip.
pub open spec fn ids_of_chips(kind: ChipType, addrs: Seq<u8>) -> Seq<Seq<char>>
    decreases addrs.len(),
{
    if addrs.len() == 0 {
        Seq::empty()
    } else {
        ids_of_chips(kind, addrs.drop_last()) + chip_ids(kind, addrs.last())
    }
}

fn push_chip_ids(out: &mut Vec<String>, kind: ChipType, address: u8)
    ensures
        final(out)@.map_values(|s: String| s@) == old(out)@.map_values(|s: String| s@) + chip_ids(
            kind,
            address,
        ),
{
    let ghost start = old(out)@.map_values(|s: String| s@);
    let n: u8 = match kind {
        ChipType::Mcp23017 => 16,
        ChipType::Ads1115 => 4,
        ChipType::Pcf8574 => 8,
    };
    assert(chip_ids(kind, address).len() == n);
    let mut j: u8 = 0;
    assert(out@.map_values(|s: String| s@) =~= start + chip_ids(kind, address).take(0));
    while j < n
        invariant
            j <= n,
            n == chip_ids(kind, address).len(),
            n <= 16,
            out@.map_values(|s: String| s@) == start + chip_ids(kind, address).take(j as int),
        decreases n - j,
    {
        let id = match kind {
            ChipType::Mcp23017 => {
                let port = if j < 8 {
                    'A'
                } else {
                    'B'
                };
                mcp23017_pin_id(address, port, j % 8)
            },
            ChipType::Ads1115 => ads1115_pin_id(address, j),
            ChipType::Pcf8574 => pcf8574_pin_id(address, j),
        };
        assert(id@ == chip_ids(kind, address)[j as int]);
        let ghost before = out@;
        out.push(id);
        assert(out@.map_values(|s: String| s@) =~= before.map_values(|s: String| s@).push(id@));
        assert(chip_ids(kind, address).take(j + 1) =~= chip_ids(kind, address).take(
            j as int,
        ).push(chip_ids(kind, address)[j as int]));
        j = j + 1;
    }
    assert(chip_ids(kind, address).take(n as int) =~= chip_ids(kind, address));
}

fn push_ids_of_chips(out: &mut Vec<String>, kind: ChipType, addrs: &[u8])
    ensures
        final(out)@.map_values(|s: String| s@) == old(out)@.map_values(|s: String| s@)
            + ids_of_chips(kind, addrs@),
{
    let ghost start = old(out)@.map_values(|s: String| s@);
    let mut i: usize = 0;
    assert(addrs@.take(0) =~= Seq::<u8>::empty());
    assert(out@.map_values(|s: String| s@) =~= start + ids_of_chips(kind, addrs@.take(0)));
    while i < addrs.len()
        invariant
            i <= addrs@.len(),
            out@.map_values(|s: String| s@) == start + ids_of_chips(kind, addrs@.take(i as int)),
        decreases addrs@.len() - i,
    {
        assert(addrs@.take(i + 1).drop_last() =~= addrs@.take(i as int));
        assert(addrs@.take(i + 1).last() == addrs@[i as int]);
        push_chip_ids(out, kind, addrs[i]);
        assert(out@.map_values(|s: String| s@) =~= start + ids_of_chips(kind, addrs@.take(i + 1)));
        i = i + 1;
    }
    assert(addrs@.take(i as int) =~= addrs@);
}

/// Every I2C pin id of the given chips: MCP23017 ids first, then ADS1115,
/// then PCF8574, each chip in the order given.
pub fn available_i2c_pins(mcp23017_addrs: &[u8], ads1115_addrs: &[u8], pcf8574_addrs: &[u8]) -> (r: Vec<String>)
    ensures
        r@.map_values(|s: String| s@) == ids_of_chips(ChipType::Mcp23017, mcp23017_addrs@)
            + ids_of_chips(ChipType::Ads1115, ads1115_addrs@) + ids_of_chips(
            ChipType::Pcf8574,
            pcf8574_addrs@,
        ),
{
    let mut r: Vec<String> = Vec::new();
    assert(r@.map_values(|s: String| s@) =~= Seq::<Seq<char>>::empty());
    push_ids_of_chips(&mut r, ChipType::Mcp23017, mcp23017_addrs);
    push_ids_of_chips(&mut r, ChipType::Ads1115, ads1115_addrs);
    push_ids_of_chips(&mut r, ChipType::Pcf8574, pcf8574_addrs);
    assert(r@.map_values(|s: String| s@) =~= ids_of_chips(ChipType::Mcp23017, mcp23017_addrs@)
        + ids_of_chips(ChipType::Ads1115, ads1115_addrs@) + ids_of_chips(
        ChipType::Pcf8574,
        pcf8574_addrs@,
    ));
    r
}

// ---------------------------------------------------------------------------
// Virtual devices
// ---------------------------------------------------------------------------

/// The six virtual devices, in display order.
pub open spec fn device_list_spec() -> Seq<Seq<char>> {
    seq!["Joypad 1"@, "Joypad 2"@, "Joypad 3"@, "Joypad 4"@, "Keyboard"@, "Commands"@]
}

pub fn device_list() -> (r: Vec<&'static str>)
    ensures
        r@.map_values(|s: &str| s@) == device_list_spec(),
{
    let r = vec!["Joypad 1", "Joypad 2", "Joypad 3", "Joypad 4", "Keyboard", "Commands"];
    assert(r@.map_values(|s: &str| s@) =~= device_list_spec());
    r
}

pub open spec fn button_list_spec() -> Seq<(Seq<char>, u16)> {
    seq![
        ("Start Button"@, 315),
        ("Select Button"@, 314),
        ("Button A"@, 304),
        ("Button B"@, 305),
        ("Button C"@, 306),
        ("Button X"@, 307),
        ("Button Y"@, 308),
        ("Button Z"@, 309),
        ("Button Left Trigger 1"@, 310),
        ("Button Right Trigger 1"@, 311),
        ("Button Left Trigger 2"@, 312),
        ("Button Right Trigger 2"@, 313),
        ("Button Generic 1"@, 706),
        ("Button Generic 2"@, 707),
        ("Button Generic 3"@, 708),
        ("Button Generic 4"@, 709),
        ("Button Generic 5"@, 710),
        ("Button Generic 6"@, 711),
        ("Button Generic 7"@, 712),
        ("Button Generic 8"@, 713),
        ("Button Generic 9"@, 714),
        ("Button Generic 10"@, 715),
        ("Button Generic 11"@, 716),
        ("Button Generic 12"@, 717),
        ("Button Generic 13"@, 718),
        ("Button Generic 14"@, 719),
        ("Button Generic 15"@, 720),
        ("Button Generic 16"@, 721),
        ("Button Generic 17"@, 722),
        ("Button Generic 18"@, 723),
        ("Button Generic 19"@, 724),
        ("Button Generic 20"@, 725),
        ("Button Generic 21"@, 726),
        ("Button Generic 22"@, 727),
        ("Button Generic 23"@, 728),
    ]
}

/// Gamepad buttons offered by the mapping wizard: display name and evdev code.
pub fn button_list() -> (r: Vec<(&'static str, u16)>)
    ensures
        r@.map_values(|p: (&'static str, u16)| (p.0@, p.1)) == button_list_spec(),
{
    let mut r: Vec<(&'static str, u16)> = Vec::new();
    r.push(("Start Button", 315));
    r.push(("Select Button", 314));
    r.push(("Button A", 304));
    r.push(("Button B", 305));
    r.push(("Button C", 306));
    r.push(("Button X", 307));
    r.push(("Button Y", 308));
    r.push(("Button Z", 309));
    r.push(("Button Left Trigger 1", 310));
    r.push(("Button Right Trigger 1", 311));
    r.push(("Button Left Trigger 2", 312));
    r.push(("Button Right Trigger 2", 313));
    r.push(("Button Generic 1", 706));
    r.push(("Button Generic 2", 707));
    r.push(("Button Generic 3", 708));
    r.push(("Button Generic 4", 709));
    r.push(("Button Generic 5", 710));
    r.push(("Button Generic 6", 711));
    r.push(("Button Generic 7", 712));
    r.push(("Button Generic 8", 713));
    r.push(("Button Generic 9", 714));
    r.push(("Button Generic 10", 715));
    r.push(("Button Generic 11", 716));
    r.push(("Button Generic 12", 717));
    r.push(("Button Generic 13", 718));
    r.push(("Button Generic 14", 719));
    r.push(("Button Generic 15", 720));
    r.push(("Button Generic 16", 721));
    r.push(("Button Generic 17", 722));
    r.push(("Button Generic 18", 723));
    r.push(("Button Generic 19", 724));
    r.push(("Button Generic 20", 725));
    r.push(("Button Generic 21", 726));
    r.push(("Button Generic 22", 727));
    r.push(("Button Generic 23", 728));
    assert(r@.map_values(|p: (&'static str, u16)| (p.0@, p.1)) =~= button_list_spec());
    r
}

pub open spec fn key_list_spec() -> Seq<(Seq<char>, u16)> {
    seq![
        ("↑ UP"@, 103),
        ("↓ DOWN"@, 108),
        ("← LEFT"@, 105),
        ("→ RIGHT"@, 106),
        ("ENTER"@, 28),
        ("SPACEBAR"@, 57),
        ("LEFT-ALT"@, 56),
        ("LEFT-CTRL"@, 29),
        ("LEFT-SHIFT"@, 42),
        ("RIGHT-ALT"@, 100),
        ("RIGHT-CTRL"@, 97),
        ("RIGHT-SHIFT"@, 54),
        ("TAB"@, 15),
        ("A"@, 30),
        ("B"@, 48),
        ("C"@, 46),
        ("D"@, 32),
        ("E"@, 18),
        ("F"@, 33),
        ("G"@, 34),
        ("H"@, 35),
        ("I"@, 23),
        ("J"@, 36),
        ("K"@, 37),
        ("L"@, 38),
        ("M"@, 50),
        ("N"@, 49),
        ("O"@, 24),
        ("P"@, 25),
        ("Q"@, 16),
        ("R"@, 19),
        ("S"@, 31),
        ("T"@, 20),
        ("U"@, 22),
        ("V"@, 47),
        ("W"@, 17),
        ("X"@, 45),
        ("Y"@, 21),
        ("Z"@, 44),
        ("0"@, 11),
        ("1"@, 2),
        ("2"@, 3),
        ("3"@, 4),
        ("4"@, 5),
        ("5"@, 6),
        ("6"@, 7),
        ("7"@, 8),
        ("8"@, 9),
        ("9"@, 10),
        ("- MINUS"@, 12),
        ("' APOSTROPHE"@, 40),
        ("\\ BACKSLASH"@, 43),
        ("← BACKSPACE"@, 14),
        ("CAPSLOCK"@, 58),
        (", COMMA"@, 51),
        ("DELETE"@, 111),
        (". DOT"@, 52),
        ("END"@, 107),
        ("= EQUAL"@, 13),
        ("ESC"@, 1),
        ("F1"@, 59),
        ("F2"@, 60),
        ("F3"@, 61),
        ("F4"@, 62),
        ("F5"@, 63),
        ("F6"@, 64),
        ("F7"@, 65),
        ("F8"@, 66),
        ("F9"@, 67),
        ("F10"@, 68),
        ("F11"@, 87),
        ("F12"@, 88),
        ("` GRAVE"@, 41),
        ("HOME"@, 102),
        ("INSERT"@, 110),
        ("KEYPAD 0"@, 82),
        ("KEYPAD 1"@, 79),
        ("KEYPAD 2"@, 80),
        ("KEYPAD 3"@, 81),
        ("KEYPAD 4"@, 75),
        ("KEYPAD 5"@, 76),
        ("KEYPAD 6"@, 77),
        ("KEYPAD 7"@, 71),
        ("KEYPAD 8"@, 72),
        ("KEYPAD 9"@, 73),
        ("* KEYPAD ASTERISK"@, 55),
        ("KEYPAD ENTER"@, 96),
        ("= KEYPAD EQUAL"@, 117),
        ("- KEYPAD MINUS"@, 74),
        ("+ KEYPAD PLUS"@, 78),
        ("KPPLUSMINUS"@, 118),
        ("[ LEFTBRACE"@, 26),
        ("] RIGHTBRACE"@, 27),
        ("PAGEDOWN"@, 109),
        ("PAGEUP"@, 104),
        ("SCROLLLOCK"@, 70),
        ("; SEMICOLON"@, 39),
        ("/ SLASH"@, 53),
    ]
}

/// Keyboard keys offered by the mapping wizard: display name and evdev code.
#[verifier::rlimit(100)]
pub fn key_list() -> (r: Vec<(&'static str, u16)>)
    ensures
        r@.map_values(|p: (&'static str, u16)| (p.0@, p.1)) == key_list_spec(),
{
    let mut r: Vec<(&'static str, u16)> = Vec::new();
    r.push(("↑ UP", 103));
    r.push(("↓ DOWN", 108));
    r.push(("← LEFT", 105));
    r.push(("→ RIGHT", 106));
    r.push(("ENTER", 28));
    r.push(("SPACEBAR", 57));
    r.push(("LEFT-ALT", 56));
    r.push(("LEFT-CTRL", 29));
    r.push(("LEFT-SHIFT", 42));
    r.push(("RIGHT-ALT", 100));
    r.push(("RIGHT-CTRL", 97));
    r.push(("RIGHT-SHIFT", 54));
    r.push(("TAB", 15));
    r.push(("A", 30));
    r.push(("B", 48));
    r.push(("C", 46));
    r.push(("D", 32));
    r.push(("E", 18));
    r.push(("F", 33));
    r.push(("G", 34));
    r.push(("H", 35));
    r.push(("I", 23));
    r.push(("J", 36));
    r.push(("K", 37));
    r.push(("L", 38));
    r.push(("M", 50));
    r.push(("N", 49));
    r.push(("O", 24));
    r.push(("P", 25));
    r.push(("Q", 16));
    r.push(("R", 19));
    r.push(("S", 31));
    r.push(("T", 20));
    r.push(("U", 22));
    r.push(("V", 47));
    r.push(("W", 17));
    r.push(("X", 45));
    r.push(("Y", 21));
    r.push(("Z", 44));
    r.push(("0", 11));
    r.push(("1", 2));
    r.push(("2", 3));
    r.push(("3", 4));
    r.push(("4", 5));
    r.push(("5", 6));
    r.push(("6", 7));
    r.push(("7", 8));
    r.push(("8", 9));
    r.push(("9", 10));
    r.push(("- MINUS", 12));
    r.push(("' APOSTROPHE", 40));
    r.push(("\\ BACKSLASH", 43));
    r.push(("← BACKSPACE", 14));
    r.push(("CAPSLOCK", 58));
    r.push((", COMMA", 51));
    r.push(("DELETE", 111));
    r.push((". DOT", 52));
    r.push(("END", 107));
    r.push(("= EQUAL", 13));
    r.push(("ESC", 1));
    r.push(("F1", 59));
    r.push(("F2", 60));
    r.push(("F3", 61));
    r.push(("F4", 62));
    r.push(("F5", 63));
    r.push(("F6", 64));
    r.push(("F7", 65));
    r.push(("F8", 66));
    r.push(("F9", 67));
    r.push(("F10", 68));
    r.push(("F11", 87));
    r.push(("F12", 88));
    r.push(("` GRAVE", 41));
    r.push(("HOME", 102));
    r.push(("INSERT", 110));
    r.push(("KEYPAD 0", 82));
    r.push(("KEYPAD 1", 79));
    r.push(("KEYPAD 2", 80));
    r.push(("KEYPAD 3", 81));
    r.push(("KEYPAD 4", 75));
    r.push(("KEYPAD 5", 76));
    r.push(("KEYPAD 6", 77));
    r.push(("KEYPAD 7", 71));
    r.push(("KEYPAD 8", 72));
    r.push(("KEYPAD 9", 73));
    r.push(("* KEYPAD ASTERISK", 55));
    r.push(("KEYPAD ENTER", 96));
    r.push(("= KEYPAD EQUAL", 117));
    r.push(("- KEYPAD MINUS", 74));
    r.push(("+ KEYPAD PLUS", 78));
    r.push(("KPPLUSMINUS", 118));
    r.push(("[ LEFTBRACE", 26));
    r.push(("] RIGHTBRACE", 27));
    r.push(("PAGEDOWN", 109));
    r.push(("PAGEUP", 104));
    r.push(("SCROLLLOCK", 70));
    r.push(("; SEMICOLON", 39));
    r.push(("/ SLASH", 53));
    proof {
        reveal_strlit("↑ UP");
        reveal_strlit("↓ DOWN");
        reveal_strlit("← LEFT");
        reveal_strlit("→ RIGHT");
        reveal_strlit("← BACKSPACE");
    }
    assert("↑ UP"@ =~= seq!['\u{2191}', ' ', 'U', 'P']);
    assert(r@[0].0@ =~= seq!['\u{2191}', ' ', 'U', 'P']);
    assert(r@.map_values(|p: (&'static str, u16)| (p.0@, p.1)) =~= key_list_spec());
    r
}

pub open spec fn command_presets_spec() -> Seq<(Seq<char>, Seq<char>)> {
    seq![
        ("Volume Up"@, "amixer sset Master 5%+"@),
        ("Volume Down"@, "amixer sset Master 5%-"@),
        ("Volume Mute/Unmute"@, "amixer sset Master toggle"@),
        ("Reboot System"@, "sudo reboot"@),
        ("Shutdown System"@, "sudo shutdown -h now"@),
        ("Kill Emulator"@, "killall retroarch"@),
    ]
}

/// Ready-made shell commands offered by the mapping wizard: name and command line.
pub fn command_presets() -> (r: Vec<(&'static str, &'static str)>)
    ensures
        r@.map_values(|p: (&'static str, &'static str)| (p.0@, p.1@)) == command_presets_spec(),
{
    let mut r: Vec<(&'static str, &'static str)> = Vec::new();
    r.push(("Volume Up", "amixer sset Master 5%+"));
    r.push(("Volume Down", "amixer sset Master 5%-"));
    r.push(("Volume Mute/Unmute", "amixer sset Master toggle"));
    r.push(("Reboot System", "sudo reboot"));
    r.push(("Shutdown System", "sudo shutdown -h now"));
    r.push(("Kill Emulator", "killall retroarch"));
    assert(r@.map_values(|p: (&'static str, &'static str)| (p.0@, p.1@)) =~= command_presets_spec());
    r
}

} // verus!
