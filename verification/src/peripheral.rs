//! Turning mapping rows into peripherals: the virtual device they drive, the
//! 256-bit mask of the pins that trigger them and the input event they emit.

use vstd::prelude::*;
use crate::config::{pins_to_vpins_spec, parse_pins_to_vpins, DeviceRow, GpioConfig};
use crate::text::{
    is_ws, lemma_split_append, lemma_split_none, chars_of, parse_i32, parse_i32_range, parse_u32, parse_u32_range, pieces_of, split_on,
    split_range, str_eq, string_of, trim, trim_end_by, trim_end_range, trim_range,
    trim_start_by, trim_start_range, CharClass,
};

verus! {

/// The input event a peripheral emits.
#[derive(Debug, Clone, PartialEq)]
pub enum EventType {
    Button { evdev_code: u32 },
    Key { evdev_code: u32 },
    Axis { evdev_type: u32, evdev_code: u32, press_value: i32 },
    Command { bash: String },
}

pub enum EventTypeView {
    Button(u32),
    Key(u32),
    Axis(u32, u32, i32),
    Command(Seq<char>),
}

impl View for EventType {
    type V = EventTypeView;

    open spec fn view(&self) -> EventTypeView {
        match self {
            EventType::Button { evdev_code } => EventTypeView::Button(*evdev_code),
            EventType::Key { evdev_code } => EventTypeView::Key(*evdev_code),
            EventType::Axis { evdev_type, evdev_code, press_value } => EventTypeView::Axis(
                *evdev_type,
                *evdev_code,
                *press_value,
            ),
            EventType::Command { bash } => EventTypeView::Command(bash@),
        }
    }
}

/// A mapping ready for the event engine.
#[derive(Debug, Clone)]
pub struct Peripheral {
    pub name: String,
    /// 0-3 joypads, 4 keyboard, 5 commands.
    pub device_index: usize,
    /// Bit `v % 64` of word `v / 64` is set when virtual pin `v` triggers it.
    pub pin_mask: [u64; 4],
    /// Number of distinct trigger pins (as the engine stores it, modulo 256).
    pub pin_count: u8,
    pub event_type: EventType,
}

pub struct PeripheralView {
    pub name: Seq<char>,
    pub device_index: usize,
    pub pins: Set<u8>,
    pub pin_count: u8,
    pub event: EventTypeView,
}

/// Whether virtual pin `v` is set in a 256-bit mask.
pub open spec fn mask_bit(mask: [u64; 4], v: u8) -> bool {
    (mask@[(v / 64) as int] >> ((v % 64) as u64)) & 1 == 1
}

/// The virtual pins a mask holds.
pub open spec fn mask_pins(mask: [u64; 4]) -> Set<u8> {
    Set::new(|v: u8| mask_bit(mask, v))
}

impl View for Peripheral {
    type V = PeripheralView;

    open spec fn view(&self) -> PeripheralView {
        PeripheralView {
            name: self.name@,
            device_index: self.device_index,
            pins: mask_pins(self.pin_mask),
            pin_count: self.pin_count,
            event: self.event_type@,
        }
    }
}

/// The six devices a mapping row can belong to.
pub open spec fn named_device(d: Seq<char>) -> bool {
    d == "Joypad 1"@ || d == "Joypad 2"@ || d == "Joypad 3"@ || d == "Joypad 4"@ || d
        == "Keyboard"@ || d == "Commands"@
}

/// Virtual device index of a device name: Joypad 1-4 are 0-3, Keyboard 4,
/// Commands 5, anything else 0.
pub open spec fn device_index_spec(d: Seq<char>) -> usize {
    if d == "Joypad 1"@ {
        0
    } else if d == "Joypad 2"@ {
        1
    } else if d == "Joypad 3"@ {
        2
    } else if d == "Joypad 4"@ {
        3
    } else if d == "Keyboard"@ {
        4
    } else if d == "Commands"@ {
        5
    } else {
        0
    }
}

/// Each device of the configuration drives its own virtual device: Joypad
/// 1-4 the joypads 0-3, the keyboard 4 and the command runner 5, so that
/// different device names never share one.
pub proof fn lemma_device_indices()
    ensures
        device_index_spec("Joypad 1"@) == 0,
        device_index_spec("Joypad 2"@) == 1,
        device_index_spec("Joypad 3"@) == 2,
        device_index_spec("Joypad 4"@) == 3,
        device_index_spec("Keyboard"@) == 4,
        device_index_spec("Commands"@) == 5,
        forall|d: Seq<char>, e: Seq<char>|
            #![trigger device_index_spec(d), device_index_spec(e)]
            named_device(d) && named_device(e) && d != e ==> device_index_spec(d)
                != device_index_spec(e),
{
    reveal_strlit("Joypad 1");
    reveal_strlit("Joypad 2");
    reveal_strlit("Joypad 3");
    reveal_strlit("Joypad 4");
    reveal_strlit("Keyboard");
    reveal_strlit("Commands");
    assert("Joypad 2"@ != "Joypad 1"@) by {
        assert("Joypad 2"@[7] != "Joypad 1"@[7]);
    }
    assert("Joypad 3"@ != "Joypad 1"@) by {
        assert("Joypad 3"@[7] != "Joypad 1"@[7]);
    }
    assert("Joypad 3"@ != "Joypad 2"@) by {
        assert("Joypad 3"@[7] != "Joypad 2"@[7]);
    }
    assert("Joypad 4"@ != "Joypad 1"@) by {
        assert("Joypad 4"@[7] != "Joypad 1"@[7]);
    }
    assert("Joypad 4"@ != "Joypad 2"@) by {
        assert("Joypad 4"@[7] != "Joypad 2"@[7]);
    }
    assert("Joypad 4"@ != "Joypad 3"@) by {
        assert("Joypad 4"@[7] != "Joypad 3"@[7]);
    }
    assert("Keyboard"@ != "Joypad 1"@ && "Keyboard"@ != "Joypad 2"@ && "Keyboard"@ != "Joypad 3"@
        && "Keyboard"@ != "Joypad 4"@) by {
        assert("Keyboard"@[0] != "Joypad 1"@[0]);
        assert("Keyboard"@[0] != "Joypad 2"@[0]);
        assert("Keyboard"@[0] != "Joypad 3"@[0]);
        assert("Keyboard"@[0] != "Joypad 4"@[0]);
    }
    assert("Commands"@ != "Joypad 1"@ && "Commands"@ != "Joypad 2"@ && "Commands"@ != "Joypad 3"@
        && "Commands"@ != "Joypad 4"@ && "Commands"@ != "Keyboard"@) by {
        assert("Commands"@[0] != "Joypad 1"@[0]);
        assert("Commands"@[0] != "Joypad 2"@[0]);
        assert("Commands"@[0] != "Joypad 3"@[0]);
        assert("Commands"@[0] != "Joypad 4"@[0]);
        assert("Commands"@[0] != "Keyboard"@[0]);
    }
}

pub fn device_index(device: &str) -> (r: usize)
    ensures
        r == device_index_spec(device@),
        r <= 5,
        device@ == "Joypad 1"@ ==> r == 0,
        device@ == "Joypad 2"@ ==> r == 1,
        device@ == "Joypad 3"@ ==> r == 2,
        device@ == "Joypad 4"@ ==> r == 3,
        device@ == "Keyboard"@ ==> r == 4,
        device@ == "Commands"@ ==> r == 5,
{
    proof {
        lemma_device_indices();
    }
    if str_eq(device, "Joypad 1") {
        0
    } else if str_eq(device, "Joypad 2") {
        1
    } else if str_eq(device, "Joypad 3") {
        2
    } else if str_eq(device, "Joypad 4") {
        3
    } else if str_eq(device, "Keyboard") {
        4
    } else if str_eq(device, "Commands") {
        5
    } else {
        0
    }
}

/// An axis command `"(evdev_type, evdev_code, value)"`: outer whitespace, then
/// leading `'('` and trailing `')'` dropped, exactly three comma-separated
/// integers.
pub open spec fn axis_command_spec(s: Seq<char>) -> Option<(u32, u32, i32)> {
    let inner = trim_end_by(trim_start_by(trim(s), CharClass::Open), CharClass::Close);
    let parts = split_on(inner, ',');
    if parts.len() != 3 {
        None
    } else {
        match (parse_u32(trim(parts[0])), parse_u32(trim(parts[1])), parse_i32(trim(parts[2]))) {
            (Some(a), Some(b), Some(c)) => Some((a, b, c)),
            _ => None,
        }
    }
}

/// A piece of an axis command that is one digit, optionally after a space.
spec fn digit_piece(x: Seq<char>, d: char) -> bool {
    x == seq![d] || x == seq![' ', d]
}

/// A piece `" 255"` or `" -255"`: the press value.
spec fn value_piece(x: Seq<char>, neg: bool) -> bool {
    x == if neg {
        seq![' ', '-', '2', '5', '5']
    } else {
        seq![' ', '2', '5', '5']
    }
}

/// Trimming a run of non-blank characters after at most one space leaves the run.
proof fn lemma_trim_after_space(x: Seq<char>, body: Seq<char>)
    requires
        body.len() > 0,
        !is_ws(body[0]),
        !is_ws(body.last()),
        x == body || x == seq![' '] + body,
    ensures
        trim(x) == body,
{
    assert(trim_start_by(body, CharClass::Whitespace) == body);
    if x != body {
        assert(is_ws(' '));
        assert(x.drop_first() =~= body);
        assert(trim_start_by(x, CharClass::Whitespace) == body);
    }
    assert(trim_end_by(body, CharClass::Whitespace) == body);
}

/// `"(" + a + "," + b + "," + c + ")"` with one-digit type and code pieces and
/// a value piece of 255 or -255 reads as those three numbers.
proof fn lemma_axis_text(a: Seq<char>, b: Seq<char>, c: Seq<char>, t: char, k: char, neg: bool)
    requires
        digit_piece(a, t),
        digit_piece(b, k),
        value_piece(c, neg),
        48 <= t as u32 <= 57,
        48 <= k as u32 <= 57,
        a[0] != ' ',
    ensures
        axis_command_spec(seq!['('] + a + seq![','] + b + seq![','] + c + seq![')']) == Some(
            ((t as u32 - 48) as u32, (k as u32 - 48) as u32, if neg {
                -255i32
            } else {
                255i32
            }),
        ),
{
    let s = seq!['('] + a + seq![','] + b + seq![','] + c + seq![')'];
    let inner = a + seq![','] + b + seq![','] + c;
    let rest = inner + seq![')'];
    assert(!is_ws('('));
    assert(!is_ws(')'));
    assert(s[0] == '(');
    assert(s.last() == ')');
    assert(trim_start_by(s, CharClass::Whitespace) == s);
    assert(trim_end_by(s, CharClass::Whitespace) == s);
    assert(trim(s) == s);
    assert(s.drop_first() =~= rest);
    assert(rest[0] == a[0]);
    assert(a[0] == t);
    assert(trim_start_by(rest, CharClass::Open) == rest);
    assert(trim_start_by(s, CharClass::Open) == rest);
    assert(rest.drop_last() =~= inner);
    assert(inner.last() == '5');
    assert(trim_end_by(inner, CharClass::Close) == inner);
    assert(trim_end_by(rest, CharClass::Close) == inner);
    assert(!a.contains(',')) by {
        if a.contains(',') {
            let i = choose|i: int| 0 <= i < a.len() && a[i] == ',';
        }
    }
    assert(!b.contains(',')) by {
        if b.contains(',') {
            let i = choose|i: int| 0 <= i < b.len() && b[i] == ',';
        }
    }
    assert(!c.contains(',')) by {
        if c.contains(',') {
            let i = choose|i: int| 0 <= i < c.len() && c[i] == ',';
        }
    }
    lemma_split_none(a, ',');
    lemma_split_append(a, ',', b);
    lemma_split_append(a + seq![','] + b, ',', c);
    let parts = split_on(inner, ',');
    assert(parts =~= seq![a, b, c]);
    assert(seq![' ', t] =~= seq![' '] + seq![t]);
    assert(seq![' ', k] =~= seq![' '] + seq![k]);
    lemma_trim_after_space(a, seq![t]);
    lemma_trim_after_space(b, seq![k]);
    let body = if neg {
        seq!['-', '2', '5', '5']
    } else {
        seq!['2', '5', '5']
    };
    assert(c =~= seq![' '] + body);
    lemma_trim_after_space(c, body);
    let digits = seq!['2', '5', '5'];
    assert(digits.drop_last() =~= seq!['2', '5']);
    assert(seq!['2', '5'].drop_last() =~= seq!['2']);
    assert(seq!['2'].drop_last() =~= Seq::<char>::empty());
    assert('2' as u32 == 50 && '5' as u32 == 53);
    let d1 = seq!['2'];
    let d2 = seq!['2', '5'];
    assert(d1.drop_last() =~= Seq::<char>::empty());
    assert(d2.drop_last() =~= d1);
    assert(digits.drop_last() =~= d2);
    assert(d1.last() == '2' && d2.last() == '5' && digits.last() == '5');
    assert(crate::text::digits_value(Seq::<char>::empty()) == 0);
    assert(crate::text::digits_value(d1) == 2);
    assert(crate::text::digits_value(d2) == 25);
    assert(crate::text::digits_value(digits) == 255);
    assert(crate::text::all_digits(digits));
    assert(crate::text::all_digits(seq![t]));
    assert(seq![t].drop_last() =~= Seq::<char>::empty());
    assert(crate::text::digits_value(seq![t]) == t as u32 - 48);
    assert(crate::text::all_digits(seq![k]));
    assert(seq![k].drop_last() =~= Seq::<char>::empty());
    assert(crate::text::digits_value(seq![k]) == k as u32 - 48);
    if neg {
        assert(body.drop_first() =~= digits);
    }
}

/// The four D-pad axis commands read as the ABS_Y (1) or ABS_X (0) axis of
/// event type 3, pushed to -255 or 255.
pub proof fn lemma_dpad_commands()
    ensures
        axis_command_spec("(3, 1, -255)"@) == Some((3u32, 1u32, -255i32)),
        axis_command_spec("(3, 1, 255)"@) == Some((3u32, 1u32, 255i32)),
        axis_command_spec("(3, 0, -255)"@) == Some((3u32, 0u32, -255i32)),
        axis_command_spec("(3, 0, 255)"@) == Some((3u32, 0u32, 255i32)),
{
    reveal_strlit("(3, 1, -255)");
    reveal_strlit("(3, 1, 255)");
    reveal_strlit("(3, 0, -255)");
    reveal_strlit("(3, 0, 255)");
    let a = seq!['3'];
    let one = seq![' ', '1'];
    let zero = seq![' ', '0'];
    let neg = seq![' ', '-', '2', '5', '5'];
    let pos = seq![' ', '2', '5', '5'];
    lemma_axis_text(a, one, neg, '3', '1', true);
    lemma_axis_text(a, one, pos, '3', '1', false);
    lemma_axis_text(a, zero, neg, '3', '0', true);
    lemma_axis_text(a, zero, pos, '3', '0', false);
    assert("(3, 1, -255)"@ =~= seq!['('] + a + seq![','] + one + seq![','] + neg + seq![')']);
    assert("(3, 1, 255)"@ =~= seq!['('] + a + seq![','] + one + seq![','] + pos + seq![')']);
    assert("(3, 0, -255)"@ =~= seq!['('] + a + seq![','] + zero + seq![','] + neg + seq![')']);
    assert("(3, 0, 255)"@ =~= seq!['('] + a + seq![','] + zero + seq![','] + pos + seq![')']);
}

/// Parses an axis command `"(evdev_type, evdev_code, value)"`.
pub fn parse_axis_command(s: &str) -> (r: Option<(u32, u32, i32)>)
    ensures
        r == axis_command_spec(s@),
{
    let v = chars_of(s);
    assert(v@.subrange(0, v@.len() as int) =~= s@);
    let (lo, hi) = trim_range(&v, 0, v.len(), CharClass::Whitespace);
    let a = trim_start_range(&v, lo, hi, CharClass::Open);
    let b = trim_end_range(&v, a, hi, CharClass::Close);
    let parts = split_range(&v, a, b, ',');
    let ghost pieces = pieces_of(v@, parts@);
    if parts.len() != 3 {
        return None;
    }
    let (a0, b0) = parts[0];
    let (a1, b1) = parts[1];
    let (a2, b2) = parts[2];
    assert(pieces[0] == v@.subrange(a0 as int, b0 as int));
    assert(pieces[1] == v@.subrange(a1 as int, b1 as int));
    assert(pieces[2] == v@.subrange(a2 as int, b2 as int));
    let (x0, y0) = trim_range(&v, a0, b0, CharClass::Whitespace);
    let (x1, y1) = trim_range(&v, a1, b1, CharClass::Whitespace);
    let (x2, y2) = trim_range(&v, a2, b2, CharClass::Whitespace);
    let et = parse_u32_range(&v, x0, y0);
    let ec = parse_u32_range(&v, x1, y1);
    let pv = parse_i32_range(&v, x2, y2);
    match (et, ec, pv) {
        (Some(p), Some(q), Some(w)) => Some((p, q, w)),
        _ => None,
    }
}

/// The event a row describes, if its type and command are well formed.
pub open spec fn row_event(row: DeviceRow) -> Option<EventTypeView> {
    if row.event_type@ == "BUTTON"@ {
        match parse_u32(row.command@) {
            Some(c) => Some(EventTypeView::Button(c)),
            None => None,
        }
    } else if row.event_type@ == "KEY"@ {
        match parse_u32(row.command@) {
            Some(c) => Some(EventTypeView::Key(c)),
            None => None,
        }
    } else if row.event_type@ == "AXIS"@ {
        match axis_command_spec(row.command@) {
            Some((t, c, v)) => Some(EventTypeView::Axis(t, c, v)),
            None => None,
        }
    } else if row.event_type@ == "COMMAND"@ {
        Some(EventTypeView::Command(row.command@))
    } else {
        None
    }
}

/// Number of `v < n` that occur in `s`.
pub open spec fn count_below(s: Seq<u8>, n: int) -> nat
    decreases n,
{
    if n <= 0 {
        0
    } else {
        count_below(s, n - 1) + if s.contains((n - 1) as u8) {
            1nat
        } else {
            0nat
        }
    }
}

/// The peripheral a row yields, or `None` when the row is skipped (no valid
/// pins, unknown type, malformed code).
pub open spec fn peripheral_of(row: DeviceRow) -> Option<PeripheralView> {
    let vp = pins_to_vpins_spec(row.pins@);
    if vp.len() == 0 {
        None
    } else {
        match row_event(row) {
            None => None,
            Some(e) => Some(
                PeripheralView {
                    name: row.name@,
                    device_index: device_index_spec(row.device@),
                    pins: vp.to_set(),
                    pin_count: (count_below(vp, 256) % 256) as u8,
                    event: e,
                },
            ),
        }
    }
}

/// The peripherals of a table, in row order, skipping rows that yield none.
pub open spec fn peripherals_of(rows: Seq<DeviceRow>) -> Seq<PeripheralView>
    decreases rows.len(),
{
    if rows.len() == 0 {
        Seq::empty()
    } else {
        let prev = peripherals_of(rows.drop_last());
        match peripheral_of(rows.last()) {
            Some(p) => prev.push(p),
            None => prev,
        }
    }
}

proof fn lemma_or_bit(x: u64, c: u64, b: u64)
    by (bit_vector)
    requires
        c < 64,
        b < 64,
    ensures
        ((x | (1u64 << c)) >> b) & 1 == 1 <==> ((x >> b) & 1 == 1 || b == c),
{
}

proof fn lemma_zero_bit(b: u64)
    by (bit_vector)
    requires
        b < 64,
    ensures
        (0u64 >> b) & 1 != 1,
{
}

/// The mask of a list of virtual pins.
fn pin_mask_of(vpins: &Vec<u8>) -> (m: [u64; 4])
    ensures
        forall|v: u8| mask_bit(m, v) <==> vpins@.contains(v),
{
    let mut m: [u64; 4] = [0, 0, 0, 0];
    let mut i: usize = 0;
    assert forall|v: u8| mask_bit(m, v) <==> vpins@.take(0).contains(v) by {
        lemma_zero_bit((v % 64) as u64);
    }
    while i < vpins.len()
        invariant
            i <= vpins@.len(),
            forall|v: u8| mask_bit(m, v) <==> vpins@.take(i as int).contains(v),
        decreases vpins@.len() - i,
    {
        let p = vpins[i];
        let w = (p / 64) as usize;
        let bpos = (p % 64) as u64;
        let ghost old_m = m;
        m[w] = m[w] | (1u64 << bpos);
        assert(m@ =~= old_m@.update(w as int, old_m@[w as int] | (1u64 << bpos)));
        assert forall|v: u8| mask_bit(m, v) <==> vpins@.take(i + 1).contains(v) by {
            assert(vpins@.take(i + 1) =~= vpins@.take(i as int).push(p));
            if vpins@.take(i as int).contains(v) {
                let k = choose|k: int| 0 <= k < i && #[trigger] vpins@.take(i as int)[k] == v;
                assert(vpins@.take(i + 1)[k] == v);
            }
            if v == p {
                assert(vpins@.take(i + 1)[i as int] == v);
            }
            if vpins@.take(i + 1).contains(v) && v != p {
                let k = choose|k: int| 0 <= k < i + 1 && #[trigger] vpins@.take(i + 1)[k] == v;
                assert(k < i);
                assert(vpins@.take(i as int)[k] == v);
            }
            if (v / 64) as usize == w {
                lemma_or_bit(old_m@[w as int], bpos, (v % 64) as u64);
                assert((v % 64) as u64 == bpos <==> v == p);
                assert(mask_bit(m, v) <==> (mask_bit(old_m, v) || v == p));
            } else {
                assert(m@[(v / 64) as int] == old_m@[(v / 64) as int]);
                assert(v != p);
                assert(mask_bit(m, v) <==> mask_bit(old_m, v));
            }
        }
        i = i + 1;
    }
    assert(vpins@.take(i as int) =~= vpins@);
    m
}

/// Number of virtual pins set in a mask.
fn mask_count(m: &[u64; 4], Ghost(vp): Ghost<Seq<u8>>) -> (c: u32)
    requires
        forall|v: u8| mask_bit(*m, v) <==> vp.contains(v),
    ensures
        c == count_below(vp, 256),
{
    let mut c: u32 = 0;
    let mut v: u32 = 0;
    while v < 256
        invariant
            v <= 256,
            c <= v,
            c == count_below(vp, v as int),
            forall|u: u8| mask_bit(*m, u) <==> vp.contains(u),
        decreases 256 - v,
    {
        let p = v as u8;
        let w = (p / 64) as usize;
        let bpos = (p % 64) as u64;
        if (m[w] >> bpos) & 1 == 1 {
            assert(mask_bit(*m, p));
            c = c + 1;
        } else {
            assert(!mask_bit(*m, p));
        }
        v = v + 1;
    }
    c
}

/// Builds the peripheral of one row, or `None` when the row is skipped.
fn build_peripheral(row: &DeviceRow) -> (r: Option<Peripheral>)
    ensures
        match r {
            Some(p) => peripheral_of(*row) == Some(p@),
            None => peripheral_of(*row) is None,
        },
{
    let vpins = parse_pins_to_vpins(row.pins.as_str());
    if vpins.len() == 0 {
        return None;
    }
    let mask = pin_mask_of(&vpins);
    let count = mask_count(&mask, Ghost(vpins@));
    let event_type = if str_eq(row.event_type.as_str(), "BUTTON") {
        match crate::text::parse_u32_str(row.command.as_str()) {
            Some(code) => EventType::Button { evdev_code: code },
            None => {
                return None;
            },
        }
    } else if str_eq(row.event_type.as_str(), "KEY") {
        match crate::text::parse_u32_str(row.command.as_str()) {
            Some(code) => EventType::Key { evdev_code: code },
            None => {
                return None;
            },
        }
    } else if str_eq(row.event_type.as_str(), "AXIS") {
        match parse_axis_command(row.command.as_str()) {
            Some((t, c, v)) => EventType::Axis { evdev_type: t, evdev_code: c, press_value: v },
            None => {
                return None;
            },
        }
    } else if str_eq(row.event_type.as_str(), "COMMAND") {
        EventType::Command { bash: string_of(row.command.as_str()) }
    } else {
        return None;
    };
    let p = Peripheral {
        name: string_of(row.name.as_str()),
        device_index: device_index(row.device.as_str()),
        pin_mask: mask,
        pin_count: (count % 256) as u8,
        event_type,
    };
    assert(mask_pins(mask) =~= vpins@.to_set());
    Some(p)
}

/// The peripherals of every well-formed row of the table, in row order.
pub fn build_peripherals(cfg: &GpioConfig) -> (r: Vec<Peripheral>)
    ensures
        r@.map_values(|p: Peripheral| p@) == peripherals_of(cfg.devices@),
{
    let mut r: Vec<Peripheral> = Vec::new();
    let mut i: usize = 0;
    assert(cfg.devices@.take(0) =~= Seq::<DeviceRow>::empty());
    assert(r@.map_values(|p: Peripheral| p@) =~= Seq::<PeripheralView>::empty());
    while i < cfg.devices.len()
        invariant
            i <= cfg.devices@.len(),
            r@.map_values(|p: Peripheral| p@) == peripherals_of(cfg.devices@.take(i as int)),
        decreases cfg.devices@.len() - i,
    {
        assert(cfg.devices@.take(i + 1).drop_last() =~= cfg.devices@.take(i as int));
        assert(cfg.devices@.take(i + 1).last() == cfg.devices@[i as int]);
        let ghost before = r@;
        match build_peripheral(&cfg.devices[i]) {
            Some(p) => {
                r.push(p);
                assert(r@.map_values(|p: Peripheral| p@) =~= before.map_values(
                    |p: Peripheral| p@,
                ).push(p@));
            },
            None => {},
        }
        i = i + 1;
    }
    assert(cfg.devices@.take(i as int) =~= cfg.devices@);
    r
}

/// Whether every trigger pin of the mask is pressed in the pressed list.
pub open spec fn mask_held_spec(mask: [u64; 4], pressed: Seq<bool>) -> bool {
    forall|v: u8|
        #![trigger mask_bit(mask, v)]
        mask_bit(mask, v) ==> (v < pressed.len() && pressed[v as int])
}

/// Positions among the first `n` peripherals of those that pin `v` belongs
/// to and, when `all_held`, whose pins are all pressed, in order.
pub open spec fn on_pin_upto(ps: Seq<Peripheral>, v: u8, pressed: Seq<bool>, all_held: bool, n: int) -> Seq<usize>
    decreases n,
{
    if n <= 0 {
        Seq::empty()
    } else {
        let prev = on_pin_upto(ps, v, pressed, all_held, n - 1);
        let m = ps[n - 1].pin_mask;
        if mask_bit(m, v) && (!all_held || mask_held_spec(m, pressed)) {
            prev.push((n - 1) as usize)
        } else {
            prev
        }
    }
}

/// The peripherals a pin going down presses: those it belongs to whose
/// pins are now all held, in order.
pub fn pressed_by(ps: &Vec<Peripheral>, v: u8, pressed: &Vec<bool>) -> (r: Vec<usize>)
    ensures
        r@ == on_pin_upto(ps@, v, pressed@, true, ps@.len() as int),
{
    let mut r: Vec<usize> = Vec::new();
    let mut i: usize = 0;
    while i < ps.len()
        invariant
            i <= ps@.len(),
            r@ == on_pin_upto(ps@, v, pressed@, true, i as int),
        decreases ps@.len() - i,
    {
        if mask_has(&ps[i].pin_mask, v) && mask_held(&ps[i].pin_mask, pressed) {
            r.push(i);
        }
        i = i + 1;
    }
    r
}

/// The peripherals a pin presses once the combo window after it went down
/// has passed: none when it was let go within the window; otherwise those
/// it belongs to whose pins are all held by then, so that the other pins of
/// a combo pressed within the window count.
pub fn pressed_after_window(ps: &Vec<Peripheral>, v: u8, pressed: &Vec<bool>) -> (r: Vec<usize>)
    ensures
        r@ == if (v as int) < pressed@.len() && pressed@[v as int] {
            on_pin_upto(ps@, v, pressed@, true, ps@.len() as int)
        } else {
            Seq::<usize>::empty()
        },
{
    if (v as usize) < pressed.len() && pressed[v as usize] {
        pressed_by(ps, v, pressed)
    } else {
        Vec::new()
    }
}

/// The peripherals a pin going up releases: those it belongs to, in order.
pub fn released_by(ps: &Vec<Peripheral>, v: u8) -> (r: Vec<usize>)
    ensures
        r@ == on_pin_upto(ps@, v, Seq::empty(), false, ps@.len() as int),
{
    let mut r: Vec<usize> = Vec::new();
    let mut i: usize = 0;
    while i < ps.len()
        invariant
            i <= ps@.len(),
            r@ == on_pin_upto(ps@, v, Seq::empty(), false, i as int),
        decreases ps@.len() - i,
    {
        if mask_has(&ps[i].pin_mask, v) {
            r.push(i);
        }
        i = i + 1;
    }
    r
}

/// Every peripheral that a pin going down presses is released when that pin
/// goes up again.
pub proof fn lemma_release_covers_press(ps: Seq<Peripheral>, v: u8, pressed: Seq<bool>, n: int, i: usize)
    requires
        on_pin_upto(ps, v, pressed, true, n).contains(i),
    ensures
        on_pin_upto(ps, v, Seq::empty(), false, n).contains(i),
    decreases n,
{
    if n > 0 {
        let prev = on_pin_upto(ps, v, pressed, true, n - 1);
        let rel = on_pin_upto(ps, v, Seq::empty(), false, n - 1);
        if prev.contains(i) {
            lemma_release_covers_press(ps, v, pressed, n - 1, i);
            let k = choose|k: int| 0 <= k < rel.len() && rel[k] == i;
            let full = on_pin_upto(ps, v, Seq::empty(), false, n);
            if mask_bit(ps[n - 1].pin_mask, v) {
                assert(full[k] == i);
            } else {
                assert(full == rel);
            }
        } else {
            let full = on_pin_upto(ps, v, Seq::empty(), false, n);
            assert(i == (n - 1) as usize);
            assert(full[full.len() - 1] == i);
        }
    }
}

/// Positions among the first `n` peripherals of those on device `d`, in order.
pub open spec fn members_upto(ps: Seq<Peripheral>, d: usize, n: int) -> Seq<usize>
    decreases n,
{
    if n <= 0 {
        Seq::empty()
    } else if ps[n - 1].device_index == d {
        members_upto(ps, d, n - 1).push((n - 1) as usize)
    } else {
        members_upto(ps, d, n - 1)
    }
}

/// Positions of the peripherals of virtual device `d`, in order.
pub fn device_members(ps: &Vec<Peripheral>, d: usize) -> (r: Vec<usize>)
    ensures
        r@ == members_upto(ps@, d, ps@.len() as int),
{
    let mut r: Vec<usize> = Vec::new();
    let mut i: usize = 0;
    while i < ps.len()
        invariant
            i <= ps@.len(),
            r@ == members_upto(ps@, d, i as int),
        decreases ps@.len() - i,
    {
        if ps[i].device_index == d {
            r.push(i);
        }
        i = i + 1;
    }
    r
}

/// Whether virtual pin `v` is one of the mask's trigger pins.
pub fn mask_has(mask: &[u64; 4], v: u8) -> (r: bool)
    ensures
        r == mask_bit(*mask, v),
{
    let w = mask[(v / 64) as usize];
    (w >> ((v % 64) as u64)) & 1 == 1
}

/// Whether every trigger pin of the mask is pressed in a pressed list
/// (entry `v` for virtual pin `v`; pins beyond the list are not pressed).
pub fn mask_held(mask: &[u64; 4], pressed: &Vec<bool>) -> (r: bool)
    ensures
        r == mask_held_spec(*mask, pressed@),
{
    let mut i: u16 = 0;
    while i < 256
        invariant
            i <= 256,
            forall|v: u8|
                #![trigger mask_bit(*mask, v)]
                v < i && mask_bit(*mask, v) ==> (v < pressed@.len() && pressed@[v as int]),
        decreases 256 - i,
    {
        let v = i as u8;
        if mask_has(mask, v) && !((v as usize) < pressed.len() && pressed[v as usize]) {
            return false;
        }
        i = i + 1;
    }
    true
}


/// Why an axis command was refused, checked in this order.
#[derive(Debug, Clone, Copy, PartialEq, Eq)]
pub enum AxisError {
    /// Not exactly three comma-separated parts.
    Shape,
    /// The first part is not a `u32`.
    EventType,
    /// The second part is not a `u32`.
    EventCode,
    /// The third part is not an `i32`.
    PressValue,
}

/// An axis command with the first reason it is refused.
pub open spec fn axis_result_spec(s: Seq<char>) -> Result<(u32, u32, i32), AxisError> {
    let inner = trim_end_by(trim_start_by(trim(s), CharClass::Open), CharClass::Close);
    let parts = split_on(inner, ',');
    if parts.len() != 3 {
        Err(AxisError::Shape)
    } else {
        match parse_u32(trim(parts[0])) {
            None => Err(AxisError::EventType),
            Some(a) => match parse_u32(trim(parts[1])) {
                None => Err(AxisError::EventCode),
                Some(b) => match parse_i32(trim(parts[2])) {
                    None => Err(AxisError::PressValue),
                    Some(c) => Ok((a, b, c)),
                },
            },
        }
    }
}

/// Parses an axis command, saying which part was wrong when it fails.
pub fn axis_command_checked(s: &str) -> (r: Result<(u32, u32, i32), AxisError>)
    ensures
        r == axis_result_spec(s@),
        r is Ok <==> axis_command_spec(s@) is Some,
        r is Ok ==> axis_command_spec(s@) == Some(r->Ok_0),
{
    let v = chars_of(s);
    assert(v@.subrange(0, v@.len() as int) =~= s@);
    let (lo, hi) = trim_range(&v, 0, v.len(), CharClass::Whitespace);
    let a = trim_start_range(&v, lo, hi, CharClass::Open);
    let b = trim_end_range(&v, a, hi, CharClass::Close);
    let parts = split_range(&v, a, b, ',');
    let ghost pieces = pieces_of(v@, parts@);
    if parts.len() != 3 {
        return Err(AxisError::Shape);
    }
    let (a0, b0) = parts[0];
    let (a1, b1) = parts[1];
    let (a2, b2) = parts[2];
    assert(pieces[0] == v@.subrange(a0 as int, b0 as int));
    assert(pieces[1] == v@.subrange(a1 as int, b1 as int));
    assert(pieces[2] == v@.subrange(a2 as int, b2 as int));
    let (x0, y0) = trim_range(&v, a0, b0, CharClass::Whitespace);
    let et = match parse_u32_range(&v, x0, y0) {
        Some(t) => t,
        None => {
            return Err(AxisError::EventType);
        },
    };
    let (x1, y1) = trim_range(&v, a1, b1, CharClass::Whitespace);
    let ec = match parse_u32_range(&v, x1, y1) {
        Some(c) => c,
        None => {
            return Err(AxisError::EventCode);
        },
    };
    let (x2, y2) = trim_range(&v, a2, b2, CharClass::Whitespace);
    let pv = match parse_i32_range(&v, x2, y2) {
        Some(w) => w,
        None => {
            return Err(AxisError::PressValue);
        },
    };
    Ok((et, ec, pv))
}

/// One peripheral as the embedding host hands it over: virtual pins given
/// directly, the event kind as a word, the code or shell line as text.
pub struct PeripheralRecord {
    pub name: String,
    pub device_index: usize,
    pub kind: String,
    pub command: String,
    pub pins: Vec<u8>,
}

/// Why a peripheral record was refused.
#[derive(Debug, Clone, Copy, PartialEq, Eq)]
pub enum RecordError {
    /// A BUTTON or KEY whose command is not a `u32` evdev code.
    BadCode,
    /// An AXIS whose command is malformed.
    BadAxis(AxisError),
    /// A kind other than BUTTON, KEY, AXIS, COMMAND.
    UnknownKind,
}

/// The event a record describes, or why it is refused.
pub open spec fn record_event(kind: Seq<char>, command: Seq<char>) -> Result<EventTypeView, RecordError> {
    if kind == "BUTTON"@ {
        match parse_u32(command) {
            Some(c) => Ok(EventTypeView::Button(c)),
            None => Err(RecordError::BadCode),
        }
    } else if kind == "KEY"@ {
        match parse_u32(command) {
            Some(c) => Ok(EventTypeView::Key(c)),
            None => Err(RecordError::BadCode),
        }
    } else if kind == "AXIS"@ {
        match axis_result_spec(command) {
            Ok((t, c, v)) => Ok(EventTypeView::Axis(t, c, v)),
            Err(e) => Err(RecordError::BadAxis(e)),
        }
    } else if kind == "COMMAND"@ {
        Ok(EventTypeView::Command(command))
    } else {
        Err(RecordError::UnknownKind)
    }
}

/// The peripheral a record yields: its pins as a set, their distinct count,
/// the device index capped at 5.
pub open spec fn record_peripheral(r: PeripheralRecord) -> Result<PeripheralView, RecordError> {
    match record_event(r.kind@, r.command@) {
        Err(e) => Err(e),
        Ok(ev) => Ok(
            PeripheralView {
                name: r.name@,
                device_index: if r.device_index < 5 {
                    r.device_index
                } else {
                    5
                },
                pins: r.pins@.to_set(),
                pin_count: (count_below(r.pins@, 256) % 256) as u8,
                event: ev,
            },
        ),
    }
}

/// Builds the peripheral of one record.
pub fn peripheral_from_record(rec: &PeripheralRecord) -> (r: Result<Peripheral, RecordError>)
    ensures
        match r {
            Ok(p) => record_peripheral(*rec) == Ok::<PeripheralView, RecordError>(p@),
            Err(e) => record_peripheral(*rec) == Err::<PeripheralView, RecordError>(e),
        },
{
    let mask = pin_mask_of(&rec.pins);
    let count = mask_count(&mask, Ghost(rec.pins@));
    let kind = rec.kind.as_str();
    let command = rec.command.as_str();
    let event_type = if str_eq(kind, "BUTTON") {
        match crate::text::parse_u32_str(command) {
            Some(code) => EventType::Button { evdev_code: code },
            None => {
                return Err(RecordError::BadCode);
            },
        }
    } else if str_eq(kind, "KEY") {
        match crate::text::parse_u32_str(command) {
            Some(code) => EventType::Key { evdev_code: code },
            None => {
                return Err(RecordError::BadCode);
            },
        }
    } else if str_eq(kind, "AXIS") {
        match axis_command_checked(command) {
            Ok((t, c, v)) => EventType::Axis { evdev_type: t, evdev_code: c, press_value: v },
            Err(e) => {
                return Err(RecordError::BadAxis(e));
            },
        }
    } else if str_eq(kind, "COMMAND") {
        EventType::Command { bash: string_of(command) }
    } else {
        return Err(RecordError::UnknownKind);
    };
    let device_index = if rec.device_index < 5 {
        rec.device_index
    } else {
        5
    };
    let p = Peripheral {
        name: string_of(rec.name.as_str()),
        device_index,
        pin_mask: mask,
        pin_count: (count % 256) as u8,
        event_type,
    };
    assert(mask_pins(mask) =~= rec.pins@.to_set());
    Ok(p)
}

/// The peripherals of every record, in order; the first refused record
/// refuses the whole list.
pub open spec fn records_peripherals(recs: Seq<PeripheralRecord>) -> Result<Seq<PeripheralView>, RecordError>
    decreases recs.len(),
{
    if recs.len() == 0 {
        Ok(Seq::empty())
    } else {
        match records_peripherals(recs.drop_last()) {
            Err(e) => Err(e),
            Ok(prev) => match record_peripheral(recs.last()) {
                Err(e) => Err(e),
                Ok(p) => Ok(prev.push(p)),
            },
        }
    }
}

/// Builds the peripherals of a record list.
pub fn peripherals_from_records(recs: &Vec<PeripheralRecord>) -> (r: Result<Vec<Peripheral>, RecordError>)
    ensures
        match r {
            Ok(ps) => records_peripherals(recs@) == Ok::<Seq<PeripheralView>, RecordError>(
                ps@.map_values(|p: Peripheral| p@),
            ),
            Err(e) => records_peripherals(recs@) == Err::<Seq<PeripheralView>, RecordError>(e),
        },
{
    let mut out: Vec<Peripheral> = Vec::new();
    let mut i: usize = 0;
    assert(recs@.take(0) =~= Seq::<PeripheralRecord>::empty());
    assert(out@.map_values(|p: Peripheral| p@) =~= Seq::<PeripheralView>::empty());
    while i < recs.len()
        invariant
            i <= recs@.len(),
            records_peripherals(recs@.take(i as int)) == Ok::<Seq<PeripheralView>, RecordError>(
                out@.map_values(|p: Peripheral| p@),
            ),
        decreases recs@.len() - i,
    {
        assert(recs@.take(i + 1).drop_last() =~= recs@.take(i as int));
        assert(recs@.take(i + 1).last() == recs@[i as int]);
        let ghost before = out@;
        match peripheral_from_record(&recs[i]) {
            Ok(p) => {
                out.push(p);
                assert(out@.map_values(|p: Peripheral| p@) =~= before.map_values(
                    |p: Peripheral| p@,
                ).push(p@));
            },
            Err(e) => {
                proof {
                    lemma_records_error_sticks(recs@, i as int + 1, e);
                }
                return Err(e);
            },
        }
        i = i + 1;
    }
    assert(recs@.take(i as int) =~= recs@);
    Ok(out)
}

/// Once a prefix of the records is refused, the whole list is refused with
/// the same error.
proof fn lemma_records_error_sticks(recs: Seq<PeripheralRecord>, k: int, e: RecordError)
    requires
        0 <= k <= recs.len(),
        records_peripherals(recs.take(k)) == Err::<Seq<PeripheralView>, RecordError>(e),
    ensures
        records_peripherals(recs) == Err::<Seq<PeripheralView>, RecordError>(e),
    decreases recs.len() - k,
{
    if k == recs.len() {
        assert(recs.take(k) =~= recs);
    } else {
        assert(recs.take(k + 1).drop_last() =~= recs.take(k));
        lemma_records_error_sticks(recs, k + 1, e);
    }
}

} // verus!
