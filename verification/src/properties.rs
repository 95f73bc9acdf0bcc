//! Properties that span several parts of the library: what one part writes,
//! another reads back.

use vstd::prelude::*;
use crate::config::{
    combo_pins, parse_pins_spec, pin_numbers, pin_to_vpin_spec, pins_to_vpins_spec, PinSpecView,
};
use crate::constants::join_numbers;
use crate::text::{
    all_digits, dec_chars, in_class, is_digit, is_ws, lemma_dec_chars_digits, lemma_parse_u8_dec,
    lemma_split_append, lemma_split_none, lemma_trim_by_fixed, lemma_trim_digits,
    lemma_trim_start_prefix, split_on, starts_with, trim, trim_by, trim_end_by, trim_start_by,
    CharClass,
};
use crate::ui::wizard::pins_text;
use crate::config::{i2c_label_vpin, i2c_vpin_spec, sat_sub};
use crate::constants::{ads1115_pin_id_spec, mcp23017_pin_id_spec, pcf8574_pin_id_spec};
use crate::i2c::{ads1115_vpin, mcp23017_vpin, pcf8574_vpin};
use crate::text::{hex2_chars, is_hex_digit, lemma_parse_hex2, lemma_trim_idempotent, parse_u8, strip_prefix_all};
use crate::ui::live_pins::{live_ads_vpin, live_mcp_vpin, live_pcf_vpin};
use crate::i2c::scale_spec;
use crate::ipc::{pressed_upto, word_bit};
use crate::peripheral::EventTypeView;
use crate::config::default_pins_spec;
use crate::constants::{available_pins_spec, board_to_gpio_modern, board_to_gpio_pi1, board_to_gpio_spec, pins_modern, pins_pi1};
use crate::gpio::{board_to_bcm_spec, lemma_board_to_bcm_injective};
use crate::uinput::{command_parts_spec, press_events_spec, release_events_spec, syn, trimmed_nonempty, EV_KEY};

verus! {

/// The pieces of `join_numbers(v)` between its commas: the first number,
/// then each further number after its space.
pub open spec fn joined_pieces(v: Seq<u8>) -> Seq<Seq<char>>
    decreases v.len(),
{
    if v.len() <= 1 {
        if v.len() == 0 {
            seq![Seq::<char>::empty()]
        } else {
            seq![dec_chars(v[0] as nat)]
        }
    } else {
        joined_pieces(v.drop_last()).push(seq![' '] + dec_chars(v.last() as nat))
    }
}

proof fn lemma_no_comma_in_digits(s: Seq<char>)
    requires
        all_digits(s),
    ensures
        !s.contains(','),
        !(seq![' '] + s).contains(','),
{
    if s.contains(',') {
        let i = choose|i: int| 0 <= i < s.len() && s[i] == ',';
        assert(is_digit(s[i]));
    }
    if (seq![' '] + s).contains(',') {
        let i = choose|i: int| 0 <= i < (seq![' '] + s).len() && (seq![' '] + s)[i] == ',';
        if i > 0 {
            assert((seq![' '] + s)[i] == s[i - 1]);
            assert(is_digit(s[i - 1]));
        }
    }
}

proof fn lemma_joined_ends(v: Seq<u8>)
    requires
        v.len() >= 1,
    ensures
        join_numbers(v).len() >= 1,
        is_digit(join_numbers(v)[0]),
        is_digit(join_numbers(v).last()),
    decreases v.len(),
{
    reveal_strlit(", ");
    lemma_dec_chars_digits(v.last() as nat);
    let d = dec_chars(v.last() as nat);
    assert(is_digit(d[d.len() - 1]));
    if v.len() == 1 {
        lemma_dec_chars_digits(v[0] as nat);
        assert(is_digit(dec_chars(v[0] as nat)[0]));
    } else {
        lemma_joined_ends(v.drop_last());
        let j = join_numbers(v.drop_last());
        assert(join_numbers(v) == j + ", "@ + d);
        assert((j + ", "@ + d)[0] == j[0]);
        assert((j + ", "@ + d).last() == d.last());
    }
}

proof fn lemma_split_joined(v: Seq<u8>)
    requires
        v.len() >= 1,
    ensures
        split_on(join_numbers(v), ',') == joined_pieces(v),
    decreases v.len(),
{
    reveal_strlit(", ");
    if v.len() == 1 {
        lemma_dec_chars_digits(v[0] as nat);
        lemma_no_comma_in_digits(dec_chars(v[0] as nat));
        lemma_split_none(dec_chars(v[0] as nat), ',');
    } else {
        lemma_split_joined(v.drop_last());
        let d = dec_chars(v.last() as nat);
        lemma_dec_chars_digits(v.last() as nat);
        lemma_no_comma_in_digits(d);
        let j = join_numbers(v.drop_last());
        assert(j + ", "@ + d =~= j + seq![','] + (seq![' '] + d));
        lemma_split_append(j, ',', seq![' '] + d);
    }
}

proof fn lemma_numbers_joined(v: Seq<u8>)
    requires
        v.len() >= 1,
    ensures
        pin_numbers(joined_pieces(v)) == v,
    decreases v.len(),
{
    if v.len() == 1 {
        let d = dec_chars(v[0] as nat);
        lemma_dec_chars_digits(v[0] as nat);
        lemma_trim_digits(d);
        lemma_parse_u8_dec(v[0]);
        assert(seq![d].drop_last() =~= Seq::<Seq<char>>::empty());
        assert(seq![d].last() == d);
        assert(pin_numbers(Seq::<Seq<char>>::empty()) == Seq::<u8>::empty());
        assert(Seq::<u8>::empty().push(v[0]) =~= v);
    } else {
        lemma_numbers_joined(v.drop_last());
        let d = dec_chars(v.last() as nat);
        lemma_dec_chars_digits(v.last() as nat);
        lemma_trim_start_prefix(' ', d, CharClass::Whitespace);
        assert(is_digit(d[0]));
        assert(is_digit(d[d.len() - 1]));
        assert(trim_start_by(d, CharClass::Whitespace) == d);
        assert(trim_end_by(d, CharClass::Whitespace) == d);
        assert(trim(seq![' '] + d) == d);
        lemma_parse_u8_dec(v.last());
        let p = joined_pieces(v);
        assert(p.drop_last() =~= joined_pieces(v.drop_last()));
        assert(p.last() == seq![' '] + d);
        assert(v.drop_last().push(v.last()) =~= v);
    }
}

/// Pins held in a capture are written into the mapping's pin field; the
/// daemon reads that field back into exactly the captured virtual pins, and
/// the configuration tool reads it as the single pin or the combo it was.
pub proof fn lemma_captured_pins_round_trip(v: Seq<u8>)
    requires
        v.len() >= 1,
    ensures
        pins_to_vpins_spec(pins_text(v)) == v,
        v.len() == 1 ==> parse_pins_spec(pins_text(v)) == PinSpecView::Single(v[0]),
        v.len() > 1 ==> parse_pins_spec(pins_text(v)) == PinSpecView::Combo(v),
        v.len() == 1 ==> pin_to_vpin_spec(pins_text(v)) == Some(v[0]),
{
    reveal_strlit("(");
    reveal_strlit(")");
    reveal_strlit("i2c-");
    if v.len() == 1 {
        let d = dec_chars(v[0] as nat);
        lemma_dec_chars_digits(v[0] as nat);
        lemma_trim_digits(d);
        lemma_parse_u8_dec(v[0]);
        assert(is_digit(d[0]));
        assert(!starts_with(d, "("@)) by {
            if starts_with(d, "("@) {
                assert(d.take(1)[0] == d[0]);
            }
        }
        assert(!starts_with(d, "i2c-"@)) by {
            if starts_with(d, "i2c-"@) {
                assert(d.take(4)[0] == d[0]);
            }
        }
    } else {
        let j = join_numbers(v);
        lemma_joined_ends(v);
        let t = seq!['('] + j + seq![')'];
        assert(pins_text(v) == t);
        assert(t[0] == '(');
        assert(t.last() == ')');
        lemma_trim_by_fixed(t, CharClass::Whitespace);
        assert(starts_with(t, "("@)) by {
            assert("("@ =~= seq!['(']);
            assert(t.take(1) =~= seq!['(']);
        }
        assert(!starts_with(t, "i2c-"@)) by {
            if starts_with(t, "i2c-"@) {
                assert(t.take(4)[0] == t[0]);
            }
        }
        // the parentheses come off, and only they
        assert(t.drop_first() =~= j + seq![')']);
        assert((j + seq![')'])[0] == j[0]);
        assert(trim_start_by(t, CharClass::Paren) == trim_start_by(j + seq![')'], CharClass::Paren));
        assert(!in_class(CharClass::Paren, j[0]));
        assert(trim_start_by(j + seq![')'], CharClass::Paren) == j + seq![')']);
        assert((j + seq![')']).drop_last() =~= j);
        assert((j + seq![')']).last() == ')');
        assert(!in_class(CharClass::Paren, j.last()));
        assert(trim_end_by(j, CharClass::Paren) == j) by {
            assert(j[j.len() - 1] == j.last());
        }
        assert(trim_end_by(j + seq![')'], CharClass::Paren) == j);
        assert(trim_by(t, CharClass::Paren) == j);
        lemma_split_joined(v);
        lemma_numbers_joined(v);
        assert(combo_pins(t) == v);
    }
}

proof fn lemma_no_dash(s: Seq<char>)
    requires
        forall|i: int| 0 <= i < s.len() ==> #[trigger] s[i] != '-',
    ensures
        !s.contains('-'),
{
}

/// `"i2c-0x" + hex2(a) + "-" + label` splits at dashes into `"i2c"`,
/// `"0x" + hex2(a)` and the label, and its address part reads back `a`.
proof fn lemma_id_parts(a: u8, label: Seq<char>)
    requires
        !label.contains('-'),
    ensures
        ({
            let id = "i2c-0x"@ + hex2_chars(a) + seq!['-'] + label;
            let parts = split_on(id, '-');
            &&& parts.len() == 3
            &&& parts[2] == label
            &&& crate::text::parse_hex_u8(strip_prefix_all(parts[1], "0x"@)) == Some(a)
        }),
{
    reveal_strlit("i2c-0x");
    reveal_strlit("0x");
    let h = hex2_chars(a);
    let head = seq!['i', '2', 'c'];
    let mid = seq!['0', 'x'] + h;
    let hi = (a / 16) as nat;
    let lo = (a % 16) as nat;
    assert(crate::text::hex_char(hi) as u32 == if hi < 10 {
        48 + hi
    } else {
        55 + hi
    });
    assert(crate::text::hex_char(lo) as u32 == if lo < 10 {
        48 + lo
    } else {
        55 + lo
    });
    assert(h[0] != '-' && h[1] != '-' && h[0] != 'x' && h[1] != 'x');
    assert forall|i: int| 0 <= i < head.len() implies #[trigger] head[i] != '-' by {}
    lemma_no_dash(head);
    assert forall|i: int| 0 <= i < mid.len() implies #[trigger] mid[i] != '-' by {
        if i >= 2 {
            assert(mid[i] == h[i - 2]);
        }
    }
    lemma_no_dash(mid);
    lemma_split_none(head, '-');
    lemma_split_append(head, '-', mid);
    let id = "i2c-0x"@ + h + seq!['-'] + label;
    assert(id =~= (head + seq!['-'] + mid) + seq!['-'] + label);
    lemma_split_append(head + seq!['-'] + mid, '-', label);
    let parts = split_on(id, '-');
    assert(parts =~= seq![head, mid, label]);
    // one "0x" comes off the address part, and no second one follows
    assert("0x"@ =~= seq!['0', 'x']);
    assert(starts_with(mid, "0x"@)) by {
        assert(mid.take(2) =~= seq!['0', 'x']);
    }
    assert(mid.skip(2) =~= h);
    assert(!starts_with(h, "0x"@)) by {
        if starts_with(h, "0x"@) {
            assert(h.take(2)[1] == h[1]);
        }
    }
    assert(strip_prefix_all(h, "0x"@) == h);
    assert(strip_prefix_all(mid, "0x"@) == strip_prefix_all(h, "0x"@));
    lemma_parse_hex2(a);
}

proof fn lemma_digits_no_dash(d: Seq<char>)
    requires
        all_digits(d),
    ensures
        forall|i: int| 0 <= i < d.len() ==> #[trigger] d[i] != '-',
{
    assert forall|i: int| 0 <= i < d.len() implies #[trigger] d[i] != '-' by {
        assert(is_digit(d[i]));
    }
}

/// A pin field that starts like an I2C pin id and ends in a digit is its own
/// trim, is read as that id, and names the id's virtual pin.
proof fn lemma_id_field(id: Seq<char>)
    requires
        starts_with(id, "i2c-"@),
        is_digit(id.last()),
    ensures
        parse_pins_spec(id) == PinSpecView::I2c(id),
        pin_to_vpin_spec(id) == i2c_vpin_spec(id),
{
    reveal_strlit("i2c-");
    assert(id[0] == 'i') by {
        assert(id.take(4)[0] == id[0]);
    }
    assert(!is_ws(id[0]));
    assert(!is_ws(id.last()));
    lemma_trim_by_fixed(id, CharClass::Whitespace);
}

/// The pin ids are `"i2c-0x" + hex2(a) + "-" + label`: they start like an
/// I2C pin id.
proof fn lemma_id_prefix(a: u8, rest: Seq<char>)
    ensures
        starts_with("i2c-0x"@ + hex2_chars(a) + rest, "i2c-"@),
{
    reveal_strlit("i2c-0x");
    reveal_strlit("i2c-");
    let id = "i2c-0x"@ + hex2_chars(a) + rest;
    assert(id.take(4) =~= "i2c-"@) by {
        assert(id.take(4) =~= "i2c-0x"@.take(4));
    }
}

/// The pin id that the configuration tool offers for an MCP23017 pin is read
/// back as the virtual pin that the chip driver reports for it, and that the
/// live monitor shows it under, as long as the address leaves the pin below
/// 256; as a pin field it names that virtual pin.
pub proof fn lemma_mcp23017_id_round_trip(a: u8, port: char, bit: u8)
    requires
        port == 'A' || port == 'B',
        bit < 8,
        mcp23017_vpin(a, port, bit) <= 255,
    ensures
        i2c_vpin_spec(mcp23017_pin_id_spec(a, port, bit)) == Some(mcp23017_vpin(a, port, bit) as u8),
        pin_to_vpin_spec(mcp23017_pin_id_spec(a, port, bit)) == Some(mcp23017_vpin(a, port, bit) as u8),
        live_mcp_vpin(a, port, bit) == mcp23017_vpin(a, port, bit),
{
    let d = dec_chars(bit as nat);
    lemma_dec_chars_digits(bit as nat);
    lemma_parse_u8_dec(bit);
    let label = seq![port] + d;
    lemma_digits_no_dash(d);
    assert forall|i: int| 0 <= i < label.len() implies #[trigger] label[i] != '-' by {
        if i > 0 {
            assert(label[i] == d[i - 1]);
        }
    }
    lemma_no_dash(label);
    lemma_id_parts(a, label);
    assert(mcp23017_pin_id_spec(a, port, bit) =~= "i2c-0x"@ + hex2_chars(a) + seq!['-'] + label);
    assert(label.drop_first() =~= d);
    assert(label[0] == port);
    let id = mcp23017_pin_id_spec(a, port, bit);
    lemma_id_prefix(a, seq!['-'] + label);
    assert(id =~= "i2c-0x"@ + hex2_chars(a) + (seq!['-'] + label));
    assert(id.last() == d.last());
    lemma_id_field(id);
}

/// The same for an ADS1115 channel.
pub proof fn lemma_ads1115_id_round_trip(a: u8, ch: u8)
    requires
        ch < 4,
        ads1115_vpin(a, ch) <= 255,
    ensures
        i2c_vpin_spec(ads1115_pin_id_spec(a, ch)) == Some(ads1115_vpin(a, ch) as u8),
        pin_to_vpin_spec(ads1115_pin_id_spec(a, ch)) == Some(ads1115_vpin(a, ch) as u8),
        live_ads_vpin(a, ch) == ads1115_vpin(a, ch),
{
    reveal_strlit("-ch");
    reveal_strlit("ch");
    let d = dec_chars(ch as nat);
    lemma_dec_chars_digits(ch as nat);
    lemma_parse_u8_dec(ch);
    let label = seq!['c', 'h'] + d;
    lemma_digits_no_dash(d);
    assert forall|i: int| 0 <= i < label.len() implies #[trigger] label[i] != '-' by {
        if i > 1 {
            assert(label[i] == d[i - 2]);
        }
    }
    lemma_no_dash(label);
    lemma_id_parts(a, label);
    assert(ads1115_pin_id_spec(a, ch) =~= "i2c-0x"@ + hex2_chars(a) + seq!['-'] + label);
    assert("ch"@ =~= seq!['c', 'h']);
    assert(starts_with(label, "ch"@)) by {
        assert(label.take(2) =~= seq!['c', 'h']);
    }
    assert(label.skip(2) =~= d);
    assert(label[0] == 'c');
    let id = ads1115_pin_id_spec(a, ch);
    lemma_id_prefix(a, seq!['-'] + label);
    assert(id =~= "i2c-0x"@ + hex2_chars(a) + (seq!['-'] + label));
    assert(id.last() == d.last());
    lemma_id_field(id);
}

/// The same for a PCF8574 pin.
pub proof fn lemma_pcf8574_id_round_trip(a: u8, pin: u8)
    requires
        pin < 8,
        pcf8574_vpin(a, pin) <= 255,
    ensures
        i2c_vpin_spec(pcf8574_pin_id_spec(a, pin)) == Some(pcf8574_vpin(a, pin) as u8),
        pin_to_vpin_spec(pcf8574_pin_id_spec(a, pin)) == Some(pcf8574_vpin(a, pin) as u8),
        live_pcf_vpin(a, pin) == pcf8574_vpin(a, pin),
{
    reveal_strlit("-P");
    reveal_strlit("ch");
    let d = dec_chars(pin as nat);
    lemma_dec_chars_digits(pin as nat);
    lemma_parse_u8_dec(pin);
    let label = seq!['P'] + d;
    lemma_digits_no_dash(d);
    assert forall|i: int| 0 <= i < label.len() implies #[trigger] label[i] != '-' by {
        if i > 0 {
            assert(label[i] == d[i - 1]);
        }
    }
    lemma_no_dash(label);
    lemma_id_parts(a, label);
    assert(pcf8574_pin_id_spec(a, pin) =~= "i2c-0x"@ + hex2_chars(a) + seq!['-'] + label);
    assert(label.drop_first() =~= d);
    assert(label[0] == 'P');
    assert(!starts_with(label, "ch"@)) by {
        if starts_with(label, "ch"@) {
            assert(label.take(2)[0] == label[0]);
        }
    }
    let id = pcf8574_pin_id_spec(a, pin);
    lemma_id_prefix(a, seq!['-'] + label);
    assert(id =~= "i2c-0x"@ + hex2_chars(a) + (seq!['-'] + label));
    assert(id.last() == d.last());
    lemma_id_field(id);
}

/// A release undoes its press: for every key, button and axis the release
/// sends the same event type and code with value 0, where the press sent
/// the key value 1 or the axis value; both end with a report. A shell
/// command sends nothing either way.
pub proof fn lemma_release_matches_press(e: EventTypeView)
    ensures
        !(e is Command) ==> {
            let p = press_events_spec(e);
            let r = release_events_spec(e);
            &&& p.len() == 2 && r.len() == 2
            &&& p[0].kind == r[0].kind && p[0].code == r[0].code
            &&& r[0].value == 0
            &&& p[1] == syn() && r[1] == syn()
            &&& (e is Button || e is Key) ==> p[0].kind == EV_KEY && p[0].value == 1
            &&& e matches EventTypeView::Axis(_, _, v) ==> p[0].value == v
        },
        e is Command ==> press_events_spec(e).len() == 0 && release_events_spec(e).len() == 0,
{
}

/// The pressed list that the configuration tool derives from a frame holds
/// exactly the pins that it reports as pressed.
pub proof fn lemma_pressed_list_matches(pins: Seq<bool>, v: u8)
    requires
        pins.len() <= 256,
    ensures
        pressed_upto(pins, pins.len() as int).contains(v) <==> (v < pins.len() && pins[v as int]),
{
    lemma_pressed_upto(pins, pins.len() as int, v);
}

proof fn lemma_pressed_upto(pins: Seq<bool>, n: int, v: u8)
    requires
        0 <= n <= pins.len(),
        n <= 256,
    ensures
        pressed_upto(pins, n).contains(v) <==> (v < n && pins[v as int]),
    decreases n,
{
    if n > 0 {
        lemma_pressed_upto(pins, n - 1, v);
        let prev = pressed_upto(pins, n - 1);
        if pins[n - 1] {
            assert(pressed_upto(pins, n) == prev.push((n - 1) as u8));
            let q = prev.push((n - 1) as u8);
            if q.contains(v) && v != (n - 1) as u8 {
                let i = choose|i: int| 0 <= i < q.len() && #[trigger] q[i] == v;
                assert(i < prev.len());
                assert(prev[i] == v);
            }
            if prev.contains(v) {
                let i = choose|i: int| 0 <= i < prev.len() && #[trigger] prev[i] == v;
                assert(q[i] == v);
            }
            if v == (n - 1) as u8 {
                assert(q[prev.len() as int] == v);
            }
        }
    }
}

/// A frame made from the daemon's 256-bit state reports a pin as pressed
/// exactly when its bit is set.
pub proof fn lemma_frame_matches_state(words: [u64; 4], pins: Seq<bool>, v: u8)
    requires
        pins.len() == 256,
        forall|i: int| 0 <= i < 256 ==> #[trigger] pins[i] == word_bit(words, i),
    ensures
        (v < pins.len() && pins[v as int]) <==> word_bit(words, v as int),
        pressed_upto(pins, 256).contains(v) <==> word_bit(words, v as int),
{
    lemma_pressed_upto(pins, 256, v);
}

proof fn lemma_trim_ends(s: Seq<char>)
    ensures
        trim(s).len() > 0 ==> !is_ws(trim(s)[0]) && !is_ws(trim(s).last()),
    decreases s.len(),
{
    lemma_trim_start_ends(s);
    lemma_trim_end_keeps_first(trim_start_by(s, CharClass::Whitespace));
}

proof fn lemma_trim_start_ends(s: Seq<char>)
    ensures
        trim_start_by(s, CharClass::Whitespace).len() > 0 ==> !is_ws(
            trim_start_by(s, CharClass::Whitespace)[0],
        ),
    decreases s.len(),
{
    if s.len() > 0 && is_ws(s[0]) {
        lemma_trim_start_ends(s.drop_first());
    }
}

proof fn lemma_trim_end_keeps_first(s: Seq<char>)
    ensures
        trim_end_by(s, CharClass::Whitespace).len() > 0 ==> trim_end_by(s, CharClass::Whitespace)[0]
            == s[0] && !is_ws(trim_end_by(s, CharClass::Whitespace).last()),
    decreases s.len(),
{
    if s.len() > 0 && is_ws(s.last()) {
        lemma_trim_end_keeps_first(s.drop_last());
        let t = trim_end_by(s.drop_last(), CharClass::Whitespace);
        if t.len() > 0 {
            assert(s.drop_last()[0] == s[0]);
        }
    }
}

proof fn lemma_trimmed_clean(ps: Seq<Seq<char>>)
    ensures
        forall|i: int|
            0 <= i < trimmed_nonempty(ps).len() ==> (#[trigger] trimmed_nonempty(ps)[i]).len() > 0
                && trim(trimmed_nonempty(ps)[i]) == trimmed_nonempty(ps)[i],
    decreases ps.len(),
{
    if ps.len() > 0 {
        lemma_trimmed_clean(ps.drop_first());
        let t = trim(ps[0]);
        let rest = trimmed_nonempty(ps.drop_first());
        if t.len() > 0 {
            lemma_trim_ends(ps[0]);
            lemma_trim_by_fixed(t, CharClass::Whitespace);
            assert forall|i: int|
                0 <= i < trimmed_nonempty(ps).len() implies (#[trigger] trimmed_nonempty(ps)[i]).len()
                > 0 && trim(trimmed_nonempty(ps)[i]) == trimmed_nonempty(ps)[i] by {
                if i > 0 {
                    assert(trimmed_nonempty(ps)[i] == rest[i - 1]);
                }
            }
        }
    }
}

/// Every shell command run for a mapping is non-empty and carries no
/// surrounding whitespace.
pub proof fn lemma_command_parts_clean(s: Seq<char>)
    ensures
        forall|i: int|
            0 <= i < command_parts_spec(s).len() ==> (#[trigger] command_parts_spec(s)[i]).len() > 0
                && trim(command_parts_spec(s)[i]) == command_parts_spec(s)[i],
{
    lemma_trimmed_clean(crate::uinput::split_bars_from(s, 0, 0));
}

/// An axis reading is scaled into -255..=255, with the ends of the raw range
/// at the ends of the axis and 0 at 0.
pub proof fn lemma_scale_bounds(raw: i16)
    ensures
        -255 <= scale_spec(raw) <= 255,
        scale_spec(32767) == 255,
        scale_spec(i16::MIN) == -255,
        scale_spec(0) == 0,
{
    if raw >= 0 {
        assert(0 <= (raw * 255) / 32767 <= 255) by (nonlinear_arith)
            requires
                0 <= raw <= 32767,
        ;
    } else {
        assert(0 <= ((0 - raw) * 255) / 32767 <= 255) by (nonlinear_arith)
            requires
                1 <= 0 - raw <= 32768,
        ;
    }
}

// ---------------------------------------------------------------------------
// Pin tables
// ---------------------------------------------------------------------------

/// Position of a pin in the default pin list, -1 when absent.
pub open spec fn default_pos(p: u8) -> int {
    match p {
        7u8 => 0,
        8u8 => 1,
        10u8 => 2,
        11u8 => 3,
        12u8 => 4,
        13u8 => 5,
        15u8 => 6,
        16u8 => 7,
        18u8 => 8,
        22u8 => 9,
        29u8 => 10,
        31u8 => 11,
        32u8 => 12,
        33u8 => 13,
        35u8 => 14,
        36u8 => 15,
        37u8 => 16,
        38u8 => 17,
        40u8 => 18,
        _ => -1,
    }
}

/// Position of a pin in the 40-pin list, -1 when absent.
pub open spec fn modern_pos(p: u8) -> int {
    match p {
        3u8 => 0,
        5u8 => 1,
        7u8 => 2,
        11u8 => 3,
        13u8 => 4,
        15u8 => 5,
        19u8 => 6,
        21u8 => 7,
        23u8 => 8,
        29u8 => 9,
        31u8 => 10,
        33u8 => 11,
        35u8 => 12,
        37u8 => 13,
        8u8 => 14,
        10u8 => 15,
        12u8 => 16,
        16u8 => 17,
        18u8 => 18,
        22u8 => 19,
        24u8 => 20,
        26u8 => 21,
        32u8 => 22,
        36u8 => 23,
        38u8 => 24,
        40u8 => 25,
        _ => -1,
    }
}

/// Position of a pin in the 26-pin list, -1 when absent.
pub open spec fn pi1_pos(p: u8) -> int {
    match p {
        3u8 => 0,
        5u8 => 1,
        7u8 => 2,
        11u8 => 3,
        13u8 => 4,
        15u8 => 5,
        19u8 => 6,
        21u8 => 7,
        23u8 => 8,
        8u8 => 9,
        10u8 => 10,
        12u8 => 11,
        16u8 => 12,
        18u8 => 13,
        22u8 => 14,
        24u8 => 15,
        26u8 => 16,
        _ => -1,
    }
}

proof fn lemma_default_at(i: int)
    requires
        0 <= i < default_pins_spec().len(),
    ensures
        default_pos(default_pins_spec()[i]) == i,
        board_to_bcm_spec(default_pins_spec()[i]) is Some,
{
    let d = default_pins_spec();
        if i == 0 {
            assert(d[0] == 7u8);
        } else if i == 1 {
            assert(d[1] == 8u8);
        } else if i == 2 {
            assert(d[2] == 10u8);
        } else if i == 3 {
            assert(d[3] == 11u8);
        } else if i == 4 {
            assert(d[4] == 12u8);
        } else if i == 5 {
            assert(d[5] == 13u8);
        } else if i == 6 {
            assert(d[6] == 15u8);
        } else if i == 7 {
            assert(d[7] == 16u8);
        } else if i == 8 {
            assert(d[8] == 18u8);
        } else if i == 9 {
            assert(d[9] == 22u8);
        } else if i == 10 {
            assert(d[10] == 29u8);
        } else if i == 11 {
            assert(d[11] == 31u8);
        } else if i == 12 {
            assert(d[12] == 32u8);
        } else if i == 13 {
            assert(d[13] == 33u8);
        } else if i == 14 {
            assert(d[14] == 35u8);
        } else if i == 15 {
            assert(d[15] == 36u8);
        } else if i == 16 {
            assert(d[16] == 37u8);
        } else if i == 17 {
            assert(d[17] == 38u8);
        } else if i == 18 {
            assert(d[18] == 40u8);
        }
}

proof fn lemma_modern_at(i: int)
    requires
        0 <= i < pins_modern().len(),
    ensures
        modern_pos(pins_modern()[i]) == i,
        board_to_bcm_spec(pins_modern()[i]) is Some,
        board_to_gpio_modern().contains_key(pins_modern()[i]),
{
    let d = pins_modern();
        if i == 0 {
            assert(d[0] == 3u8);
        } else if i == 1 {
            assert(d[1] == 5u8);
        } else if i == 2 {
            assert(d[2] == 7u8);
        } else if i == 3 {
            assert(d[3] == 11u8);
        } else if i == 4 {
            assert(d[4] == 13u8);
        } else if i == 5 {
            assert(d[5] == 15u8);
        } else if i == 6 {
            assert(d[6] == 19u8);
        } else if i == 7 {
            assert(d[7] == 21u8);
        } else if i == 8 {
            assert(d[8] == 23u8);
        } else if i == 9 {
            assert(d[9] == 29u8);
        } else if i == 10 {
            assert(d[10] == 31u8);
        } else if i == 11 {
            assert(d[11] == 33u8);
        } else if i == 12 {
            assert(d[12] == 35u8);
        } else if i == 13 {
            assert(d[13] == 37u8);
        } else if i == 14 {
            assert(d[14] == 8u8);
        } else if i == 15 {
            assert(d[15] == 10u8);
        } else if i == 16 {
            assert(d[16] == 12u8);
        } else if i == 17 {
            assert(d[17] == 16u8);
        } else if i == 18 {
            assert(d[18] == 18u8);
        } else if i == 19 {
            assert(d[19] == 22u8);
        } else if i == 20 {
            assert(d[20] == 24u8);
        } else if i == 21 {
            assert(d[21] == 26u8);
        } else if i == 22 {
            assert(d[22] == 32u8);
        } else if i == 23 {
            assert(d[23] == 36u8);
        } else if i == 24 {
            assert(d[24] == 38u8);
        } else if i == 25 {
            assert(d[25] == 40u8);
        }
}

proof fn lemma_pi1_at(i: int)
    requires
        0 <= i < pins_pi1().len(),
    ensures
        pi1_pos(pins_pi1()[i]) == i,
        board_to_bcm_spec(pins_pi1()[i]) is Some,
        board_to_gpio_modern().contains_key(pins_pi1()[i]),
        board_to_gpio_pi1().contains_key(pins_pi1()[i]),
{
    let d = pins_pi1();
        if i == 0 {
            assert(d[0] == 3u8);
        } else if i == 1 {
            assert(d[1] == 5u8);
        } else if i == 2 {
            assert(d[2] == 7u8);
        } else if i == 3 {
            assert(d[3] == 11u8);
        } else if i == 4 {
            assert(d[4] == 13u8);
        } else if i == 5 {
            assert(d[5] == 15u8);
        } else if i == 6 {
            assert(d[6] == 19u8);
        } else if i == 7 {
            assert(d[7] == 21u8);
        } else if i == 8 {
            assert(d[8] == 23u8);
        } else if i == 9 {
            assert(d[9] == 8u8);
        } else if i == 10 {
            assert(d[10] == 10u8);
        } else if i == 11 {
            assert(d[11] == 12u8);
        } else if i == 12 {
            assert(d[12] == 16u8);
        } else if i == 13 {
            assert(d[13] == 18u8);
        } else if i == 14 {
            assert(d[14] == 22u8);
        } else if i == 15 {
            assert(d[15] == 24u8);
        } else if i == 16 {
            assert(d[16] == 26u8);
        }
}

/// The default pins occur once each, all have a GPIO line (no power or
/// ground pin), and none of them is an I2C pin (3, 5) or an SPI pin (19,
/// 21, 23, 24, 26).
pub proof fn lemma_default_pins_shape()
    ensures
        default_pins_spec().no_duplicates(),
        forall|i: int|
            0 <= i < default_pins_spec().len() ==> board_to_bcm_spec(
                #[trigger] default_pins_spec()[i],
            ) is Some,
        !default_pins_spec().contains(3u8),
        !default_pins_spec().contains(5u8),
        !default_pins_spec().contains(19u8),
        !default_pins_spec().contains(21u8),
        !default_pins_spec().contains(23u8),
        !default_pins_spec().contains(24u8),
        !default_pins_spec().contains(26u8),
{
    let d = default_pins_spec();
    assert forall|i: int| 0 <= i < d.len() implies default_pos(#[trigger] d[i]) == i
        && board_to_bcm_spec(d[i]) is Some by {
        lemma_default_at(i);
    }
    assert forall|i: int, j: int| 0 <= i < d.len() && 0 <= j < d.len() && i != j implies d[i]
        != d[j] by {
        lemma_default_at(i);
        lemma_default_at(j);
    }
}

/// The pins offered for mapping on a board of any class occur once each,
/// have a GPIO line (no power or ground pin), and are keys of that class's
/// BOARD-to-GPIO table: 17 pins on the first 26-pin boards, 26 otherwise.
pub proof fn lemma_available_pins_shape(class: u32)
    ensures
        available_pins_spec(class).no_duplicates(),
        available_pins_spec(class).len() == if class < 3 {
            17int
        } else {
            26int
        },
        forall|i: int|
            0 <= i < available_pins_spec(class).len() ==> board_to_bcm_spec(
                #[trigger] available_pins_spec(class)[i],
            ) is Some && board_to_gpio_spec(class).contains_key(available_pins_spec(class)[i]),
{
    let d = available_pins_spec(class);
    if class < 3 {
        assert forall|i: int| 0 <= i < d.len() implies board_to_bcm_spec(#[trigger] d[i]) is Some
            && board_to_gpio_spec(class).contains_key(d[i]) by {
            lemma_pi1_at(i);
        }
        assert forall|i: int, j: int| 0 <= i < d.len() && 0 <= j < d.len() && i != j implies d[i]
            != d[j] by {
            lemma_pi1_at(i);
            lemma_pi1_at(j);
        }
    } else {
        assert forall|i: int| 0 <= i < d.len() implies board_to_bcm_spec(#[trigger] d[i]) is Some
            && board_to_gpio_spec(class).contains_key(d[i]) by {
            lemma_modern_at(i);
        }
        assert forall|i: int, j: int| 0 <= i < d.len() && 0 <= j < d.len() && i != j implies d[i]
            != d[j] by {
            lemma_modern_at(i);
            lemma_modern_at(j);
        }
    }
}

/// The configuration tool's BOARD-to-GPIO table of 40-pin boards and the
/// daemon's BOARD-to-BCM table agree: the same pins, the same numbers, no
/// two pins sharing a number.
pub proof fn lemma_gpio_tables_agree(b: u8, c: u8)
    ensures
        board_to_gpio_modern().contains_key(b) <==> board_to_bcm_spec(b) is Some,
        board_to_gpio_modern().contains_key(b) ==> board_to_bcm_spec(b) == Some(
            board_to_gpio_modern()[b] as u32,
        ),
        board_to_gpio_modern().contains_key(b) && board_to_gpio_modern().contains_key(c)
            && board_to_gpio_modern()[b] == board_to_gpio_modern()[c] ==> b == c,
{
    if board_to_gpio_modern().contains_key(b) && board_to_gpio_modern().contains_key(c)
        && board_to_gpio_modern()[b] == board_to_gpio_modern()[c] {
        lemma_board_to_bcm_injective(b, c);
    }
}

/// The 40-pin BOARD-to-GPIO table has 28 entries.
pub proof fn lemma_gpio_table_size()
    ensures
        board_to_gpio_modern().dom().finite(),
        board_to_gpio_modern().dom().len() == 28,
{
    let m = board_to_gpio_modern();
    assert(m.dom().finite());
    assert(m.dom().len() == 28);
}

/// The virtual pins that a parsed pin field names: its one pin, the pins of
/// a combo, or the virtual pin of an I2C id when it has one.
pub open spec fn named_vpins(p: PinSpecView) -> Seq<u8> {
    match p {
        PinSpecView::Single(n) => seq![n],
        PinSpecView::Combo(v) => v,
        PinSpecView::I2c(id) => match pin_to_vpin_spec(id) {
            Some(x) => seq![x],
            None => Seq::empty(),
        },
    }
}

/// The daemon and the configuration tool read a pin field the same way: for
/// a combo, an I2C pin id or a plain number, the virtual pins the daemon
/// binds are those the configuration tool's reading of the field names.
pub proof fn lemma_pin_readers_agree(s: Seq<char>)
    requires
        starts_with(trim(s), "("@) || starts_with(trim(s), "i2c-"@) || parse_u8(trim(s)) is Some,
    ensures
        pins_to_vpins_spec(s) == named_vpins(parse_pins_spec(s)),
{
    reveal_strlit("(");
    reveal_strlit("i2c-");
    let t = trim(s);
    lemma_trim_idempotent(s, CharClass::Whitespace);
    if starts_with(t, "i2c-"@) {
        assert(!starts_with(t, "("@)) by {
            assert(t.take(4)[0] == t[0]);
            if starts_with(t, "("@) {
                assert(t.take(1)[0] == t[0]);
            }
        }
        assert(parse_pins_spec(t) == PinSpecView::I2c(t));
    } else if starts_with(t, "("@) {
        let nums = combo_pins(t);
        if nums.len() == 1 {
            assert(seq![nums[0]] =~= nums);
        }
    }
}

/// A combo names no single virtual pin.
pub proof fn lemma_combo_has_no_vpin(s: Seq<char>)
    requires
        starts_with(trim(s), "("@),
        combo_pins(trim(s)).len() != 1,
    ensures
        pin_to_vpin_spec(s) is None,
{
    reveal_strlit("(");
    reveal_strlit("i2c-");
    let t = trim(s);
    assert(!starts_with(t, "i2c-"@)) by {
        assert(t.take(1)[0] == t[0]);
        if starts_with(t, "i2c-"@) {
            assert(t.take(4)[0] == t[0]);
        }
    }
}

} // verus!
