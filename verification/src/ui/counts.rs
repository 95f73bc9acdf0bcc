//! What the Devices tab shows in each device cell: how many mappings a
//! device has, and for a joypad how many D-pads and buttons.

use vstd::prelude::*;
use crate::config::{DeviceRow, GpioConfig};
use crate::constants::{device_list, device_list_spec};
use crate::text::{chars_of, dec_chars, is_ws, push_char, push_decimal, push_str, str_eq, string_of, string_of_range};

verus! {

/// Number of rows of device `d`.
pub open spec fn count_rows(rows: Seq<DeviceRow>, d: Seq<char>) -> nat
    decreases rows.len(),
{
    if rows.len() == 0 {
        0
    } else {
        count_rows(rows.drop_last(), d) + if rows.last().device@ == d {
            1nat
        } else {
            0nat
        }
    }
}

/// Mapping count of each of the six devices, in display order.
pub fn build_count_map(cfg: &GpioConfig) -> (r: Vec<usize>)
    requires
        cfg.devices@.len() <= usize::MAX,
    ensures
        r@.len() == 6,
        forall|k: int| 0 <= k < 6 ==> #[trigger] r@[k] == count_rows(cfg.devices@, device_list_spec()[k]),
{
    let names = device_list();
    assert(names@.map_values(|s: &str| s@).len() == names@.len());
    let mut r: Vec<usize> = Vec::new();
    let mut k: usize = 0;
    while k < 6
        invariant
            k <= 6,
            names@.map_values(|s: &str| s@) == device_list_spec(),
            names@.len() == 6,
            r@.len() == k,
            forall|j: int| 0 <= j < k ==> #[trigger] r@[j] == count_rows(cfg.devices@, device_list_spec()[j]),
        decreases 6 - k,
    {
        assert(names@.map_values(|s: &str| s@)[k as int] == names@[k as int]@);
        let d = names[k];
        let mut c: usize = 0;
        let mut i: usize = 0;
        while i < cfg.devices.len()
            invariant
                i <= cfg.devices@.len(),
                c <= i,
                c == count_rows(cfg.devices@.take(i as int), d@),
            decreases cfg.devices@.len() - i,
        {
            assert(cfg.devices@.take(i + 1).drop_last() =~= cfg.devices@.take(i as int));
            assert(cfg.devices@.take(i + 1).last() == cfg.devices@[i as int]);
            if str_eq(cfg.devices[i].device.as_str(), d) {
                c = c + 1;
            }
            i = i + 1;
        }
        assert(cfg.devices@.take(i as int) =~= cfg.devices@);
        r.push(c);
        k = k + 1;
    }
    r
}

// ---------------------------------------------------------------------------
// Words of a mapping name
// ---------------------------------------------------------------------------

/// Number of leading whitespace characters.
pub open spec fn lead_ws(s: Seq<char>) -> nat
    decreases s.len(),
{
    if s.len() > 0 && is_ws(s[0]) {
        1 + lead_ws(s.drop_first())
    } else {
        0
    }
}

/// Number of leading non-whitespace characters.
pub open spec fn lead_word(s: Seq<char>) -> nat
    decreases s.len(),
{
    if s.len() > 0 && !is_ws(s[0]) {
        1 + lead_word(s.drop_first())
    } else {
        0
    }
}

/// The first two whitespace-separated words of a name, joined by one space
/// (`"DPAD 1 UP"` gives `"DPAD 1"`).
pub open spec fn group_key_spec(s: Seq<char>) -> Seq<char> {
    let s1 = s.skip(lead_ws(s) as int);
    let w1 = s1.take(lead_word(s1) as int);
    let r = s1.skip(lead_word(s1) as int);
    let s2 = r.skip(lead_ws(r) as int);
    let w2 = s2.take(lead_word(s2) as int);
    if w1.len() == 0 {
        Seq::empty()
    } else if w2.len() == 0 {
        w1
    } else {
        w1 + seq![' '] + w2
    }
}

proof fn lemma_lead_ws(s: Seq<char>, k: int)
    requires
        0 <= k <= s.len(),
        forall|q: int| 0 <= q < k ==> is_ws(#[trigger] s[q]),
        k == s.len() || !is_ws(s[k]),
    ensures
        lead_ws(s) == k,
    decreases k,
{
    if k > 0 {
        assert forall|q: int| 0 <= q < k - 1 implies is_ws(#[trigger] s.drop_first()[q]) by {
            assert(s.drop_first()[q] == s[q + 1]);
        }
        if k < s.len() {
            assert(s.drop_first()[k - 1] == s[k]);
        }
        lemma_lead_ws(s.drop_first(), k - 1);
    }
}

proof fn lemma_lead_word(s: Seq<char>, k: int)
    requires
        0 <= k <= s.len(),
        forall|q: int| 0 <= q < k ==> !is_ws(#[trigger] s[q]),
        k == s.len() || is_ws(s[k]),
    ensures
        lead_word(s) == k,
    decreases k,
{
    if k > 0 {
        assert forall|q: int| 0 <= q < k - 1 implies !is_ws(#[trigger] s.drop_first()[q]) by {
            assert(s.drop_first()[q] == s[q + 1]);
        }
        if k < s.len() {
            assert(s.drop_first()[k - 1] == s[k]);
        }
        lemma_lead_word(s.drop_first(), k - 1);
    }
}

fn is_ws_char(c: char) -> (r: bool)
    ensures
        r == is_ws(c),
{
    crate::text::class_has(crate::text::CharClass::Whitespace, c)
}

/// End of the whitespace run starting at `i`.
fn skip_ws_from(v: &Vec<char>, i: usize) -> (j: usize)
    requires
        i <= v@.len(),
    ensures
        i <= j <= v@.len(),
        lead_ws(v@.skip(i as int)) == j - i,
{
    let mut j = i;
    while j < v.len() && is_ws_char(v[j])
        invariant
            i <= j <= v@.len(),
            forall|q: int| i <= q < j ==> is_ws(#[trigger] v@[q]),
        decreases v@.len() - j,
    {
        j = j + 1;
    }
    proof {
        let s = v@.skip(i as int);
        assert forall|q: int| 0 <= q < j - i implies is_ws(#[trigger] s[q]) by {
            assert(s[q] == v@[i + q]);
        }
        if j < v@.len() {
            assert(s[j - i] == v@[j as int]);
        }
        lemma_lead_ws(s, j - i);
    }
    j
}

/// End of the word starting at `i`.
fn skip_word_from(v: &Vec<char>, i: usize) -> (j: usize)
    requires
        i <= v@.len(),
    ensures
        i <= j <= v@.len(),
        lead_word(v@.skip(i as int)) == j - i,
{
    let mut j = i;
    while j < v.len() && !is_ws_char(v[j])
        invariant
            i <= j <= v@.len(),
            forall|q: int| i <= q < j ==> !is_ws(#[trigger] v@[q]),
        decreases v@.len() - j,
    {
        j = j + 1;
    }
    proof {
        let s = v@.skip(i as int);
        assert forall|q: int| 0 <= q < j - i implies !is_ws(#[trigger] s[q]) by {
            assert(s[q] == v@[i + q]);
        }
        if j < v@.len() {
            assert(s[j - i] == v@[j as int]);
        }
        lemma_lead_word(s, j - i);
    }
    j
}

/// The D-pad group of an axis mapping name: its first two words.
pub fn group_key(name: &str) -> (r: String)
    ensures
        r@ == group_key_spec(name@),
{
    let v = chars_of(name);
    let a = skip_ws_from(&v, 0);
    let b = skip_word_from(&v, a);
    let c = skip_ws_from(&v, b);
    let e = skip_word_from(&v, c);
    proof {
        let s = v@;
        assert(s.skip(0) =~= s);
        let s1 = s.skip(a as int);
        assert(lead_word(s1) == b - a);
        assert(s1.take(b - a) =~= s.subrange(a as int, b as int));
        let r = s1.skip(b - a);
        assert(r =~= s.skip(b as int));
        assert(lead_ws(r) == c - b);
        let s2 = r.skip(c - b);
        assert(s2 =~= s.skip(c as int));
        assert(lead_word(s2) == e - c);
        assert(s2.take(e - c) =~= s.subrange(c as int, e as int));
    }
    if a == b {
        String::new()
    } else if c == e {
        string_of_range(&v, a, b)
    } else {
        let mut s = string_of_range(&v, a, b);
        push_char(&mut s, ' ');
        let w2 = string_of_range(&v, c, e);
        push_str(&mut s, w2.as_str());
        assert(s@ =~= group_key_spec(name@));
        s
    }
}

// ---------------------------------------------------------------------------
// Joypad cells
// ---------------------------------------------------------------------------

/// The D-pad groups of the axis rows of device `d`.
pub open spec fn axis_groups(rows: Seq<DeviceRow>, d: Seq<char>) -> Set<Seq<char>>
    decreases rows.len(),
{
    if rows.len() == 0 {
        Set::empty()
    } else {
        let prev = axis_groups(rows.drop_last(), d);
        let r = rows.last();
        if r.device@ == d && r.event_type@ == "AXIS"@ {
            prev.insert(group_key_spec(r.name@))
        } else {
            prev
        }
    }
}

/// Number of button rows of device `d`.
pub open spec fn button_rows(rows: Seq<DeviceRow>, d: Seq<char>) -> nat
    decreases rows.len(),
{
    if rows.len() == 0 {
        0
    } else {
        button_rows(rows.drop_last(), d) + if rows.last().device@ == d && rows.last().event_type@
            == "BUTTON"@ {
            1nat
        } else {
            0nat
        }
    }
}

pub open spec fn strings(v: Seq<String>) -> Seq<Seq<char>> {
    v.map_values(|s: String| s@)
}

fn contains_string(v: &Vec<String>, s: &String) -> (r: bool)
    ensures
        r == strings(v@).contains(s@),
{
    let mut i: usize = 0;
    while i < v.len()
        invariant
            i <= v@.len(),
            forall|j: int| 0 <= j < i ==> v@[j]@ != s@,
        decreases v@.len() - i,
    {
        if str_eq(v[i].as_str(), s.as_str()) {
            assert(strings(v@)[i as int] == s@);
            return true;
        }
        i = i + 1;
    }
    assert forall|j: int| 0 <= j < strings(v@).len() implies strings(v@)[j] != s@ by {
        assert(strings(v@)[j] == v@[j]@);
    }
    false
}

/// `(D-pad groups, buttons)` of each joypad, Joypad 1 to Joypad 4.
pub fn build_joypad_count_map(cfg: &GpioConfig) -> (r: Vec<(usize, usize)>)
    ensures
        r@.len() == 4,
        forall|k: int|
            0 <= k < 4 ==> (#[trigger] r@[k]).0 == axis_groups(cfg.devices@, device_list_spec()[k]).len()
                && r@[k].1 == button_rows(cfg.devices@, device_list_spec()[k]),
{
    let names = device_list();
    assert(names@.map_values(|s: &str| s@).len() == names@.len());
    proof {
        reveal_strlit("AXIS");
        reveal_strlit("BUTTON");
        assert("AXIS"@.len() != "BUTTON"@.len());
    }
    let mut r: Vec<(usize, usize)> = Vec::new();
    let mut k: usize = 0;
    while k < 4
        invariant
            k <= 4,
            names@.map_values(|s: &str| s@) == device_list_spec(),
            names@.len() == 6,
            "AXIS"@ != "BUTTON"@,
            r@.len() == k,
            forall|j: int|
                0 <= j < k ==> (#[trigger] r@[j]).0 == axis_groups(cfg.devices@, device_list_spec()[j]).len()
                    && r@[j].1 == button_rows(cfg.devices@, device_list_spec()[j]),
        decreases 4 - k,
    {
        assert(names@.map_values(|s: &str| s@)[k as int] == names@[k as int]@);
        let d = names[k];
        let mut groups: Vec<String> = Vec::new();
        let mut buttons: usize = 0;
        let mut i: usize = 0;
        while i < cfg.devices.len()
            invariant
                i <= cfg.devices@.len(),
                buttons <= i,
                buttons == button_rows(cfg.devices@.take(i as int), d@),
                "AXIS"@ != "BUTTON"@,
                strings(groups@).no_duplicates(),
                strings(groups@).to_set() == axis_groups(cfg.devices@.take(i as int), d@),
            decreases cfg.devices@.len() - i,
        {
            assert(cfg.devices@.take(i + 1).drop_last() =~= cfg.devices@.take(i as int));
            assert(cfg.devices@.take(i + 1).last() == cfg.devices@[i as int]);
            let row = &cfg.devices[i];
            if str_eq(row.device.as_str(), d) {
                if str_eq(row.event_type.as_str(), "AXIS") {
                    let g = group_key(row.name.as_str());
                    if !contains_string(&groups, &g) {
                        let ghost before = groups@;
                        groups.push(g);
                        assert(strings(groups@) =~= strings(before).push(g@));
                        assert(strings(groups@).to_set() =~= strings(before).to_set().insert(g@)) by {
                            assert forall|x: Seq<char>| strings(groups@).contains(x) <==> (strings(before).contains(x) || x == g@) by {
                                if strings(groups@).contains(x) {
                                    let j = choose|j: int| 0 <= j < strings(groups@).len() && strings(groups@)[j] == x;
                                    if j < strings(before).len() {
                                        assert(strings(before)[j] == x);
                                    }
                                }
                                if strings(before).contains(x) {
                                    let j = choose|j: int| 0 <= j < strings(before).len() && strings(before)[j] == x;
                                    assert(strings(groups@)[j] == x);
                                }
                                if x == g@ {
                                    assert(strings(groups@)[strings(before).len() as int] == x);
                                }
                            }
                        }
                        assert(strings(groups@).no_duplicates()) by {
                            assert forall|p: int, q: int| 0 <= p < strings(groups@).len() && 0 <= q < strings(groups@).len() && p != q implies strings(groups@)[p] != strings(groups@)[q] by {
                                if p < strings(before).len() && q == strings(before).len() {
                                    assert(strings(before)[p] == strings(groups@)[p]);
                                }
                                if q < strings(before).len() && p == strings(before).len() {
                                    assert(strings(before)[q] == strings(groups@)[q]);
                                }
                            }
                        }
                    } else {
                        assert(strings(groups@).to_set().insert(g@) =~= strings(groups@).to_set());
                    }
                } else if str_eq(row.event_type.as_str(), "BUTTON") {
                    buttons = buttons + 1;
                }
            }
            i = i + 1;
        }
        assert(cfg.devices@.take(i as int) =~= cfg.devices@);
        proof {
            strings(groups@).unique_seq_to_set();
        }
        r.push((groups.len(), buttons));
        k = k + 1;
    }
    r
}

/// The lines of a joypad cell: a blank line, then the D-pad and button
/// counts that are not zero, or `"(no mappings)"` when both are.
pub open spec fn joypad_lines(dpads: nat, btns: nat) -> Seq<Seq<char>> {
    if dpads == 0 && btns == 0 {
        seq![Seq::empty(), "(no mappings)"@]
    } else {
        let l1: Seq<Seq<char>> = if dpads > 0 {
            seq![
                if dpads == 1 {
                    "1 Dpad/joystick"@
                } else {
                    dec_chars(dpads) + " Dpads/joysticks"@
                },
            ]
        } else {
            Seq::empty()
        };
        let l2: Seq<Seq<char>> = if btns > 0 {
            seq![
                if btns == 1 {
                    "1 button"@
                } else {
                    dec_chars(btns) + " buttons"@
                },
            ]
        } else {
            Seq::empty()
        };
        seq![Seq::<char>::empty()] + l1 + l2
    }
}

pub fn device_cell_lines_joypad(dpads: usize, btns: usize) -> (r: Vec<String>)
    ensures
        strings(r@) == joypad_lines(dpads as nat, btns as nat),
{
    let mut r: Vec<String> = Vec::new();
    r.push(String::new());
    if dpads == 0 && btns == 0 {
        r.push(string_of("(no mappings)"));
        assert(strings(r@) =~= joypad_lines(dpads as nat, btns as nat));
        return r;
    }
    if dpads > 0 {
        if dpads == 1 {
            r.push(string_of("1 Dpad/joystick"));
        } else {
            let mut s = String::new();
            push_decimal(&mut s, dpads as u64);
            push_str(&mut s, " Dpads/joysticks");
            r.push(s);
        }
    }
    if btns > 0 {
        if btns == 1 {
            r.push(string_of("1 button"));
        } else {
            let mut s = String::new();
            push_decimal(&mut s, btns as u64);
            push_str(&mut s, " buttons");
            r.push(s);
        }
    }
    assert(strings(r@) =~= joypad_lines(dpads as nat, btns as nat));
    r
}

/// The count line of a keyboard or commands cell.
pub open spec fn count_text(n: nat) -> Seq<char> {
    if n == 0 {
        "(no mappings)"@
    } else if n == 1 {
        "1 mapping"@
    } else {
        dec_chars(n) + " mappings"@
    }
}

pub fn device_count_text(n: usize) -> (r: String)
    ensures
        r@ == count_text(n as nat),
{
    if n == 0 {
        string_of("(no mappings)")
    } else if n == 1 {
        string_of("1 mapping")
    } else {
        let mut s = String::new();
        push_decimal(&mut s, n as u64);
        push_str(&mut s, " mappings");
        s
    }
}

} // verus!
