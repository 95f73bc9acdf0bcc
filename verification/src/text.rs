//! Character-level text handling: trimming, splitting, integer parsing and
//! integer formatting, each specified over `Seq<char>`.

use vstd::prelude::*;
use vstd::string::*;

verus! {

// ---------------------------------------------------------------------------
// Character classes
// ---------------------------------------------------------------------------

/// Unicode `White_Space`, the class that `char::is_whitespace` tests.
pub open spec fn is_ws(c: char) -> bool {
    let v = c as u32;
    v == 32 || (9 <= v && v <= 13) || v == 0x85 || v == 0xa0 || v == 0x1680 || (0x2000 <= v
        && v <= 0x200a) || v == 0x2028 || v == 0x2029 || v == 0x202f || v == 0x205f || v == 0x3000
}

/// The character sets that the parsers strip from the ends of a field.
#[derive(Clone, Copy, PartialEq, Eq, Debug)]
pub enum CharClass {
    /// `char::is_whitespace`
    Whitespace,
    /// `'('` or `')'`
    Paren,
    /// `'('`
    Open,
    /// `')'`
    Close,
}

pub open spec fn in_class(cls: CharClass, c: char) -> bool {
    match cls {
        CharClass::Whitespace => is_ws(c),
        CharClass::Paren => c == '(' || c == ')',
        CharClass::Open => c == '(',
        CharClass::Close => c == ')',
    }
}

pub fn class_has(cls: CharClass, c: char) -> (r: bool)
    ensures
        r == in_class(cls, c),
{
    match cls {
        CharClass::Whitespace => {
            let v = c as u32;
            v == 32 || (9 <= v && v <= 13) || v == 0x85 || v == 0xa0 || v == 0x1680 || (0x2000
                <= v && v <= 0x200a) || v == 0x2028 || v == 0x2029 || v == 0x202f || v == 0x205f
                || v == 0x3000
        },
        CharClass::Paren => c == '(' || c == ')',
        CharClass::Open => c == '(',
        CharClass::Close => c == ')',
    }
}

// ---------------------------------------------------------------------------
// Trimming
// ---------------------------------------------------------------------------

/// `s.trim_start_matches(class)`: drop leading characters of the class.
pub open spec fn trim_start_by(s: Seq<char>, cls: CharClass) -> Seq<char>
    decreases s.len(),
{
    if s.len() > 0 && in_class(cls, s[0]) {
        trim_start_by(s.drop_first(), cls)
    } else {
        s
    }
}

/// `s.trim_end_matches(class)`: drop trailing characters of the class.
pub open spec fn trim_end_by(s: Seq<char>, cls: CharClass) -> Seq<char>
    decreases s.len(),
{
    if s.len() > 0 && in_class(cls, s.last()) {
        trim_end_by(s.drop_last(), cls)
    } else {
        s
    }
}

/// `s.trim_matches(class)`: drop leading and trailing characters of the class.
pub open spec fn trim_by(s: Seq<char>, cls: CharClass) -> Seq<char> {
    trim_end_by(trim_start_by(s, cls), cls)
}

/// `str::trim`.
pub open spec fn trim(s: Seq<char>) -> Seq<char> {
    trim_by(s, CharClass::Whitespace)
}

/// Index of the first character of `v[lo..hi]` that is not in the class.
pub fn trim_start_range(v: &Vec<char>, lo: usize, hi: usize, cls: CharClass) -> (a: usize)
    requires
        lo <= hi <= v@.len(),
    ensures
        lo <= a <= hi,
        v@.subrange(a as int, hi as int) == trim_start_by(v@.subrange(lo as int, hi as int), cls),
{
    let mut a = lo;
    while a < hi && class_has(cls, v[a])
        invariant
            lo <= a <= hi <= v@.len(),
            trim_start_by(v@.subrange(a as int, hi as int), cls) == trim_start_by(
                v@.subrange(lo as int, hi as int),
                cls,
            ),
        decreases hi - a,
    {
        assert(v@.subrange(a as int, hi as int).drop_first() =~= v@.subrange(
            a + 1,
            hi as int,
        ));
        a = a + 1;
    }
    a
}

/// End index of `v[lo..hi]` once trailing characters of the class are dropped.
pub fn trim_end_range(v: &Vec<char>, lo: usize, hi: usize, cls: CharClass) -> (b: usize)
    requires
        lo <= hi <= v@.len(),
    ensures
        lo <= b <= hi,
        v@.subrange(lo as int, b as int) == trim_end_by(v@.subrange(lo as int, hi as int), cls),
{
    let mut b = hi;
    while b > lo && class_has(cls, v[b - 1])
        invariant
            lo <= b <= hi <= v@.len(),
            trim_end_by(v@.subrange(lo as int, b as int), cls) == trim_end_by(
                v@.subrange(lo as int, hi as int),
                cls,
            ),
        decreases b - lo,
    {
        assert(v@.subrange(lo as int, b as int).drop_last() =~= v@.subrange(
            lo as int,
            b - 1,
        ));
        b = b - 1;
    }
    b
}

/// Bounds of `v[lo..hi]` with characters of the class dropped at both ends.
pub fn trim_range(v: &Vec<char>, lo: usize, hi: usize, cls: CharClass) -> (r: (usize, usize))
    requires
        lo <= hi <= v@.len(),
    ensures
        lo <= r.0 <= r.1 <= hi,
        v@.subrange(r.0 as int, r.1 as int) == trim_by(v@.subrange(lo as int, hi as int), cls),
{
    let a = trim_start_range(v, lo, hi, cls);
    let b = trim_end_range(v, a, hi, cls);
    (a, b)
}

// ---------------------------------------------------------------------------
// Conversions between `str`, `String` and `Vec<char>`
// ---------------------------------------------------------------------------

/// The characters of `s`, in order.
pub fn chars_of(s: &str) -> (v: Vec<char>)
    ensures
        v@ == s@,
{
    let n = s.unicode_len();
    let mut v: Vec<char> = Vec::new();
    let mut i: usize = 0;
    while i < n
        invariant
            n == s@.len(),
            i <= n,
            v@ == s@.take(i as int),
        decreases n - i,
    {
        let c = s.get_char(i);
        v.push(c);
        i = i + 1;
        assert(v@ =~= s@.take(i as int));
    }
    assert(v@ =~= s@);
    v
}

/// `String::push`: appends one character at the end of the string.
#[verifier::external_body]
pub(crate) fn push_char(s: &mut String, c: char)
    ensures
        final(s)@ == old(s)@.push(c),
{
    s.push(c)
}

/// `String::pop`: removes the last character and returns it, or returns
/// `None` and leaves the string alone when it is empty.
#[verifier::external_body]
pub(crate) fn pop_char(s: &mut String) -> (r: Option<char>)
    ensures
        old(s)@.len() == 0 ==> r is None && final(s)@ == old(s)@,
        old(s)@.len() > 0 ==> r == Some(old(s)@.last()) && final(s)@ == old(s)@.drop_last(),
{
    s.pop()
}

/// A new string holding `v[lo..hi]`.
pub fn string_of_range(v: &Vec<char>, lo: usize, hi: usize) -> (s: String)
    requires
        lo <= hi <= v@.len(),
    ensures
        s@ == v@.subrange(lo as int, hi as int),
{
    let mut s = String::new();
    let mut i = lo;
    while i < hi
        invariant
            lo <= i <= hi <= v@.len(),
            s@ == v@.subrange(lo as int, i as int),
        decreases hi - i,
    {
        push_char(&mut s, v[i]);
        i = i + 1;
        assert(s@ =~= v@.subrange(lo as int, i as int));
    }
    s
}

/// A new string holding the characters of `s`.
pub fn string_of(s: &str) -> (r: String)
    ensures
        r@ == s@,
{
    s.to_owned()
}

/// Appends the characters of `t` to `s`.
pub fn push_str(s: &mut String, t: &str)
    ensures
        final(s)@ == old(s)@ + t@,
{
    let v = chars_of(t);
    let ghost start = s@;
    let mut i: usize = 0;
    while i < v.len()
        invariant
            v@ == t@,
            i <= v@.len(),
            s@ == start + v@.take(i as int),
        decreases v@.len() - i,
    {
        push_char(s, v[i]);
        i = i + 1;
        assert(s@ =~= start + v@.take(i as int));
    }
    assert(v@.take(v@.len() as int) =~= v@);
}

/// Whether two strings hold the same characters.
pub fn str_eq(a: &str, b: &str) -> (r: bool)
    ensures
        r == (a@ == b@),
{
    let n = a.unicode_len();
    let m = b.unicode_len();
    if n != m {
        return false;
    }
    let mut i: usize = 0;
    while i < n
        invariant
            n == a@.len(),
            m == b@.len(),
            n == m,
            i <= n,
            forall|j: int| 0 <= j < i ==> a@[j] == b@[j],
        decreases n - i,
    {
        if a.get_char(i) != b.get_char(i) {
            return false;
        }
        i = i + 1;
    }
    assert(a@ =~= b@);
    true
}

/// Whether `v[lo..hi]` holds exactly the characters of `p`.
pub fn range_eq(v: &Vec<char>, lo: usize, hi: usize, p: &str) -> (r: bool)
    requires
        lo <= hi <= v@.len(),
    ensures
        r == (v@.subrange(lo as int, hi as int) == p@),
{
    let n = p.unicode_len();
    if hi - lo != n {
        return false;
    }
    let mut i: usize = 0;
    while i < n
        invariant
            n == p@.len(),
            hi - lo == n,
            lo <= hi <= v@.len(),
            i <= n,
            forall|j: int| 0 <= j < i ==> v@[lo + j] == p@[j],
        decreases n - i,
    {
        if v[lo + i] != p.get_char(i) {
            assert(v@.subrange(lo as int, hi as int)[i as int] != p@[i as int]);
            return false;
        }
        i = i + 1;
    }
    assert(v@.subrange(lo as int, hi as int) =~= p@);
    true
}

/// `s.starts_with(p)`.
pub open spec fn starts_with(s: Seq<char>, p: Seq<char>) -> bool {
    s.len() >= p.len() && s.take(p.len() as int) == p
}

/// Whether `v[lo..hi]` begins with the characters of `p`.
pub fn range_starts_with(v: &Vec<char>, lo: usize, hi: usize, p: &str) -> (r: bool)
    requires
        lo <= hi <= v@.len(),
    ensures
        r == starts_with(v@.subrange(lo as int, hi as int), p@),
{
    let n = p.unicode_len();
    if hi - lo < n {
        return false;
    }
    let r = range_eq(v, lo, lo + n, p);
    assert(v@.subrange(lo as int, hi as int).take(n as int) =~= v@.subrange(
        lo as int,
        lo + n,
    ));
    r
}

/// `s.trim_start_matches(p)` for a non-empty string pattern `p`: drop
/// repeated leading copies of `p`.
pub open spec fn strip_prefix_all(s: Seq<char>, p: Seq<char>) -> Seq<char>
    decreases s.len(),
{
    if p.len() > 0 && starts_with(s, p) {
        strip_prefix_all(s.skip(p.len() as int), p)
    } else {
        s
    }
}

/// Start index of `v[lo..hi]` once repeated leading copies of `p` are dropped.
pub fn strip_prefix_all_range(v: &Vec<char>, lo: usize, hi: usize, p: &str) -> (a: usize)
    requires
        lo <= hi <= v@.len(),
    ensures
        lo <= a <= hi,
        v@.subrange(a as int, hi as int) == strip_prefix_all(
            v@.subrange(lo as int, hi as int),
            p@,
        ),
{
    let n = p.unicode_len();
    if n == 0 {
        return lo;
    }
    let mut a = lo;
    while range_starts_with(v, a, hi, p)
        invariant
            n == p@.len(),
            n > 0,
            lo <= a <= hi <= v@.len(),
            strip_prefix_all(v@.subrange(a as int, hi as int), p@) == strip_prefix_all(
                v@.subrange(lo as int, hi as int),
                p@,
            ),
        decreases hi - a,
    {
        assert(v@.subrange(a as int, hi as int).skip(n as int) =~= v@.subrange(
            a + n,
            hi as int,
        ));
        a = a + n;
    }
    a
}

// ---------------------------------------------------------------------------
// Splitting
// ---------------------------------------------------------------------------

/// `s.split(c)`: the pieces between occurrences of `c` (always at least one).
pub open spec fn split_on(s: Seq<char>, c: char) -> Seq<Seq<char>>
    decreases s.len(),
{
    if s.len() == 0 {
        seq![Seq::<char>::empty()]
    } else {
        let rest = split_on(s.drop_last(), c);
        if s.last() == c {
            rest.push(Seq::<char>::empty())
        } else {
            rest.update(rest.len() - 1, rest.last().push(s.last()))
        }
    }
}

pub proof fn lemma_split_nonempty(s: Seq<char>, c: char)
    ensures
        split_on(s, c).len() >= 1,
    decreases s.len(),
{
    if s.len() > 0 {
        lemma_split_nonempty(s.drop_last(), c);
    }
}

/// The pieces of `v` that a list of index ranges picks out.
pub open spec fn pieces_of(v: Seq<char>, r: Seq<(usize, usize)>) -> Seq<Seq<char>> {
    Seq::new(r.len(), |k: int| v.subrange(r[k].0 as int, r[k].1 as int))
}

/// Index ranges of the pieces of `v[lo..hi]` split at `c`.
pub fn split_range(v: &Vec<char>, lo: usize, hi: usize, c: char) -> (r: Vec<(usize, usize)>)
    requires
        lo <= hi <= v@.len(),
    ensures
        forall|k: int| 0 <= k < r@.len() ==> lo <= #[trigger] r@[k].0 <= r@[k].1 <= hi,
        pieces_of(v@, r@) == split_on(v@.subrange(lo as int, hi as int), c),
{
    let mut r: Vec<(usize, usize)> = Vec::new();
    let mut st = lo;
    let mut i = lo;
    assert(v@.subrange(lo as int, lo as int) =~= Seq::<char>::empty());
    assert(pieces_of(v@, r@).push(v@.subrange(st as int, i as int)) =~= split_on(
        v@.subrange(lo as int, i as int),
        c,
    ));
    while i < hi
        invariant
            lo <= st <= i <= hi <= v@.len(),
            forall|k: int| 0 <= k < r@.len() ==> lo <= #[trigger] r@[k].0 <= r@[k].1 <= st,
            pieces_of(v@, r@).push(v@.subrange(st as int, i as int)) == split_on(
                v@.subrange(lo as int, i as int),
                c,
            ),
        decreases hi - i,
    {
        let ghost prev = split_on(v@.subrange(lo as int, i as int), c);
        assert(v@.subrange(lo as int, i + 1).drop_last() =~= v@.subrange(lo as int, i as int));
        assert(v@.subrange(lo as int, i + 1).last() == v@[i as int]);
        if v[i] == c {
            let ghost old_pieces = pieces_of(v@, r@);
            let ghost old_st = st;
            r.push((st, i));
            st = i + 1;
            assert(pieces_of(v@, r@) =~= old_pieces.push(v@.subrange(old_st as int, i as int)));
            assert(pieces_of(v@, r@) =~= prev);
            assert(v@.subrange(st as int, i + 1) =~= Seq::<char>::empty());
            assert(pieces_of(v@, r@).push(v@.subrange(st as int, i + 1)) =~= prev.push(
                Seq::<char>::empty(),
            ));
        } else {
            assert(v@.subrange(st as int, i + 1) =~= v@.subrange(st as int, i as int).push(
                v@[i as int],
            ));
            assert(pieces_of(v@, r@).push(v@.subrange(st as int, i + 1)) =~= prev.update(
                prev.len() - 1,
                prev.last().push(v@[i as int]),
            ));
        }
        i = i + 1;
    }
    r.push((st, hi));
    assert(pieces_of(v@, r@) =~= split_on(v@.subrange(lo as int, hi as int), c));
    r
}

// ---------------------------------------------------------------------------
// Integer parsing
// ---------------------------------------------------------------------------

pub open spec fn is_digit(c: char) -> bool {
    48 <= c as u32 && c as u32 <= 57
}

pub open spec fn digit_value(c: char) -> nat {
    (c as u32 - 48) as nat
}

pub open spec fn all_digits(s: Seq<char>) -> bool {
    forall|i: int| 0 <= i < s.len() ==> is_digit(#[trigger] s[i])
}

/// The base-10 value of a string of decimal digits.
pub open spec fn digits_value(s: Seq<char>) -> nat
    decreases s.len(),
{
    if s.len() == 0 {
        0
    } else {
        digits_value(s.drop_last()) * 10 + digit_value(s.last())
    }
}

/// The digits after an optional single leading `'+'`.
pub open spec fn unsigned_body(s: Seq<char>) -> Seq<char> {
    if s.len() > 0 && s[0] == '+' {
        s.drop_first()
    } else {
        s
    }
}

/// `str::parse` for an unsigned integer type whose largest value is `max`:
/// an optional `'+'`, then at least one decimal digit, with a value up to `max`.
pub open spec fn parse_unsigned(s: Seq<char>, max: nat) -> Option<nat> {
    let d = unsigned_body(s);
    if d.len() > 0 && all_digits(d) && digits_value(d) <= max {
        Some(digits_value(d))
    } else {
        None
    }
}

/// `str::parse::<u8>`.
pub open spec fn parse_u8(s: Seq<char>) -> Option<u8> {
    match parse_unsigned(s, 255) {
        Some(n) => Some(n as u8),
        None => None,
    }
}

/// `str::parse::<u32>`.
pub open spec fn parse_u32(s: Seq<char>) -> Option<u32> {
    match parse_unsigned(s, 0xffff_ffff) {
        Some(n) => Some(n as u32),
        None => None,
    }
}

/// `str::parse::<i32>`: an optional sign, then at least one decimal digit.
pub open spec fn parse_i32(s: Seq<char>) -> Option<i32> {
    if s.len() > 0 && s[0] == '-' {
        let d = s.drop_first();
        if d.len() > 0 && all_digits(d) && digits_value(d) <= 0x8000_0000 {
            Some((0 - digits_value(d)) as i32)
        } else {
            None
        }
    } else {
        match parse_unsigned(s, 0x7fff_ffff) {
            Some(n) => Some(n as i32),
            None => None,
        }
    }
}

pub proof fn lemma_digits_value_prefix(s: Seq<char>, k: int)
    requires
        0 <= k <= s.len(),
    ensures
        digits_value(s.take(k)) <= digits_value(s),
    decreases s.len(),
{
    if k < s.len() {
        assert(s.drop_last().take(k) =~= s.take(k));
        lemma_digits_value_prefix(s.drop_last(), k);
    } else {
        assert(s.take(k) =~= s);
    }
}

/// The value of the decimal digits in `v[lo..hi]`, or `None` if a character
/// is not a digit, the range is empty, or the value exceeds `max`.
fn digits_range(v: &Vec<char>, lo: usize, hi: usize, max: u64) -> (r: Option<u64>)
    requires
        lo <= hi <= v@.len(),
        max <= 0xffff_ffff,
    ensures
        ({
            let d = v@.subrange(lo as int, hi as int);
            match r {
                Some(n) => d.len() > 0 && all_digits(d) && digits_value(d) <= max && n
                    == digits_value(d),
                None => !(d.len() > 0 && all_digits(d) && digits_value(d) <= max),
            }
        }),
{
    let ghost d = v@.subrange(lo as int, hi as int);
    if lo == hi {
        return None;
    }
    let mut acc: u64 = 0;
    let mut i = lo;
    while i < hi
        invariant
            lo <= i <= hi <= v@.len(),
            max <= 0xffff_ffff,
            d == v@.subrange(lo as int, hi as int),
            all_digits(v@.subrange(lo as int, i as int)),
            acc == digits_value(v@.subrange(lo as int, i as int)),
            acc <= max,
        decreases hi - i,
    {
        let c = v[i];
        let cv = c as u32;
        assert(v@.subrange(lo as int, i + 1).drop_last() =~= v@.subrange(lo as int, i as int));
        assert(v@.subrange(lo as int, i + 1).last() == c);
        if cv < 48 || cv > 57 {
            assert(!is_digit(d[i - lo]));
            return None;
        }
        let next = acc * 10 + (cv - 48) as u64;
        assert(next == digits_value(v@.subrange(lo as int, i + 1)));
        if next > max {
            proof {
                if all_digits(d) {
                    assert(d.take(i + 1 - lo) =~= v@.subrange(lo as int, i + 1));
                    lemma_digits_value_prefix(d, i + 1 - lo);
                }
            }
            return None;
        }
        acc = next;
        i = i + 1;
    }
    assert(v@.subrange(lo as int, i as int) =~= d);
    Some(acc)
}

/// Parses `v[lo..hi]` as an unsigned integer no greater than `max`.
pub fn parse_unsigned_range(v: &Vec<char>, lo: usize, hi: usize, max: u64) -> (r: Option<u64>)
    requires
        lo <= hi <= v@.len(),
        max <= 0xffff_ffff,
    ensures
        match parse_unsigned(v@.subrange(lo as int, hi as int), max as nat) {
            Some(n) => r == Some(n as u64),
            None => r is None,
        },
{
    let ghost s = v@.subrange(lo as int, hi as int);
    if lo < hi && v[lo] == '+' {
        if lo + 1 == hi {
            return None;
        }
        assert(unsigned_body(s) =~= v@.subrange(lo + 1, hi as int));
        digits_range(v, lo + 1, hi, max)
    } else {
        assert(unsigned_body(s) =~= s);
        digits_range(v, lo, hi, max)
    }
}

/// `str::parse::<u8>` on `v[lo..hi]`.
pub fn parse_u8_range(v: &Vec<char>, lo: usize, hi: usize) -> (r: Option<u8>)
    requires
        lo <= hi <= v@.len(),
    ensures
        r == parse_u8(v@.subrange(lo as int, hi as int)),
{
    match parse_unsigned_range(v, lo, hi, 255) {
        Some(n) => Some(n as u8),
        None => None,
    }
}

/// `str::parse::<u32>` on `v[lo..hi]`.
pub fn parse_u32_range(v: &Vec<char>, lo: usize, hi: usize) -> (r: Option<u32>)
    requires
        lo <= hi <= v@.len(),
    ensures
        r == parse_u32(v@.subrange(lo as int, hi as int)),
{
    match parse_unsigned_range(v, lo, hi, 0xffff_ffff) {
        Some(n) => Some(n as u32),
        None => None,
    }
}

/// `str::parse::<i32>` on `v[lo..hi]`.
pub fn parse_i32_range(v: &Vec<char>, lo: usize, hi: usize) -> (r: Option<i32>)
    requires
        lo <= hi <= v@.len(),
    ensures
        r == parse_i32(v@.subrange(lo as int, hi as int)),
{
    let ghost s = v@.subrange(lo as int, hi as int);
    if lo < hi && v[lo] == '-' {
        assert(s.drop_first() =~= v@.subrange(lo + 1, hi as int));
        match digits_range(v, lo + 1, hi, 0x8000_0000) {
            Some(n) => {
                if n == 0x8000_0000 {
                    Some(i32::MIN)
                } else {
                    let m = n as i32;
                    Some(0 - m)
                }
            },
            None => None,
        }
    } else {
        match parse_unsigned_range(v, lo, hi, 0x7fff_ffff) {
            Some(n) => Some(n as i32),
            None => None,
        }
    }
}

/// `str::parse::<u8>`.
pub fn parse_u8_str(s: &str) -> (r: Option<u8>)
    ensures
        r == parse_u8(s@),
{
    let v = chars_of(s);
    assert(v@.subrange(0, v@.len() as int) =~= v@);
    parse_u8_range(&v, 0, v.len())
}

/// `str::parse::<u32>`.
pub fn parse_u32_str(s: &str) -> (r: Option<u32>)
    ensures
        r == parse_u32(s@),
{
    let v = chars_of(s);
    assert(v@.subrange(0, v@.len() as int) =~= v@);
    parse_u32_range(&v, 0, v.len())
}

// ---------------------------------------------------------------------------
// Hexadecimal
// ---------------------------------------------------------------------------

pub open spec fn is_hex_digit(c: char) -> bool {
    let v = c as u32;
    (48 <= v && v <= 57) || (65 <= v && v <= 70) || (97 <= v && v <= 102)
}

pub open spec fn hex_digit_value(c: char) -> nat {
    let v = c as u32;
    if v <= 57 {
        (v - 48) as nat
    } else if v <= 70 {
        (v - 55) as nat
    } else {
        (v - 87) as nat
    }
}

pub open spec fn all_hex(s: Seq<char>) -> bool {
    forall|i: int| 0 <= i < s.len() ==> is_hex_digit(#[trigger] s[i])
}

/// The base-16 value of a string of hexadecimal digits.
pub open spec fn hex_value(s: Seq<char>) -> nat
    decreases s.len(),
{
    if s.len() == 0 {
        0
    } else {
        hex_value(s.drop_last()) * 16 + hex_digit_value(s.last())
    }
}

/// `from_str_radix(s, 16)` for an unsigned type whose largest value is
/// `max`: an optional `'+'`, then at least one hex digit (either case).
pub open spec fn parse_hex(s: Seq<char>, max: nat) -> Option<nat> {
    let d = unsigned_body(s);
    if d.len() > 0 && all_hex(d) && hex_value(d) <= max {
        Some(hex_value(d))
    } else {
        None
    }
}

/// `u8::from_str_radix(s, 16)`.
pub open spec fn parse_hex_u8(s: Seq<char>) -> Option<u8> {
    match parse_hex(s, 255) {
        Some(n) => Some(n as u8),
        None => None,
    }
}

/// `u32::from_str_radix(s, 16)`.
pub open spec fn parse_hex_u32(s: Seq<char>) -> Option<u32> {
    match parse_hex(s, 0xffff_ffff) {
        Some(n) => Some(n as u32),
        None => None,
    }
}

pub proof fn lemma_hex_value_prefix(s: Seq<char>, k: int)
    requires
        0 <= k <= s.len(),
    ensures
        hex_value(s.take(k)) <= hex_value(s),
    decreases s.len(),
{
    if k < s.len() {
        assert(s.drop_last().take(k) =~= s.take(k));
        lemma_hex_value_prefix(s.drop_last(), k);
    } else {
        assert(s.take(k) =~= s);
    }
}

fn hex_digits_range(v: &Vec<char>, lo: usize, hi: usize, max: u64) -> (r: Option<u64>)
    requires
        lo <= hi <= v@.len(),
        max <= 0xffff_ffff,
    ensures
        ({
            let d = v@.subrange(lo as int, hi as int);
            match r {
                Some(n) => d.len() > 0 && all_hex(d) && hex_value(d) <= max && n == hex_value(d),
                None => !(d.len() > 0 && all_hex(d) && hex_value(d) <= max),
            }
        }),
{
    let ghost d = v@.subrange(lo as int, hi as int);
    if lo == hi {
        return None;
    }
    let mut acc: u64 = 0;
    let mut i = lo;
    while i < hi
        invariant
            lo <= i <= hi <= v@.len(),
            max <= 0xffff_ffff,
            d == v@.subrange(lo as int, hi as int),
            all_hex(v@.subrange(lo as int, i as int)),
            acc == hex_value(v@.subrange(lo as int, i as int)),
            acc <= max,
        decreases hi - i,
    {
        let c = v[i];
        let cv = c as u32;
        assert(v@.subrange(lo as int, i + 1).drop_last() =~= v@.subrange(lo as int, i as int));
        assert(v@.subrange(lo as int, i + 1).last() == c);
        let dv: u64;
        if 48 <= cv && cv <= 57 {
            dv = (cv - 48) as u64;
        } else if 65 <= cv && cv <= 70 {
            dv = (cv - 55) as u64;
        } else if 97 <= cv && cv <= 102 {
            dv = (cv - 87) as u64;
        } else {
            assert(!is_hex_digit(d[i - lo]));
            return None;
        }
        let next = acc * 16 + dv;
        assert(next == hex_value(v@.subrange(lo as int, i + 1)));
        if next > max {
            proof {
                if all_hex(d) {
                    assert(d.take(i + 1 - lo) =~= v@.subrange(lo as int, i + 1));
                    lemma_hex_value_prefix(d, i + 1 - lo);
                }
            }
            return None;
        }
        acc = next;
        i = i + 1;
    }
    assert(v@.subrange(lo as int, i as int) =~= d);
    Some(acc)
}

/// `from_str_radix(&v[lo..hi], 16)` with largest value `max`.
pub fn parse_hex_range(v: &Vec<char>, lo: usize, hi: usize, max: u64) -> (r: Option<u64>)
    requires
        lo <= hi <= v@.len(),
        max <= 0xffff_ffff,
    ensures
        match parse_hex(v@.subrange(lo as int, hi as int), max as nat) {
            Some(n) => r == Some(n as u64),
            None => r is None,
        },
{
    let ghost s = v@.subrange(lo as int, hi as int);
    if lo < hi && v[lo] == '+' {
        if lo + 1 == hi {
            return None;
        }
        assert(unsigned_body(s) =~= v@.subrange(lo + 1, hi as int));
        hex_digits_range(v, lo + 1, hi, max)
    } else {
        assert(unsigned_body(s) =~= s);
        hex_digits_range(v, lo, hi, max)
    }
}

/// `u8::from_str_radix(&v[lo..hi], 16)`.
pub fn parse_hex_u8_range(v: &Vec<char>, lo: usize, hi: usize) -> (r: Option<u8>)
    requires
        lo <= hi <= v@.len(),
    ensures
        r == parse_hex_u8(v@.subrange(lo as int, hi as int)),
{
    match parse_hex_range(v, lo, hi, 255) {
        Some(n) => Some(n as u8),
        None => None,
    }
}

/// `u32::from_str_radix(&v[lo..hi], 16)`.
pub fn parse_hex_u32_range(v: &Vec<char>, lo: usize, hi: usize) -> (r: Option<u32>)
    requires
        lo <= hi <= v@.len(),
    ensures
        r == parse_hex_u32(v@.subrange(lo as int, hi as int)),
{
    match parse_hex_range(v, lo, hi, 0xffff_ffff) {
        Some(n) => Some(n as u32),
        None => None,
    }
}

// ---------------------------------------------------------------------------
// Formatting
// ---------------------------------------------------------------------------

pub open spec fn digit_char(d: nat) -> char {
    (48 + d) as char
}

/// The decimal representation of `n`, as `ToString` writes it.
pub open spec fn dec_chars(n: nat) -> Seq<char>
    decreases n,
{
    if n < 10 {
        seq![digit_char(n)]
    } else {
        dec_chars(n / 10).push(digit_char(n % 10))
    }
}

/// Appends the decimal representation of `n`.
pub fn push_decimal(s: &mut String, n: u64)
    ensures
        final(s)@ == old(s)@ + dec_chars(n as nat),
    decreases n,
{
    if n >= 10 {
        push_decimal(s, n / 10);
    }
    let d = (n % 10) as u8;
    let c = (48u8 + d) as char;
    push_char(s, c);
    assert(c == digit_char((n % 10) as nat));
}

/// The decimal representation of `n`.
pub fn decimal_string(n: u64) -> (s: String)
    ensures
        s@ == dec_chars(n as nat),
{
    let mut s = String::new();
    push_decimal(&mut s, n);
    assert(s@ =~= dec_chars(n as nat));
    s
}

/// The decimal representation of a signed value, with a leading `'-'` when negative.
pub open spec fn signed_dec_chars(n: int) -> Seq<char> {
    if n < 0 {
        seq!['-'] + dec_chars((0 - n) as nat)
    } else {
        dec_chars(n as nat)
    }
}

/// Appends the decimal representation of a signed value.
pub fn push_signed_decimal(s: &mut String, n: i32)
    ensures
        final(s)@ == old(s)@ + signed_dec_chars(n as int),
{
    if n < 0 {
        push_char(s, '-');
        let m: u64 = (0 - (n as i64)) as u64;
        push_decimal(s, m);
        assert(final(s)@ =~= old(s)@ + signed_dec_chars(n as int));
    } else {
        push_decimal(s, n as u64);
    }
}

/// Upper-case hexadecimal digit for `d < 16`.
pub open spec fn hex_char(d: nat) -> char {
    if d < 10 {
        (48 + d) as char
    } else {
        (55 + d) as char
    }
}

/// `format!("{:02X}", b)`: two upper-case hexadecimal digits.
pub open spec fn hex2_chars(b: u8) -> Seq<char> {
    seq![hex_char((b / 16) as nat), hex_char((b % 16) as nat)]
}

fn hex_digit_char(d: u8) -> (c: char)
    requires
        d < 16,
    ensures
        c == hex_char(d as nat),
{
    if d < 10 {
        (48u8 + d) as char
    } else {
        (55u8 + d) as char
    }
}

/// Appends `b` as two upper-case hexadecimal digits.
pub fn push_hex2(s: &mut String, b: u8)
    ensures
        final(s)@ == old(s)@ + hex2_chars(b),
{
    let hi = hex_digit_char(b / 16);
    let lo = hex_digit_char(b % 16);
    push_char(s, hi);
    push_char(s, lo);
    assert(final(s)@ =~= old(s)@ + hex2_chars(b));
}

// ---------------------------------------------------------------------------
// Printing then parsing
// ---------------------------------------------------------------------------

/// The decimal representation of `n` is a non-empty run of digits whose
/// value is `n`.
pub proof fn lemma_dec_chars_digits(n: nat)
    ensures
        dec_chars(n).len() >= 1,
        all_digits(dec_chars(n)),
        digits_value(dec_chars(n)) == n,
    decreases n,
{
    let c = digit_char(n % 10);
    assert((48 + (n % 10)) as char as u32 == 48 + (n % 10));
    assert(digit_value(c) == n % 10);
    if n >= 10 {
        lemma_dec_chars_digits(n / 10);
        let p = dec_chars(n / 10);
        assert(dec_chars(n).drop_last() =~= p);
        assert(dec_chars(n).last() == c);
        assert(digits_value(dec_chars(n)) == digits_value(p) * 10 + digit_value(c));
        assert forall|i: int| 0 <= i < dec_chars(n).len() implies is_digit(#[trigger] dec_chars(n)[i]) by {
            if i < p.len() {
                assert(dec_chars(n)[i] == p[i]);
            }
        }
    } else {
        assert(dec_chars(n).drop_last() =~= Seq::<char>::empty());
        assert(dec_chars(n).last() == c);
        assert(digits_value(dec_chars(n)) == digits_value(Seq::<char>::empty()) * 10 + digit_value(c));
    }
}

/// `str::parse::<u8>` reads back what `ToString` writes.
pub proof fn lemma_parse_u8_dec(n: u8)
    ensures
        parse_u8(dec_chars(n as nat)) == Some(n),
{
    lemma_dec_chars_digits(n as nat);
    assert(is_digit(dec_chars(n as nat)[0]));
}

/// `str::parse::<u32>` reads back what `ToString` writes.
pub proof fn lemma_parse_u32_dec(n: u32)
    ensures
        parse_u32(dec_chars(n as nat)) == Some(n),
{
    lemma_dec_chars_digits(n as nat);
    assert(is_digit(dec_chars(n as nat)[0]));
}

/// A sequence that neither starts nor ends with a character of the class
/// is its own trim.
pub proof fn lemma_trim_by_fixed(s: Seq<char>, cls: CharClass)
    requires
        s.len() > 0,
        !in_class(cls, s[0]),
        !in_class(cls, s.last()),
    ensures
        trim_by(s, cls) == s,
{
}

/// What is left after dropping leading characters of a class starts with
/// a character outside it.
proof fn lemma_trim_start_shape(s: Seq<char>, cls: CharClass)
    ensures
        trim_start_by(s, cls).len() > 0 ==> !in_class(cls, trim_start_by(s, cls)[0]),
    decreases s.len(),
{
    if s.len() > 0 && in_class(cls, s[0]) {
        lemma_trim_start_shape(s.drop_first(), cls);
    }
}

/// Dropping trailing characters of a class leaves a prefix that ends with a
/// character outside it.
proof fn lemma_trim_end_shape(s: Seq<char>, cls: CharClass)
    ensures
        trim_end_by(s, cls).len() <= s.len(),
        trim_end_by(s, cls) == s.take(trim_end_by(s, cls).len() as int),
        trim_end_by(s, cls).len() > 0 ==> !in_class(cls, trim_end_by(s, cls).last()),
    decreases s.len(),
{
    if s.len() > 0 && in_class(cls, s.last()) {
        lemma_trim_end_shape(s.drop_last(), cls);
        let r = trim_end_by(s.drop_last(), cls);
        assert(s.take(r.len() as int) =~= s.drop_last().take(r.len() as int));
    } else {
        assert(s.take(s.len() as int) =~= s);
    }
}

/// Trimming twice is trimming once.
pub proof fn lemma_trim_idempotent(s: Seq<char>, cls: CharClass)
    ensures
        trim_by(trim_by(s, cls), cls) == trim_by(s, cls),
{
    let u = trim_start_by(s, cls);
    let t = trim_by(s, cls);
    lemma_trim_start_shape(s, cls);
    lemma_trim_end_shape(u, cls);
    if t.len() > 0 {
        assert(t[0] == u[0]) by {
            assert(t == u.take(t.len() as int));
        }
        lemma_trim_by_fixed(t, cls);
    }
}

/// Digits are their own trim.
pub proof fn lemma_trim_digits(s: Seq<char>)
    requires
        s.len() > 0,
        all_digits(s),
    ensures
        trim(s) == s,
{
    assert(is_digit(s[0]));
    assert(is_digit(s[s.len() - 1]));
    lemma_trim_by_fixed(s, CharClass::Whitespace);
}

/// Leading characters of the class are dropped whatever follows them.
pub proof fn lemma_trim_start_prefix(c: char, s: Seq<char>, cls: CharClass)
    requires
        in_class(cls, c),
    ensures
        trim_start_by(seq![c] + s, cls) == trim_start_by(s, cls),
{
    assert((seq![c] + s).drop_first() =~= s);
}

/// A sequence without `c` splits into itself.
pub proof fn lemma_split_none(s: Seq<char>, c: char)
    requires
        !s.contains(c),
    ensures
        split_on(s, c) == seq![s],
    decreases s.len(),
{
    if s.len() > 0 {
        assert(!s.drop_last().contains(c)) by {
            if s.drop_last().contains(c) {
                let i = choose|i: int| 0 <= i < s.drop_last().len() && s.drop_last()[i] == c;
                assert(s[i] == c);
            }
        }
        lemma_split_none(s.drop_last(), c);
        assert(s.last() != c) by {
            assert(s[s.len() - 1] == s.last());
        }
        assert(s.drop_last().push(s.last()) =~= s);
    } else {
        assert(s =~= Seq::<char>::empty());
    }
}

/// Splitting `a`, `c`, `b` where `b` holds no `c`: the pieces of `a`, then `b`.
pub proof fn lemma_split_append(a: Seq<char>, c: char, b: Seq<char>)
    requires
        !b.contains(c),
    ensures
        split_on(a + seq![c] + b, c) == split_on(a, c).push(b),
    decreases b.len(),
{
    if b.len() == 0 {
        assert(a + seq![c] + b =~= a.push(c));
        assert((a + seq![c] + b).drop_last() =~= a);
        assert(b =~= Seq::<char>::empty());
    } else {
        let b0 = b.drop_last();
        assert(!b0.contains(c)) by {
            if b0.contains(c) {
                let i = choose|i: int| 0 <= i < b0.len() && b0[i] == c;
                assert(b[i] == c);
            }
        }
        lemma_split_append(a, c, b0);
        assert((a + seq![c] + b).drop_last() =~= a + seq![c] + b0);
        assert((a + seq![c] + b).last() == b.last());
        assert(b.last() != c) by {
            assert(b[b.len() - 1] == b.last());
        }
        lemma_split_nonempty(a, c);
        assert(b0.push(b.last()) =~= b);
        assert(split_on(a, c).push(b0).last() == b0);
        assert(split_on(a, c).push(b0).update(
            split_on(a, c).push(b0).len() - 1,
            b0.push(b.last()),
        ) =~= split_on(a, c).push(b));
    }
}

/// Two hexadecimal digits are a hexadecimal number of that value.
pub proof fn lemma_parse_hex2(b: u8)
    ensures
        parse_hex_u8(hex2_chars(b)) == Some(b),
{
    let s = hex2_chars(b);
    let hi = (b / 16) as nat;
    let lo = (b % 16) as nat;
    assert(hex_char(hi) as u32 == if hi < 10 {
        48 + hi
    } else {
        55 + hi
    });
    assert(hex_char(lo) as u32 == if lo < 10 {
        48 + lo
    } else {
        55 + lo
    });
    assert(s.drop_last() =~= seq![hex_char(hi)]);
    assert(seq![hex_char(hi)].drop_last() =~= Seq::<char>::empty());
    assert(is_hex_digit(s[0]) && is_hex_digit(s[1]));
    assert(all_hex(s));
    assert(hex_digit_value(hex_char(hi)) == hi);
    assert(hex_digit_value(hex_char(lo)) == lo);
    assert(s.last() == hex_char(lo));
    assert(hex_value(seq![hex_char(hi)]) == hex_value(Seq::<char>::empty()) * 16 + hex_digit_value(hex_char(hi)));
    assert(hex_value(s) == hex_value(s.drop_last()) * 16 + hex_digit_value(s.last()));
    assert(hex_value(s) == hi * 16 + lo);
}

} // verus!
