//! The dialog state machines: each takes a key and either stays open with a
//! new state or closes with its result.

use vstd::prelude::*;
use crate::i2c::ChipType;
use crate::text::{is_digit, parse_u32, parse_u8, pop_char, push_char, string_of};
use crate::ui::keys::{is_char, Key};

verus! {

// ---------------------------------------------------------------------------
// Confirm
// ---------------------------------------------------------------------------

/// A yes/no question.
#[derive(Debug, Clone)]
pub struct ConfirmModal {
    pub title: String,
    pub message: String,
}

/// `y`/`Y` answers yes, `n`/`N`/Esc answers no, anything else waits.
pub open spec fn confirm_answer(k: Key) -> Option<bool> {
    if is_char(k, 'y') || is_char(k, 'Y') {
        Some(true)
    } else if is_char(k, 'n') || is_char(k, 'N') || k is Esc {
        Some(false)
    } else {
        None
    }
}

impl ConfirmModal {
    pub fn new(title: &str, message: &str) -> (m: Self)
        ensures
            m.title@ == title@,
            m.message@ == message@,
    {
        ConfirmModal { title: string_of(title), message: string_of(message) }
    }

    /// The answer a key gives, or `None` while the question stays open.
    pub fn answer(&self, key: Key) -> (r: Option<bool>)
        ensures
            r == confirm_answer(key),
    {
        match key {
            Key::Char { c, .. } => {
                if c == 'y' || c == 'Y' {
                    Some(true)
                } else if c == 'n' || c == 'N' {
                    Some(false)
                } else {
                    None
                }
            },
            Key::Esc => Some(false),
            _ => None,
        }
    }
}

// ---------------------------------------------------------------------------
// Text input
// ---------------------------------------------------------------------------

/// A one-line text prompt.
#[derive(Debug, Clone)]
pub struct TextInputModal {
    pub title: String,
    pub prompt: String,
    pub value: String,
}

/// The value after an edit key: Backspace drops the last character, a
/// character is appended; other keys leave it alone.
pub open spec fn edited(v: Seq<char>, k: Key) -> Seq<char> {
    match k {
        Key::Backspace => if v.len() > 0 {
            v.drop_last()
        } else {
            v
        },
        Key::Char { c, .. } => v.push(c),
        _ => v,
    }
}

/// Backspace undoes a typed character.
pub proof fn lemma_type_then_erase(v: Seq<char>, c: char, ctrl: bool)
    ensures
        edited(edited(v, Key::Char { c, ctrl }), Key::Backspace) == v,
{
    assert(v.push(c).drop_last() =~= v);
}

fn edit(s: &mut String, key: Key)
    ensures
        final(s)@ == edited(old(s)@, key),
{
    match key {
        Key::Backspace => {
            let _ = pop_char(s);
        },
        Key::Char { c, .. } => {
            push_char(s, c);
        },
        _ => {},
    }
}

impl TextInputModal {
    pub fn new(title: &str, prompt: &str, initial: &str) -> (m: Self)
        ensures
            m.title@ == title@,
            m.prompt@ == prompt@,
            m.value@ == initial@,
    {
        TextInputModal { title: string_of(title), prompt: string_of(prompt), value: string_of(initial) }
    }

    /// Esc closes with nothing, Enter closes with the value (nothing when it
    /// is empty); other keys edit the value and keep the prompt open.
    pub fn handle_key(&mut self, key: Key) -> (r: Option<Option<String>>)
        ensures
            final(self).title == old(self).title,
            final(self).prompt == old(self).prompt,
            key is Esc ==> r == Some(None::<String>),
            key is Enter ==> (r matches Some(v) && (old(self).value@.len() == 0 ==> v is None) && (
            old(self).value@.len() > 0 ==> (v matches Some(s) && s@ == old(self).value@))),
            !(key is Esc) && !(key is Enter) ==> r is None && final(self).value@ == edited(
                old(self).value@,
                key,
            ),
    {
        match key {
            Key::Esc => Some(None),
            Key::Enter => {
                if self.value.unicode_len() == 0 {
                    Some(None)
                } else {
                    Some(Some(self.value.clone()))
                }
            },
            _ => {
                edit(&mut self.value, key);
                None
            },
        }
    }
}

// ---------------------------------------------------------------------------
// Command input
// ---------------------------------------------------------------------------

/// Which field of the command dialog takes the typing.
#[derive(Debug, Clone, Copy, PartialEq, Eq, Structural)]
pub enum CommandField {
    Command,
    Timeout,
}

/// A shell command with a timeout in seconds.
#[derive(Debug, Clone)]
pub struct CommandInputModal {
    pub title: String,
    pub command: String,
    pub timeout: String,
    pub active_field: CommandField,
}

/// The timeout field as a number; 0 when it is not one.
pub open spec fn timeout_value(t: Seq<char>) -> u32 {
    match parse_u32(t) {
        Some(v) => v,
        None => 0,
    }
}

/// What a key does to the command dialog `m0`: the dialog becomes `m1`, and
/// `r` is its result (`None` while it stays open).
pub open spec fn command_key(m0: CommandInputModal, key: Key, m1: CommandInputModal, r: Option<Option<(String, u32)>>) -> bool {
    &&& m1.title == m0.title
    &&& key is Esc ==> r == Some(None::<(String, u32)>)
    &&& key is Enter && m0.command@.len() == 0 ==> r is None && m1.command@
            == m0.command@ && m1.timeout@ == m0.timeout@
            && m1.active_field == m0.active_field
    &&& (key is Enter && m0.command@.len() > 0 ==> (r matches Some(Some((c, t))) && c@
            == m0.command@ && t == timeout_value(m0.timeout@)))
    &&& key is Tab ==> r is None && m1.command@ == m0.command@
            && m1.timeout@ == m0.timeout@ && m1.active_field != m0.active_field
    &&& ((key is Backspace || key is Char) ==> r is None && m1.active_field == m0.active_field && (m0.active_field == CommandField::Command ==> m1.command@ == edited(m0.command@, key) && m1.timeout@ == m0.timeout@) && (m0.active_field == CommandField::Timeout ==> m1.command@ == m0.command@ && m1.timeout@ == if key matches Key::Char {
            c,
            ..
        } && !is_digit(c) {
            m0.timeout@
        } else {
            edited(m0.timeout@, key)
        }))
    &&& !(key is Esc || key is Enter || key is Tab || key is Backspace || key is Char) ==> r is None
            && m1.command@ == m0.command@ && m1.timeout@ == m0.timeout@ && m1.active_field == m0.active_field
}

impl CommandInputModal {
    /// Empty command, timeout `"0"`, typing into the command.
    pub fn new(title: &str) -> (m: Self)
        ensures
            m.title@ == title@,
            m.command@.len() == 0,
            m.timeout@ == "0"@,
            m.active_field == CommandField::Command,
    {
        CommandInputModal {
            title: string_of(title),
            command: String::new(),
            timeout: string_of("0"),
            active_field: CommandField::Command,
        }
    }

    /// Esc closes with nothing; Enter closes with the command and timeout
    /// unless the command is empty; Tab switches fields; Backspace and
    /// characters edit the active field (the timeout takes digits only).
    pub fn handle_key(&mut self, key: Key) -> (r: Option<Option<(String, u32)>>)
        ensures
            command_key(*old(self), key, *final(self), r),
    {
        match key {
            Key::Esc => Some(None),
            Key::Tab => {
                self.active_field = match self.active_field {
                    CommandField::Command => CommandField::Timeout,
                    CommandField::Timeout => CommandField::Command,
                };
                None
            },
            Key::Enter => {
                let t = match crate::text::parse_u32_str(self.timeout.as_str()) {
                    Some(v) => v,
                    None => 0,
                };
                if self.command.unicode_len() == 0 {
                    None
                } else {
                    Some(Some((self.command.clone(), t)))
                }
            },
            Key::Backspace => {
                match self.active_field {
                    CommandField::Command => edit(&mut self.command, key),
                    CommandField::Timeout => edit(&mut self.timeout, key),
                }
                None
            },
            Key::Char { c, .. } => {
                match self.active_field {
                    CommandField::Command => edit(&mut self.command, key),
                    CommandField::Timeout => {
                        if '0' <= c && c <= '9' {
                            edit(&mut self.timeout, key);
                        }
                    },
                }
                None
            },
            _ => None,
        }
    }
}

// ---------------------------------------------------------------------------
// Pin capture
// ---------------------------------------------------------------------------

/// How long the same pins must stay pressed to be captured, in milliseconds.
pub const HOLD_MS: u64 = 1000;

/// Waits until the same set of pins has been held for a second.
#[derive(Debug, Clone)]
pub struct PinCaptureModal {
    pub title: String,
    /// The pins held now, if any.
    pub hold_pins: Option<Vec<u8>>,
    /// When they were first seen held, on the caller's millisecond clock.
    pub hold_since: Option<u64>,
}

impl PinCaptureModal {
    pub fn new(title: &str) -> (m: Self)
        ensures
            m.title@ == title@,
            m.hold_pins is None,
            m.hold_since is None,
    {
        PinCaptureModal { title: string_of(title), hold_pins: None, hold_since: None }
    }

    /// Only Esc closes the capture, with no pins.
    pub fn cancels(&self, key: Key) -> (r: bool)
        ensures
            r == key is Esc,
    {
        match key {
            Key::Esc => true,
            _ => false,
        }
    }

    /// The held pins, as a sequence.
    pub open spec fn held(&self) -> Option<Seq<u8>> {
        match self.hold_pins {
            Some(p) => Some(p@),
            None => None,
        }
    }

    /// Held pins and hold start after a poll at `now_ms`: unchanged while
    /// the daemon is not connected; nothing pressed clears the hold; a set
    /// of pressed pins other than the held one starts a new hold at
    /// `now_ms`; the same set keeps the hold running.
    pub open spec fn after_tick(&self, connected: bool, pressed: Seq<u8>, now_ms: u64) -> (Option<Seq<u8>>, Option<u64>) {
        if !connected {
            (self.held(), self.hold_since)
        } else if pressed.len() == 0 {
            (None, None)
        } else if self.held() == Some(pressed) {
            (self.held(), self.hold_since)
        } else {
            (Some(pressed), Some(now_ms))
        }
    }

    /// One poll of the live pins at time `now_ms` (see `after_tick`).
    pub fn tick(&mut self, connected: bool, pressed: Vec<u8>, now_ms: u64)
        ensures
            final(self).title == old(self).title,
            (final(self).held(), final(self).hold_since) == old(self).after_tick(
                connected,
                pressed@,
                now_ms,
            ),
    {
        if !connected {
            return;
        }
        if pressed.len() == 0 {
            self.hold_pins = None;
            self.hold_since = None;
            return;
        }
        let same = match &self.hold_pins {
            None => false,
            Some(prev) => same_pins(prev, &pressed),
        };
        if !same {
            self.hold_pins = Some(pressed);
            self.hold_since = Some(now_ms);
        }
    }

    /// How long the held pins have been held at `now_ms`, capped at the full
    /// second (the fill of the hold gauge); no hold, or a clock that went
    /// backwards, counts as 0.
    pub fn hold_progress_ms(&self, now_ms: u64) -> (r: u64)
        ensures
            r == match self.hold_since {
                Some(s) => if now_ms < s {
                    0
                } else if now_ms - s >= HOLD_MS {
                    HOLD_MS
                } else {
                    (now_ms - s) as u64
                },
                None => 0,
            },
    {
        match self.hold_since {
            Some(s) => {
                if now_ms < s {
                    0
                } else if now_ms - s >= HOLD_MS {
                    HOLD_MS
                } else {
                    now_ms - s
                }
            },
            None => 0,
        }
    }

    /// Whether the held pins have been held for the full second at `now_ms`
    /// (a clock that went backwards counts as no time elapsed).
    pub fn hold_complete(&self, now_ms: u64) -> (r: bool)
        ensures
            r == (self.hold_since matches Some(s) && now_ms >= s && now_ms - s >= HOLD_MS),
    {
        match self.hold_since {
            Some(s) => now_ms >= s && now_ms - s >= HOLD_MS,
            None => false,
        }
    }
}

fn same_pins(a: &Vec<u8>, b: &Vec<u8>) -> (r: bool)
    ensures
        r == (a@ == b@),
{
    if a.len() != b.len() {
        return false;
    }
    let mut i: usize = 0;
    while i < a.len()
        invariant
            a@.len() == b@.len(),
            i <= a@.len(),
            forall|j: int| 0 <= j < i ==> a@[j] == b@[j],
        decreases a@.len() - i,
    {
        if a[i] != b[i] {
            return false;
        }
        i = i + 1;
    }
    assert(a@ =~= b@);
    true
}

// ---------------------------------------------------------------------------
// Single select
// ---------------------------------------------------------------------------

/// Picks one entry of a list.
#[derive(Debug, Clone)]
pub struct SingleSelectModal {
    pub title: String,
    pub items: Vec<String>,
    pub selected: Option<usize>,
}

pub open spec fn is_up(k: Key) -> bool {
    k is Up || is_char(k, 'k')
}

pub open spec fn is_down(k: Key) -> bool {
    k is Down || is_char(k, 'j')
}

/// The highlighted entry after a move key.
pub open spec fn moved_selection(sel: Option<usize>, len: nat, k: Key) -> Option<usize> {
    let i: int = match sel {
        Some(i) => i as int,
        None => 0,
    };
    if is_up(k) {
        if i > 0 {
            Some((i - 1) as usize)
        } else {
            sel
        }
    } else if is_down(k) {
        if i + 1 < len {
            Some((i + 1) as usize)
        } else {
            sel
        }
    } else {
        sel
    }
}

impl SingleSelectModal {
    /// The first entry is highlighted, unless the list is empty.
    pub fn new(title: &str, items: Vec<String>) -> (m: Self)
        ensures
            m.title@ == title@,
            m.items@ == items@,
            m.selected == if items@.len() > 0 {
                Some(0usize)
            } else {
                None
            },
    {
        let selected = if items.len() > 0 {
            Some(0)
        } else {
            None
        };
        SingleSelectModal { title: string_of(title), items, selected }
    }

    /// Up/`k` and Down/`j` move the highlight within the list; Enter closes
    /// with the highlighted index, Esc with none.
    pub fn handle_key(&mut self, key: Key) -> (r: Option<Option<usize>>)
        requires
            old(self).selected matches Some(i) ==> i < old(self).items@.len(),
        ensures
            final(self).title == old(self).title,
            final(self).items == old(self).items,
            final(self).selected matches Some(i) ==> i < final(self).items@.len(),
            key is Enter ==> r == Some(old(self).selected),
            key is Esc ==> r == Some(None::<usize>),
            !(key is Enter) && !(key is Esc) ==> r is None && final(self).selected
                == moved_selection(old(self).selected, old(self).items@.len(), key),
    {
        let i: usize = match self.selected {
            Some(i) => i,
            None => 0,
        };
        match key {
            Key::Enter => Some(self.selected),
            Key::Esc => Some(None),
            Key::Up => {
                if i > 0 {
                    self.selected = Some(i - 1);
                }
                None
            },
            Key::Down => {
                if i < self.items.len() && i + 1 < self.items.len() {
                    self.selected = Some(i + 1);
                }
                None
            },
            Key::Char { c, .. } => {
                if c == 'k' {
                    if i > 0 {
                        self.selected = Some(i - 1);
                    }
                } else if c == 'j' {
                    if i < self.items.len() && i + 1 < self.items.len() {
                        self.selected = Some(i + 1);
                    }
                }
                None
            },
            _ => None,
        }
    }
}

// ---------------------------------------------------------------------------
// Multi select
// ---------------------------------------------------------------------------

/// Ticks any number of entries of a list.
#[derive(Debug, Clone)]
pub struct MultiSelectModal {
    pub title: String,
    pub items: Vec<String>,
    pub checked: Vec<bool>,
    pub cursor: usize,
}

/// The indices of the ticked entries, in increasing order.
pub open spec fn checked_indices(checked: Seq<bool>, n: int) -> Seq<usize>
    decreases n,
{
    if n <= 0 {
        Seq::empty()
    } else if checked[n - 1] {
        checked_indices(checked, n - 1).push((n - 1) as usize)
    } else {
        checked_indices(checked, n - 1)
    }
}

/// What a key does to the multi-select dialog `m0`: the dialog becomes `m1`,
/// and `r` is its result (`None` while it stays open).
pub open spec fn multi_key(m0: MultiSelectModal, key: Key, m1: MultiSelectModal, r: Option<Vec<usize>>) -> bool {
    &&& m1.title == m0.title
    &&& m1.items == m0.items
    &&& m1.checked@.len() == m0.checked@.len()
    &&& (key is Enter ==> (r matches Some(v) && v@ == checked_indices(
            m0.checked@,
            m0.checked@.len() as int,
        )))
    &&& (key is Esc ==> (r matches Some(v) && v@.len() == 0))
    &&& is_up(key) ==> r is None && m1.checked == m0.checked && m1.cursor == if m0.cursor > 0 {
            (m0.cursor - 1) as usize
        } else {
            m0.cursor
        }
    &&& is_down(key) ==> r is None && m1.checked == m0.checked && m1.cursor == if m0.cursor + 1 < m0.items@.len() {
            (m0.cursor + 1) as usize
        } else {
            m0.cursor
        }
    &&& is_char(key, ' ') ==> r is None && m1.cursor == m0.cursor && (m0.cursor < m0.checked@.len() ==> m1.checked@ == m0.checked@.update(m0.cursor as int, !m0.checked@[m0.cursor as int]))
            && (m0.cursor >= m0.checked@.len() ==> m1.checked@ == m0.checked@)
    &&& !(key is Enter || key is Esc || is_up(key) || is_down(key) || is_char(key, ' '))
            ==> r is None && m1.checked == m0.checked && m1.cursor
            == m0.cursor
}

impl MultiSelectModal {
    /// One box per entry, ticked for the indices in `pre_checked` that are in
    /// range; the cursor on the first entry.
    pub fn new(title: &str, items: Vec<String>, pre_checked: Vec<usize>) -> (m: Self)
        ensures
            m.title@ == title@,
            m.items@ == items@,
            m.cursor == 0,
            m.checked@.len() == items@.len(),
            forall|i: int|
                0 <= i < items@.len() ==> (#[trigger] m.checked@[i] <==> pre_checked@.contains(
                    i as usize,
                )),
    {
        let n = items.len();
        let mut checked: Vec<bool> = Vec::new();
        let mut i: usize = 0;
        while i < n
            invariant
                i <= n,
                checked@.len() == i,
                forall|j: int| 0 <= j < i ==> !#[trigger] checked@[j],
            decreases n - i,
        {
            checked.push(false);
            i = i + 1;
        }
        let mut k: usize = 0;
        while k < pre_checked.len()
            invariant
                k <= pre_checked@.len(),
                checked@.len() == n,
                forall|j: int|
                    0 <= j < n ==> (#[trigger] checked@[j] <==> pre_checked@.take(k as int).contains(
                        j as usize,
                    )),
            decreases pre_checked@.len() - k,
        {
            let p = pre_checked[k];
            assert(pre_checked@.take(k + 1) =~= pre_checked@.take(k as int).push(p));
            if p < n {
                checked.set(p, true);
            }
            assert forall|j: int| 0 <= j < n implies (#[trigger] checked@[j]
                <==> pre_checked@.take(k + 1).contains(j as usize)) by {
                if pre_checked@.take(k + 1).contains(j as usize) && j as usize != p {
                    let w = choose|w: int|
                        0 <= w < k + 1 && #[trigger] pre_checked@.take(k + 1)[w] == j as usize;
                    assert(pre_checked@.take(k as int)[w] == j as usize);
                }
                if j as usize == p {
                    assert(pre_checked@.take(k + 1)[k as int] == p);
                }
            }
            k = k + 1;
        }
        assert(pre_checked@.take(k as int) =~= pre_checked@);
        MultiSelectModal { title: string_of(title), items, checked, cursor: 0 }
    }

    /// Up/`k` and Down/`j` move the cursor, Space ticks or unticks the entry
    /// under it; Enter closes with the ticked indices, Esc with none.
    pub fn handle_key(&mut self, key: Key) -> (r: Option<Vec<usize>>)
        ensures
            multi_key(*old(self), key, *final(self), r),
    {
        match key {
            Key::Enter => {
                let mut v: Vec<usize> = Vec::new();
                let mut i: usize = 0;
                while i < self.checked.len()
                    invariant
                        i <= self.checked@.len(),
                        v@ == checked_indices(self.checked@, i as int),
                    decreases self.checked@.len() - i,
                {
                    if self.checked[i] {
                        v.push(i);
                    }
                    i = i + 1;
                }
                Some(v)
            },
            Key::Esc => Some(Vec::new()),
            Key::Up => {
                if self.cursor > 0 {
                    self.cursor = self.cursor - 1;
                }
                None
            },
            Key::Down => {
                if self.cursor < self.items.len() && self.cursor + 1 < self.items.len() {
                    self.cursor = self.cursor + 1;
                }
                None
            },
            Key::Char { c, .. } => {
                if c == 'k' {
                    if self.cursor > 0 {
                        self.cursor = self.cursor - 1;
                    }
                } else if c == 'j' {
                    if self.cursor < self.items.len() && self.cursor + 1 < self.items.len() {
                        self.cursor = self.cursor + 1;
                    }
                } else if c == ' ' {
                    if self.cursor < self.checked.len() {
                        let cur = self.checked[self.cursor];
                        self.checked.set(self.cursor, !cur);
                    }
                }
                None
            },
            _ => None,
        }
    }
}

// ---------------------------------------------------------------------------
// Add I2C chip
// ---------------------------------------------------------------------------

/// The steps of the add-chip dialog.
#[derive(Debug, Clone, Copy, PartialEq, Eq, Structural)]
pub enum I2cStep {
    ChipType,
    Bus,
    Address,
    IntPin,
}

/// A chip to add to the configuration.
#[derive(Debug, Clone)]
pub struct I2cEntry {
    pub chip: ChipType,
    pub bus: u8,
    pub address: String,
    pub int_pin: String,
}

/// Chip type at a position of the chip list.
pub open spec fn chip_at(i: int) -> ChipType {
    if i == 0 {
        ChipType::Mcp23017
    } else if i == 1 {
        ChipType::Ads1115
    } else {
        ChipType::Pcf8574
    }
}

/// Chooses a chip type, then asks for bus, address and (but for the ADC)
/// the interrupt pin.
#[derive(Debug, Clone)]
pub struct AddI2cModal {
    pub step: I2cStep,
    /// Highlighted entry of the chip list (0-2).
    pub chip_cursor: usize,
    pub chip_type: Option<ChipType>,
    pub bus: String,
    pub address: String,
    pub int_pin: String,
}

/// The entry a finished dialog yields: the bus field as a `u8` (1 when it is
/// not one), the chosen chip (MCP23017 when none was).
pub open spec fn entry_of(m: AddI2cModal, e: I2cEntry) -> bool {
    &&& e.chip == match m.chip_type {
        Some(c) => c,
        None => ChipType::Mcp23017,
    }
    &&& e.bus == match parse_u8(m.bus@) {
        Some(b) => b,
        None => 1u8,
    }
    &&& e.address@ == m.address@
    &&& e.int_pin@ == m.int_pin@
}

/// The text field the current step edits.
pub open spec fn step_field(m: AddI2cModal) -> Seq<char> {
    match m.step {
        I2cStep::Bus => m.bus@,
        I2cStep::Address => m.address@,
        _ => m.int_pin@,
    }
}

/// What a key does to the add-chip dialog `m0`: the dialog becomes `m1`, and
/// `r` is its result (`None` while it stays open).
pub open spec fn add_chip_key(m0: AddI2cModal, key: Key, m1: AddI2cModal, r: Option<Option<I2cEntry>>) -> bool {
    &&& (key is Esc ==> r matches Some(None))
    &&& m0.step == I2cStep::ChipType && key is Up ==> r is None && m1 == (
        AddI2cModal {
            chip_cursor: if m0.chip_cursor > 0 {
                (m0.chip_cursor - 1) as usize
            } else {
                0usize
            },
            ..m0
        })
    &&& m0.step == I2cStep::ChipType && key is Down ==> r is None && m1 == (
        AddI2cModal {
            chip_cursor: if m0.chip_cursor < 2 {
                (m0.chip_cursor + 1) as usize
            } else {
                2usize
            },
            ..m0
        })
    &&& m0.step == I2cStep::ChipType && key is Enter ==> r is None && m1.step
            == I2cStep::Bus && m1.chip_type == Some(chip_at(m0.chip_cursor as int))
            && m1.address@ == if chip_at(m0.chip_cursor as int) == ChipType::Ads1115 {
            "0x48"@
        } else {
            "0x20"@
        } && m1.bus == m0.bus && m1.int_pin == m0.int_pin && m1.chip_cursor == m0.chip_cursor
    &&& m0.step == I2cStep::ChipType && !(key is Up || key is Down || key is Enter
            || key is Esc) ==> r is None && m1 == m0
    &&& m0.step != I2cStep::ChipType && (key is Backspace || key is Char) ==> r is None
            && m1.step == m0.step && m1.chip_type == m0.chip_type
            && m1.chip_cursor == m0.chip_cursor && step_field(m1)
            == edited(step_field(m0), key) && (m0.step != I2cStep::Bus
            ==> m1.bus == m0.bus) && (m0.step != I2cStep::Address
            ==> m1.address == m0.address) && ((m0.step == I2cStep::Bus
            || m0.step == I2cStep::Address) ==> m1.int_pin == m0.int_pin)
    &&& m0.step == I2cStep::Bus && key is Enter ==> r is None && m1.step
            == I2cStep::Address && m1 == (AddI2cModal {
            step: I2cStep::Address,
            ..m0
        })
    &&& m0.step == I2cStep::Address && key is Enter && m0.chip_type != Some(
            ChipType::Ads1115,
        ) ==> r is None && m1 == (AddI2cModal { step: I2cStep::IntPin, ..m0 })
    &&& (m0.step == I2cStep::Address && key is Enter && m0.chip_type == Some(
            ChipType::Ads1115,
        ) ==> (r matches Some(Some(e)) && entry_of(m0, e)))
    &&& (m0.step == I2cStep::IntPin && key is Enter ==> (r matches Some(Some(e))
            && entry_of(m0, e)))
    &&& m0.step != I2cStep::ChipType && !(key is Backspace || key is Char || key is Enter
            || key is Esc) ==> r is None && m1 == m0
}

impl AddI2cModal {
    /// On the chip list, first entry highlighted; bus `"1"`, address
    /// `"0x20"`, no interrupt pin.
    pub fn new() -> (m: Self)
        ensures
            m.step == I2cStep::ChipType,
            m.chip_cursor == 0,
            m.chip_type is None,
            m.bus@ == "1"@,
            m.address@ == "0x20"@,
            m.int_pin@.len() == 0,
    {
        AddI2cModal {
            step: I2cStep::ChipType,
            chip_cursor: 0,
            chip_type: None,
            bus: string_of("1"),
            address: string_of("0x20"),
            int_pin: String::new(),
        }
    }

    pub open spec fn wf(&self) -> bool {
        self.chip_cursor < 3
    }

    /// The entry the dialog yields now.
    pub fn finish(&self) -> (e: I2cEntry)
        ensures
            entry_of(*self, e),
    {
        let bus = match crate::text::parse_u8_str(self.bus.as_str()) {
            Some(b) => b,
            None => 1,
        };
        let chip = match self.chip_type {
            Some(c) => c,
            None => ChipType::Mcp23017,
        };
        I2cEntry { chip, bus, address: self.address.clone(), int_pin: self.int_pin.clone() }
    }

    /// On the chip list: Up/Down move, Enter picks the type (address
    /// `"0x48"` for the ADC, `"0x20"` otherwise) and goes on to the bus.
    /// On a text step: Backspace and characters edit its field; Enter goes
    /// bus -> address -> interrupt pin, and closes with the entry after the
    /// address of an ADC or after the interrupt pin. Esc closes with nothing.
    pub fn handle_key(&mut self, key: Key) -> (r: Option<Option<I2cEntry>>)
        requires
            old(self).wf(),
        ensures
            final(self).wf(),
            add_chip_key(*old(self), key, *final(self), r),
    {
        if let Key::Esc = key {
            return Some(None);
        }
        match self.step {
            I2cStep::ChipType => {
                match key {
                    Key::Up => {
                        if self.chip_cursor > 0 {
                            self.chip_cursor = self.chip_cursor - 1;
                        }
                    },
                    Key::Down => {
                        if self.chip_cursor + 1 < 3 {
                            self.chip_cursor = self.chip_cursor + 1;
                        }
                    },
                    Key::Enter => {
                        let chip = if self.chip_cursor == 0 {
                            ChipType::Mcp23017
                        } else if self.chip_cursor == 1 {
                            ChipType::Ads1115
                        } else {
                            ChipType::Pcf8574
                        };
                        self.chip_type = Some(chip);
                        self.address = match chip {
                            ChipType::Ads1115 => string_of("0x48"),
                            _ => string_of("0x20"),
                        };
                        self.step = I2cStep::Bus;
                    },
                    _ => {},
                }
                None
            },
            I2cStep::Bus | I2cStep::Address | I2cStep::IntPin => {
                match key {
                    Key::Backspace | Key::Char { .. } => {
                        match self.step {
                            I2cStep::Bus => edit(&mut self.bus, key),
                            I2cStep::Address => edit(&mut self.address, key),
                            _ => edit(&mut self.int_pin, key),
                        }
                        None
                    },
                    Key::Enter => {
                        match self.step {
                            I2cStep::Bus => {
                                self.step = I2cStep::Address;
                                None
                            },
                            I2cStep::Address => {
                                let needs_int = match self.chip_type {
                                    Some(ChipType::Ads1115) => false,
                                    _ => true,
                                };
                                if needs_int {
                                    self.step = I2cStep::IntPin;
                                    None
                                } else {
                                    Some(Some(self.finish()))
                                }
                            },
                            _ => Some(Some(self.finish())),
                        }
                    },
                    _ => None,
                }
            },
        }
    }
}

} // verus!
