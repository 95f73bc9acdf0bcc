//! GPIO line planning: BOARD/BCM pin numbering of the 40-pin header, the
//! choice of lines to watch, and the reading of edge events.

use vstd::prelude::*;
use crate::text::{dec_chars, push_decimal, push_str};

verus! {

// ---------------------------------------------------------------------------
// BOARD <-> BCM
// ---------------------------------------------------------------------------

/// BCM line offset of a BOARD pin of the 40-pin header; `None` for power,
/// ground and numbers outside the header.
pub open spec fn board_to_bcm_spec(board_pin: u8) -> Option<u32> {
    match board_pin {
        3 => Some(2u32),
        5 => Some(3u32),
        7 => Some(4u32),
        8 => Some(14u32),
        10 => Some(15u32),
        11 => Some(17u32),
        12 => Some(18u32),
        13 => Some(27u32),
        15 => Some(22u32),
        16 => Some(23u32),
        18 => Some(24u32),
        19 => Some(10u32),
        21 => Some(9u32),
        22 => Some(25u32),
        23 => Some(11u32),
        24 => Some(8u32),
        26 => Some(7u32),
        27 => Some(0u32),
        28 => Some(1u32),
        29 => Some(5u32),
        31 => Some(6u32),
        32 => Some(12u32),
        33 => Some(13u32),
        35 => Some(19u32),
        36 => Some(16u32),
        37 => Some(26u32),
        38 => Some(20u32),
        40 => Some(21u32),
        _ => None,
    }
}

/// The BOARD pin whose BCM offset is `bcm`, if any.
pub open spec fn bcm_to_board_spec(bcm: u32) -> Option<u8> {
    if exists|b: u8| board_to_bcm_spec(b) == Some(bcm) {
        Some(choose|b: u8| board_to_bcm_spec(b) == Some(bcm))
    } else {
        None
    }
}

/// Converts a BOARD pin number to a BCM GPIO line offset.
pub fn board_to_bcm(board_pin: u8) -> (r: Option<u32>)
    ensures
        r == board_to_bcm_spec(board_pin),
{
    match board_pin {
        3 => Some(2),
        5 => Some(3),
        7 => Some(4),
        8 => Some(14),
        10 => Some(15),
        11 => Some(17),
        12 => Some(18),
        13 => Some(27),
        15 => Some(22),
        16 => Some(23),
        18 => Some(24),
        19 => Some(10),
        21 => Some(9),
        22 => Some(25),
        23 => Some(11),
        24 => Some(8),
        26 => Some(7),
        27 => Some(0),
        28 => Some(1),
        29 => Some(5),
        31 => Some(6),
        32 => Some(12),
        33 => Some(13),
        35 => Some(19),
        36 => Some(16),
        37 => Some(26),
        38 => Some(20),
        40 => Some(21),
        _ => None,
    }
}

/// No two BOARD pins share a BCM offset.
pub proof fn lemma_board_to_bcm_injective(a: u8, b: u8)
    requires
        board_to_bcm_spec(a) is Some,
        board_to_bcm_spec(a) == board_to_bcm_spec(b),
    ensures
        a == b,
{
}

/// Converts a BCM GPIO line offset back to a BOARD pin number.
pub fn bcm_to_board(bcm: u32) -> (r: Option<u8>)
    ensures
        r == bcm_to_board_spec(bcm),
{
    let mut b: u8 = 0;
    while b <= 40
        invariant
            b <= 41,
            forall|c: u8| c < b ==> board_to_bcm_spec(c) != Some(bcm),
        decreases 41 - b,
    {
        if board_to_bcm(b) == Some(bcm) {
            assert forall|c: u8| board_to_bcm_spec(c) == Some(bcm) implies c == b by {
                lemma_board_to_bcm_injective(c, b);
            }
            return Some(b);
        }
        b = b + 1;
    }
    assert forall|c: u8| board_to_bcm_spec(c) != Some(bcm) by {
        if c >= 41 {
            assert(board_to_bcm_spec(c) is None);
        }
    }
    None
}

/// Reading a BOARD pin's offset back gives the pin again.
pub proof fn lemma_bcm_board_round_trip(board_pin: u8)
    requires
        board_to_bcm_spec(board_pin) is Some,
    ensures
        bcm_to_board_spec(board_to_bcm_spec(board_pin)->0) == Some(board_pin),
{
    let bcm = board_to_bcm_spec(board_pin)->0;
    assert(board_to_bcm_spec(board_pin) == Some(bcm));
    let c = choose|b: u8| board_to_bcm_spec(b) == Some(bcm);
    lemma_board_to_bcm_injective(c, board_pin);
}

/// The offset of the pin that an offset maps back to is that offset.
pub proof fn lemma_board_bcm_round_trip(bcm: u32)
    requires
        bcm_to_board_spec(bcm) is Some,
    ensures
        board_to_bcm_spec(bcm_to_board_spec(bcm)->0) == Some(bcm),
{
}

// ---------------------------------------------------------------------------
// Line planning
// ---------------------------------------------------------------------------

/// GPIO hardware configuration of the event loop.
#[derive(Debug, Clone)]
pub struct GpioConfig {
    /// BOARD pins to watch, before filtering.
    pub pins: Vec<u8>,
    /// Pull-down resistors if true, pull-up otherwise.
    pub pulldown: bool,
    /// Kernel debounce period per line, in milliseconds.
    pub debounce_ms: u32,
}

/// Errors of GPIO chip opening and line requests.
#[derive(Debug, Clone)]
pub enum GpioError {
    ChipOpenFailed(String),
    PinRequestFailed { pin: u8, reason: String },
    I2cPinPulldownConflict { pin: u8 },
}

impl GpioError {
    /// The user-facing message of the error.
    pub fn message(&self) -> (s: String)
        ensures
            s@ == match self {
                GpioError::ChipOpenFailed(e) => "Cannot open GPIO chip: "@ + e@
                    + ". Is the gpio kernel module loaded? Try: sudo modprobe gpiod"@,
                GpioError::PinRequestFailed { pin, reason } => "BOARD pin "@ + dec_chars(
                    *pin as nat,
                ) + ": cannot request edge detection ("@ + reason@
                    + "). Is the pin already in use?"@,
                GpioError::I2cPinPulldownConflict { pin } => "BOARD pin "@ + dec_chars(
                    *pin as nat,
                ) + " is an i2c pin (SDA/SCL). Cannot use pulldown without the i2c feature. Use 'gpionext set pulldown false' or enable the i2c feature."@,
            },
    {
        let mut s = String::new();
        match self {
            GpioError::ChipOpenFailed(e) => {
                push_str(&mut s, "Cannot open GPIO chip: ");
                push_str(&mut s, e.as_str());
                push_str(&mut s, ". Is the gpio kernel module loaded? Try: sudo modprobe gpiod");
            },
            GpioError::PinRequestFailed { pin, reason } => {
                push_str(&mut s, "BOARD pin ");
                push_decimal(&mut s, *pin as u64);
                push_str(&mut s, ": cannot request edge detection (");
                push_str(&mut s, reason.as_str());
                push_str(&mut s, "). Is the pin already in use?");
            },
            GpioError::I2cPinPulldownConflict { pin } => {
                push_str(&mut s, "BOARD pin ");
                push_decimal(&mut s, *pin as u64);
                push_str(
                    &mut s,
                    " is an i2c pin (SDA/SCL). Cannot use pulldown without the i2c feature. Use 'gpionext set pulldown false' or enable the i2c feature.",
                );
            },
        }
        s
    }
}

/// What the event loop does with the configured pins.
pub struct LinePlan {
    /// `(BOARD pin, BCM offset)` of each line to request, in configuration order.
    pub lines: Vec<(u8, u32)>,
    /// I2C pins (3, 5) left out because pull-down was asked for.
    pub conflicts: Vec<u8>,
    /// Pins without a GPIO line (power, ground, out of range).
    pub unmapped: Vec<u8>,
}

/// The outcome for one configured pin.
pub enum PinFate {
    Skipped,
    Conflict,
    Unmapped,
    Line(u32),
}

pub open spec fn pin_fate(pin: u8, pulldown: bool, skip: Seq<u8>) -> PinFate {
    if skip.contains(pin) {
        PinFate::Skipped
    } else if pulldown && (pin == 3 || pin == 5) {
        PinFate::Conflict
    } else {
        match board_to_bcm_spec(pin) {
            Some(bcm) => PinFate::Line(bcm),
            None => PinFate::Unmapped,
        }
    }
}

/// The lines of a pin list, in order.
pub open spec fn planned_lines(pins: Seq<u8>, pulldown: bool, skip: Seq<u8>) -> Seq<(u8, u32)>
    decreases pins.len(),
{
    if pins.len() == 0 {
        Seq::empty()
    } else {
        let prev = planned_lines(pins.drop_last(), pulldown, skip);
        match pin_fate(pins.last(), pulldown, skip) {
            PinFate::Line(bcm) => prev.push((pins.last(), bcm)),
            _ => prev,
        }
    }
}

/// The pins of a list that meet the given fate (without payload), in order.
pub open spec fn pins_with_fate(pins: Seq<u8>, pulldown: bool, skip: Seq<u8>, conflict: bool) -> Seq<u8>
    decreases pins.len(),
{
    if pins.len() == 0 {
        Seq::empty()
    } else {
        let prev = pins_with_fate(pins.drop_last(), pulldown, skip, conflict);
        match pin_fate(pins.last(), pulldown, skip) {
            PinFate::Conflict => if conflict {
                prev.push(pins.last())
            } else {
                prev
            },
            PinFate::Unmapped => if !conflict {
                prev.push(pins.last())
            } else {
                prev
            },
            _ => prev,
        }
    }
}

fn contains_u8(s: &[u8], x: u8) -> (r: bool)
    ensures
        r == s@.contains(x),
{
    let mut i: usize = 0;
    while i < s.len()
        invariant
            i <= s@.len(),
            forall|j: int| 0 <= j < i ==> s@[j] != x,
        decreases s@.len() - i,
    {
        if s[i] == x {
            assert(s@[i as int] == x);
            return true;
        }
        i = i + 1;
    }
    false
}

/// Chooses the lines to request: pins reserved in `skip_pins` are left out,
/// I2C pins 3 and 5 are refused under pull-down, and pins without a GPIO
/// line are reported; the rest become `(BOARD, BCM)` lines.
pub fn plan_lines(config: &GpioConfig, skip_pins: &[u8]) -> (p: LinePlan)
    ensures
        p.lines@ == planned_lines(config.pins@, config.pulldown, skip_pins@),
        p.conflicts@ == pins_with_fate(config.pins@, config.pulldown, skip_pins@, true),
        p.unmapped@ == pins_with_fate(config.pins@, config.pulldown, skip_pins@, false),
{
    let mut lines: Vec<(u8, u32)> = Vec::new();
    let mut conflicts: Vec<u8> = Vec::new();
    let mut unmapped: Vec<u8> = Vec::new();
    let ghost pins = config.pins@;
    let ghost pd = config.pulldown;
    let ghost skip = skip_pins@;
    let mut i: usize = 0;
    assert(pins.take(0) =~= Seq::<u8>::empty());
    while i < config.pins.len()
        invariant
            i <= pins.len(),
            pins == config.pins@,
            pd == config.pulldown,
            skip == skip_pins@,
            lines@ == planned_lines(pins.take(i as int), pd, skip),
            conflicts@ == pins_with_fate(pins.take(i as int), pd, skip, true),
            unmapped@ == pins_with_fate(pins.take(i as int), pd, skip, false),
        decreases pins.len() - i,
    {
        let pin = config.pins[i];
        assert(pins.take(i + 1).drop_last() =~= pins.take(i as int));
        assert(pins.take(i + 1).last() == pin);
        if contains_u8(skip_pins, pin) {
        } else if config.pulldown && (pin == 3 || pin == 5) {
            conflicts.push(pin);
        } else {
            match board_to_bcm(pin) {
                Some(bcm) => {
                    lines.push((pin, bcm));
                },
                None => {
                    unmapped.push(pin);
                },
            }
        }
        i = i + 1;
    }
    assert(pins.take(i as int) =~= pins);
    LinePlan { lines, conflicts, unmapped }
}

// ---------------------------------------------------------------------------
// Edge events
// ---------------------------------------------------------------------------

/// A press is a falling edge under pull-up (pin pulled low) and a rising edge
/// under pull-down (pin pulled high).
pub open spec fn edge_is_press(pulldown: bool, rising: bool) -> bool {
    if pulldown {
        rising
    } else {
        !rising
    }
}

/// Of the two edges of a line exactly one is a press, whichever the bias.
pub proof fn lemma_edges_complementary(pulldown: bool, rising: bool)
    ensures
        edge_is_press(pulldown, rising) != edge_is_press(pulldown, !rising),
        edge_is_press(pulldown, rising) != edge_is_press(!pulldown, rising),
{
}

/// The BOARD pin of an edge on line `offset`, and whether it is a press;
/// `None` for lines outside the header.
pub fn edge_event(offset: u32, rising: bool, pulldown: bool) -> (r: Option<(u8, bool)>)
    ensures
        match bcm_to_board_spec(offset) {
            Some(b) => r == Some((b, edge_is_press(pulldown, rising))),
            None => r is None,
        },
{
    match bcm_to_board(offset) {
        Some(board) => {
            let is_press = if pulldown {
                rising
            } else {
                !rising
            };
            Some((board, is_press))
        },
        None => None,
    }
}

/// Fewest lines a chip other than `/dev/gpiochip0` needs to carry the
/// 40-pin header.
pub const MIN_CHIP_LINES: u32 = 27;

/// The first of chips `n` .. 9 that exists with at least `MIN_CHIP_LINES`
/// lines (`lines[k]` is chip `k`'s line count, `None` where it is missing).
pub open spec fn first_wide(lines: Seq<Option<u32>>, n: int) -> Option<int>
    decreases 10 - n,
{
    if n >= 10 || n >= lines.len() {
        None
    } else if lines[n] matches Some(k) && k >= MIN_CHIP_LINES {
        Some(n)
    } else {
        first_wide(lines, n + 1)
    }
}

/// The chip to use: `/dev/gpiochip0` whenever it exists, else the first of
/// chips 1-9 with at least `MIN_CHIP_LINES` lines.
pub open spec fn chip_choice(lines: Seq<Option<u32>>) -> Option<int> {
    if lines.len() > 0 && lines[0] is Some {
        Some(0)
    } else {
        first_wide(lines, 1)
    }
}

/// Path of the GPIO chip to use, given the line count of each of
/// `/dev/gpiochip0..9` (`None` for a chip that does not exist): chip 0 when
/// it exists, else the first other chip with enough lines for the header.
pub fn find_gpio_chip(lines: &[Option<u32>]) -> (r: Option<String>)
    ensures
        match chip_choice(lines@) {
            Some(n) => r is Some && r->0@ == "/dev/gpiochip"@ + dec_chars(n as nat),
            None => r is None,
        },
{
    let chip0 = lines.len() > 0 && match lines[0] {
        Some(_) => true,
        None => false,
    };
    if chip0 {
        let mut s = String::new();
        push_str(&mut s, "/dev/gpiochip");
        push_decimal(&mut s, 0);
        return Some(s);
    }
    let mut n: usize = 1;
    while n < 10 && n < lines.len()
        invariant
            1 <= n <= 10,
            chip_choice(lines@) == first_wide(lines@, 1),
            first_wide(lines@, n as int) == first_wide(lines@, 1),
        decreases 10 - n,
    {
        let wide = match lines[n] {
            Some(k) => k >= MIN_CHIP_LINES,
            None => false,
        };
        if wide {
            let mut s = String::new();
            push_str(&mut s, "/dev/gpiochip");
            push_decimal(&mut s, n as u64);
            return Some(s);
        }
        n = n + 1;
    }
    None
}

} // verus!
