//! I2C expander and ADC chips: their pins, the virtual pin numbers those pins
//! occupy, and the readings of their registers.

use vstd::prelude::*;
use crate::config::sat_sub;
use crate::constants::{
    ads1115_pin_id, ads1115_pin_id_spec, mcp23017_pin_id, mcp23017_pin_id_spec, pcf8574_pin_id,
    pcf8574_pin_id_spec,
};
use crate::text::{dec_chars, hex2_chars, push_decimal, push_hex2, push_str};

verus! {

/// The supported chip types.
#[derive(Debug, Clone, Copy, PartialEq, Eq)]
pub enum ChipType {
    Mcp23017,
    Ads1115,
    Pcf8574,
}

impl ChipType {
    pub open spec fn label_spec(&self) -> Seq<char> {
        match self {
            ChipType::Mcp23017 => "MCP23017 (16-bit GPIO expander)"@,
            ChipType::Ads1115 => "ADS1115  (4-channel ADC)"@,
            ChipType::Pcf8574 => "PCF8574  (8-bit GPIO expander)"@,
        }
    }

    /// Description shown in the chip list.
    pub fn label(&self) -> (s: &'static str)
        ensures
            s@ == self.label_spec(),
    {
        match self {
            ChipType::Mcp23017 => "MCP23017 (16-bit GPIO expander)",
            ChipType::Ads1115 => "ADS1115  (4-channel ADC)",
            ChipType::Pcf8574 => "PCF8574  (8-bit GPIO expander)",
        }
    }
}

/// Addresses a chip of the given type can answer at.
pub open spec fn scan_range(chip: ChipType) -> Seq<u8> {
    match chip {
        ChipType::Ads1115 => seq![0x48u8, 0x49, 0x4a, 0x4b],
        _ => seq![0x20u8, 0x21, 0x22, 0x23, 0x24, 0x25, 0x26, 0x27],
    }
}

/// The addresses probed when scanning a bus for chips of this type.
pub fn scan_addresses(chip: ChipType) -> (r: Vec<u8>)
    ensures
        r@ == scan_range(chip),
{
    let r = match chip {
        ChipType::Ads1115 => vec![0x48u8, 0x49, 0x4a, 0x4b],
        _ => vec![0x20u8, 0x21, 0x22, 0x23, 0x24, 0x25, 0x26, 0x27],
    };
    assert(r@ =~= scan_range(chip));
    r
}

/// Common view of a GPIO or I2C pin.
pub trait IoPin {
    /// Text id of the pin, as written in pin fields.
    fn pin_id(&self) -> String;

    /// Virtual pin number (0-255) in the pin-state bitmask.
    fn virtual_pin(&self) -> u8;
}

// ---------------------------------------------------------------------------
// MCP23017
// ---------------------------------------------------------------------------

/// Virtual pin of bit `bit` of port `port` of the MCP23017 at `address`.
pub open spec fn mcp23017_vpin(address: u8, port: char, bit: u8) -> int {
    64 + sat_sub(address, 0x20) * 16 + (if port == 'A' {
        0int
    } else {
        8int
    }) + bit
}

pub struct Mcp23017Pin {
    pub bus: u8,
    pub address: u8,
    pub port: char,
    pub bit: u8,
    pub vpin: u8,
}

impl Mcp23017Pin {
    /// Virtual pins of MCP23017 chips start at 64; each chip address above
    /// 0x20 adds 16, port B adds 8.
    pub fn new(bus: u8, address: u8, port: char, bit: u8) -> (p: Self)
        requires
            sat_sub(address, 0x20) * 16 <= 255,
            mcp23017_vpin(address, port, bit) <= 255,
        ensures
            p.bus == bus,
            p.address == address,
            p.port == port,
            p.bit == bit,
            p.vpin == mcp23017_vpin(address, port, bit),
    {
        let off: u8 = if address >= 0x20 {
            address - 0x20
        } else {
            0
        };
        let chip_offset = off * 16;
        let port_offset: u8 = if port == 'A' {
            0
        } else {
            8
        };
        let vpin = 64 + chip_offset + port_offset + bit;
        Mcp23017Pin { bus, address, port, bit, vpin }
    }

    /// The input register holding the pin's port (GPIOA or GPIOB).
    pub fn register(&self) -> (r: u8)
        ensures
            r == if self.port == 'A' {
                0x12u8
            } else {
                0x13u8
            },
    {
        if self.port == 'A' {
            0x12
        } else {
            0x13
        }
    }

    /// A pin is pressed when its bit in the port register reads low
    /// (inputs have pull-ups; buttons connect to ground).
    pub fn pressed_in(&self, byte: u8) -> (r: bool)
        requires
            self.bit < 8,
        ensures
            r == ((byte >> self.bit) & 1 == 0),
    {
        (byte >> self.bit) & 1 == 0
    }
}

impl IoPin for Mcp23017Pin {
    fn pin_id(&self) -> (s: String)
        ensures
            s@ == mcp23017_pin_id_spec(self.address, self.port, self.bit),
    {
        mcp23017_pin_id(self.address, self.port, self.bit)
    }

    fn virtual_pin(&self) -> (v: u8)
        ensures
            v == self.vpin,
    {
        self.vpin
    }
}

pub struct Mcp23017 {
    pub bus: u8,
    pub address: u8,
    pub int_pin: Option<u8>,
    pub pins: Vec<Mcp23017Pin>,
}

/// The expected pin at position `j` (0-15) of an MCP23017: A0..A7 then B0..B7.
pub open spec fn mcp23017_pin_at(bus: u8, address: u8, j: int) -> (u8, u8, char, u8, int) {
    let port = if j < 8 {
        'A'
    } else {
        'B'
    };
    (bus, address, port, (j % 8) as u8, mcp23017_vpin(address, port, (j % 8) as u8))
}

impl Mcp23017 {
    /// The chip's 16 pins, port A bits 0-7 then port B bits 0-7. The bus
    /// initialisation (all pins inputs with pull-ups and interrupt-on-change)
    /// is done by the caller that opens the device.
    pub fn new(bus: u8, address: u8, int_pin: Option<u8>) -> (c: Self)
        requires
            mcp23017_vpin(address, 'B', 7) <= 255,
        ensures
            c.bus == bus,
            c.address == address,
            c.int_pin == int_pin,
            c.pins@.len() == 16,
            forall|j: int|
                0 <= j < 16 ==> ((#[trigger] c.pins@[j]).bus, c.pins@[j].address, c.pins@[j].port,
                c.pins@[j].bit, c.pins@[j].vpin as int) == mcp23017_pin_at(bus, address, j),
    {
        let mut pins: Vec<Mcp23017Pin> = Vec::new();
        let mut j: u8 = 0;
        while j < 16
            invariant
                j <= 16,
                mcp23017_vpin(address, 'B', 7) <= 255,
                pins@.len() == j,
                forall|k: int|
                    0 <= k < j ==> ((#[trigger] pins@[k]).bus, pins@[k].address, pins@[k].port,
                    pins@[k].bit, pins@[k].vpin as int) == mcp23017_pin_at(bus, address, k),
            decreases 16 - j,
        {
            let port = if j < 8 {
                'A'
            } else {
                'B'
            };
            let p = Mcp23017Pin::new(bus, address, port, j % 8);
            pins.push(p);
            j = j + 1;
        }
        Mcp23017 { bus, address, int_pin, pins }
    }
}

/// Whether bit `b` of a register reads low (pressed).
pub open spec fn low_bit16(w: u16, b: u16) -> bool {
    (w >> b) & 1 == 0
}

/// The `(virtual pin, pressed)` changes between two readings of the MCP23017
/// port pair, for bits `0..n` in increasing order.
pub open spec fn mcp23017_changes_upto(address: u8, last: u16, state: u16, n: int) -> Seq<(u8, bool)>
    decreases n,
{
    if n <= 0 {
        Seq::empty()
    } else {
        let prev = mcp23017_changes_upto(address, last, state, n - 1);
        let b = (n - 1) as u16;
        if low_bit16(state, b) != low_bit16(last, b) {
            prev.push(((64 + sat_sub(address, 0x20) * 16 + b) as u8, low_bit16(state, b)))
        } else {
            prev
        }
    }
}

/// The event an MCP23017 at `address` (0x20-0x27) reports for bit `b`: its
/// virtual pin and whether the pin is now held low.
spec fn mcp_event(address: u8, state: u16, b: u16) -> (u8, bool) {
    ((64 + (address - 0x20) * 16 + b) as u8, (state >> b) & 1 == 0)
}

/// Whether bit `b` is held low in one reading and not in the other.
spec fn bit_changed16(last: u16, state: u16, b: u16) -> bool {
    ((state >> b) & 1 == 0) != ((last >> b) & 1 == 0)
}

proof fn lemma_mcp_changes_upto(address: u8, last: u16, state: u16, n: int)
    requires
        0x20 <= address <= 0x27,
        0 <= n <= 16,
    ensures
        forall|k: int|
            #![trigger mcp23017_changes_upto(address, last, state, n)[k]]
            0 <= k < mcp23017_changes_upto(address, last, state, n).len() ==> exists|b: u16|
                #![trigger mcp_event(address, state, b)]
                b < n && bit_changed16(last, state, b) && mcp23017_changes_upto(address, last, state, n)[k]
                    == mcp_event(address, state, b),
        forall|b: u16|
            #![trigger mcp_event(address, state, b)]
            b < n && bit_changed16(last, state, b) ==> exists|k: int|
                #![trigger mcp23017_changes_upto(address, last, state, n)[k]]
                0 <= k < mcp23017_changes_upto(address, last, state, n).len()
                    && mcp23017_changes_upto(address, last, state, n)[k] == mcp_event(address, state, b),
    decreases n,
{
    if n > 0 {
        lemma_mcp_changes_upto(address, last, state, n - 1);
        let prev = mcp23017_changes_upto(address, last, state, n - 1);
        let r = mcp23017_changes_upto(address, last, state, n);
        let c = (n - 1) as u16;
        assert(sat_sub(address, 0x20) == address - 0x20);
        if bit_changed16(last, state, c) {
            assert(r == prev.push(mcp_event(address, state, c)));
        } else {
            assert(r == prev);
        }
        assert forall|k: int|
            #![trigger mcp23017_changes_upto(address, last, state, n)[k]]
            0 <= k < mcp23017_changes_upto(address, last, state, n).len() implies exists|b: u16|
                #![trigger mcp_event(address, state, b)]
                b < n && bit_changed16(last, state, b) && mcp23017_changes_upto(address, last, state, n)[k]
                    == mcp_event(address, state, b) by {
            if k < prev.len() {
                assert(r[k] == prev[k]);
                let b = choose|b: u16|
                    #![trigger mcp_event(address, state, b)]
                    b < n - 1 && bit_changed16(last, state, b) && prev[k] == mcp_event(address, state, b);
                assert(r[k] == mcp_event(address, state, b));
            } else {
                assert(r[k] == mcp_event(address, state, c));
            }
        }
        assert forall|b: u16| b < n && bit_changed16(last, state, b) implies exists|k: int|
            #![trigger r[k]]
            0 <= k < r.len() && r[k] == mcp_event(address, state, b) by {
            if b < n - 1 {
                let k = choose|k: int|
                    #![trigger prev[k]]
                    0 <= k < prev.len() && prev[k] == mcp_event(address, state, b);
                assert(r[k] == prev[k]);
            } else {
                assert(b == c);
                assert(r[prev.len() as int] == mcp_event(address, state, c));
            }
        }
        assert(forall|k: int|
            #![trigger mcp23017_changes_upto(address, last, state, n)[k]]
            0 <= k < mcp23017_changes_upto(address, last, state, n).len() ==> exists|b: u16|
                #![trigger mcp_event(address, state, b)]
                b < n && bit_changed16(last, state, b) && mcp23017_changes_upto(address, last, state, n)[k]
                    == mcp_event(address, state, b));
    } else {
        assert(mcp23017_changes_upto(address, last, state, n).len() == 0);
    }
}

/// Reading a MCP23017 at 0x20-0x27 reports exactly the pins whose level
/// changed: for each of its sixteen pins (GPIOA bits 0-7, GPIOB bits 8-15), the event for the pin's virtual pin
/// (64 + 16 per address step + bit) is in the list if and only if the pin
/// went low (a press, `true`) or high (a release, `false`) since the last
/// reading, and nothing else is.
pub proof fn lemma_mcp23017_changes_exact(address: u8, last: u16, state: u16)
    requires
        0x20 <= address <= 0x27,
    ensures
        forall|b: u16|
            #![trigger state >> b]
            b < 16 ==> (((state >> b) & 1 == 0) != ((last >> b) & 1 == 0) <==> exists|k: int|
                #![trigger mcp23017_changes_upto(address, last, state, 16)[k]]
                0 <= k < mcp23017_changes_upto(address, last, state, 16).len()
                    && mcp23017_changes_upto(address, last, state, 16)[k] == (
                    (64 + (address - 0x20) * 16 + b) as u8,
                    (state >> b) & 1 == 0,
                )),
        forall|k: int|
            #![trigger mcp23017_changes_upto(address, last, state, 16)[k]]
            0 <= k < mcp23017_changes_upto(address, last, state, 16).len() ==> exists|b: u16|
                #![trigger state >> b]
                b < 16 && ((state >> b) & 1 == 0) != ((last >> b) & 1 == 0)
                    && mcp23017_changes_upto(address, last, state, 16)[k] == (
                    (64 + (address - 0x20) * 16 + b) as u8,
                    (state >> b) & 1 == 0,
                ),
{
    lemma_mcp_changes_upto(address, last, state, 16);
    let r = mcp23017_changes_upto(address, last, state, 16);
    assert forall|b: u16| #![trigger state >> b] b < 16 implies (((state >> b) & 1 == 0) != ((last >> b) & 1 == 0) <==> exists|k: int|
        #![trigger r[k]]
        0 <= k < r.len() && r[k] == ((64 + (address - 0x20) * 16 + b) as u8, (state >> b) & 1 == 0)) by {
        let e = mcp_event(address, state, b);
        if bit_changed16(last, state, b) {
            let k = choose|k: int| #![trigger r[k]] 0 <= k < r.len() && r[k] == e;
            assert(r[k] == e);
        }
        if exists|k: int| #![trigger r[k]] 0 <= k < r.len() && r[k] == e {
            let k = choose|k: int| #![trigger r[k]] 0 <= k < r.len() && r[k] == e;
            let b2 = choose|b2: u16|
                #![trigger mcp_event(address, state, b2)]
                b2 < 16 && bit_changed16(last, state, b2) && r[k] == mcp_event(address, state, b2);
            assert(b2 == b);
        }
    }
    assert forall|k: int| #![trigger r[k]] 0 <= k < r.len() implies exists|b: u16|
        #![trigger state >> b]
        b < 16 && ((state >> b) & 1 == 0) != ((last >> b) & 1 == 0) && r[k] == (
            (64 + (address - 0x20) * 16 + b) as u8,
            (state >> b) & 1 == 0,
        ) by {
        let b = choose|b: u16|
            #![trigger mcp_event(address, state, b)]
            b < 16 && bit_changed16(last, state, b) && r[k] == mcp_event(address, state, b);
        assert(r[k] == mcp_event(address, state, b));
        assert((state >> b) & 1 == 0 || (state >> b) & 1 != 0);
    }
}

/// The press and release events between two 16-bit readings of an MCP23017
/// (GPIOA in the low byte, GPIOB in the high byte): one per bit that changed,
/// lowest bit first.
pub fn mcp23017_changes(address: u8, last: u16, state: u16) -> (r: Vec<(u8, bool)>)
    requires
        forall|b: u16|
            b < 16 && low_bit16(state, b) != low_bit16(last, b) ==> sat_sub(address, 0x20) * 16
                <= 255 && 64 + sat_sub(address, 0x20) * 16 + b <= 255,
    ensures
        r@ == mcp23017_changes_upto(address, last, state, 16),
{
    let mut r: Vec<(u8, bool)> = Vec::new();
    let mut b: u16 = 0;
    while b < 16
        invariant
            b <= 16,
            forall|c: u16|
                c < 16 && low_bit16(state, c) != low_bit16(last, c) ==> sat_sub(address, 0x20) * 16
                    <= 255 && 64 + sat_sub(address, 0x20) * 16 + c <= 255,
            r@ == mcp23017_changes_upto(address, last, state, b as int),
        decreases 16 - b,
    {
        let pressed = (state >> b) & 1 == 0;
        let last_pressed = (last >> b) & 1 == 0;
        assert(pressed == low_bit16(state, b) && last_pressed == low_bit16(last, b));
        if pressed != last_pressed {
            let off: u8 = if address >= 0x20 {
                address - 0x20
            } else {
                0
            };
            assert(off == sat_sub(address, 0x20));
            let vpin = 64 + off * 16 + b as u8;
            r.push((vpin, pressed));
        }
        b = b + 1;
    }
    r
}

// ---------------------------------------------------------------------------
// PCF8574
// ---------------------------------------------------------------------------

/// Virtual pin of pin `bit` of the PCF8574 at `address`.
pub open spec fn pcf8574_vpin(address: u8, bit: u8) -> int {
    192 + sat_sub(address, 0x20) * 8 + bit
}

pub struct Pcf8574Pin {
    pub bus: u8,
    pub address: u8,
    pub bit: u8,
    pub vpin: u8,
}

impl Pcf8574Pin {
    /// Virtual pins of PCF8574 chips start at 192; each address above 0x20 adds 8.
    pub fn new(bus: u8, address: u8, bit: u8) -> (p: Self)
        requires
            sat_sub(address, 0x20) * 8 <= 255,
            pcf8574_vpin(address, bit) <= 255,
        ensures
            p.bus == bus,
            p.address == address,
            p.bit == bit,
            p.vpin == pcf8574_vpin(address, bit),
    {
        let off: u8 = if address >= 0x20 {
            address - 0x20
        } else {
            0
        };
        let chip_offset = off * 8;
        let vpin = 192 + chip_offset + bit;
        Pcf8574Pin { bus, address, bit, vpin }
    }

    /// A pin is pressed when its bit of the port byte reads low.
    pub fn pressed_in(&self, byte: u8) -> (r: bool)
        requires
            self.bit < 8,
        ensures
            r == ((byte >> self.bit) & 1 == 0),
    {
        (byte >> self.bit) & 1 == 0
    }
}

impl IoPin for Pcf8574Pin {
    fn pin_id(&self) -> (s: String)
        ensures
            s@ == pcf8574_pin_id_spec(self.address, self.bit),
    {
        pcf8574_pin_id(self.address, self.bit)
    }

    fn virtual_pin(&self) -> (v: u8)
        ensures
            v == self.vpin,
    {
        self.vpin
    }
}

pub struct Pcf8574 {
    pub bus: u8,
    pub address: u8,
    pub int_pin: Option<u8>,
    pub pins: Vec<Pcf8574Pin>,
}

impl Pcf8574 {
    /// The chip's 8 pins, P0..P7. Releasing the quasi-bidirectional port
    /// (writing 0xFF) is done by the caller that opens the device.
    pub fn new(bus: u8, address: u8, int_pin: Option<u8>) -> (c: Self)
        requires
            pcf8574_vpin(address, 7) <= 255,
        ensures
            c.bus == bus,
            c.address == address,
            c.int_pin == int_pin,
            c.pins@.len() == 8,
            forall|j: int|
                0 <= j < 8 ==> (#[trigger] c.pins@[j]).bus == bus && c.pins@[j].address == address
                    && c.pins@[j].bit == j && c.pins@[j].vpin == pcf8574_vpin(address, j as u8),
    {
        let mut pins: Vec<Pcf8574Pin> = Vec::new();
        let mut j: u8 = 0;
        while j < 8
            invariant
                j <= 8,
                pcf8574_vpin(address, 7) <= 255,
                pins@.len() == j,
                forall|k: int|
                    0 <= k < j ==> (#[trigger] pins@[k]).bus == bus && pins@[k].address == address
                        && pins@[k].bit == k && pins@[k].vpin == pcf8574_vpin(address, k as u8),
            decreases 8 - j,
        {
            pins.push(Pcf8574Pin::new(bus, address, j));
            j = j + 1;
        }
        Pcf8574 { bus, address, int_pin, pins }
    }
}

pub open spec fn low_bit8(w: u8, b: u8) -> bool {
    (w >> b) & 1 == 0
}

/// The `(virtual pin, pressed)` changes between two readings of a PCF8574
/// port, for bits `0..n` in increasing order.
pub open spec fn pcf8574_changes_upto(address: u8, last: u8, state: u8, n: int) -> Seq<(u8, bool)>
    decreases n,
{
    if n <= 0 {
        Seq::empty()
    } else {
        let prev = pcf8574_changes_upto(address, last, state, n - 1);
        let b = (n - 1) as u8;
        if low_bit8(state, b) != low_bit8(last, b) {
            prev.push(((192 + sat_sub(address, 0x20) * 8 + b) as u8, low_bit8(state, b)))
        } else {
            prev
        }
    }
}

/// The event a PCF8574 at `address` (0x20-0x27) reports for bit `b`: its
/// virtual pin and whether the pin is now held low.
spec fn pcf_event(address: u8, state: u8, b: u8) -> (u8, bool) {
    ((192 + (address - 0x20) * 8 + b) as u8, (state >> b) & 1 == 0)
}

/// Whether bit `b` is held low in one reading and not in the other.
spec fn bit_changed8(last: u8, state: u8, b: u8) -> bool {
    ((state >> b) & 1 == 0) != ((last >> b) & 1 == 0)
}

proof fn lemma_pcf_changes_upto(address: u8, last: u8, state: u8, n: int)
    requires
        0x20 <= address <= 0x27,
        0 <= n <= 8,
    ensures
        forall|k: int|
            #![trigger pcf8574_changes_upto(address, last, state, n)[k]]
            0 <= k < pcf8574_changes_upto(address, last, state, n).len() ==> exists|b: u8|
                #![trigger pcf_event(address, state, b)]
                b < n && bit_changed8(last, state, b) && pcf8574_changes_upto(address, last, state, n)[k]
                    == pcf_event(address, state, b),
        forall|b: u8|
            #![trigger pcf_event(address, state, b)]
            b < n && bit_changed8(last, state, b) ==> exists|k: int|
                #![trigger pcf8574_changes_upto(address, last, state, n)[k]]
                0 <= k < pcf8574_changes_upto(address, last, state, n).len()
                    && pcf8574_changes_upto(address, last, state, n)[k] == pcf_event(address, state, b),
    decreases n,
{
    if n > 0 {
        lemma_pcf_changes_upto(address, last, state, n - 1);
        let prev = pcf8574_changes_upto(address, last, state, n - 1);
        let r = pcf8574_changes_upto(address, last, state, n);
        let c = (n - 1) as u8;
        assert(sat_sub(address, 0x20) == address - 0x20);
        if bit_changed8(last, state, c) {
            assert(r == prev.push(pcf_event(address, state, c)));
        } else {
            assert(r == prev);
        }
        assert forall|k: int|
            #![trigger pcf8574_changes_upto(address, last, state, n)[k]]
            0 <= k < pcf8574_changes_upto(address, last, state, n).len() implies exists|b: u8|
                #![trigger pcf_event(address, state, b)]
                b < n && bit_changed8(last, state, b) && pcf8574_changes_upto(address, last, state, n)[k]
                    == pcf_event(address, state, b) by {
            if k < prev.len() {
                assert(r[k] == prev[k]);
                let b = choose|b: u8|
                    #![trigger pcf_event(address, state, b)]
                    b < n - 1 && bit_changed8(last, state, b) && prev[k] == pcf_event(address, state, b);
                assert(r[k] == pcf_event(address, state, b));
            } else {
                assert(r[k] == pcf_event(address, state, c));
            }
        }
        assert forall|b: u8| b < n && bit_changed8(last, state, b) implies exists|k: int|
            #![trigger r[k]]
            0 <= k < r.len() && r[k] == pcf_event(address, state, b) by {
            if b < n - 1 {
                let k = choose|k: int|
                    #![trigger prev[k]]
                    0 <= k < prev.len() && prev[k] == pcf_event(address, state, b);
                assert(r[k] == prev[k]);
            } else {
                assert(b == c);
                assert(r[prev.len() as int] == pcf_event(address, state, c));
            }
        }
        assert(forall|k: int|
            #![trigger pcf8574_changes_upto(address, last, state, n)[k]]
            0 <= k < pcf8574_changes_upto(address, last, state, n).len() ==> exists|b: u8|
                #![trigger pcf_event(address, state, b)]
                b < n && bit_changed8(last, state, b) && pcf8574_changes_upto(address, last, state, n)[k]
                    == pcf_event(address, state, b));
    } else {
        assert(pcf8574_changes_upto(address, last, state, n).len() == 0);
    }
}

/// Reading a PCF8574 at 0x20-0x27 reports exactly the pins whose level
/// changed: for each of its eight pins, the event for the pin's virtual pin
/// (192 + 8 per address step + pin) is in the list if and only if the pin
/// went low (a press, `true`) or high (a release, `false`) since the last
/// reading, and nothing else is.
pub proof fn lemma_pcf8574_changes_exact(address: u8, last: u8, state: u8)
    requires
        0x20 <= address <= 0x27,
    ensures
        forall|b: u8|
            #![trigger state >> b]
            b < 8 ==> (((state >> b) & 1 == 0) != ((last >> b) & 1 == 0) <==> exists|k: int|
                #![trigger pcf8574_changes_upto(address, last, state, 8)[k]]
                0 <= k < pcf8574_changes_upto(address, last, state, 8).len()
                    && pcf8574_changes_upto(address, last, state, 8)[k] == (
                    (192 + (address - 0x20) * 8 + b) as u8,
                    (state >> b) & 1 == 0,
                )),
        forall|k: int|
            #![trigger pcf8574_changes_upto(address, last, state, 8)[k]]
            0 <= k < pcf8574_changes_upto(address, last, state, 8).len() ==> exists|b: u8|
                #![trigger state >> b]
                b < 8 && ((state >> b) & 1 == 0) != ((last >> b) & 1 == 0)
                    && pcf8574_changes_upto(address, last, state, 8)[k] == (
                    (192 + (address - 0x20) * 8 + b) as u8,
                    (state >> b) & 1 == 0,
                ),
{
    lemma_pcf_changes_upto(address, last, state, 8);
    let r = pcf8574_changes_upto(address, last, state, 8);
    assert forall|b: u8| #![trigger state >> b] b < 8 implies (((state >> b) & 1 == 0) != ((last >> b) & 1 == 0) <==> exists|k: int|
        #![trigger r[k]]
        0 <= k < r.len() && r[k] == ((192 + (address - 0x20) * 8 + b) as u8, (state >> b) & 1 == 0)) by {
        let e = pcf_event(address, state, b);
        if bit_changed8(last, state, b) {
            let k = choose|k: int| #![trigger r[k]] 0 <= k < r.len() && r[k] == e;
            assert(r[k] == e);
        }
        if exists|k: int| #![trigger r[k]] 0 <= k < r.len() && r[k] == e {
            let k = choose|k: int| #![trigger r[k]] 0 <= k < r.len() && r[k] == e;
            let b2 = choose|b2: u8|
                #![trigger pcf_event(address, state, b2)]
                b2 < 8 && bit_changed8(last, state, b2) && r[k] == pcf_event(address, state, b2);
            assert(b2 == b);
        }
    }
    assert forall|k: int| #![trigger r[k]] 0 <= k < r.len() implies exists|b: u8|
        #![trigger state >> b]
        b < 8 && ((state >> b) & 1 == 0) != ((last >> b) & 1 == 0) && r[k] == (
            (192 + (address - 0x20) * 8 + b) as u8,
            (state >> b) & 1 == 0,
        ) by {
        let b = choose|b: u8|
            #![trigger pcf_event(address, state, b)]
            b < 8 && bit_changed8(last, state, b) && r[k] == pcf_event(address, state, b);
        assert(r[k] == pcf_event(address, state, b));
        assert((state >> b) & 1 == 0 || (state >> b) & 1 != 0);
    }
}

/// The press and release events between two readings of a PCF8574 port:
/// one per bit that changed, lowest bit first.
pub fn pcf8574_changes(address: u8, last: u8, state: u8) -> (r: Vec<(u8, bool)>)
    requires
        forall|b: u8|
            b < 8 && low_bit8(state, b) != low_bit8(last, b) ==> sat_sub(address, 0x20) * 8 <= 255
                && 192 + sat_sub(address, 0x20) * 8 + b <= 255,
    ensures
        r@ == pcf8574_changes_upto(address, last, state, 8),
{
    let mut r: Vec<(u8, bool)> = Vec::new();
    let mut b: u8 = 0;
    while b < 8
        invariant
            b <= 8,
            forall|c: u8|
                c < 8 && low_bit8(state, c) != low_bit8(last, c) ==> sat_sub(address, 0x20) * 8
                    <= 255 && 192 + sat_sub(address, 0x20) * 8 + c <= 255,
            r@ == pcf8574_changes_upto(address, last, state, b as int),
        decreases 8 - b,
    {
        let pressed = (state >> b) & 1 == 0;
        let last_pressed = (last >> b) & 1 == 0;
        assert(pressed == low_bit8(state, b) && last_pressed == low_bit8(last, b));
        if pressed != last_pressed {
            let off: u8 = if address >= 0x20 {
                address - 0x20
            } else {
                0
            };
            assert(off == sat_sub(address, 0x20));
            let vpin = 192 + off * 8 + b;
            r.push((vpin, pressed));
        }
        b = b + 1;
    }
    r
}

// ---------------------------------------------------------------------------
// ADS1115
// ---------------------------------------------------------------------------

/// Virtual pin of channel `channel` of the ADS1115 at `address`.
pub open spec fn ads1115_vpin(address: u8, channel: u8) -> int {
    128 + sat_sub(address, 0x48) * 4 + channel
}

pub struct Ads1115Channel {
    pub bus: u8,
    pub address: u8,
    pub channel: u8,
    pub vpin: u8,
    pub dead_zone: i16,
}

/// `(raw as i32 * 255) / 32767` with Rust's truncating division.
pub open spec fn scale_spec(raw: i16) -> int {
    if raw >= 0 {
        (raw * 255) / 32767
    } else {
        0 - ((0 - raw) * 255) / 32767
    }
}

impl Ads1115Channel {
    /// Virtual pins of ADS1115 chips start at 128; each address above 0x48 adds 4.
    pub fn new(bus: u8, address: u8, channel: u8, dead_zone: i16) -> (c: Self)
        requires
            sat_sub(address, 0x48) * 4 <= 255,
            ads1115_vpin(address, channel) <= 255,
        ensures
            c.bus == bus,
            c.address == address,
            c.channel == channel,
            c.vpin == ads1115_vpin(address, channel),
            c.dead_zone == dead_zone,
    {
        let off: u8 = if address >= 0x48 {
            address - 0x48
        } else {
            0
        };
        let chip_offset = off * 4;
        let vpin = 128 + chip_offset + channel;
        Ads1115Channel { bus, address, channel, vpin, dead_zone }
    }

    /// Scales a raw conversion (-32768..32767) to the axis range (about -255..255).
    pub fn scale_to_axis(raw: i16) -> (r: i32)
        ensures
            r == scale_spec(raw),
    {
        if raw >= 0 {
            let x = raw as i32;
            assert(0 <= x * 255 <= 32767 * 255) by (nonlinear_arith)
                requires
                    0 <= x <= 32767,
            ;
            (x * 255) / 32767
        } else {
            let x = 0 - (raw as i32);
            assert(0 <= x * 255 <= 32768 * 255) by (nonlinear_arith)
                requires
                    0 <= x <= 32768,
            ;
            0 - (x * 255) / 32767
        }
    }

    /// A channel counts as pressed when the magnitude of its reading exceeds
    /// the dead zone.
    pub fn pressed_at(&self, reading: i16) -> (r: bool)
        requires
            reading != i16::MIN,
        ensures
            r == ((if reading < 0 {
                0 - reading
            } else {
                reading as int
            }) > self.dead_zone),
    {
        let mag: i16 = if reading < 0 {
            0 - reading
        } else {
            reading
        };
        mag > self.dead_zone
    }

    /// The configuration word for a single-shot conversion of this channel
    /// (single-ended input, ±4.096 V, continuous mode, 250 samples/s,
    /// comparator off), byte-swapped for an SMBus word write.
    pub fn config_word(&self) -> (w: u16)
        ensures
            w == swap16((0x8000u16 | (((4 + self.channel) as u16) << 12u16)) | 0x02a3u16),
    {
        let mux: u16 = (0x04u16 + self.channel as u16) << 12u16;
        let config: u16 = 0x8000u16 | mux | 0x0200u16 | 0x0000u16 | 0x00a0u16 | 0x0003u16;
        assert(0x8000u16 | mux | 0x0200u16 | 0x0000u16 | 0x00a0u16 | 0x0003u16 == (0x8000u16 | mux)
            | 0x02a3u16) by (bit_vector);
        ((config & 0xff) << 8u16) | (config >> 8u16)
    }
}

/// `u16::swap_bytes`.
pub open spec fn swap16(x: u16) -> u16 {
    ((x & 0xff) << 8u16) | (x >> 8u16)
}

impl IoPin for Ads1115Channel {
    fn pin_id(&self) -> (s: String)
        ensures
            s@ == ads1115_pin_id_spec(self.address, self.channel),
    {
        ads1115_pin_id(self.address, self.channel)
    }

    fn virtual_pin(&self) -> (v: u8)
        ensures
            v == self.vpin,
    {
        self.vpin
    }
}

pub struct Ads1115 {
    pub bus: u8,
    pub address: u8,
    pub channels: Vec<Ads1115Channel>,
}

impl Ads1115 {
    /// The chip's 4 channels, each with a dead zone of 2048.
    pub fn new(bus: u8, address: u8) -> (r: Result<Self, I2cError>)
        requires
            ads1115_vpin(address, 3) <= 255,
        ensures
            r is Ok,
            r->Ok_0.bus == bus,
            r->Ok_0.address == address,
            r->Ok_0.channels@.len() == 4,
            forall|j: int|
                0 <= j < 4 ==> (#[trigger] r->Ok_0.channels@[j]).bus == bus
                    && r->Ok_0.channels@[j].address == address && r->Ok_0.channels@[j].channel == j
                    && r->Ok_0.channels@[j].vpin == ads1115_vpin(address, j as u8)
                    && r->Ok_0.channels@[j].dead_zone == 2048,
    {
        let mut channels: Vec<Ads1115Channel> = Vec::new();
        let mut ch: u8 = 0;
        while ch < 4
            invariant
                ch <= 4,
                ads1115_vpin(address, 3) <= 255,
                channels@.len() == ch,
                forall|k: int|
                    0 <= k < ch ==> (#[trigger] channels@[k]).bus == bus && channels@[k].address
                        == address && channels@[k].channel == k && channels@[k].vpin
                        == ads1115_vpin(address, k as u8) && channels@[k].dead_zone == 2048,
            decreases 4 - ch,
        {
            channels.push(Ads1115Channel::new(bus, address, ch, 2048));
            ch = ch + 1;
        }
        Ok(Ads1115 { bus, address, channels })
    }
}

// ---------------------------------------------------------------------------
// Errors
// ---------------------------------------------------------------------------

#[derive(Debug, Clone)]
pub enum I2cError {
    BusOpenFailed { bus: u8, reason: String },
    DeviceNotFound { bus: u8, address: u8 },
    IoError { address: u8, reason: String },
}

impl I2cError {
    /// The user-facing message of the error.
    pub fn message(&self) -> (s: String)
        ensures
            s@ == match self {
                I2cError::BusOpenFailed { bus, reason } => "Cannot open /dev/i2c-"@ + dec_chars(
                    *bus as nat,
                ) + ": "@ + reason@ + ". Run 'raspi-config' → Interface Options → I2C."@,
                I2cError::DeviceNotFound { bus, address } => "No i2c device at address 0x"@
                    + hex2_chars(*address) + " on bus "@ + dec_chars(*bus as nat)
                    + ". Check wiring and 'i2cdetect -y "@ + dec_chars(*bus as nat) + "'."@,
                I2cError::IoError { address, reason } => "i2c I/O error on device 0x"@
                    + hex2_chars(*address) + ": "@ + reason@,
            },
    {
        let mut s = String::new();
        match self {
            I2cError::BusOpenFailed { bus, reason } => {
                push_str(&mut s, "Cannot open /dev/i2c-");
                push_decimal(&mut s, *bus as u64);
                push_str(&mut s, ": ");
                push_str(&mut s, reason.as_str());
                push_str(&mut s, ". Run 'raspi-config' → Interface Options → I2C.");
            },
            I2cError::DeviceNotFound { bus, address } => {
                push_str(&mut s, "No i2c device at address 0x");
                push_hex2(&mut s, *address);
                push_str(&mut s, " on bus ");
                push_decimal(&mut s, *bus as u64);
                push_str(&mut s, ". Check wiring and 'i2cdetect -y ");
                push_decimal(&mut s, *bus as u64);
                push_str(&mut s, "'.");
            },
            I2cError::IoError { address, reason } => {
                push_str(&mut s, "i2c I/O error on device 0x");
                push_hex2(&mut s, *address);
                push_str(&mut s, ": ");
                push_str(&mut s, reason.as_str());
            },
        }
        s
    }
}

} // verus!
