//! The live pin monitor: one row per BOARD pin and per I2C chip pin, with
//! its pressed state and the mapping bound to it.

use vstd::prelude::*;
use std::collections::HashMap;
use crate::config::{hex_addr_spec, parse_hex_addr, pin_to_vpin, pin_to_vpin_spec, sat_sub, DeviceRow, GpioConfig};
use crate::constants::{
    ads1115_pin_id, ads1115_pin_id_spec, available_pins, available_pins_spec, board_to_gpio,
    board_to_gpio_spec, mcp23017_pin_id, mcp23017_pin_id_spec, pcf8574_pin_id,
    pcf8574_pin_id_spec,
};
use crate::ipc::PinState;
use crate::text::{dec_chars, push_decimal, push_str, string_of};

verus! {

broadcast use vstd::std_specs::hash::group_hash_axioms;

/// A chip address field, `0x20` when it does not parse.
pub open spec fn addr_spec(s: Seq<char>) -> u8 {
    match hex_addr_spec(s) {
        Some(a) => a,
        None => 0x20,
    }
}

/// Parses a chip address such as `"0x20"`; `0x20` when it does not parse.
pub fn parse_addr(s: &str) -> (r: u8)
    ensures
        r == addr_spec(s@),
{
    match parse_hex_addr(s) {
        Some(a) => a,
        None => 0x20,
    }
}

/// `x` capped at 255.
pub open spec fn sat255(x: int) -> int {
    if x > 255 {
        255
    } else {
        x
    }
}

/// Virtual pin of an MCP23017 pin as the monitor computes it, every step
/// saturating at 255.
pub open spec fn live_mcp_vpin(addr: u8, port: char, bit: u8) -> u8 {
    sat255(64 + sat255(sat_sub(addr, 0x20) * 16) + (if port == 'A' {
        0int
    } else {
        8int
    }) + bit) as u8
}

pub open spec fn live_ads_vpin(addr: u8, ch: u8) -> u8 {
    sat255(128 + sat255(sat_sub(addr, 0x48) * 4) + ch) as u8
}

pub open spec fn live_pcf_vpin(addr: u8, pin: u8) -> u8 {
    sat255(192 + sat255(sat_sub(addr, 0x20) * 8) + pin) as u8
}

fn cap(x: u16) -> (r: u8)
    ensures
        r == sat255(x as int),
{
    if x > 255 {
        255
    } else {
        x as u8
    }
}

/// Virtual pin of bit `bit` of port `port` of the MCP23017 at `addr`
/// (saturating).
pub fn mcp23017_vpin(addr: u8, port: char, bit: u8) -> (r: u8)
    ensures
        r == live_mcp_vpin(addr, port, bit),
{
    let port_offset: u16 = if port == 'A' {
        0
    } else {
        8
    };
    let off: u16 = if addr >= 0x20 {
        (addr - 0x20) as u16
    } else {
        0
    };
    let scaled = cap(off * 16);
    cap(64 + scaled as u16 + port_offset + bit as u16)
}

/// Virtual pin of channel `ch` of the ADS1115 at `addr` (saturating).
pub fn ads1115_vpin(addr: u8, ch: u8) -> (r: u8)
    ensures
        r == live_ads_vpin(addr, ch),
{
    let off: u16 = if addr >= 0x48 {
        (addr - 0x48) as u16
    } else {
        0
    };
    let scaled = cap(off * 4);
    cap(128 + scaled as u16 + ch as u16)
}

/// Virtual pin of pin `pin` of the PCF8574 at `addr` (saturating).
pub fn pcf8574_vpin(addr: u8, pin: u8) -> (r: u8)
    ensures
        r == live_pcf_vpin(addr, pin),
{
    let off: u16 = if addr >= 0x20 {
        (addr - 0x20) as u16
    } else {
        0
    };
    let scaled = cap(off * 8);
    cap(192 + scaled as u16 + pin as u16)
}

/// `"device / name"` for every row whose pin field names a single pin;
/// a later row wins over an earlier one on the same pin.
pub open spec fn label_map(rows: Seq<DeviceRow>) -> Map<u8, Seq<char>>
    decreases rows.len(),
{
    if rows.len() == 0 {
        Map::empty()
    } else {
        let m = label_map(rows.drop_last());
        let r = rows.last();
        match pin_to_vpin_spec(r.pins@) {
            Some(v) => m.insert(v, r.device@ + " / "@ + r.name@),
            None => m,
        }
    }
}

/// The mapping label of each virtual pin that a single-pin mapping uses.
pub fn build_mapping_label_map(cfg: &GpioConfig) -> (m: HashMap<u8, String>)
    ensures
        m@.dom() == label_map(cfg.devices@).dom(),
        forall|v: u8| #[trigger] m@.contains_key(v) ==> m@[v]@ == label_map(cfg.devices@)[v],
{
    let mut m: HashMap<u8, String> = HashMap::new();
    let mut i: usize = 0;
    assert(cfg.devices@.take(0) =~= Seq::<DeviceRow>::empty());
    assert(m@.dom() =~= label_map(cfg.devices@.take(0)).dom());
    while i < cfg.devices.len()
        invariant
            i <= cfg.devices@.len(),
            m@.dom() == label_map(cfg.devices@.take(i as int)).dom(),
            forall|v: u8|
                #[trigger] m@.contains_key(v) ==> m@[v]@ == label_map(cfg.devices@.take(i as int))[v],
        decreases cfg.devices@.len() - i,
    {
        let ghost rows = cfg.devices@.take(i + 1);
        assert(rows.drop_last() =~= cfg.devices@.take(i as int));
        assert(rows.last() == cfg.devices@[i as int]);
        let row = &cfg.devices[i];
        match pin_to_vpin(row.pins.as_str()) {
            Some(v) => {
                let mut label = string_of(row.device.as_str());
                push_str(&mut label, " / ");
                push_str(&mut label, row.name.as_str());
                m.insert(v, label);
                assert(m@.dom() =~= label_map(rows).dom());
            },
            None => {},
        }
        i = i + 1;
    }
    assert(cfg.devices@.take(i as int) =~= cfg.devices@);
    m
}

/// Number of rows the monitor shows: the board pins, then 16 per MCP23017,
/// 4 per ADS1115 and 8 per PCF8574.
pub open spec fn total_rows_spec(cfg: GpioConfig, class: u32) -> int {
    (available_pins_spec(class).len() + 16 * cfg.i2c.mcp23017@.len() + 4 * cfg.i2c.ads1115@.len()
        + 8 * cfg.i2c.pcf8574@.len()) as int
}

/// Number of rows of the live pin monitor on a board of the given class.
pub fn total_rows(cfg: &GpioConfig, class: u32) -> (r: usize)
    requires
        total_rows_spec(*cfg, class) <= usize::MAX,
    ensures
        r == total_rows_spec(*cfg, class),
{
    let pins = available_pins(class);
    pins.len() + 16 * cfg.i2c.mcp23017.len() + 4 * cfg.i2c.ads1115.len() + 8 * cfg.i2c.pcf8574.len()
}

/// One row of the monitor.
#[derive(Debug, Clone)]
pub struct LiveRow {
    /// The (virtual) pin number.
    pub pin: String,
    /// `GPIOn`/`BOARDn` for a board pin, the pin id for a chip pin.
    pub label: String,
    pub pressed: bool,
    /// `"device / name"` of the mapping on this pin, or `"unmapped"`.
    pub mapped: String,
}

pub open spec fn row_view(r: LiveRow) -> (Seq<char>, Seq<char>, bool, Seq<char>) {
    (r.pin@, r.label@, r.pressed, r.mapped@)
}

pub open spec fn pressed_in(pins: Seq<bool>, v: u8) -> bool {
    v < pins.len() && pins[v as int]
}

pub open spec fn mapped_label(rows: Seq<DeviceRow>, v: u8) -> Seq<char> {
    if label_map(rows).contains_key(v) {
        label_map(rows)[v]
    } else {
        "unmapped"@
    }
}

pub open spec fn gpio_label(class: u32, p: u8) -> Seq<char> {
    if board_to_gpio_spec(class).contains_key(p) {
        "GPIO"@ + dec_chars(board_to_gpio_spec(class)[p] as nat)
    } else {
        "BOARD"@ + dec_chars(p as nat)
    }
}

pub open spec fn board_row(class: u32, rows: Seq<DeviceRow>, pins: Seq<bool>, p: u8) -> (Seq<char>, Seq<char>, bool, Seq<char>) {
    (dec_chars(p as nat), gpio_label(class, p), pressed_in(pins, p), mapped_label(rows, p))
}

pub open spec fn chip_row(rows: Seq<DeviceRow>, pins: Seq<bool>, v: u8, label: Seq<char>) -> (Seq<char>, Seq<char>, bool, Seq<char>) {
    (dec_chars(v as nat), label, pressed_in(pins, v), mapped_label(rows, v))
}

/// The 16 rows of one MCP23017: A0..A7, then B0..B7.
pub open spec fn mcp_rows(rows: Seq<DeviceRow>, pins: Seq<bool>, addr: u8) -> Seq<(Seq<char>, Seq<char>, bool, Seq<char>)> {
    Seq::new(
        16,
        |j: int|
            {
                let port = if j < 8 {
                    'A'
                } else {
                    'B'
                };
                let bit = (j % 8) as u8;
                chip_row(
                    rows,
                    pins,
                    live_mcp_vpin(addr, port, bit),
                    mcp23017_pin_id_spec(addr, port, bit),
                )
            },
    )
}

pub open spec fn ads_rows(rows: Seq<DeviceRow>, pins: Seq<bool>, addr: u8) -> Seq<(Seq<char>, Seq<char>, bool, Seq<char>)> {
    Seq::new(
        4,
        |j: int| chip_row(rows, pins, live_ads_vpin(addr, j as u8), ads1115_pin_id_spec(addr, j as u8)),
    )
}

pub open spec fn pcf_rows(rows: Seq<DeviceRow>, pins: Seq<bool>, addr: u8) -> Seq<(Seq<char>, Seq<char>, bool, Seq<char>)> {
    Seq::new(
        8,
        |j: int| chip_row(rows, pins, live_pcf_vpin(addr, j as u8), pcf8574_pin_id_spec(addr, j as u8)),
    )
}

/// Rows of the board pins.
pub open spec fn board_rows(class: u32, rows: Seq<DeviceRow>, pins: Seq<bool>) -> Seq<(Seq<char>, Seq<char>, bool, Seq<char>)> {
    available_pins_spec(class).map_values(|p: u8| board_row(class, rows, pins, p))
}

/// Rows of a list of chips of one kind (0 MCP23017, 1 ADS1115, 2 PCF8574),
/// chip after chip.
pub open spec fn chips_rows(kind: int, rows: Seq<DeviceRow>, pins: Seq<bool>, addrs: Seq<Seq<char>>) -> Seq<(Seq<char>, Seq<char>, bool, Seq<char>)>
    decreases addrs.len(),
{
    if addrs.len() == 0 {
        Seq::empty()
    } else {
        let a = addr_spec(addrs.last());
        chips_rows(kind, rows, pins, addrs.drop_last()) + if kind == 0 {
            mcp_rows(rows, pins, a)
        } else if kind == 1 {
            ads_rows(rows, pins, a)
        } else {
            pcf_rows(rows, pins, a)
        }
    }
}

/// Every row of the monitor, in display order.
pub open spec fn live_rows_spec(cfg: GpioConfig, class: u32, pins: Seq<bool>) -> Seq<(Seq<char>, Seq<char>, bool, Seq<char>)> {
    let rows = cfg.devices@;
    board_rows(class, rows, pins) + chips_rows(
        0,
        rows,
        pins,
        cfg.i2c.mcp23017@.map_values(|e: crate::config::Mcp23017Entry| e.address@),
    ) + chips_rows(
        1,
        rows,
        pins,
        cfg.i2c.ads1115@.map_values(|e: crate::config::Ads1115Entry| e.address@),
    ) + chips_rows(
        2,
        rows,
        pins,
        cfg.i2c.pcf8574@.map_values(|e: crate::config::Pcf8574Entry| e.address@),
    )
}

fn lookup(map: &HashMap<u8, String>, v: u8, Ghost(rows): Ghost<Seq<DeviceRow>>) -> (r: String)
    requires
        map@.dom() == label_map(rows).dom(),
        forall|u: u8| #[trigger] map@.contains_key(u) ==> map@[u]@ == label_map(rows)[u],
    ensures
        r@ == mapped_label(rows, v),
{
    match map.get(&v) {
        Some(s) => s.clone(),
        None => string_of("unmapped"),
    }
}

fn number(v: u8) -> (r: String)
    ensures
        r@ == dec_chars(v as nat),
{
    let mut s = String::new();
    push_decimal(&mut s, v as u64);
    s
}

fn push_rows(
    out: &mut Vec<LiveRow>,
    kind: u8,
    addr: u8,
    map: &HashMap<u8, String>,
    state: &PinState,
    Ghost(rows): Ghost<Seq<DeviceRow>>,
)
    requires
        kind < 3,
        map@.dom() == label_map(rows).dom(),
        forall|u: u8| #[trigger] map@.contains_key(u) ==> map@[u]@ == label_map(rows)[u],
    ensures
        final(out)@.map_values(|r: LiveRow| row_view(r)) == old(out)@.map_values(
            |r: LiveRow| row_view(r),
        ) + if kind == 0 {
            mcp_rows(rows, state.pins@, addr)
        } else if kind == 1 {
            ads_rows(rows, state.pins@, addr)
        } else {
            pcf_rows(rows, state.pins@, addr)
        },
{
    let ghost start = out@.map_values(|r: LiveRow| row_view(r));
    let ghost block = if kind == 0 {
        mcp_rows(rows, state.pins@, addr)
    } else if kind == 1 {
        ads_rows(rows, state.pins@, addr)
    } else {
        pcf_rows(rows, state.pins@, addr)
    };
    let n: u8 = if kind == 0 {
        16
    } else if kind == 1 {
        4
    } else {
        8
    };
    assert(block.len() == n);
    let mut j: u8 = 0;
    assert(out@.map_values(|r: LiveRow| row_view(r)) =~= start + block.take(0));
    while j < n
        invariant
            j <= n,
            block.len() == n,
            kind < 3,
            n == if kind == 0 {
                16u8
            } else if kind == 1 {
                4u8
            } else {
                8u8
            },
            block == if kind == 0 {
                mcp_rows(rows, state.pins@, addr)
            } else if kind == 1 {
                ads_rows(rows, state.pins@, addr)
            } else {
                pcf_rows(rows, state.pins@, addr)
            },
            map@.dom() == label_map(rows).dom(),
            forall|u: u8| #[trigger] map@.contains_key(u) ==> map@[u]@ == label_map(rows)[u],
            out@.map_values(|r: LiveRow| row_view(r)) == start + block.take(j as int),
        decreases n - j,
    {
        let (v, label) = if kind == 0 {
            let port = if j < 8 {
                'A'
            } else {
                'B'
            };
            let bit = j % 8;
            (mcp23017_vpin(addr, port, bit), mcp23017_pin_id(addr, port, bit))
        } else if kind == 1 {
            (ads1115_vpin(addr, j), ads1115_pin_id(addr, j))
        } else {
            (pcf8574_vpin(addr, j), pcf8574_pin_id(addr, j))
        };
        let pressed = state.is_pressed(v);
        let mapped = lookup(map, v, Ghost(rows));
        let row = LiveRow { pin: number(v), label, pressed, mapped };
        let ghost before = out@.map_values(|r: LiveRow| row_view(r));
        out.push(row);
        assert(row_view(row) == block[j as int]);
        assert(out@.map_values(|r: LiveRow| row_view(r)) =~= before.push(row_view(row)));
        assert(block.take(j + 1) =~= block.take(j as int).push(block[j as int]));
        j = j + 1;
    }
    assert(block.take(n as int) =~= block);
}

/// The rows of the live pin monitor on a board of the given class, for the
/// current configuration and pin state.
pub fn live_rows(cfg: &GpioConfig, class: u32, state: &PinState) -> (r: Vec<LiveRow>)
    ensures
        r@.map_values(|r: LiveRow| row_view(r)) == live_rows_spec(*cfg, class, state.pins@),
{
    let ghost rows = cfg.devices@;
    let map = build_mapping_label_map(cfg);
    let gpio = board_to_gpio(class);
    let pins = available_pins(class);
    let mut out: Vec<LiveRow> = Vec::new();
    let mut i: usize = 0;
    let ghost bspec = board_rows(class, rows, state.pins@);
    while i < pins.len()
        invariant
            i <= pins@.len(),
            pins@ == available_pins_spec(class),
            gpio@ == board_to_gpio_spec(class),
            bspec == board_rows(class, rows, state.pins@),
            rows == cfg.devices@,
            map@.dom() == label_map(rows).dom(),
            forall|u: u8| #[trigger] map@.contains_key(u) ==> map@[u]@ == label_map(rows)[u],
            out@.map_values(|r: LiveRow| row_view(r)) == bspec.take(i as int),
        decreases pins@.len() - i,
    {
        let p = pins[i];
        let label = match gpio.get(&p) {
            Some(g) => {
                let mut s = string_of("GPIO");
                push_decimal(&mut s, *g as u64);
                s
            },
            None => {
                let mut s = string_of("BOARD");
                push_decimal(&mut s, p as u64);
                s
            },
        };
        let pressed = state.is_pressed(p);
        let mapped = lookup(&map, p, Ghost(rows));
        let row = LiveRow { pin: number(p), label, pressed, mapped };
        let ghost before = out@.map_values(|r: LiveRow| row_view(r));
        out.push(row);
        assert(row_view(row) == bspec[i as int]);
        assert(out@.map_values(|r: LiveRow| row_view(r)) =~= before.push(row_view(row)));
        assert(bspec.take(i + 1) =~= bspec.take(i as int).push(bspec[i as int]));
        i = i + 1;
    }
    assert(bspec.take(i as int) =~= bspec);
    let ghost addrs0 = cfg.i2c.mcp23017@.map_values(|e: crate::config::Mcp23017Entry| e.address@);
    let ghost addrs1 = cfg.i2c.ads1115@.map_values(|e: crate::config::Ads1115Entry| e.address@);
    let ghost addrs2 = cfg.i2c.pcf8574@.map_values(|e: crate::config::Pcf8574Entry| e.address@);
    let ghost base0 = bspec;
    let mut k: usize = 0;
    while k < cfg.i2c.mcp23017.len()
        invariant
            k <= cfg.i2c.mcp23017@.len(),
            rows == cfg.devices@,
            addrs0 == cfg.i2c.mcp23017@.map_values(|e: crate::config::Mcp23017Entry| e.address@),
            map@.dom() == label_map(rows).dom(),
            forall|u: u8| #[trigger] map@.contains_key(u) ==> map@[u]@ == label_map(rows)[u],
            out@.map_values(|r: LiveRow| row_view(r)) == base0 + chips_rows(
                0,
                rows,
                state.pins@,
                addrs0.take(k as int),
            ),
        decreases cfg.i2c.mcp23017@.len() - k,
    {
        assert(addrs0.take(k + 1).drop_last() =~= addrs0.take(k as int));
        assert(addrs0.take(k + 1).last() == cfg.i2c.mcp23017@[k as int].address@);
        let a = parse_addr(cfg.i2c.mcp23017[k].address.as_str());
        push_rows(&mut out, 0, a, &map, state, Ghost(rows));
        k = k + 1;
    }
    assert(addrs0.take(k as int) =~= addrs0);
    let ghost base1 = out@.map_values(|r: LiveRow| row_view(r));
    let mut k: usize = 0;
    while k < cfg.i2c.ads1115.len()
        invariant
            k <= cfg.i2c.ads1115@.len(),
            rows == cfg.devices@,
            addrs1 == cfg.i2c.ads1115@.map_values(|e: crate::config::Ads1115Entry| e.address@),
            map@.dom() == label_map(rows).dom(),
            forall|u: u8| #[trigger] map@.contains_key(u) ==> map@[u]@ == label_map(rows)[u],
            out@.map_values(|r: LiveRow| row_view(r)) == base1 + chips_rows(
                1,
                rows,
                state.pins@,
                addrs1.take(k as int),
            ),
        decreases cfg.i2c.ads1115@.len() - k,
    {
        assert(addrs1.take(k + 1).drop_last() =~= addrs1.take(k as int));
        assert(addrs1.take(k + 1).last() == cfg.i2c.ads1115@[k as int].address@);
        let a = parse_addr(cfg.i2c.ads1115[k].address.as_str());
        push_rows(&mut out, 1, a, &map, state, Ghost(rows));
        k = k + 1;
    }
    assert(addrs1.take(k as int) =~= addrs1);
    let ghost base2 = out@.map_values(|r: LiveRow| row_view(r));
    let mut k: usize = 0;
    while k < cfg.i2c.pcf8574.len()
        invariant
            k <= cfg.i2c.pcf8574@.len(),
            rows == cfg.devices@,
            addrs2 == cfg.i2c.pcf8574@.map_values(|e: crate::config::Pcf8574Entry| e.address@),
            map@.dom() == label_map(rows).dom(),
            forall|u: u8| #[trigger] map@.contains_key(u) ==> map@[u]@ == label_map(rows)[u],
            out@.map_values(|r: LiveRow| row_view(r)) == base2 + chips_rows(
                2,
                rows,
                state.pins@,
                addrs2.take(k as int),
            ),
        decreases cfg.i2c.pcf8574@.len() - k,
    {
        assert(addrs2.take(k + 1).drop_last() =~= addrs2.take(k as int));
        assert(addrs2.take(k + 1).last() == cfg.i2c.pcf8574@[k as int].address@);
        let a = parse_addr(cfg.i2c.pcf8574[k].address.as_str());
        push_rows(&mut out, 2, a, &map, state, Ghost(rows));
        k = k + 1;
    }
    assert(addrs2.take(k as int) =~= addrs2);
    out
}

} // verus!
