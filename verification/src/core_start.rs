//! Starting the event core for an embedding host: the options it is given,
//! with their defaults, and the chips it opens.

use vstd::prelude::*;
use crate::gpio::GpioConfig as LineConfig;
use crate::i2c::ChipType;

verus! {

/// How the core runs.
#[derive(Debug, Clone)]
pub struct StartOptions {
    /// Window in which presses count as one combination, in milliseconds.
    pub combo_delay_ms: u64,
    /// Delay before a held key repeats, in milliseconds.
    pub key_hold_delay_ms: u64,
    pub pulldown: bool,
    pub debounce_ms: u32,
    /// BOARD pins to watch.
    pub pins: Vec<u8>,
    /// Pins reserved by other hardware, never opened.
    pub skip_pins: Vec<u8>,
    /// Worker threads of the dispatch pool.
    pub pool_size: usize,
    /// Whether virtual input devices are created (not for a monitor).
    pub open_devices: bool,
}

/// The daemon's options: each missing value takes its default (combo delay
/// 50 ms, key hold delay 350 ms, pull-up, debounce 1 ms, no pins, no
/// reserved pins); eight workers; devices are created.
pub fn resolve_start(
    combo_delay: Option<u64>,
    key_hold_delay: Option<u64>,
    pulldown: Option<bool>,
    debounce: Option<u32>,
    pins: Option<Vec<u8>>,
    skip_pins: Option<Vec<u8>>,
) -> (o: StartOptions)
    ensures
        o.combo_delay_ms == match combo_delay {
            Some(v) => v,
            None => 50,
        },
        o.key_hold_delay_ms == match key_hold_delay {
            Some(v) => v,
            None => 350,
        },
        o.pulldown == match pulldown {
            Some(v) => v,
            None => false,
        },
        o.debounce_ms == match debounce {
            Some(v) => v,
            None => 1,
        },
        o.pins@ == match pins {
            Some(v) => v@,
            None => Seq::empty(),
        },
        o.skip_pins@ == match skip_pins {
            Some(v) => v@,
            None => Seq::empty(),
        },
        o.pool_size == 8,
        o.open_devices,
{
    StartOptions {
        combo_delay_ms: match combo_delay {
            Some(v) => v,
            None => 50,
        },
        key_hold_delay_ms: match key_hold_delay {
            Some(v) => v,
            None => 350,
        },
        pulldown: match pulldown {
            Some(v) => v,
            None => false,
        },
        debounce_ms: match debounce {
            Some(v) => v,
            None => 1,
        },
        pins: match pins {
            Some(v) => v,
            None => Vec::new(),
        },
        skip_pins: match skip_pins {
            Some(v) => v,
            None => Vec::new(),
        },
        pool_size: 8,
        open_devices: true,
    }
}

/// A monitor for the configuration tool: pin tracking only, with the
/// default delays, four workers and no devices.
pub fn resolve_monitor(
    pulldown: Option<bool>,
    debounce: Option<u32>,
    pins: Option<Vec<u8>>,
    skip_pins: Option<Vec<u8>>,
) -> (o: StartOptions)
    ensures
        o.combo_delay_ms == 50,
        o.key_hold_delay_ms == 350,
        o.pulldown == match pulldown {
            Some(v) => v,
            None => false,
        },
        o.debounce_ms == match debounce {
            Some(v) => v,
            None => 1,
        },
        o.pins@ == match pins {
            Some(v) => v@,
            None => Seq::empty(),
        },
        o.skip_pins@ == match skip_pins {
            Some(v) => v@,
            None => Seq::empty(),
        },
        o.pool_size == 4,
        !o.open_devices,
{
    let mut o = resolve_start(None, None, pulldown, debounce, pins, skip_pins);
    o.pool_size = 4;
    o.open_devices = false;
    o
}

/// The line configuration of the options.
pub fn line_config(o: &StartOptions) -> (c: LineConfig)
    ensures
        c.pins@ == o.pins@,
        c.pulldown == o.pulldown,
        c.debounce_ms == o.debounce_ms,
{
    LineConfig { pins: o.pins.clone(), pulldown: o.pulldown, debounce_ms: o.debounce_ms }
}

/// A chip to open.
#[derive(Debug, Clone, Copy)]
pub struct ChipRequest {
    pub kind: ChipType,
    pub bus: u8,
    pub address: u8,
    pub int_pin: Option<u8>,
}

/// A chip entry with its defaults: bus 1, address 0x48 for the ADC and 0x20
/// otherwise; the ADC has no interrupt pin.
pub fn resolve_chip(kind: ChipType, bus: Option<u8>, address: Option<u8>, int_pin: Option<u8>) -> (c: ChipRequest)
    ensures
        c.kind == kind,
        c.bus == match bus {
            Some(b) => b,
            None => 1u8,
        },
        c.address == match address {
            Some(a) => a,
            None => if kind == ChipType::Ads1115 {
                0x48u8
            } else {
                0x20u8
            },
        },
        c.int_pin == if kind == ChipType::Ads1115 {
            None
        } else {
            int_pin
        },
{
    let is_ads = match kind {
        ChipType::Ads1115 => true,
        _ => false,
    };
    ChipRequest {
        kind,
        bus: match bus {
            Some(b) => b,
            None => 1,
        },
        address: match address {
            Some(a) => a,
            None => if is_ads {
                0x48
            } else {
                0x20
            },
        },
        int_pin: if is_ads {
            None
        } else {
            int_pin
        },
    }
}

} // verus!
