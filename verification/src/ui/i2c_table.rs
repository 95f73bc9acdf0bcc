//! The I2C chip table of the settings tab: the three chip lists shown as one
//! table, MCP23017 rows first, then ADS1115, then PCF8574.

use vstd::prelude::*;
use crate::config::{Ads1115Entry, GpioConfig, Mcp23017Entry, Pcf8574Entry};
use crate::i2c::ChipType;
use crate::text::{push_str, string_of};
use crate::ui::modals::I2cEntry;

verus! {

/// Number of rows of the chip table.
pub open spec fn i2c_rows_spec(cfg: GpioConfig) -> int {
    (cfg.i2c.mcp23017@.len() + cfg.i2c.ads1115@.len() + cfg.i2c.pcf8574@.len()) as int
}

/// Number of rows of the chip table.
pub fn i2c_rows_count(cfg: &GpioConfig) -> (r: usize)
    requires
        i2c_rows_spec(*cfg) <= usize::MAX,
    ensures
        r == i2c_rows_spec(*cfg),
{
    cfg.i2c.mcp23017.len() + cfg.i2c.ads1115.len() + cfg.i2c.pcf8574.len()
}

/// The label of row `idx`: chip name and address.
pub open spec fn i2c_row_label_spec(cfg: GpioConfig, idx: int) -> Seq<char> {
    let m = cfg.i2c.mcp23017@.len() as int;
    let a = cfg.i2c.ads1115@.len() as int;
    if idx < m {
        "MCP23017 "@ + cfg.i2c.mcp23017@[idx].address@
    } else if idx < m + a {
        "ADS1115 "@ + cfg.i2c.ads1115@[idx - m].address@
    } else {
        "PCF8574 "@ + cfg.i2c.pcf8574@[idx - m - a].address@
    }
}

/// The label of row `idx` of the chip table.
pub fn i2c_row_label(cfg: &GpioConfig, idx: usize) -> (r: String)
    requires
        idx < i2c_rows_spec(*cfg),
    ensures
        r@ == i2c_row_label_spec(*cfg, idx as int),
{
    let m = cfg.i2c.mcp23017.len();
    let a = cfg.i2c.ads1115.len();
    if idx < m {
        let mut s = string_of("MCP23017 ");
        push_str(&mut s, cfg.i2c.mcp23017[idx].address.as_str());
        s
    } else if idx - m < a {
        let mut s = string_of("ADS1115 ");
        push_str(&mut s, cfg.i2c.ads1115[idx - m].address.as_str());
        s
    } else {
        let mut s = string_of("PCF8574 ");
        push_str(&mut s, cfg.i2c.pcf8574[idx - m - a].address.as_str());
        s
    }
}

/// Row `idx` of the chip table removed from the list it belongs to; an
/// index past the end removes nothing. Everything else is kept.
pub open spec fn i2c_removed(old: GpioConfig, new: GpioConfig, idx: int) -> bool {
    let m = old.i2c.mcp23017@.len() as int;
    let a = old.i2c.ads1115@.len() as int;
    let p = old.i2c.pcf8574@.len() as int;
    &&& new.version == old.version
    &&& new.daemon == old.daemon
    &&& new.devices == old.devices
    &&& 0 <= idx < m ==> new.i2c.mcp23017@ == old.i2c.mcp23017@.remove(idx)
        && new.i2c.ads1115@ == old.i2c.ads1115@ && new.i2c.pcf8574@ == old.i2c.pcf8574@
    &&& m <= idx < m + a ==> new.i2c.mcp23017@ == old.i2c.mcp23017@ && new.i2c.ads1115@
        == old.i2c.ads1115@.remove(idx - m) && new.i2c.pcf8574@ == old.i2c.pcf8574@
    &&& m + a <= idx < m + a + p ==> new.i2c.mcp23017@ == old.i2c.mcp23017@ && new.i2c.ads1115@
        == old.i2c.ads1115@ && new.i2c.pcf8574@ == old.i2c.pcf8574@.remove(idx - m - a)
    &&& idx >= m + a + p ==> new.i2c == old.i2c
}

/// Removes row `idx` of the chip table from the list it belongs to; an index
/// past the end removes nothing.
pub fn remove_i2c_by_index(cfg: &mut GpioConfig, idx: usize)
    ensures
        i2c_removed(*old(cfg), *final(cfg), idx as int),
{
    let m = cfg.i2c.mcp23017.len();
    let a = cfg.i2c.ads1115.len();
    if idx < m {
        cfg.i2c.mcp23017.remove(idx);
    } else if idx - m < a {
        cfg.i2c.ads1115.remove(idx - m);
    } else {
        let pcf_idx = idx - m - a;
        if pcf_idx < cfg.i2c.pcf8574.len() {
            cfg.i2c.pcf8574.remove(pcf_idx);
        }
    }
}

/// The chip appended to the list of its type; everything else kept.
pub open spec fn i2c_appended(old: GpioConfig, new: GpioConfig, e: I2cEntry) -> bool {
    &&& new.version == old.version
    &&& new.daemon == old.daemon
    &&& new.devices == old.devices
    &&& e.chip == ChipType::Mcp23017 ==> new.i2c.mcp23017@ == old.i2c.mcp23017@.push(
        Mcp23017Entry { bus: e.bus, address: e.address, int_pin: e.int_pin },
    ) && new.i2c.ads1115 == old.i2c.ads1115 && new.i2c.pcf8574 == old.i2c.pcf8574
    &&& e.chip == ChipType::Ads1115 ==> new.i2c.ads1115@ == old.i2c.ads1115@.push(
        Ads1115Entry { bus: e.bus, address: e.address },
    ) && new.i2c.mcp23017 == old.i2c.mcp23017 && new.i2c.pcf8574 == old.i2c.pcf8574
    &&& e.chip == ChipType::Pcf8574 ==> new.i2c.pcf8574@ == old.i2c.pcf8574@.push(
        Pcf8574Entry { bus: e.bus, address: e.address, int_pin: e.int_pin },
    ) && new.i2c.mcp23017 == old.i2c.mcp23017 && new.i2c.ads1115 == old.i2c.ads1115
}

/// Appends a chip to the list of its type.
pub fn apply_i2c_entry(e: I2cEntry, cfg: &mut GpioConfig)
    ensures
        i2c_appended(*old(cfg), *final(cfg), e),
{
    match e.chip {
        ChipType::Mcp23017 => cfg.i2c.mcp23017.push(
            Mcp23017Entry { bus: e.bus, address: e.address, int_pin: e.int_pin },
        ),
        ChipType::Ads1115 => cfg.i2c.ads1115.push(Ads1115Entry { bus: e.bus, address: e.address }),
        ChipType::Pcf8574 => cfg.i2c.pcf8574.push(
            Pcf8574Entry { bus: e.bus, address: e.address, int_pin: e.int_pin },
        ),
    }
}

/// The table row at which an added chip appears: the end of the rows of its
/// type.
pub open spec fn added_row(old: GpioConfig, e: I2cEntry) -> int {
    let m = old.i2c.mcp23017@.len() as int;
    let a = old.i2c.ads1115@.len() as int;
    let p = old.i2c.pcf8574@.len() as int;
    match e.chip {
        ChipType::Mcp23017 => m,
        ChipType::Ads1115 => m + a,
        ChipType::Pcf8574 => m + a + p,
    }
}

/// Removing the row of a chip just added gives back the chip lists (and
/// the rest of the configuration) from before the addition.
pub proof fn lemma_add_then_remove_chip(old: GpioConfig, mid: GpioConfig, new: GpioConfig, e: I2cEntry)
    requires
        i2c_appended(old, mid, e),
        i2c_removed(mid, new, added_row(old, e)),
    ensures
        new.version == old.version,
        new.daemon == old.daemon,
        new.devices == old.devices,
        new.i2c.mcp23017@ == old.i2c.mcp23017@,
        new.i2c.ads1115@ == old.i2c.ads1115@,
        new.i2c.pcf8574@ == old.i2c.pcf8574@,
{
    match e.chip {
        ChipType::Mcp23017 => {
            assert(old.i2c.mcp23017@.push(Mcp23017Entry { bus: e.bus, address: e.address, int_pin: e.int_pin }).remove(
                old.i2c.mcp23017@.len() as int,
            ) =~= old.i2c.mcp23017@);
        },
        ChipType::Ads1115 => {
            assert(old.i2c.ads1115@.push(Ads1115Entry { bus: e.bus, address: e.address }).remove(
                old.i2c.ads1115@.len() as int,
            ) =~= old.i2c.ads1115@);
        },
        ChipType::Pcf8574 => {
            assert(old.i2c.pcf8574@.push(Pcf8574Entry { bus: e.bus, address: e.address, int_pin: e.int_pin }).remove(
                old.i2c.pcf8574@.len() as int,
            ) =~= old.i2c.pcf8574@);
        },
    }
}

/// The labels of the chip table's rows, top to bottom.
pub open spec fn i2c_labels(cfg: GpioConfig) -> Seq<Seq<char>> {
    Seq::new(i2c_rows_spec(cfg) as nat, |k: int| i2c_row_label_spec(cfg, k))
}

/// Removing a row of the chip table removes exactly that row: the rows
/// after it move up by one and keep their labels, in order; an index past
/// the end changes nothing.
pub proof fn lemma_remove_row_labels(old: GpioConfig, new: GpioConfig, idx: int)
    requires
        0 <= idx,
        i2c_removed(old, new, idx),
    ensures
        new.version == old.version,
        new.daemon == old.daemon,
        new.devices == old.devices,
        idx < i2c_rows_spec(old) ==> i2c_rows_spec(new) == i2c_rows_spec(old) - 1,
        idx < i2c_rows_spec(old) ==> forall|k: int|
            0 <= k < i2c_rows_spec(new) ==> #[trigger] i2c_row_label_spec(new, k)
                == i2c_row_label_spec(old, if k < idx {
                k
            } else {
                k + 1
            }),
        idx < i2c_rows_spec(old) ==> i2c_labels(new) == i2c_labels(old).remove(idx),
        idx >= i2c_rows_spec(old) ==> new.i2c == old.i2c && i2c_labels(new) == i2c_labels(old),
{
    let m = old.i2c.mcp23017@.len() as int;
    let a = old.i2c.ads1115@.len() as int;
    if idx < i2c_rows_spec(old) {
        assert forall|k: int| 0 <= k < i2c_rows_spec(new) implies #[trigger] i2c_row_label_spec(
            new,
            k,
        ) == i2c_row_label_spec(old, if k < idx {
            k
        } else {
            k + 1
        }) by {
            if idx < m {
                if k < m - 1 {
                    if k >= idx {
                        assert(new.i2c.mcp23017@[k] == old.i2c.mcp23017@[k + 1]);
                    } else {
                        assert(new.i2c.mcp23017@[k] == old.i2c.mcp23017@[k]);
                    }
                }
            } else if idx < m + a {
                if m <= k < m + a - 1 {
                    if k >= idx {
                        assert(new.i2c.ads1115@[k - m] == old.i2c.ads1115@[k - m + 1]);
                    } else {
                        assert(new.i2c.ads1115@[k - m] == old.i2c.ads1115@[k - m]);
                    }
                }
            } else {
                if k >= m + a {
                    if k >= idx {
                        assert(new.i2c.pcf8574@[k - m - a] == old.i2c.pcf8574@[k - m - a + 1]);
                    } else {
                        assert(new.i2c.pcf8574@[k - m - a] == old.i2c.pcf8574@[k - m - a]);
                    }
                }
            }
        }
        assert(i2c_labels(new) =~= i2c_labels(old).remove(idx));
    }
}

} // verus!
