//! The daemon's decisions: command-line arguments, the runtime settings they
//! override, the control-socket commands and their JSON answers, and which
//! I2C chips to start.

use vstd::prelude::*;
use crate::config::{
    effective_pins, effective_pins_spec, hex_addr_spec, int_pin_spec, parse_hex_addr,
    parse_int_pin, GpioConfig,
};
use crate::constants::join_numbers;
use crate::i2c::ChipType;
use crate::text::{
    chars_of, dec_chars, parse_u32, push_char, push_decimal, push_str, range_starts_with,
    starts_with, str_eq, string_of, string_of_range,
};

verus! {

// ---------------------------------------------------------------------------
// Command line
// ---------------------------------------------------------------------------

/// The daemon's command line.
#[derive(Debug, Clone)]
pub struct Args {
    pub config_path: String,
    pub combo_delay: Option<u32>,
    pub key_hold_delay: Option<u32>,
    pub debounce: Option<u32>,
    pub pins: Option<String>,
    pub pulldown: bool,
    pub use_i2c: bool,
    pub dev: bool,
    pub debug: bool,
    /// Arguments that were not understood, in order.
    pub unknown: Vec<String>,
}

pub struct ArgsView {
    pub config_path: Seq<char>,
    pub combo_delay: Option<u32>,
    pub key_hold_delay: Option<u32>,
    pub debounce: Option<u32>,
    pub pins: Option<Seq<char>>,
    pub pulldown: bool,
    pub use_i2c: bool,
    pub dev: bool,
    pub debug: bool,
    pub unknown: Seq<Seq<char>>,
}

impl View for Args {
    type V = ArgsView;

    open spec fn view(&self) -> ArgsView {
        ArgsView {
            config_path: self.config_path@,
            combo_delay: self.combo_delay,
            key_hold_delay: self.key_hold_delay,
            debounce: self.debounce,
            pins: match self.pins {
                Some(p) => Some(p@),
                None => None,
            },
            pulldown: self.pulldown,
            use_i2c: self.use_i2c,
            dev: self.dev,
            debug: self.debug,
            unknown: self.unknown@.map_values(|s: String| s@),
        }
    }
}

pub open spec fn default_config_path_spec() -> Seq<char> {
    "/opt/gpionext/config/gpionext.json"@
}

/// Where the configuration lives unless an argument says otherwise.
pub fn default_config_path() -> (s: String)
    ensures
        s@ == default_config_path_spec(),
{
    string_of("/opt/gpionext/config/gpionext.json")
}

pub open spec fn default_args() -> ArgsView {
    ArgsView {
        config_path: default_config_path_spec(),
        combo_delay: None,
        key_hold_delay: None,
        debounce: None,
        pins: None,
        pulldown: false,
        use_i2c: false,
        dev: false,
        debug: false,
        unknown: Seq::empty(),
    }
}

/// The arguments from position `i` on, applied to `a`. A value option takes
/// the next argument (a number option keeps it only if it parses); a value
/// option at the end is ignored; flags set their field; anything else is
/// recorded as unknown.
pub open spec fn args_from(raw: Seq<Seq<char>>, i: int, a: ArgsView) -> ArgsView
    decreases raw.len() - i,
{
    if i < 0 || i >= raw.len() {
        a
    } else {
        let w = raw[i];
        let has_next = i + 1 < raw.len();
        if w == "--config"@ {
            args_from(
                raw,
                if has_next {
                    i + 2
                } else {
                    i + 1
                },
                if has_next {
                    ArgsView { config_path: raw[i + 1], ..a }
                } else {
                    a
                },
            )
        } else if w == "--combo_delay"@ {
            args_from(
                raw,
                if has_next {
                    i + 2
                } else {
                    i + 1
                },
                if has_next {
                    ArgsView { combo_delay: parse_u32(raw[i + 1]), ..a }
                } else {
                    a
                },
            )
        } else if w == "--key_hold_delay"@ {
            args_from(
                raw,
                if has_next {
                    i + 2
                } else {
                    i + 1
                },
                if has_next {
                    ArgsView { key_hold_delay: parse_u32(raw[i + 1]), ..a }
                } else {
                    a
                },
            )
        } else if w == "--debounce"@ {
            args_from(
                raw,
                if has_next {
                    i + 2
                } else {
                    i + 1
                },
                if has_next {
                    ArgsView { debounce: parse_u32(raw[i + 1]), ..a }
                } else {
                    a
                },
            )
        } else if w == "--pins"@ {
            args_from(
                raw,
                if has_next {
                    i + 2
                } else {
                    i + 1
                },
                if has_next {
                    ArgsView { pins: Some(raw[i + 1]), ..a }
                } else {
                    a
                },
            )
        } else if w == "--pulldown"@ {
            args_from(raw, i + 1, ArgsView { pulldown: true, ..a })
        } else if w == "--use_i2c"@ {
            args_from(raw, i + 1, ArgsView { use_i2c: true, ..a })
        } else if w == "--dev"@ {
            args_from(raw, i + 1, ArgsView { dev: true, ..a })
        } else if w == "--debug"@ {
            args_from(raw, i + 1, ArgsView { debug: true, ..a })
        } else {
            args_from(raw, i + 1, ArgsView { unknown: a.unknown.push(w), ..a })
        }
    }
}

/// Whether `w` occurs among the arguments from position `i` on.
pub open spec fn occurs_from(raw: Seq<Seq<char>>, i: int, w: Seq<char>) -> bool {
    exists|j: int| i <= j < raw.len() && raw[j] == w
}

/// A flag only ever turns its own field on: a field that is on stays on, and
/// a field whose option does not occur among the arguments keeps its value.
pub proof fn lemma_flags_own_fields(raw: Seq<Seq<char>>, i: int, a: ArgsView)
    ensures
        a.pulldown ==> args_from(raw, i, a).pulldown,
        a.use_i2c ==> args_from(raw, i, a).use_i2c,
        a.dev ==> args_from(raw, i, a).dev,
        a.debug ==> args_from(raw, i, a).debug,
        !occurs_from(raw, i, "--pulldown"@) ==> args_from(raw, i, a).pulldown == a.pulldown,
        !occurs_from(raw, i, "--use_i2c"@) ==> args_from(raw, i, a).use_i2c == a.use_i2c,
        !occurs_from(raw, i, "--dev"@) ==> args_from(raw, i, a).dev == a.dev,
        !occurs_from(raw, i, "--debug"@) ==> args_from(raw, i, a).debug == a.debug,
        !occurs_from(raw, i, "--config"@) ==> args_from(raw, i, a).config_path == a.config_path,
        !occurs_from(raw, i, "--combo_delay"@) ==> args_from(raw, i, a).combo_delay == a.combo_delay,
        !occurs_from(raw, i, "--key_hold_delay"@) ==> args_from(raw, i, a).key_hold_delay
            == a.key_hold_delay,
        !occurs_from(raw, i, "--debounce"@) ==> args_from(raw, i, a).debounce == a.debounce,
        !occurs_from(raw, i, "--pins"@) ==> args_from(raw, i, a).pins == a.pins,
    decreases raw.len() - i,
{
    if 0 <= i < raw.len() {
        let w = raw[i];
        let has_next = i + 1 < raw.len();
        let j = if has_next && (w == "--config"@ || w == "--combo_delay"@ || w == "--key_hold_delay"@
            || w == "--debounce"@ || w == "--pins"@) {
            i + 2
        } else {
            i + 1
        };
        if w == "--config"@ {
            lemma_flags_own_fields(raw, j, if has_next { ArgsView { config_path: raw[i + 1], ..a } } else { a });
        } else if w == "--combo_delay"@ {
            lemma_flags_own_fields(raw, j, if has_next { ArgsView { combo_delay: parse_u32(raw[i + 1]), ..a } } else { a });
        } else if w == "--key_hold_delay"@ {
            lemma_flags_own_fields(raw, j, if has_next { ArgsView { key_hold_delay: parse_u32(raw[i + 1]), ..a } } else { a });
        } else if w == "--debounce"@ {
            lemma_flags_own_fields(raw, j, if has_next { ArgsView { debounce: parse_u32(raw[i + 1]), ..a } } else { a });
        } else if w == "--pins"@ {
            lemma_flags_own_fields(raw, j, if has_next { ArgsView { pins: Some(raw[i + 1]), ..a } } else { a });
        } else if w == "--pulldown"@ {
            lemma_flags_own_fields(raw, i + 1, ArgsView { pulldown: true, ..a });
        } else if w == "--use_i2c"@ {
            lemma_flags_own_fields(raw, i + 1, ArgsView { use_i2c: true, ..a });
        } else if w == "--dev"@ {
            lemma_flags_own_fields(raw, i + 1, ArgsView { dev: true, ..a });
        } else if w == "--debug"@ {
            lemma_flags_own_fields(raw, i + 1, ArgsView { debug: true, ..a });
        } else {
            lemma_flags_own_fields(raw, i + 1, ArgsView { unknown: a.unknown.push(w), ..a });
        }
        assert(forall|v: Seq<char>| occurs_from(raw, j, v) ==> occurs_from(raw, i, v));
    }
}

/// Each flag turns on its own field and only that one: arguments that start
/// with `--pulldown`, `--use_i2c`, `--dev` or `--debug` have that field on,
/// whatever follows, and that flag alone leaves every other field at its
/// default.
pub proof fn lemma_each_flag_sets_its_field(rest: Seq<Seq<char>>)
    ensures
        args_from(seq!["--pulldown"@] + rest, 0, default_args()).pulldown,
        args_from(seq!["--use_i2c"@] + rest, 0, default_args()).use_i2c,
        args_from(seq!["--dev"@] + rest, 0, default_args()).dev,
        args_from(seq!["--debug"@] + rest, 0, default_args()).debug,
        args_from(seq!["--pulldown"@], 0, default_args()) == (ArgsView { pulldown: true, ..default_args() }),
        args_from(seq!["--use_i2c"@], 0, default_args()) == (ArgsView { use_i2c: true, ..default_args() }),
        args_from(seq!["--dev"@], 0, default_args()) == (ArgsView { dev: true, ..default_args() }),
        args_from(seq!["--debug"@], 0, default_args()) == (ArgsView { debug: true, ..default_args() }),
{
    reveal_strlit("--config");
    reveal_strlit("--combo_delay");
    reveal_strlit("--key_hold_delay");
    reveal_strlit("--debounce");
    reveal_strlit("--pins");
    reveal_strlit("--pulldown");
    reveal_strlit("--use_i2c");
    reveal_strlit("--dev");
    reveal_strlit("--debug");
    assert("--pulldown"@ != "--debounce"@) by {
        assert("--pulldown"@[2] != "--debounce"@[2]);
    }
    assert("--pulldown"@.len() == 10 && "--use_i2c"@.len() == 9 && "--config"@.len() == 8
        && "--combo_delay"@.len() == 13 && "--key_hold_delay"@.len() == 16
        && "--debounce"@.len() == 10 && "--pins"@.len() == 6);
    let d = default_args();
    let p = seq!["--pulldown"@] + rest;
    let u = seq!["--use_i2c"@] + rest;
    let v = seq!["--dev"@] + rest;
    let g = seq!["--debug"@] + rest;
    assert(p[0] == "--pulldown"@ && u[0] == "--use_i2c"@ && v[0] == "--dev"@ && g[0] == "--debug"@);
    lemma_flags_own_fields(p, 1, ArgsView { pulldown: true, ..d });
    lemma_flags_own_fields(u, 1, ArgsView { use_i2c: true, ..d });
    lemma_flags_own_fields(v, 1, ArgsView { dev: true, ..d });
    lemma_flags_own_fields(g, 1, ArgsView { debug: true, ..d });
    assert(args_from(seq!["--pulldown"@], 1, ArgsView { pulldown: true, ..d }) == ArgsView { pulldown: true, ..d });
    assert(args_from(seq!["--use_i2c"@], 1, ArgsView { use_i2c: true, ..d }) == ArgsView { use_i2c: true, ..d });
    assert(args_from(seq!["--dev"@], 1, ArgsView { dev: true, ..d }) == ArgsView { dev: true, ..d });
    assert(args_from(seq!["--debug"@], 1, ArgsView { debug: true, ..d }) == ArgsView { debug: true, ..d });
}

/// Each value option takes the argument after it into its own field and
/// leaves every other field at its default; a number option keeps the value
/// only when it parses.
pub proof fn lemma_each_option_sets_its_field(v: Seq<char>)
    ensures
        args_from(seq!["--config"@, v], 0, default_args()) == (ArgsView { config_path: v, ..default_args() }),
        args_from(seq!["--combo_delay"@, v], 0, default_args()) == (ArgsView {
            combo_delay: parse_u32(v),
            ..default_args()
        }),
        args_from(seq!["--key_hold_delay"@, v], 0, default_args()) == (ArgsView {
            key_hold_delay: parse_u32(v),
            ..default_args()
        }),
        args_from(seq!["--debounce"@, v], 0, default_args()) == (ArgsView {
            debounce: parse_u32(v),
            ..default_args()
        }),
        args_from(seq!["--pins"@, v], 0, default_args()) == (ArgsView { pins: Some(v), ..default_args() }),
{
    reveal_strlit("--config");
    reveal_strlit("--combo_delay");
    reveal_strlit("--key_hold_delay");
    reveal_strlit("--debounce");
    reveal_strlit("--pins");
    assert("--config"@.len() == 8 && "--combo_delay"@.len() == 13 && "--key_hold_delay"@.len() == 16
        && "--debounce"@.len() == 10 && "--pins"@.len() == 6);
    let d = default_args();
    assert(args_from(seq!["--config"@, v], 2, ArgsView { config_path: v, ..d }) == ArgsView { config_path: v, ..d });
    assert(args_from(seq!["--combo_delay"@, v], 2, ArgsView { combo_delay: parse_u32(v), ..d })
        == ArgsView { combo_delay: parse_u32(v), ..d });
    assert(args_from(seq!["--key_hold_delay"@, v], 2, ArgsView { key_hold_delay: parse_u32(v), ..d })
        == ArgsView { key_hold_delay: parse_u32(v), ..d });
    assert(args_from(seq!["--debounce"@, v], 2, ArgsView { debounce: parse_u32(v), ..d })
        == ArgsView { debounce: parse_u32(v), ..d });
    assert(args_from(seq!["--pins"@, v], 2, ArgsView { pins: Some(v), ..d }) == ArgsView { pins: Some(v), ..d });
}

pub open spec fn strings(v: Seq<String>) -> Seq<Seq<char>> {
    v.map_values(|s: String| s@)
}

/// Parses the daemon's arguments (without the program name).
pub fn parse_args(raw: &Vec<String>) -> (a: Args)
    ensures
        a@ == args_from(strings(raw@), 0, default_args()),
{
    let ghost rs = strings(raw@);
    let mut a = Args {
        config_path: default_config_path(),
        combo_delay: None,
        key_hold_delay: None,
        debounce: None,
        pins: None,
        pulldown: false,
        use_i2c: false,
        dev: false,
        debug: false,
        unknown: Vec::new(),
    };
    assert(a@.unknown =~= Seq::<Seq<char>>::empty());
    assert(a@ == default_args());
    let mut i: usize = 0;
    while i < raw.len()
        invariant
            i <= raw@.len(),
            rs == strings(raw@),
            args_from(rs, i as int, a@) == args_from(rs, 0, default_args()),
        decreases raw@.len() - i,
    {
        let w = raw[i].as_str();
        assert(rs[i as int] == w@);
        let has_next = i + 1 < raw.len();
        if has_next {
            assert(rs[i + 1] == raw@[i + 1]@);
        }
        if str_eq(w, "--config") {
            if has_next {
                a.config_path = raw[i + 1].clone();
            }
            i = if has_next {
                i + 2
            } else {
                i + 1
            };
        } else if str_eq(w, "--combo_delay") {
            if has_next {
                a.combo_delay = crate::text::parse_u32_str(raw[i + 1].as_str());
            }
            i = if has_next {
                i + 2
            } else {
                i + 1
            };
        } else if str_eq(w, "--key_hold_delay") {
            if has_next {
                a.key_hold_delay = crate::text::parse_u32_str(raw[i + 1].as_str());
            }
            i = if has_next {
                i + 2
            } else {
                i + 1
            };
        } else if str_eq(w, "--debounce") {
            if has_next {
                a.debounce = crate::text::parse_u32_str(raw[i + 1].as_str());
            }
            i = if has_next {
                i + 2
            } else {
                i + 1
            };
        } else if str_eq(w, "--pins") {
            if has_next {
                a.pins = Some(raw[i + 1].clone());
            }
            i = if has_next {
                i + 2
            } else {
                i + 1
            };
        } else if str_eq(w, "--pulldown") {
            a.pulldown = true;
            i = i + 1;
        } else if str_eq(w, "--use_i2c") {
            a.use_i2c = true;
            i = i + 1;
        } else if str_eq(w, "--dev") {
            a.dev = true;
            i = i + 1;
        } else if str_eq(w, "--debug") {
            a.debug = true;
            i = i + 1;
        } else {
            let ghost before = a@;
            a.unknown.push(raw[i].clone());
            assert(a@.unknown =~= before.unknown.push(w@));
            i = i + 1;
        }
    }
    a
}

/// The configuration path of the configuration tool's command line: the
/// argument after `--config` or `-c`, or the text after `--config=`,
/// whichever comes first.
pub open spec fn config_arg_from(args: Seq<Seq<char>>, i: int) -> Option<Seq<char>>
    decreases args.len() - i,
{
    if i < 0 || i >= args.len() {
        None
    } else if args[i] == "--config"@ || args[i] == "-c"@ {
        if i + 1 < args.len() {
            Some(args[i + 1])
        } else {
            None
        }
    } else if starts_with(args[i], "--config="@) {
        Some(args[i].skip("--config="@.len() as int))
    } else {
        config_arg_from(args, i + 1)
    }
}

/// The configuration path given on the configuration tool's command line.
pub fn parse_config_arg(args: &Vec<String>) -> (r: Option<String>)
    ensures
        match r {
            Some(p) => config_arg_from(strings(args@), 0) == Some(p@),
            None => config_arg_from(strings(args@), 0) is None,
        },
{
    let ghost rs = strings(args@);
    let mut i: usize = 0;
    while i < args.len()
        invariant
            i <= args@.len(),
            rs == strings(args@),
            config_arg_from(rs, i as int) == config_arg_from(rs, 0),
        decreases args@.len() - i,
    {
        let w = args[i].as_str();
        assert(rs[i as int] == w@);
        if str_eq(w, "--config") || str_eq(w, "-c") {
            if i + 1 < args.len() {
                assert(rs[i + 1] == args@[i + 1]@);
                return Some(args[i + 1].clone());
            }
            return None;
        }
        let v = chars_of(w);
        assert(v@.subrange(0, v@.len() as int) =~= w@);
        if range_starts_with(&v, 0, v.len(), "--config=") {
            let n = "--config=".unicode_len();
            let p = string_of_range(&v, n, v.len());
            assert(p@ =~= w@.skip("--config="@.len() as int));
            return Some(p);
        }
        i = i + 1;
    }
    None
}

// ---------------------------------------------------------------------------
// Runtime settings
// ---------------------------------------------------------------------------

/// The settings the daemon runs with: the file's, overridden by arguments.
#[derive(Debug, Clone)]
pub struct RuntimeSettings {
    pub combo_delay: u32,
    pub key_hold_delay: u32,
    pub debounce: u32,
    pub pins: Vec<u8>,
    pub pulldown: bool,
    pub use_i2c: bool,
}

/// The runtime settings derived from a configuration and the arguments:
/// an argument wins over the file's value; `--pins` replaces the pin
/// setting before it is resolved; pull-down is on if either says so; I2C is
/// on when asked for or when any chip is configured.
pub open spec fn runtime_of(r: RuntimeSettings, cfg: GpioConfig, args: Args) -> bool {
    &&& r.combo_delay == match args.combo_delay {
        Some(v) => v,
        None => cfg.daemon.combo_delay,
    }
    &&& r.key_hold_delay == match args.key_hold_delay {
        Some(v) => v,
        None => cfg.daemon.key_hold_delay,
    }
    &&& r.debounce == match args.debounce {
        Some(v) => v,
        None => cfg.daemon.debounce,
    }
    &&& r.pins@ == effective_pins_spec(
        match args.pins {
            Some(p) => p@,
            None => cfg.daemon.pins@,
        },
    )
    &&& r.pulldown == (args.pulldown || cfg.daemon.pulldown)
    &&& r.use_i2c == (args.use_i2c || cfg.i2c.mcp23017@.len() > 0 || cfg.i2c.ads1115@.len() > 0
        || cfg.i2c.pcf8574@.len() > 0)
}

impl RuntimeSettings {
    /// An argument wins over the file's value; `--pins` replaces the pin
    /// setting before it is resolved; pull-down is on if either says so;
    /// I2C is on when asked for or when any chip is configured.
    pub fn from(cfg: &GpioConfig, args: &Args) -> (r: Self)
        ensures
            runtime_of(r, *cfg, *args),
    {
        let d = &cfg.daemon;
        let pins = match &args.pins {
            Some(p) => {
                let mut fake = d.clone();
                fake.pins = p.clone();
                effective_pins(&fake)
            },
            None => effective_pins(d),
        };
        RuntimeSettings {
            combo_delay: match args.combo_delay {
                Some(v) => v,
                None => d.combo_delay,
            },
            key_hold_delay: match args.key_hold_delay {
                Some(v) => v,
                None => d.key_hold_delay,
            },
            debounce: match args.debounce {
                Some(v) => v,
                None => d.debounce,
            },
            pins,
            pulldown: args.pulldown || d.pulldown,
            use_i2c: args.use_i2c || cfg.i2c.mcp23017.len() > 0 || cfg.i2c.ads1115.len() > 0
                || cfg.i2c.pcf8574.len() > 0,
        }
    }
}

/// The active pins that are the I2C bus lines (BOARD 3 and 5), in order.
pub open spec fn i2c_bus_pins(pins: Seq<u8>) -> Seq<u8>
    decreases pins.len(),
{
    if pins.len() == 0 {
        Seq::empty()
    } else {
        let prev = i2c_bus_pins(pins.drop_last());
        if pins.last() == 3 || pins.last() == 5 {
            prev.push(pins.last())
        } else {
            prev
        }
    }
}

/// The active pins to warn about: those on the I2C bus lines.
pub fn i2c_pin_warnings(pins: &Vec<u8>) -> (r: Vec<u8>)
    ensures
        r@ == i2c_bus_pins(pins@),
{
    let mut r: Vec<u8> = Vec::new();
    let mut i: usize = 0;
    while i < pins.len()
        invariant
            i <= pins@.len(),
            r@ == i2c_bus_pins(pins@.take(i as int)),
        decreases pins@.len() - i,
    {
        assert(pins@.take(i + 1).drop_last() =~= pins@.take(i as int));
        let p = pins[i];
        if p == 3 || p == 5 {
            r.push(p);
        }
        i = i + 1;
    }
    assert(pins@.take(i as int) =~= pins@);
    r
}

// ---------------------------------------------------------------------------
// I2C chips to start
// ---------------------------------------------------------------------------

/// A chip the daemon opens.
#[derive(Debug, Clone)]
pub struct ChipStart {
    pub kind: ChipType,
    pub bus: u8,
    pub address: u8,
    /// The address as written in the configuration.
    pub address_text: String,
    pub int_pin: Option<u8>,
}

pub open spec fn start_view(c: ChipStart) -> (ChipType, u8, u8, Seq<char>, Option<u8>) {
    (c.kind, c.bus, c.address, c.address_text@, c.int_pin)
}

/// Chips of one list whose address parses, in order: `(bus, address text,
/// interrupt pin text)` triples become starts of `kind`.
pub open spec fn starts_of(kind: ChipType, entries: Seq<(u8, Seq<char>, Seq<char>)>) -> Seq<(ChipType, u8, u8, Seq<char>, Option<u8>)>
    decreases entries.len(),
{
    if entries.len() == 0 {
        Seq::empty()
    } else {
        let prev = starts_of(kind, entries.drop_last());
        let (bus, addr, int_pin) = entries.last();
        match hex_addr_spec(addr) {
            Some(a) => prev.push(
                (kind, bus, a, addr, if kind == ChipType::Ads1115 {
                    None
                } else {
                    int_pin_spec(int_pin)
                }),
            ),
            None => prev,
        }
    }
}

/// The chips the daemon starts: MCP23017s, then PCF8574s, then ADS1115s,
/// skipping those whose address does not parse.
pub open spec fn i2c_starts_spec(cfg: GpioConfig) -> Seq<(ChipType, u8, u8, Seq<char>, Option<u8>)> {
    starts_of(
        ChipType::Mcp23017,
        cfg.i2c.mcp23017@.map_values(
            |e: crate::config::Mcp23017Entry| (e.bus, e.address@, e.int_pin@),
        ),
    ) + starts_of(
        ChipType::Pcf8574,
        cfg.i2c.pcf8574@.map_values(
            |e: crate::config::Pcf8574Entry| (e.bus, e.address@, e.int_pin@),
        ),
    ) + starts_of(
        ChipType::Ads1115,
        cfg.i2c.ads1115@.map_values(|e: crate::config::Ads1115Entry| (e.bus, e.address@, Seq::empty())),
    )
}

fn push_start(out: &mut Vec<ChipStart>, kind: ChipType, bus: u8, address: &String, int_pin: &String)
    ensures
        final(out)@.map_values(|c: ChipStart| start_view(c)) == old(out)@.map_values(
            |c: ChipStart| start_view(c),
        ) + starts_of(kind, seq![(bus, address@, int_pin@)]),
{
    let ghost one = seq![(bus, address@, int_pin@)];
    assert(one.drop_last() =~= Seq::<(u8, Seq<char>, Seq<char>)>::empty());
    assert(one.last() == (bus, address@, int_pin@));
    let ghost before = out@.map_values(|c: ChipStart| start_view(c));
    assert(starts_of(kind, Seq::<(u8, Seq<char>, Seq<char>)>::empty()) == Seq::<(ChipType, u8, u8, Seq<char>, Option<u8>)>::empty());
    match parse_hex_addr(address.as_str()) {
        Some(a) => {
            let ip = match kind {
                ChipType::Ads1115 => None,
                _ => parse_int_pin(int_pin.as_str()),
            };
            assert(starts_of(kind, one) =~= seq![(kind, bus, a, address@, ip)]);
            out.push(ChipStart { kind, bus, address: a, address_text: address.clone(), int_pin: ip });
            assert(out@.map_values(|c: ChipStart| start_view(c)) =~= before + starts_of(kind, one));
        },
        None => {
            assert(starts_of(kind, one) =~= Seq::<(ChipType, u8, u8, Seq<char>, Option<u8>)>::empty());
            assert(out@.map_values(|c: ChipStart| start_view(c)) =~= before + starts_of(kind, one));
        },
    }
}

proof fn lemma_starts_append(kind: ChipType, a: Seq<(u8, Seq<char>, Seq<char>)>, e: (u8, Seq<char>, Seq<char>))
    ensures
        starts_of(kind, a.push(e)) == starts_of(kind, a) + starts_of(kind, seq![e]),
{
    assert(a.push(e).drop_last() =~= a);
    assert(seq![e].drop_last() =~= Seq::<(u8, Seq<char>, Seq<char>)>::empty());
    assert(starts_of(kind, Seq::<(u8, Seq<char>, Seq<char>)>::empty()) =~= Seq::empty());
    let (bus, addr, ip) = e;
    match hex_addr_spec(addr) {
        Some(x) => {
            assert(Seq::<(ChipType, u8, u8, Seq<char>, Option<u8>)>::empty().push(
                (kind, bus, x, addr, if kind == ChipType::Ads1115 {
                    None
                } else {
                    int_pin_spec(ip)
                }),
            ) =~= seq![
                (kind, bus, x, addr, if kind == ChipType::Ads1115 {
                    None
                } else {
                    int_pin_spec(ip)
                }),
            ]);
            assert(starts_of(kind, a).push(
                (kind, bus, x, addr, if kind == ChipType::Ads1115 {
                    None
                } else {
                    int_pin_spec(ip)
                }),
            ) =~= starts_of(kind, a) + starts_of(kind, seq![e]));
        },
        None => {
            assert(starts_of(kind, a) =~= starts_of(kind, a) + starts_of(kind, seq![e]));
        },
    }
}

/// The I2C chips to start, in the order the daemon starts them.
pub fn i2c_start_plan(cfg: &GpioConfig) -> (r: Vec<ChipStart>)
    ensures
        r@.map_values(|c: ChipStart| start_view(c)) == i2c_starts_spec(*cfg),
{
    let mut out: Vec<ChipStart> = Vec::new();
    let ghost m = cfg.i2c.mcp23017@.map_values(
        |e: crate::config::Mcp23017Entry| (e.bus, e.address@, e.int_pin@),
    );
    let ghost p = cfg.i2c.pcf8574@.map_values(
        |e: crate::config::Pcf8574Entry| (e.bus, e.address@, e.int_pin@),
    );
    let ghost a = cfg.i2c.ads1115@.map_values(
        |e: crate::config::Ads1115Entry| (e.bus, e.address@, Seq::<char>::empty()),
    );
    let empty = String::new();
    let mut i: usize = 0;
    assert(m.take(0) =~= Seq::<(u8, Seq<char>, Seq<char>)>::empty());
    assert(out@.map_values(|c: ChipStart| start_view(c)) =~= starts_of(ChipType::Mcp23017, m.take(0)));
    while i < cfg.i2c.mcp23017.len()
        invariant
            i <= cfg.i2c.mcp23017@.len(),
            m == cfg.i2c.mcp23017@.map_values(
                |e: crate::config::Mcp23017Entry| (e.bus, e.address@, e.int_pin@),
            ),
            out@.map_values(|c: ChipStart| start_view(c)) == starts_of(ChipType::Mcp23017, m.take(i as int)),
        decreases cfg.i2c.mcp23017@.len() - i,
    {
        let e = &cfg.i2c.mcp23017[i];
        assert(m.take(i + 1) =~= m.take(i as int).push(m[i as int]));
        proof {
            lemma_starts_append(ChipType::Mcp23017, m.take(i as int), m[i as int]);
        }
        push_start(&mut out, ChipType::Mcp23017, e.bus, &e.address, &e.int_pin);
        i = i + 1;
    }
    assert(m.take(i as int) =~= m);
    let ghost base = out@.map_values(|c: ChipStart| start_view(c));
    let mut i: usize = 0;
    assert(p.take(0) =~= Seq::<(u8, Seq<char>, Seq<char>)>::empty());
    assert(base =~= base + starts_of(ChipType::Pcf8574, p.take(0)));
    while i < cfg.i2c.pcf8574.len()
        invariant
            i <= cfg.i2c.pcf8574@.len(),
            p == cfg.i2c.pcf8574@.map_values(
                |e: crate::config::Pcf8574Entry| (e.bus, e.address@, e.int_pin@),
            ),
            out@.map_values(|c: ChipStart| start_view(c)) == base + starts_of(ChipType::Pcf8574, p.take(i as int)),
        decreases cfg.i2c.pcf8574@.len() - i,
    {
        let e = &cfg.i2c.pcf8574[i];
        assert(p.take(i + 1) =~= p.take(i as int).push(p[i as int]));
        proof {
            lemma_starts_append(ChipType::Pcf8574, p.take(i as int), p[i as int]);
        }
        push_start(&mut out, ChipType::Pcf8574, e.bus, &e.address, &e.int_pin);
        i = i + 1;
    }
    assert(p.take(i as int) =~= p);
    let ghost base2 = out@.map_values(|c: ChipStart| start_view(c));
    let mut i: usize = 0;
    assert(a.take(0) =~= Seq::<(u8, Seq<char>, Seq<char>)>::empty());
    assert(base2 =~= base2 + starts_of(ChipType::Ads1115, a.take(0)));
    while i < cfg.i2c.ads1115.len()
        invariant
            i <= cfg.i2c.ads1115@.len(),
            empty@.len() == 0,
            a == cfg.i2c.ads1115@.map_values(
                |e: crate::config::Ads1115Entry| (e.bus, e.address@, Seq::<char>::empty()),
            ),
            out@.map_values(|c: ChipStart| start_view(c)) == base2 + starts_of(ChipType::Ads1115, a.take(i as int)),
        decreases cfg.i2c.ads1115@.len() - i,
    {
        let e = &cfg.i2c.ads1115[i];
        assert(a.take(i + 1) =~= a.take(i as int).push(a[i as int]));
        assert(a[i as int] == (e.bus, e.address@, empty@));
        proof {
            lemma_starts_append(ChipType::Ads1115, a.take(i as int), a[i as int]);
        }
        push_start(&mut out, ChipType::Ads1115, e.bus, &e.address, &empty);
        i = i + 1;
    }
    assert(a.take(i as int) =~= a);
    out
}

// ---------------------------------------------------------------------------
// Control socket
// ---------------------------------------------------------------------------

/// A request on the daemon's control socket.
#[derive(Debug, Clone)]
pub enum DaemonCmd {
    Reload,
    Stop,
    Status,
    SetComboDelay(u32),
    SetDebounce(u32),
    SetPins(Vec<u8>),
    UseI2c(bool),
}

/// What a control request makes the daemon do, besides the answer.
#[derive(Debug, Clone)]
pub struct CommandOutcome {
    /// The JSON answer; `None` for a reload, answered by `finish_reload`
    /// once the file has been read.
    pub response: Option<String>,
    /// Write the configuration file.
    pub save_config: bool,
    /// Restart the GPIO / uinput / I2C core with the runtime settings.
    pub restart: bool,
    /// Leave the main loop.
    pub stop: bool,
    /// Read the configuration file again.
    pub reload: bool,
    /// A line for the log.
    pub log: Option<String>,
}

/// `{"ok":true,"version":"...","uptime_s":...}`.
pub open spec fn status_json(version: Seq<char>, uptime_s: nat) -> Seq<char> {
    "{\"ok\":true,\"version\":\""@ + version + "\",\"uptime_s\":"@ + dec_chars(uptime_s) + "}"@
}

/// The answer to a status request.
pub fn status_response(version: &str, uptime_s: u64) -> (s: String)
    ensures
        s@ == status_json(version@, uptime_s as nat),
{
    let mut s = string_of("{\"ok\":true,\"version\":\"");
    push_str(&mut s, version);
    push_str(&mut s, "\",\"uptime_s\":");
    push_decimal(&mut s, uptime_s as u64);
    push_str(&mut s, "}");
    s
}

/// `{"ok":true,"msg":"..."}`.
pub open spec fn ok_json(msg: Seq<char>) -> Seq<char> {
    "{\"ok\":true,\"msg\":\""@ + msg + "\"}"@
}

fn ok_response(msg: &str) -> (s: String)
    ensures
        s@ == ok_json(msg@),
{
    let mut s = string_of("{\"ok\":true,\"msg\":\"");
    push_str(&mut s, msg);
    push_str(&mut s, "\"}");
    s
}

/// Pins joined by commas without spaces.
pub open spec fn pins_csv(pins: Seq<u8>) -> Seq<char>
    decreases pins.len(),
{
    if pins.len() == 0 {
        Seq::empty()
    } else if pins.len() == 1 {
        dec_chars(pins[0] as nat)
    } else {
        pins_csv(pins.drop_last()) + seq![','] + dec_chars(pins.last() as nat)
    }
}

fn csv_of(pins: &Vec<u8>) -> (s: String)
    ensures
        s@ == pins_csv(pins@),
{
    let mut s = String::new();
    let mut i: usize = 0;
    assert(pins@.take(0) =~= Seq::<u8>::empty());
    while i < pins.len()
        invariant
            i <= pins@.len(),
            s@ == pins_csv(pins@.take(i as int)),
        decreases pins@.len() - i,
    {
        assert(pins@.take(i + 1).drop_last() =~= pins@.take(i as int));
        let ghost before = s@;
        if i > 0 {
            push_char(&mut s, ',');
        }
        push_decimal(&mut s, pins[i] as u64);
        if i == 0 {
            assert(s@ =~= pins_csv(pins@.take(1)));
        } else {
            assert(s@ =~= pins_csv(pins@.take(i + 1)));
        }
        i = i + 1;
    }
    assert(pins@.take(i as int) =~= pins@);
    s
}

pub open spec fn bool_word(b: bool) -> Seq<char> {
    if b {
        "true"@
    } else {
        "false"@
    }
}

/// Carries out a control request on the runtime settings and configuration.
/// Stop answers `Stopping` and leaves the loop; status answers with the
/// version and uptime; the setters change the runtime value (the delay and
/// pin setters also the file's, which is saved) and restart the core;
/// reload only asks for the file to be read (see `finish_reload`).
pub fn apply_command(cmd: DaemonCmd, rt: &mut RuntimeSettings, cfg: &mut GpioConfig, version: &str, uptime_s: u64) -> (o: CommandOutcome)
    ensures
        o.stop == cmd is Stop,
        o.reload == cmd is Reload,
        o.save_config == (cmd is SetComboDelay || cmd is SetDebounce || cmd is SetPins),
        o.restart == (cmd is SetComboDelay || cmd is SetDebounce || cmd is SetPins || cmd is UseI2c),
        !(cmd is SetComboDelay) ==> final(rt).combo_delay == old(rt).combo_delay
            && final(cfg).daemon.combo_delay == old(cfg).daemon.combo_delay,
        !(cmd is SetDebounce) ==> final(rt).debounce == old(rt).debounce
            && final(cfg).daemon.debounce == old(cfg).daemon.debounce,
        !(cmd is SetPins) ==> final(rt).pins@ == old(rt).pins@ && final(cfg).daemon.pins@
            == old(cfg).daemon.pins@,
        !(cmd is UseI2c) ==> final(rt).use_i2c == old(rt).use_i2c,
        final(rt).key_hold_delay == old(rt).key_hold_delay,
        final(rt).pulldown == old(rt).pulldown,
        final(cfg).version == old(cfg).version,
        final(cfg).devices == old(cfg).devices,
        final(cfg).i2c == old(cfg).i2c,
        final(cfg).daemon.key_hold_delay == old(cfg).daemon.key_hold_delay,
        final(cfg).daemon.pulldown == old(cfg).daemon.pulldown,
        final(cfg).daemon.dev == old(cfg).daemon.dev,
        final(cfg).daemon.debug == old(cfg).daemon.debug,
        cmd is Reload ==> o.reload && o.response is None && !o.restart && !o.save_config && !o.stop
            && *final(cfg) == *old(cfg),
        cmd is Stop ==> o.stop && (o.response matches Some(r) && r@ == ok_json("Stopping"@))
            && !o.restart && *final(cfg) == *old(cfg),
        cmd is Status ==> !o.stop && !o.restart && (o.response matches Some(r) && r@ == status_json(
            version@,
            uptime_s as nat,
        )) && *final(cfg) == *old(cfg),
        cmd matches DaemonCmd::SetComboDelay(ms) ==> final(rt).combo_delay == ms
            && final(cfg).daemon.combo_delay == ms && o.save_config && o.restart && (
        o.response matches Some(r) && r@ == ok_json("combo_delay="@ + dec_chars(ms as nat) + "ms"@))
            && (o.log matches Some(l) && l@ == "combo_delay set to "@ + dec_chars(ms as nat) + "ms"@),
        cmd matches DaemonCmd::SetDebounce(ms) ==> final(rt).debounce == ms
            && final(cfg).daemon.debounce == ms && o.save_config && o.restart && (
        o.response matches Some(r) && r@ == ok_json("debounce="@ + dec_chars(ms as nat) + "ms"@))
            && (o.log matches Some(l) && l@ == "debounce set to "@ + dec_chars(ms as nat) + "ms"@),
        cmd matches DaemonCmd::SetPins(p) ==> final(rt).pins@ == p@ && final(cfg).daemon.pins@
            == pins_csv(p@) && o.save_config && o.restart && (o.response matches Some(r) && r@
            == ok_json("pins=["@ + pins_csv(p@) + "]"@)) && (o.log matches Some(l) && l@
            == "pins set to ["@ + pins_csv(p@) + "]"@),
        cmd matches DaemonCmd::UseI2c(b) ==> final(rt).use_i2c == b && !o.save_config && o.restart
            && (o.response matches Some(r) && r@ == ok_json("use_i2c="@ + bool_word(b))) && (
        o.log matches Some(l) && l@ == "use_i2c="@ + bool_word(b)) && *final(cfg) == *old(cfg),
{
    match cmd {
        DaemonCmd::Reload => CommandOutcome {
            response: None,
            save_config: false,
            restart: false,
            stop: false,
            reload: true,
            log: None,
        },
        DaemonCmd::Stop => CommandOutcome {
            response: Some(ok_response("Stopping")),
            save_config: false,
            restart: false,
            stop: true,
            reload: false,
            log: None,
        },
        DaemonCmd::Status => CommandOutcome {
            response: Some(status_response(version, uptime_s)),
            save_config: false,
            restart: false,
            stop: false,
            reload: false,
            log: None,
        },
        DaemonCmd::SetComboDelay(ms) => {
            rt.combo_delay = ms;
            cfg.daemon.combo_delay = ms;
            let mut m = string_of("combo_delay=");
            push_decimal(&mut m, ms as u64);
            push_str(&mut m, "ms");
            let mut l = string_of("combo_delay set to ");
            push_decimal(&mut l, ms as u64);
            push_str(&mut l, "ms");
            CommandOutcome {
                response: Some(ok_response(m.as_str())),
                save_config: true,
                restart: true,
                stop: false,
                reload: false,
                log: Some(l),
            }
        },
        DaemonCmd::SetDebounce(ms) => {
            rt.debounce = ms;
            cfg.daemon.debounce = ms;
            let mut m = string_of("debounce=");
            push_decimal(&mut m, ms as u64);
            push_str(&mut m, "ms");
            let mut l = string_of("debounce set to ");
            push_decimal(&mut l, ms as u64);
            push_str(&mut l, "ms");
            CommandOutcome {
                response: Some(ok_response(m.as_str())),
                save_config: true,
                restart: true,
                stop: false,
                reload: false,
                log: Some(l),
            }
        },
        DaemonCmd::SetPins(pins) => {
            let csv = csv_of(&pins);
            rt.pins = pins;
            cfg.daemon.pins = csv.clone();
            let mut m = string_of("pins=[");
            push_str(&mut m, csv.as_str());
            push_str(&mut m, "]");
            let mut l = string_of("pins set to [");
            push_str(&mut l, csv.as_str());
            push_str(&mut l, "]");
            CommandOutcome {
                response: Some(ok_response(m.as_str())),
                save_config: true,
                restart: true,
                stop: false,
                reload: false,
                log: Some(l),
            }
        },
        DaemonCmd::UseI2c(b) => {
            rt.use_i2c = b;
            let mut m = string_of("use_i2c=");
            push_str(&mut m, if b {
                "true"
            } else {
                "false"
            });
            CommandOutcome {
                response: Some(ok_response(m.as_str())),
                save_config: false,
                restart: true,
                stop: false,
                reload: false,
                log: Some(m),
            }
        },
    }
}

/// `{"ok":false,"msg":"load error: ..."}`.
pub open spec fn load_error_json(e: Seq<char>) -> Seq<char> {
    "{\"ok\":false,\"msg\":\"load error: "@ + e + "\"}"@
}

/// Ends a reload request: a configuration read from the file replaces the
/// current one, the runtime settings are derived again and the core
/// restarts; a read error is answered and changes nothing.
pub fn finish_reload(loaded: Result<GpioConfig, String>, args: &Args, rt: &mut RuntimeSettings, cfg: &mut GpioConfig) -> (o: CommandOutcome)
    ensures
        !o.stop && !o.save_config && !o.reload,
        loaded is Err ==> *final(rt) == *old(rt),
        loaded matches Ok(c) ==> runtime_of(*final(rt), c, *args),
        loaded matches Err(e) ==> !o.restart && *final(cfg) == *old(cfg) && (o.response matches Some(
            r,
        ) && r@ == load_error_json(e@)),
        loaded matches Ok(c) ==> o.restart && *final(cfg) == c && (o.response matches Some(r) && r@
            == ok_json("Config reloaded"@)) && (o.log matches Some(l) && l@ == "Reloaded via IPC"@),
        loaded is Err ==> o.log is None,
{
    match loaded {
        Err(e) => {
            let mut s = string_of("{\"ok\":false,\"msg\":\"load error: ");
            push_str(&mut s, e.as_str());
            push_str(&mut s, "\"}");
            CommandOutcome {
                response: Some(s),
                save_config: false,
                restart: false,
                stop: false,
                reload: false,
                log: None,
            }
        },
        Ok(c) => {
            *cfg = c;
            *rt = RuntimeSettings::from(cfg, args);
            CommandOutcome {
                response: Some(ok_response("Config reloaded")),
                save_config: false,
                restart: true,
                stop: false,
                reload: false,
                log: Some(string_of("Reloaded via IPC")),
            }
        },
    }
}

} // verus!
