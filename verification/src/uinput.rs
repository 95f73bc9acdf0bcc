//! What the virtual input devices are told: the identity and capabilities a
//! joypad or the keyboard is created with, the evdev events a press or a
//! release sends, and the press/release bookkeeping of a peripheral.

use vstd::prelude::*;
use crate::peripheral::{EventType, EventTypeView, Peripheral};
use crate::text::{
    chars_of, dec_chars, push_decimal, string_of, string_of_range, trim, trim_range,
    CharClass,
};

verus! {

pub const EV_SYN: u16 = 0x00;
pub const EV_KEY: u16 = 0x01;
pub const EV_ABS: u16 = 0x03;
pub const EV_REP: u16 = 0x14;
pub const SYN_REPORT: u16 = 0;

/// One evdev event as written to a uinput device.
#[derive(Debug, Clone, Copy, PartialEq, Eq)]
pub struct InputEvent {
    pub kind: u16,
    pub code: u16,
    pub value: i32,
}

pub open spec fn ev(kind: u16, code: u16, value: i32) -> InputEvent {
    InputEvent { kind, code, value }
}

/// The report that closes a batch of events.
pub open spec fn syn() -> InputEvent {
    ev(EV_SYN, SYN_REPORT, 0)
}

/// The events a press sends: the key or axis event, then a report; a shell
/// command sends none. Codes and types are taken modulo 2^16.
pub open spec fn press_events_spec(e: EventTypeView) -> Seq<InputEvent> {
    match e {
        EventTypeView::Button(c) => seq![ev(EV_KEY, c as u16, 1), syn()],
        EventTypeView::Key(c) => seq![ev(EV_KEY, c as u16, 1), syn()],
        EventTypeView::Axis(t, c, v) => seq![ev(t as u16, c as u16, v), syn()],
        EventTypeView::Command(_) => Seq::empty(),
    }
}

/// The events a release sends: value 0 for the same key or axis, then a
/// report; a shell command sends none.
pub open spec fn release_events_spec(e: EventTypeView) -> Seq<InputEvent> {
    match e {
        EventTypeView::Button(c) => seq![ev(EV_KEY, c as u16, 0), syn()],
        EventTypeView::Key(c) => seq![ev(EV_KEY, c as u16, 0), syn()],
        EventTypeView::Axis(t, c, _) => seq![ev(t as u16, c as u16, 0), syn()],
        EventTypeView::Command(_) => Seq::empty(),
    }
}

fn sync_event() -> (e: InputEvent)
    ensures
        e == syn(),
{
    InputEvent { kind: EV_SYN, code: SYN_REPORT, value: 0 }
}

fn pair(first: InputEvent) -> (r: Vec<InputEvent>)
    ensures
        r@ == seq![first, syn()],
{
    let mut r: Vec<InputEvent> = Vec::new();
    r.push(first);
    r.push(sync_event());
    assert(r@ =~= seq![first, syn()]);
    r
}

/// The events that a press of a peripheral with this event sends.
pub fn press_events(e: &EventType) -> (r: Vec<InputEvent>)
    ensures
        r@ == press_events_spec(e@),
{
    match e {
        EventType::Button { evdev_code } => pair(
            InputEvent { kind: EV_KEY, code: *evdev_code as u16, value: 1 },
        ),
        EventType::Key { evdev_code } => pair(
            InputEvent { kind: EV_KEY, code: *evdev_code as u16, value: 1 },
        ),
        EventType::Axis { evdev_type, evdev_code, press_value } => pair(
            InputEvent { kind: *evdev_type as u16, code: *evdev_code as u16, value: *press_value },
        ),
        EventType::Command { .. } => {
            let r: Vec<InputEvent> = Vec::new();
            assert(r@ =~= Seq::<InputEvent>::empty());
            r
        },
    }
}

/// The events that a release of a peripheral with this event sends.
pub fn release_events(e: &EventType) -> (r: Vec<InputEvent>)
    ensures
        r@ == release_events_spec(e@),
{
    match e {
        EventType::Button { evdev_code } => pair(
            InputEvent { kind: EV_KEY, code: *evdev_code as u16, value: 0 },
        ),
        EventType::Key { evdev_code } => pair(
            InputEvent { kind: EV_KEY, code: *evdev_code as u16, value: 0 },
        ),
        EventType::Axis { evdev_type, evdev_code, .. } => pair(
            InputEvent { kind: *evdev_type as u16, code: *evdev_code as u16, value: 0 },
        ),
        EventType::Command { .. } => {
            let r: Vec<InputEvent> = Vec::new();
            assert(r@ =~= Seq::<InputEvent>::empty());
            r
        },
    }
}

/// The events of one auto-repeat tick of a held key: value 2, then a report.
pub fn repeat_events(evdev_code: u32) -> (r: Vec<InputEvent>)
    ensures
        r@ == seq![ev(EV_KEY, evdev_code as u16, 2), syn()],
{
    pair(InputEvent { kind: EV_KEY, code: evdev_code as u16, value: 2 })
}

// ---------------------------------------------------------------------------
// Shell commands
// ---------------------------------------------------------------------------

/// The separator between the shell commands of one mapping.
pub open spec fn bars() -> Seq<char> {
    seq!['|', '|', '|']
}

pub open spec fn bars_at(s: Seq<char>, i: int) -> bool {
    0 <= i && i + 3 <= s.len() && s.subrange(i, i + 3) == bars()
}

/// `str::split("|||")` from piece start `start`, scanning from `i`: the
/// pieces between the leftmost non-overlapping separators.
pub open spec fn split_bars_from(s: Seq<char>, start: int, i: int) -> Seq<Seq<char>>
    recommends
        0 <= start <= i <= s.len(),
    decreases s.len() - i,
{
    if i < 0 || i + 3 > s.len() {
        seq![s.subrange(start, s.len() as int)]
    } else if bars_at(s, i) {
        seq![s.subrange(start, i)] + split_bars_from(s, i + 3, i + 3)
    } else {
        split_bars_from(s, start, i + 1)
    }
}

/// Each piece trimmed, the empty ones dropped, in order.
pub open spec fn trimmed_nonempty(ps: Seq<Seq<char>>) -> Seq<Seq<char>>
    decreases ps.len(),
{
    if ps.len() == 0 {
        Seq::empty()
    } else {
        let t = trim(ps[0]);
        let rest = trimmed_nonempty(ps.drop_first());
        if t.len() > 0 {
            seq![t] + rest
        } else {
            rest
        }
    }
}

/// The shell commands of a `"cmd1 ||| cmd2"` mapping, each run on its own.
pub open spec fn command_parts_spec(s: Seq<char>) -> Seq<Seq<char>> {
    trimmed_nonempty(split_bars_from(s, 0, 0))
}

fn bars_at_exec(v: &Vec<char>, i: usize) -> (r: bool)
    requires
        i + 3 <= v.len(),
    ensures
        r == bars_at(v@, i as int),
{
    let r = v[i] == '|' && v[i + 1] == '|' && v[i + 2] == '|';
    assert(r == (v@.subrange(i as int, i + 3) =~= bars()));
    r
}

fn push_trimmed(out: &mut Vec<String>, v: &Vec<char>, lo: usize, hi: usize)
    requires
        lo <= hi <= v@.len(),
    ensures
        final(out)@.map_values(|p: String| p@) == old(out)@.map_values(|p: String| p@)
            + trimmed_nonempty(seq![v@.subrange(lo as int, hi as int)]),
{
    let ghost piece = v@.subrange(lo as int, hi as int);
    let ghost before = out@;
    assert(seq![piece].drop_first() =~= Seq::<Seq<char>>::empty());
    assert(trimmed_nonempty(Seq::<Seq<char>>::empty()) == Seq::<Seq<char>>::empty());
    assert(seq![piece][0] == piece);
    let (a, b) = trim_range(v, lo, hi, CharClass::Whitespace);
    assert(trim(piece) == v@.subrange(a as int, b as int));
    if a < b {
        assert(trimmed_nonempty(seq![piece]) =~= seq![trim(piece)]);
        out.push(string_of_range(v, a, b));
        assert(out@.map_values(|p: String| p@) =~= before.map_values(|p: String| p@) + seq![
            trim(piece),
        ]);
    } else {
        assert(trimmed_nonempty(seq![piece]) =~= Seq::<Seq<char>>::empty());
        assert(out@.map_values(|p: String| p@) =~= before.map_values(|p: String| p@) + Seq::<
            Seq<char>,
        >::empty());
    }
}

proof fn lemma_trimmed_append(a: Seq<Seq<char>>, b: Seq<Seq<char>>)
    ensures
        trimmed_nonempty(a + b) == trimmed_nonempty(a) + trimmed_nonempty(b),
    decreases a.len(),
{
    if a.len() == 0 {
        assert(a + b =~= b);
        assert(trimmed_nonempty(a) =~= Seq::<Seq<char>>::empty());
        assert(Seq::<Seq<char>>::empty() + trimmed_nonempty(b) =~= trimmed_nonempty(b));
    } else {
        assert((a + b).drop_first() =~= a.drop_first() + b);
        assert((a + b)[0] == a[0]);
        lemma_trimmed_append(a.drop_first(), b);
        let t = trim(a[0]);
        if t.len() > 0 {
            assert(seq![t] + (trimmed_nonempty(a.drop_first()) + trimmed_nonempty(b)) =~= (seq![t]
                + trimmed_nonempty(a.drop_first())) + trimmed_nonempty(b));
        }
    }
}

/// The shell commands of a mapping: split on `"|||"`, each trimmed, the
/// empty ones dropped.
pub fn command_parts(cmd: &str) -> (r: Vec<String>)
    ensures
        r@.map_values(|p: String| p@) == command_parts_spec(cmd@),
{
    let v = chars_of(cmd);
    let n = v.len();
    let mut out: Vec<String> = Vec::new();
    let mut start: usize = 0;
    let mut i: usize = 0;
    assert(out@.map_values(|p: String| p@) =~= Seq::<Seq<char>>::empty());
    assert(Seq::<Seq<char>>::empty() + command_parts_spec(v@) =~= command_parts_spec(v@));
    while n - i >= 3
        invariant
            n == v@.len(),
            v@ == cmd@,
            start <= i <= n,
            out@.map_values(|p: String| p@) + trimmed_nonempty(
                split_bars_from(v@, start as int, i as int),
            ) == command_parts_spec(v@),
        decreases n - i,
    {
        if bars_at_exec(&v, i) {
            let ghost before = out@.map_values(|p: String| p@);
            let ghost rest = split_bars_from(v@, i + 3, i + 3);
            let ghost piece = v@.subrange(start as int, i as int);
            proof {
                lemma_trimmed_append(seq![piece], rest);
            }
            push_trimmed(&mut out, &v, start, i);
            assert(out@.map_values(|p: String| p@) + trimmed_nonempty(rest) =~= before
                + trimmed_nonempty(split_bars_from(v@, start as int, i as int)));
            start = i + 3;
            i = i + 3;
        } else {
            i = i + 1;
        }
    }
    let ghost before = out@.map_values(|p: String| p@);
    assert(split_bars_from(v@, start as int, i as int) == seq![
        v@.subrange(start as int, n as int),
    ]);
    push_trimmed(&mut out, &v, start, n);
    assert(out@.map_values(|p: String| p@) =~= before + trimmed_nonempty(
        split_bars_from(v@, start as int, i as int),
    ));
    out
}

// ---------------------------------------------------------------------------
// Press and release bookkeeping
// ---------------------------------------------------------------------------

/// What follows the events of a press.
#[derive(Debug, Clone)]
pub enum FollowUp {
    /// Nothing: the peripheral was already pressed.
    Nothing,
    /// Block until the peripheral is released (buttons and axes).
    AwaitRelease,
    /// Start the auto-repeat of a held key with this code.
    Repeat(u32),
    /// Run each shell command, in order (the peripheral is released at once).
    RunCommands(Vec<String>),
}

/// Everything a press does: events to send, then a follow-up.
#[derive(Debug, Clone)]
pub struct PressPlan {
    pub send: Vec<InputEvent>,
    pub follow_up: FollowUp,
}

/// A press of a peripheral whose pressed flag is `pressed`. An already
/// pressed peripheral does nothing. Otherwise the flag is set (a shell
/// command clears it again at once), the press events go out, and the
/// follow-up says what comes next.
pub fn dispatch_press(pressed: &mut bool, event: &EventType) -> (plan: PressPlan)
    ensures
        *old(pressed) ==> *final(pressed) && plan.send@.len() == 0
            && plan.follow_up is Nothing,
        !*old(pressed) ==> {
            &&& *final(pressed) == !(event is Command)
            &&& plan.send@ == press_events_spec(event@)
            &&& match event@ {
                EventTypeView::Button(_) => plan.follow_up is AwaitRelease,
                EventTypeView::Axis(_, _, _) => plan.follow_up is AwaitRelease,
                EventTypeView::Key(c) => plan.follow_up == FollowUp::Repeat(c),
                EventTypeView::Command(b) => plan.follow_up matches FollowUp::RunCommands(parts)
                    && parts@.map_values(|p: String| p@) == command_parts_spec(b),
            }
        },
{
    if *pressed {
        return PressPlan { send: Vec::new(), follow_up: FollowUp::Nothing };
    }
    *pressed = true;
    let send = press_events(event);
    let follow_up = match event {
        EventType::Button { .. } => FollowUp::AwaitRelease,
        EventType::Axis { .. } => FollowUp::AwaitRelease,
        EventType::Key { evdev_code } => FollowUp::Repeat(*evdev_code),
        EventType::Command { bash } => {
            *pressed = false;
            FollowUp::RunCommands(command_parts(bash.as_str()))
        },
    };
    PressPlan { send, follow_up }
}

/// A release of a peripheral whose pressed flag is `pressed`: a pressed
/// peripheral is released and sends its release events; otherwise nothing.
pub fn dispatch_release(pressed: &mut bool, event: &EventType) -> (r: Vec<InputEvent>)
    ensures
        !*final(pressed),
        *old(pressed) ==> r@ == release_events_spec(event@),
        !*old(pressed) ==> r@.len() == 0,
{
    if !*pressed {
        return Vec::new();
    }
    *pressed = false;
    release_events(event)
}

/// Whether the auto-repeat started at generation `started` goes on: no newer
/// press has begun and the key is still held.
pub fn hold_continues(generation: u64, started: u64, pressed: bool) -> (r: bool)
    ensures
        r == (generation == started && pressed),
{
    generation == started && pressed
}

/// The generation a new press starts (the counter wraps).
pub fn next_generation(generation: u64) -> (r: u64)
    ensures
        r == (if generation == u64::MAX {
            0
        } else {
            generation + 1
        }),
{
    generation.wrapping_add(1)
}

// ---------------------------------------------------------------------------
// Device setup
// ---------------------------------------------------------------------------

/// How a virtual device introduces itself.
#[derive(Debug, Clone)]
pub struct DeviceIdentity {
    pub bustype: u16,
    pub vendor: u16,
    pub product: u16,
    pub version: u16,
    pub name: String,
}

pub open spec fn joypad_name(index: nat) -> Seq<char> {
    "GPIOnext Joypad "@ + dec_chars(index + 1)
}

/// Joypad `index` (0-3 in use): USB bus, vendor 0x9999, product 0x8888,
/// version 1, named `"GPIOnext Joypad {index + 1}"`.
pub fn joypad_identity(index: usize) -> (d: DeviceIdentity)
    requires
        index < usize::MAX,
    ensures
        d.bustype == 3,
        d.vendor == 0x9999,
        d.product == 0x8888,
        d.version == 1,
        d.name@ == joypad_name(index as nat),
{
    let mut name = string_of("GPIOnext Joypad ");
    push_decimal(&mut name, (index + 1) as u64);
    DeviceIdentity { bustype: 0x0003, vendor: 0x9999, product: 0x8888, version: 1, name }
}

/// The keyboard: USB bus, vendor 1, product 1, version 1, `"GPIOnext Keyboard"`.
pub fn keyboard_identity() -> (d: DeviceIdentity)
    ensures
        d.bustype == 3,
        d.vendor == 1,
        d.product == 1,
        d.version == 1,
        d.name@ == "GPIOnext Keyboard"@,
{
    DeviceIdentity {
        bustype: 0x0003,
        vendor: 0x0001,
        product: 0x0001,
        version: 1,
        name: string_of("GPIOnext Keyboard"),
    }
}

/// The 80-byte name field of the setup record: the name's bytes, at most 79
/// of them, then zeros.
pub fn name_field(name: &[u8]) -> (r: Vec<u8>)
    ensures
        r@.len() == 80,
        forall|i: int|
            0 <= i < 80 ==> #[trigger] r@[i] == if i < name@.len() && i < 79 {
                name@[i]
            } else {
                0u8
            },
{
    let mut r: Vec<u8> = Vec::new();
    let mut i: usize = 0;
    while i < 80
        invariant
            i <= 80,
            r@.len() == i,
            forall|j: int|
                0 <= j < i ==> #[trigger] r@[j] == if j < name@.len() && j < 79 {
                    name@[j]
                } else {
                    0u8
                },
        decreases 80 - i,
    {
        if i < name.len() && i < 79 {
            r.push(name[i]);
        } else {
            r.push(0);
        }
        i = i + 1;
    }
    r
}

/// Range and dead band of an absolute axis: -255..=255, flat 15.
#[derive(Debug, Clone, Copy)]
pub struct AbsAxisSetup {
    pub code: u16,
    pub value: i32,
    pub minimum: i32,
    pub maximum: i32,
    pub fuzz: i32,
    pub flat: i32,
    pub resolution: i32,
}

pub fn abs_axis_setup(code: u32) -> (s: AbsAxisSetup)
    ensures
        s.code == code as u16,
        s.value == 0,
        s.minimum == -255,
        s.maximum == 255,
        s.fuzz == 0,
        s.flat == 15,
        s.resolution == 0,
{
    AbsAxisSetup {
        code: code as u16,
        value: 0,
        minimum: -255,
        maximum: 255,
        fuzz: 0,
        flat: 15,
        resolution: 0,
    }
}

/// What a joypad is created with: the event types it reports, the key codes
/// and the absolute axes it declares.
#[derive(Debug, Clone)]
pub struct Capabilities {
    pub event_types: Vec<u16>,
    pub key_codes: Vec<u32>,
    pub abs_axes: Vec<AbsAxisSetup>,
}

/// Key codes a joypad declares: each button's code, and each axis whose
/// type is EV_KEY, in peripheral order.
pub open spec fn joypad_keys(ps: Seq<EventTypeView>) -> Seq<u32>
    decreases ps.len(),
{
    if ps.len() == 0 {
        Seq::empty()
    } else {
        let prev = joypad_keys(ps.drop_last());
        match ps.last() {
            EventTypeView::Button(c) => prev.push(c),
            EventTypeView::Axis(t, c, _) => if t == EV_KEY as u32 {
                prev.push(c)
            } else {
                prev
            },
            _ => prev,
        }
    }
}

/// Absolute axes a joypad declares: each axis whose type is EV_ABS.
pub open spec fn joypad_abs(ps: Seq<EventTypeView>) -> Seq<u32>
    decreases ps.len(),
{
    if ps.len() == 0 {
        Seq::empty()
    } else {
        let prev = joypad_abs(ps.drop_last());
        match ps.last() {
            EventTypeView::Axis(t, c, _) => if t == EV_ABS as u32 {
                prev.push(c)
            } else {
                prev
            },
            _ => prev,
        }
    }
}

/// Key codes the keyboard declares: each key's code.
pub open spec fn keyboard_keys(ps: Seq<EventTypeView>) -> Seq<u32>
    decreases ps.len(),
{
    if ps.len() == 0 {
        Seq::empty()
    } else {
        let prev = keyboard_keys(ps.drop_last());
        match ps.last() {
            EventTypeView::Key(c) => prev.push(c),
            _ => prev,
        }
    }
}

/// The events of a list of peripherals.
pub open spec fn events_of(ps: Seq<Peripheral>) -> Seq<EventTypeView> {
    ps.map_values(|p: Peripheral| p.event_type@)
}

/// A joypad reports keys and absolute axes; it declares every button, every
/// key-typed axis and every absolute axis of its peripherals.
pub fn joypad_capabilities(ps: &Vec<Peripheral>) -> (c: Capabilities)
    ensures
        c.event_types@ == seq![EV_KEY, EV_ABS],
        c.key_codes@ == joypad_keys(events_of(ps@)),
        c.abs_axes@.map_values(|a: AbsAxisSetup| a.code as u32) == joypad_abs(events_of(ps@)).map_values(
            |c: u32| c as u16 as u32,
        ),
        forall|i: int|
            0 <= i < c.abs_axes@.len() ==> (#[trigger] c.abs_axes@[i]).minimum == -255
                && c.abs_axes@[i].maximum == 255 && c.abs_axes@[i].flat == 15
                && c.abs_axes@[i].fuzz == 0 && c.abs_axes@[i].value == 0
                && c.abs_axes@[i].resolution == 0,
{
    let mut keys: Vec<u32> = Vec::new();
    let mut axes: Vec<AbsAxisSetup> = Vec::new();
    let mut i: usize = 0;
    while i < ps.len()
        invariant
            i <= ps@.len(),
            keys@ == joypad_keys(events_of(ps@).take(i as int)),
            axes@.map_values(|a: AbsAxisSetup| a.code as u32) == joypad_abs(
                events_of(ps@).take(i as int),
            ).map_values(|c: u32| c as u16 as u32),
            forall|j: int|
                0 <= j < axes@.len() ==> (#[trigger] axes@[j]).minimum == -255
                    && axes@[j].maximum == 255 && axes@[j].flat == 15 && axes@[j].fuzz == 0
                    && axes@[j].value == 0 && axes@[j].resolution == 0,
        decreases ps@.len() - i,
    {
        let ghost evs = events_of(ps@);
        assert(evs.take(i + 1).drop_last() =~= evs.take(i as int));
        assert(evs.take(i + 1).last() == ps@[i as int].event_type@);
        let ghost abs_before = joypad_abs(evs.take(i as int));
        let ghost axes_before = axes@;
        match &ps[i].event_type {
            EventType::Button { evdev_code } => {
                keys.push(*evdev_code);
            },
            EventType::Axis { evdev_type, evdev_code, .. } => {
                if *evdev_type == EV_ABS as u32 {
                    axes.push(abs_axis_setup(*evdev_code));
                    assert(axes@.map_values(|a: AbsAxisSetup| a.code as u32) =~= axes_before.map_values(
                        |a: AbsAxisSetup| a.code as u32,
                    ).push(*evdev_code as u16 as u32));
                    assert(abs_before.push(*evdev_code).map_values(|c: u32| c as u16 as u32)
                        =~= abs_before.map_values(|c: u32| c as u16 as u32).push(
                        *evdev_code as u16 as u32,
                    ));
                } else if *evdev_type == EV_KEY as u32 {
                    keys.push(*evdev_code);
                }
            },
            _ => {},
        }
        i = i + 1;
    }
    assert(events_of(ps@).take(i as int) =~= events_of(ps@));
    let mut types: Vec<u16> = Vec::new();
    types.push(EV_KEY);
    types.push(EV_ABS);
    assert(types@ =~= seq![EV_KEY, EV_ABS]);
    Capabilities { event_types: types, key_codes: keys, abs_axes: axes }
}

/// The keyboard reports keys with auto-repeat; it declares every key code of
/// its peripherals.
pub fn keyboard_capabilities(ps: &Vec<Peripheral>) -> (c: Capabilities)
    ensures
        c.event_types@ == seq![EV_KEY, EV_REP],
        c.key_codes@ == keyboard_keys(events_of(ps@)),
        c.abs_axes@.len() == 0,
{
    let mut keys: Vec<u32> = Vec::new();
    let mut i: usize = 0;
    while i < ps.len()
        invariant
            i <= ps@.len(),
            keys@ == keyboard_keys(events_of(ps@).take(i as int)),
        decreases ps@.len() - i,
    {
        let ghost evs = events_of(ps@);
        assert(evs.take(i + 1).drop_last() =~= evs.take(i as int));
        assert(evs.take(i + 1).last() == ps@[i as int].event_type@);
        match &ps[i].event_type {
            EventType::Key { evdev_code } => {
                keys.push(*evdev_code);
            },
            _ => {},
        }
        i = i + 1;
    }
    assert(events_of(ps@).take(i as int) =~= events_of(ps@));
    let mut types: Vec<u16> = Vec::new();
    types.push(EV_KEY);
    types.push(EV_REP);
    assert(types@ =~= seq![EV_KEY, EV_REP]);
    Capabilities { event_types: types, key_codes: keys, abs_axes: Vec::new() }
}

/// The descriptor of virtual device `index` (0-3 joypads, 4 keyboard), or
/// -1 when the index is out of range or the device is not open.
pub fn device_fd(fds: &[i32; 5], index: usize) -> (r: i32)
    ensures
        index < 5 ==> r == fds@[index as int],
        index >= 5 ==> r == -1,
{
    if index >= 5 {
        return -1;
    }
    fds[index]
}

} // verus!
