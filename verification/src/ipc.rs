//! Live pin state shared between the daemon and the configuration tool: the
//! 256-entry pressed list the daemon broadcasts, and the snapshot the tool
//! keeps of the latest frame.

use vstd::prelude::*;

verus! {

/// Whether bit `i % 64` of word `i / 64` is set.
pub open spec fn word_bit(words: [u64; 4], i: int) -> bool {
    (words@[i / 64] >> ((i % 64) as u64)) & 1 == 1
}

/// The pressed list of a 256-bit state: entry `i` says whether virtual pin
/// `i` is pressed.
pub fn pins_from_words(words: [u64; 4]) -> (r: Vec<bool>)
    ensures
        r@.len() == 256,
        forall|i: int| 0 <= i < 256 ==> #[trigger] r@[i] == word_bit(words, i),
{
    let mut r: Vec<bool> = Vec::new();
    let mut i: usize = 0;
    while i < 256
        invariant
            i <= 256,
            r@.len() == i,
            forall|j: int| 0 <= j < i ==> #[trigger] r@[j] == word_bit(words, j),
        decreases 256 - i,
    {
        let w = words[i / 64];
        let b = (i % 64) as u64;
        r.push((w >> b) & 1 == 1);
        i = i + 1;
    }
    r
}

/// Snapshot of all pin states received from the daemon.
#[derive(Debug, Clone)]
pub struct PinState {
    /// Entry `v` is `true` while virtual pin `v` is pressed.
    pub pins: Vec<bool>,
    /// Whether the daemon's socket is connected and streaming.
    pub connected: bool,
}

/// The indices of the `true` entries of the first `n` entries, each taken
/// modulo 256, in increasing order.
pub open spec fn pressed_upto(pins: Seq<bool>, n: int) -> Seq<u8>
    decreases n,
{
    if n <= 0 {
        Seq::empty()
    } else if pins[n - 1] {
        pressed_upto(pins, n - 1).push((n - 1) as u8)
    } else {
        pressed_upto(pins, n - 1)
    }
}

impl PinState {
    /// No frame received, not connected.
    pub fn new() -> (s: Self)
        ensures
            s.pins@.len() == 0,
            !s.connected,
    {
        PinState { pins: Vec::new(), connected: false }
    }

    /// Whether virtual pin `vpin` is pressed; pins beyond the frame are not.
    pub fn is_pressed(&self, vpin: u8) -> (r: bool)
        ensures
            r == (vpin < self.pins@.len() && self.pins@[vpin as int]),
    {
        if (vpin as usize) < self.pins.len() {
            self.pins[vpin as usize]
        } else {
            false
        }
    }

    /// The pressed virtual pins, in increasing order.
    pub fn pressed_vpins(&self) -> (r: Vec<u8>)
        ensures
            r@ == pressed_upto(self.pins@, self.pins@.len() as int),
    {
        let mut r: Vec<u8> = Vec::new();
        let mut i: usize = 0;
        while i < self.pins.len()
            invariant
                i <= self.pins@.len(),
                r@ == pressed_upto(self.pins@, i as int),
            decreases self.pins@.len() - i,
        {
            if self.pins[i] {
                r.push(i as u8);
            }
            i = i + 1;
        }
        r
    }

    /// A frame arrived: it replaces the pin list, and the link is up.
    pub fn apply_frame(&mut self, pins: Vec<bool>)
        ensures
            final(self).pins@ == pins@,
            final(self).connected,
    {
        self.pins = pins;
        self.connected = true;
    }

    /// The link went down; the last pin list is kept.
    pub fn mark_disconnected(&mut self)
        ensures
            final(self).pins@ == old(self).pins@,
            !final(self).connected,
    {
        self.connected = false;
    }
}

} // verus!
