//! Edge-triggered hotkeys: a key, the modifiers that must be held with it,
//! and whether the chord was down at the previous sample.

use vstd::prelude::*;

verus! {

/// What a hotkey reports for one sample: a press is a chord that is down now
/// and was not down at the previous sample.
pub open spec fn edge(was_down: bool, down: bool) -> bool {
    down && !was_down
}

/// What a hotkey reports for each of the consecutive `samples`, starting from
/// `was_down`.
pub open spec fn reports(was_down: bool, samples: Seq<bool>) -> Seq<bool>
    decreases samples.len(),
{
    if samples.len() == 0 {
        Seq::empty()
    } else {
        seq![edge(was_down, samples[0])].add(reports(samples[0], samples.drop_first()))
    }
}

/// A hotkey reports a press at a sample exactly where the chord is down there
/// and was not at the sample before: once per press, however long it is held.
pub proof fn lemma_reports_rising_edges(was_down: bool, samples: Seq<bool>)
    ensures
        reports(was_down, samples).len() == samples.len(),
        forall|i: int|
            0 <= i < samples.len() ==> #[trigger] reports(was_down, samples)[i] == (samples[i]
                && !(if i == 0 {
                was_down
            } else {
                samples[i - 1]
            })),
    decreases samples.len(),
{
    if samples.len() > 0 {
        let tail = samples.drop_first();
        lemma_reports_rising_edges(samples[0], tail);
        assert forall|i: int| 0 <= i < samples.len() implies #[trigger] reports(
            was_down,
            samples,
        )[i] == (samples[i] && !(if i == 0 {
            was_down
        } else {
            samples[i - 1]
        })) by {
            if i > 0 {
                assert(reports(was_down, samples)[i] == reports(samples[0], tail)[i - 1]);
                assert(tail[i - 1] == samples[i]);
                if i > 1 {
                    assert(tail[i - 2] == samples[i - 1]);
                }
            }
        }
    }
}

/// `k` after it sampled `held`: it records whether its chord is down.
pub open spec fn sampled(k: KeyState, held: Seq<u32>) -> KeyState {
    KeyState { key: k.key, modifiers: k.modifiers, was_down: k.chord_down(held) }
}

/// A key with its modifiers, edge-triggered.
#[derive(Debug, Clone)]
pub struct KeyState {
    pub key: u32,
    pub modifiers: Vec<u32>,
    pub was_down: bool,
}

impl View for KeyState {
    type V = (u32, Seq<u32>, bool);

    open spec fn view(&self) -> (u32, Seq<u32>, bool) {
        (self.key, self.modifiers@, self.was_down)
    }
}

impl KeyState {
    /// The view of a fresh hotkey on `key` with no modifiers.
    pub open spec fn new_spec(key: u32) -> (u32, Seq<u32>, bool) {
        (key, Seq::empty(), false)
    }

    /// A copy of this hotkey.
    pub fn copy(&self) -> (r: KeyState)
        ensures
            r@ == self@,
    {
        KeyState { key: self.key, modifiers: self.modifiers.clone(), was_down: self.was_down }
    }

    /// Whether the key and all its modifiers are among the `held` keys.
    pub open spec fn chord_down(self, held: Seq<u32>) -> bool {
        held.contains(self.key) && forall|i: int|
            0 <= i < self.modifiers@.len() ==> held.contains(#[trigger] self.modifiers@[i])
    }

    pub fn new(key: u32) -> (r: KeyState)
        ensures
            r.key == key,
            r.modifiers@ == Seq::<u32>::empty(),
            !r.was_down,
    {
        KeyState { key, modifiers: Vec::new(), was_down: false }
    }

    pub fn with_modifiers(key: u32, modifiers: Vec<u32>) -> (r: KeyState)
        ensures
            r.key == key,
            r.modifiers@ == modifiers@,
            !r.was_down,
    {
        KeyState { key, modifiers, was_down: false }
    }

    /// Whether the chord is down in `held`, without recording the sample.
    pub fn is_down(&self, held: &Vec<u32>) -> (r: bool)
        ensures
            r == self.chord_down(held@),
    {
        if !contains(held, self.key) {
            return false;
        }
        let mut i: usize = 0;
        while i < self.modifiers.len()
            invariant
                i <= self.modifiers@.len(),
                held@.contains(self.key),
                forall|j: int| 0 <= j < i ==> held@.contains(#[trigger] self.modifiers@[j]),
            decreases self.modifiers@.len() - i,
        {
            if !contains(held, self.modifiers[i]) {
                return false;
            }
            i = i + 1;
        }
        true
    }

    /// Samples the chord in `held`: true only on the sample where it goes
    /// down, not while it is held.
    pub fn is_pressed(&mut self, held: &Vec<u32>) -> (r: bool)
        ensures
            r == edge(old(self).was_down, old(self).chord_down(held@)),
            *final(self) == sampled(*old(self), held@),
    {
        let down = self.is_down(held);
        let r = down && !self.was_down;
        self.was_down = down;
        r
    }
}

/// Whether `k` is among `held`.
fn contains(held: &Vec<u32>, k: u32) -> (r: bool)
    ensures
        r == held@.contains(k),
{
    let mut i: usize = 0;
    while i < held.len()
        invariant
            i <= held@.len(),
            forall|j: int| 0 <= j < i ==> held@[j] != k,
        decreases held@.len() - i,
    {
        if held[i] == k {
            return true;
        }
        i = i + 1;
    }
    false
}

} // verus!
