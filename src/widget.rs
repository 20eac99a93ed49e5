//! Widgets: a hotkey bound to cells of the host's memory, with the effect of
//! one activation. A hotkey press and a click on the rendered control go
//! through the same `activate`; a widget whose cells do not resolve changes
//! nothing.

use vstd::prelude::*;
use crate::cell::{Bitflag, WordCell};
use crate::key::{KeyState, edge, sampled};
use crate::memory::Memory;
use crate::pointer::PointerChain;

verus! {

/// Toggles one bit flag.
#[derive(Debug, Clone)]
pub struct FlagWidget {
    pub label: String,
    pub flag: Bitflag,
    pub hotkey: KeyState,
}

impl FlagWidget {
    pub open spec fn wf(self) -> bool {
        self.flag.wf()
    }

    pub open spec fn valid(self, mem: Memory) -> bool {
        self.flag.current(mem).is_some()
    }

    /// One activation, from `before` to `after`, that returned `r`: the flag
    /// is flipped where it can be read.
    pub open spec fn activate_post(self, before: Memory, after: Memory, r: bool) -> bool {
        self.flag.set_post(before, after, !self.flag.current(before).unwrap(), r)
    }

    pub fn new(label: String, flag: Bitflag, hotkey: KeyState) -> (r: FlagWidget)
        requires
            flag.wf(),
        ensures
            r.label@ == label@,
            r.flag == flag,
            r.hotkey == hotkey,
            r.wf(),
    {
        FlagWidget { label, flag, hotkey }
    }

    /// Flips the flag; returns whether it was written.
    pub fn activate(&self, mem: &mut Memory) -> (r: bool)
        requires
            self.wf(),
        ensures
            self.activate_post(*old(mem), *final(mem), r),
    {
        match self.flag.get(mem) {
            Some(b) => self.flag.set(mem, !b),
            None => false,
        }
    }
}

/// Writes the next of a cyclic list of speeds, each held as the bit pattern
/// of its 32-bit float.
#[derive(Debug, Clone)]
pub struct CycleSpeed {
    pub values: Vec<u32>,
    pub next: usize,
    pub cell: WordCell,
    pub hotkey: KeyState,
}

/// The position that follows `i` in a cycle of `len` positions.
pub open spec fn cycle_next(i: nat, len: nat) -> nat {
    if i + 1 >= len {
        0
    } else {
        i + 1
    }
}

/// The position reached from `i` after `k` steps.
pub open spec fn cycle_after(i: nat, k: nat, len: nat) -> nat
    decreases k,
{
    if k == 0 {
        i
    } else {
        cycle_next(cycle_after(i, (k - 1) as nat, len), len)
    }
}

/// After `k` activations a cycle stands `k` places further on, modulo its
/// length; so after as many activations as it has values it writes again the
/// value it started with.
pub proof fn lemma_cycle_wraps(i: nat, k: nat, len: nat)
    requires
        i < len,
    ensures
        cycle_after(i, k, len) as int == (i + k) as int % (len as int),
        cycle_after(i, len, len) == i,
{
    lemma_cycle_wraps_general(i, k, len);
    lemma_cycle_wraps_len(i, len);
}

proof fn lemma_cycle_wraps_len(i: nat, len: nat)
    requires
        i < len,
    ensures
        cycle_after(i, len, len) == i,
{
    lemma_cycle_wraps_general(i, len, len);
    vstd::arithmetic::div_mod::lemma_add_mod_noop(i as int, len as int, len as int);
    vstd::arithmetic::div_mod::lemma_mod_self_0(len as int);
    vstd::arithmetic::div_mod::lemma_small_mod(i, len);
}

proof fn lemma_cycle_wraps_general(i: nat, k: nat, len: nat)
    requires
        i < len,
    ensures
        cycle_after(i, k, len) as int == (i + k) as int % (len as int),
    decreases k,
{
    if k == 0 {
        vstd::arithmetic::div_mod::lemma_small_mod(i, len);
    } else {
        lemma_cycle_wraps_general(i, (k - 1) as nat, len);
        let p = cycle_after(i, (k - 1) as nat, len);
        vstd::arithmetic::div_mod::lemma_fundamental_div_mod((i + k - 1) as int, len as int);
        vstd::arithmetic::div_mod::lemma_fundamental_div_mod((i + k) as int, len as int);
        vstd::arithmetic::div_mod::lemma_mod_bound((i + k - 1) as int, len as int);
        vstd::arithmetic::div_mod::lemma_mod_bound((i + k) as int, len as int);
        let q = (i + k - 1) as int / (len as int);
        let q2 = (i + k) as int / (len as int);
        let r2 = (i + k) as int % (len as int);
        assert(r2 == cycle_next(p, len)) by (nonlinear_arith)
            requires
                (i + k - 1) as int == len * q + p,
                (i + k) as int == len * q2 + r2,
                0 <= p < len,
                0 <= r2 < len,
                cycle_next(p, len) == if p + 1 >= len {
                    0
                } else {
                    p + 1
                },
        ;
    }
}

impl CycleSpeed {
    pub open spec fn wf(self) -> bool {
        self.values@.len() == 0 || self.next < self.values@.len()
    }

    /// Whether the cell resolves and there is a value to write.
    pub open spec fn valid(self, mem: Memory) -> bool {
        self.cell.current(mem).is_some() && self.values@.len() > 0
    }

    /// One activation from `self` to `after`, with the memory going from
    /// `before` to `mem_after`, that returned `r`: the value at the cycle's
    /// position is written and the position moves on; where the cell does not
    /// resolve or the cycle is empty nothing changes.
    pub open spec fn activate_post(
        self,
        after: CycleSpeed,
        before: Memory,
        mem_after: Memory,
        r: bool,
    ) -> bool {
        &&& r == self.valid(before)
        &&& r ==> self.cell.write_post(before, mem_after, self.values@[self.next as int], true)
        &&& !r ==> mem_after == before
        &&& after.values == self.values
        &&& after.cell == self.cell
        &&& after.hotkey == self.hotkey
        &&& after.next == if r {
            cycle_next(self.next as nat, self.values@.len())
        } else {
            self.next as nat
        }
    }

    /// A cycle over `values`, starting at the first.
    pub fn new(values: Vec<u32>, cell: WordCell, hotkey: KeyState) -> (r: CycleSpeed)
        ensures
            r.values@ == values@,
            r.next == 0,
            r.cell == cell,
            r.hotkey == hotkey,
            r.wf(),
    {
        CycleSpeed { values, next: 0, cell, hotkey }
    }

    /// Writes the next value and moves on in the cycle; nothing changes where
    /// the cell does not resolve or the cycle is empty. Returns whether it was
    /// written.
    pub fn activate(&mut self, mem: &mut Memory) -> (r: bool)
        requires
            old(self).wf(),
        ensures
            old(self).activate_post(*final(self), *old(mem), *final(mem), r),
            final(self).wf(),
    {
        if self.values.len() == 0 {
            return false;
        }
        let v = self.values[self.next];
        let r = self.cell.write(mem, v);
        if r {
            if self.next >= self.values.len() - 1 {
                self.next = 0;
            } else {
                self.next = self.next + 1;
            }
        }
        r
    }
}

/// Writes a fixed amount of souls.
#[derive(Debug, Clone)]
pub struct Souls {
    pub amount: u32,
    pub cell: WordCell,
    pub hotkey: KeyState,
}

impl Souls {
    pub open spec fn valid(self, mem: Memory) -> bool {
        self.cell.current(mem).is_some()
    }

    pub fn new(amount: u32, cell: WordCell, hotkey: KeyState) -> (r: Souls)
        ensures
            r.amount == amount,
            r.cell == cell,
            r.hotkey == hotkey,
    {
        Souls { amount, cell, hotkey }
    }

    /// Writes the amount; returns whether it was written.
    pub fn activate(&self, mem: &mut Memory) -> (r: bool)
        ensures
            self.cell.write_post(*old(mem), *final(mem), self.amount, r),
    {
        self.cell.write(mem, self.amount)
    }
}

/// Asks the game to quit to the main menu by setting its request byte.
#[derive(Debug, Clone)]
pub struct Quitout {
    pub chain: PointerChain,
    pub hotkey: KeyState,
}

impl Quitout {
    pub open spec fn valid(self, mem: Memory) -> bool {
        match self.chain.target(mem) {
            Some(a) => mem.byte_at(a).is_some(),
            None => false,
        }
    }

    /// One activation, from `before` to `after`, that returned `r`: the
    /// request byte is set to 1 where it can be reached.
    pub open spec fn activate_post(self, before: Memory, after: Memory, r: bool) -> bool {
        &&& r == self.valid(before)
        &&& r ==> after.byte_at(self.chain.target(before).unwrap()) == Some(1u8)
        &&& r ==> before.same_outside(after, self.chain.target(before).unwrap(), 1)
        &&& !r ==> after == before
    }

    pub fn new(chain: PointerChain, hotkey: KeyState) -> (r: Quitout)
        ensures
            r.chain == chain,
            r.hotkey == hotkey,
    {
        Quitout { chain, hotkey }
    }

    /// Sets the request byte; returns whether it was written.
    pub fn activate(&self, mem: &mut Memory) -> (r: bool)
        ensures
            self.activate_post(*old(mem), *final(mem), r),
    {
        match self.chain.resolve(mem) {
            Some(a) => mem.write_u8(a, 1),
            None => false,
        }
    }
}

/// Size in bytes of the player's position: three 32-bit floats.
pub const POSITION_SIZE: usize = 12;

/// Saves the player's position on its first activation and restores the
/// saved one on later activations.
#[derive(Debug, Clone)]
pub struct Position {
    pub chain: PointerChain,
    pub saved: Option<Vec<u8>>,
    pub hotkey: KeyState,
}

impl Position {
    pub open spec fn wf(self) -> bool {
        self.saved.is_some() ==> self.saved.unwrap()@.len() == POSITION_SIZE
    }

    pub open spec fn valid(self, mem: Memory) -> bool {
        match self.chain.target(mem) {
            Some(a) => mem.bytes_at(a, POSITION_SIZE as nat).is_some(),
            None => false,
        }
    }

    /// One activation from `self` to `after`, with the memory going from
    /// `before` to `mem_after`, that returned `r`: with nothing saved the
    /// position is saved, else the saved one is written back.
    pub open spec fn activate_post(
        self,
        after: Position,
        before: Memory,
        mem_after: Memory,
        r: bool,
    ) -> bool {
        let a = self.chain.target(before).unwrap();
        &&& r == self.valid(before)
        &&& after.chain == self.chain
        &&& after.hotkey == self.hotkey
        &&& (r && self.saved.is_none()) ==> mem_after == before && after.saved.is_some()
            && Some(after.saved.unwrap()@) == before.bytes_at(a, POSITION_SIZE as nat)
        &&& (r && self.saved.is_some()) ==> after.saved == self.saved && mem_after.bytes_at(
            a,
            POSITION_SIZE as nat,
        ) == Some(self.saved.unwrap()@) && before.same_outside(mem_after, a, POSITION_SIZE as nat)
        &&& !r ==> mem_after == before && after == self
    }

    pub fn new(chain: PointerChain, hotkey: KeyState) -> (r: Position)
        ensures
            r.chain == chain,
            r.saved.is_none(),
            r.hotkey == hotkey,
            r.wf(),
    {
        Position { chain, saved: None, hotkey }
    }

    /// Saves or restores the position; returns whether the position could
    /// be reached.
    pub fn activate(&mut self, mem: &mut Memory) -> (r: bool)
        requires
            old(self).wf(),
        ensures
            old(self).activate_post(*final(self), *old(mem), *final(mem), r),
            final(self).wf(),
    {
        let a = match self.chain.resolve(mem) {
            Some(a) => a,
            None => return false,
        };
        if !mem.has_range(a, POSITION_SIZE) {
            return false;
        }
        match &self.saved {
            Some(s) => {
                mem.write_bytes(a, s);
            },
            None => {
                self.saved = mem.read_bytes(a, POSITION_SIZE);
            },
        }
        true
    }
}

/// Asks for the save file to be swapped: the file work is the caller's,
/// which takes the request.
#[derive(Debug, Clone)]
pub struct SavefileManager {
    pub pending: bool,
    pub hotkey: KeyState,
}

impl SavefileManager {
    pub fn new(hotkey: KeyState) -> (r: SavefileManager)
        ensures
            !r.pending,
            r.hotkey == hotkey,
    {
        SavefileManager { pending: false, hotkey }
    }

    /// Records a request; always made.
    pub fn activate(&mut self) -> (r: bool)
        ensures
            r,
            final(self).pending,
            final(self).hotkey == old(self).hotkey,
    {
        self.pending = true;
        true
    }

    /// Whether a request was made since the last call; clears it.
    pub fn take_request(&mut self) -> (r: bool)
        ensures
            r == old(self).pending,
            !final(self).pending,
            final(self).hotkey == old(self).hotkey,
    {
        let r = self.pending;
        self.pending = false;
        r
    }
}

/// A control of the overlay.
#[derive(Debug, Clone)]
pub enum Widget {
    Flag(FlagWidget),
    CycleSpeed(CycleSpeed),
    Souls(Souls),
    Quitout(Quitout),
    SavefileManager(SavefileManager),
    Position(Position),
}

impl Widget {
    pub open spec fn wf(self) -> bool {
        match self {
            Widget::Flag(w) => w.wf(),
            Widget::CycleSpeed(w) => w.wf(),
            Widget::Position(w) => w.wf(),
            _ => true,
        }
    }

    /// Whether the widget's cells currently resolve in `mem`.
    pub open spec fn valid(self, mem: Memory) -> bool {
        match self {
            Widget::Flag(w) => w.valid(mem),
            Widget::CycleSpeed(w) => w.valid(mem),
            Widget::Souls(w) => w.valid(mem),
            Widget::Quitout(w) => w.valid(mem),
            Widget::SavefileManager(_) => true,
            Widget::Position(w) => w.valid(mem),
        }
    }

    pub open spec fn hotkey(self) -> KeyState {
        match self {
            Widget::Flag(w) => w.hotkey,
            Widget::CycleSpeed(w) => w.hotkey,
            Widget::Souls(w) => w.hotkey,
            Widget::Quitout(w) => w.hotkey,
            Widget::SavefileManager(w) => w.hotkey,
            Widget::Position(w) => w.hotkey,
        }
    }

    /// `self` with its hotkey having sampled `held`.
    pub open spec fn sample(self, held: Seq<u32>) -> Widget {
        match self {
            Widget::Flag(w) => Widget::Flag(
                FlagWidget { label: w.label, flag: w.flag, hotkey: sampled(w.hotkey, held) },
            ),
            Widget::CycleSpeed(w) => Widget::CycleSpeed(
                CycleSpeed {
                    values: w.values,
                    next: w.next,
                    cell: w.cell,
                    hotkey: sampled(w.hotkey, held),
                },
            ),
            Widget::Souls(w) => Widget::Souls(
                Souls { amount: w.amount, cell: w.cell, hotkey: sampled(w.hotkey, held) },
            ),
            Widget::Quitout(w) => Widget::Quitout(
                Quitout { chain: w.chain, hotkey: sampled(w.hotkey, held) },
            ),
            Widget::SavefileManager(w) => Widget::SavefileManager(
                SavefileManager { pending: w.pending, hotkey: sampled(w.hotkey, held) },
            ),
            Widget::Position(w) => Widget::Position(
                Position { chain: w.chain, saved: w.saved, hotkey: sampled(w.hotkey, held) },
            ),
        }
    }

    /// One activation of `self`, which became `after`, with the memory going
    /// from `before` to `mem_after`, that returned `r`. The kind of widget
    /// and its cells are kept; a speed cycle moves on, a position is saved or
    /// restored, a save file request is recorded.
    pub open spec fn activate_post(
        self,
        after: Widget,
        before: Memory,
        mem_after: Memory,
        r: bool,
    ) -> bool {
        match (self, after) {
            (Widget::Flag(w), Widget::Flag(x)) => x == w && w.activate_post(before, mem_after, r),
            (Widget::CycleSpeed(w), Widget::CycleSpeed(x)) => w.activate_post(
                x,
                before,
                mem_after,
                r,
            ),
            (Widget::Souls(w), Widget::Souls(x)) => x == w && w.cell.write_post(
                before,
                mem_after,
                w.amount,
                r,
            ),
            (Widget::Quitout(w), Widget::Quitout(x)) => x == w && w.activate_post(
                before,
                mem_after,
                r,
            ),
            (Widget::SavefileManager(w), Widget::SavefileManager(x)) => r && x.pending && x.hotkey
                == w.hotkey && mem_after == before,
            (Widget::Position(w), Widget::Position(x)) => w.activate_post(
                x,
                before,
                mem_after,
                r,
            ),
            _ => false,
        }
    }

    /// Whether the widget's hotkey reports a press in `held` or its control
    /// was `clicked`.
    pub open spec fn activated(self, held: Seq<u32>, clicked: bool) -> bool {
        edge(self.hotkey().was_down, self.hotkey().chord_down(held)) || clicked
    }

    /// One call of `interact(held, clicked)` on `self`, which became `after`,
    /// with the memory going from `before` to `mem_after`: the hotkey records
    /// the sample, and the widget is activated where its hotkey reports a
    /// press or it was clicked; otherwise nothing else changes.
    pub open spec fn interact_post(
        self,
        after: Widget,
        before: Memory,
        mem_after: Memory,
        held: Seq<u32>,
        clicked: bool,
    ) -> bool {
        &&& self.activated(held, clicked) ==> self.sample(held).activate_post(
            after,
            before,
            mem_after,
            self.valid(before),
        )
        &&& !self.activated(held, clicked) ==> after == self.sample(held) && mem_after == before
        &&& !self.valid(before) ==> mem_after == before
        &&& after.wf()
    }

    /// Whether the widget's cells currently resolve.
    pub fn is_valid(&self, mem: &Memory) -> (r: bool)
        requires
            self.wf(),
        ensures
            r == self.valid(*mem),
    {
        match self {
            Widget::Flag(w) => w.flag.is_valid(mem),
            Widget::CycleSpeed(w) => w.values.len() > 0 && w.cell.is_valid(mem),
            Widget::Souls(w) => w.cell.is_valid(mem),
            Widget::Quitout(w) => match w.chain.resolve(mem) {
                Some(a) => mem.read_u8(a).is_some(),
                None => false,
            },
            Widget::SavefileManager(_) => true,
            Widget::Position(w) => match w.chain.resolve(mem) {
                Some(a) => mem.has_range(a, POSITION_SIZE),
                None => false,
            },
        }
    }

    /// Applies the widget's effect once; returns whether it was made.
    pub fn activate(&mut self, mem: &mut Memory) -> (r: bool)
        requires
            old(self).wf(),
        ensures
            old(self).activate_post(*final(self), *old(mem), *final(mem), r),
            r == old(self).valid(*old(mem)),
            final(self).wf(),
    {
        match self {
            Widget::Flag(w) => w.activate(mem),
            Widget::CycleSpeed(w) => w.activate(mem),
            Widget::Souls(w) => w.activate(mem),
            Widget::Quitout(w) => w.activate(mem),
            Widget::SavefileManager(w) => w.activate(),
            Widget::Position(w) => w.activate(mem),
        }
    }

    /// Samples the widget's hotkey in `held` and activates the widget on a
    /// press or where its control was `clicked`. Returns whether it was
    /// activated; a widget whose cells do not resolve changes nothing.
    pub fn interact(&mut self, mem: &mut Memory, held: &Vec<u32>, clicked: bool) -> (r: bool)
        requires
            old(self).wf(),
        ensures
            r == old(self).activated(held@, clicked),
            old(self).interact_post(*final(self), *old(mem), *final(mem), held@, clicked),
    {
        let pressed = match self {
            Widget::Flag(w) => w.hotkey.is_pressed(held),
            Widget::CycleSpeed(w) => w.hotkey.is_pressed(held),
            Widget::Souls(w) => w.hotkey.is_pressed(held),
            Widget::Quitout(w) => w.hotkey.is_pressed(held),
            Widget::SavefileManager(w) => w.hotkey.is_pressed(held),
            Widget::Position(w) => w.hotkey.is_pressed(held),
        };
        assert(*self == old(self).sample(held@));
        if pressed || clicked {
            self.activate(mem);
            true
        } else {
            false
        }
    }
}

} // verus!
