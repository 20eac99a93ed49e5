//! The pointer chains of one game version: one per debug flag, and the cells
//! that the other widgets and the overlay itself use.

use vstd::prelude::*;
use crate::cell::{Bitflag, WordCell};
use crate::flags::{FlagId, FLAG_COUNT};
use crate::pointer::PointerChain;

verus! {

/// The cells of the game that the overlay reads and writes.
#[derive(Debug, Clone)]
pub struct PointerChains {
    /// One flag per `FlagId`, at the flag's index.
    pub flags: Vec<Bitflag>,
    /// The player's speed, a 32-bit float.
    pub speed: WordCell,
    /// The player's souls.
    pub souls: WordCell,
    /// The byte that asks the game to quit to the main menu.
    pub quitout: PointerChain,
    /// Whether the game shows its cursor.
    pub cursor_show: Bitflag,
    /// The in-game time in milliseconds.
    pub igt: WordCell,
    /// The player's position.
    pub position: PointerChain,
}

impl PointerChains {
    pub open spec fn wf(self) -> bool {
        &&& self.flags@.len() == FLAG_COUNT
        &&& forall|i: int| 0 <= i < self.flags@.len() ==> (#[trigger] self.flags@[i]).wf()
        &&& self.cursor_show.wf()
    }

    /// The table; `None` where there is not one flag per `FlagId` or a bit
    /// lies outside its byte.
    pub fn new(
        flags: Vec<Bitflag>,
        speed: WordCell,
        souls: WordCell,
        quitout: PointerChain,
        cursor_show: Bitflag,
        igt: WordCell,
        position: PointerChain,
    ) -> (r: Option<PointerChains>)
        ensures
            match r {
                Some(c) => c.wf() && c.flags@ == flags@ && c.speed == speed && c.souls == souls
                    && c.quitout == quitout && c.cursor_show == cursor_show && c.igt == igt
                    && c.position == position,
                None => !(flags@.len() == FLAG_COUNT && (forall|i: int|
                    0 <= i < flags@.len() ==> (#[trigger] flags@[i]).wf()) && cursor_show.wf()),
            },
    {
        if flags.len() != FLAG_COUNT || cursor_show.bit >= 8 {
            return None;
        }
        let mut i: usize = 0;
        while i < flags.len()
            invariant
                i <= flags@.len(),
                forall|j: int| 0 <= j < i ==> (#[trigger] flags@[j]).wf(),
            decreases flags@.len() - i,
        {
            if flags[i].bit >= 8 {
                return None;
            }
            i = i + 1;
        }
        Some(PointerChains { flags, speed, souls, quitout, cursor_show, igt, position })
    }

    /// The flag that `id` names.
    pub fn flag(&self, id: FlagId) -> (r: &Bitflag)
        requires
            self.wf(),
        ensures
            *r == self.flags@[id.spec_index() as int],
            r.wf(),
    {
        &self.flags[id.index()]
    }
}

} // verus!
