//! The row-based overlay: a cursor moves through the widgets while the
//! overlay captures input, and an interact key activates the widget under it.

use vstd::prelude::*;
use crate::key::{KeyState, edge, sampled};
use crate::memory::Memory;
use crate::widget::Widget;

verus! {

/// Whether `ms` are the memories as `ws` interact one after the other with
/// `held`, becoming `ws2`, the widget at `row` clicked where `activate` holds.
pub open spec fn rows_run(
    ws: Seq<Widget>,
    ws2: Seq<Widget>,
    ms: Seq<Memory>,
    held: Seq<u32>,
    row: int,
    activate: bool,
) -> bool {
    &&& ws2.len() == ws.len()
    &&& ms.len() == ws.len() + 1
    &&& forall|j: int|
        0 <= j < ws.len() ==> ws[j].interact_post(
            #[trigger] ws2[j],
            ms[j],
            ms[j + 1],
            held,
            j == row && activate,
        )
}

/// The row after a frame of `len` rows at `row`, where `next` and `prev`
/// report presses; `prev` counts only without `next`.
pub open spec fn moved_row(row: nat, len: nat, next: bool, prev: bool) -> nat {
    if len == 0 {
        row
    } else if next {
        if row + 1 < len {
            row + 1
        } else {
            (len - 1) as nat
        }
    } else if prev {
        if row > 0 {
            (row - 1) as nat
        } else {
            0
        }
    } else {
        row
    }
}

/// The overlay's state.
#[derive(Debug)]
pub struct RowTool {
    pub display: KeyState,
    pub interact: KeyState,
    pub next: KeyState,
    pub prev: KeyState,
    pub commands: Vec<Widget>,
    pub current_row: usize,
    pub capturing: bool,
}

impl RowTool {
    pub open spec fn wf(self) -> bool {
        forall|i: int| 0 <= i < self.commands@.len() ==> (#[trigger] self.commands@[i]).wf()
    }

    /// An overlay capturing input, on the first row.
    pub fn new(display: KeyState, interact: KeyState, next: KeyState, prev: KeyState, commands: Vec<
        Widget,
    >) -> (r: RowTool)
        ensures
            r.display == display && r.interact == interact && r.next == next && r.prev == prev,
            r.commands == commands,
            r.current_row == 0,
            r.capturing,
    {
        RowTool { display, interact, next, prev, commands, current_row: 0, capturing: true }
    }

    /// One frame: the display key toggles capturing; every widget interacts,
    /// the one on the current row activated by the interact key while
    /// capturing; then, while capturing, the next or previous key moves the
    /// row within the list.
    pub fn frame(&mut self, mem: &mut Memory, held: &Vec<u32>)
        requires
            old(self).wf(),
        ensures
            final(self).wf(),
            final(self).capturing == (old(self).capturing != edge(
                old(self).display.was_down,
                old(self).display.chord_down(held@),
            )),
            final(self).display == sampled(old(self).display, held@),
            final(self).interact == sampled(old(self).interact, held@),
            exists|ms: Seq<Memory>|
                {
                    &&& rows_run(
                        old(self).commands@,
                        final(self).commands@,
                        ms,
                        held@,
                        old(self).current_row as int,
                        final(self).capturing && edge(
                            old(self).interact.was_down,
                            old(self).interact.chord_down(held@),
                        ),
                    )
                    &&& ms[0] == *old(mem)
                    &&& ms.last() == *final(mem)
                },
            !final(self).capturing ==> final(self).current_row == old(self).current_row
                && final(self).next == old(self).next && final(self).prev == old(self).prev,
            final(self).capturing ==> {
                let nx = edge(old(self).next.was_down, old(self).next.chord_down(held@));
                let pv = edge(old(self).prev.was_down, old(self).prev.chord_down(held@));
                &&& final(self).current_row == moved_row(
                    old(self).current_row as nat,
                    old(self).commands@.len(),
                    nx,
                    pv,
                )
                &&& final(self).next == sampled(old(self).next, held@)
                &&& final(self).prev == if nx {
                    old(self).prev
                } else {
                    sampled(old(self).prev, held@)
                }
            },
    {
        if self.display.is_pressed(held) {
            self.capturing = !self.capturing;
        }
        let interacting = self.interact.is_pressed(held);
        let ghost ws = self.commands@;
        let ghost mut ms: Seq<Memory> = seq![*mem];
        let ghost display = self.display;
        let ghost interact = self.interact;
        let n = self.commands.len();
        let row = self.current_row;
        let mut i: usize = 0;
        while i < n
            invariant
                i <= n == ws.len() == self.commands@.len(),
                ws == old(self).commands@,
                row == old(self).current_row,
                self.current_row == row,
                self.capturing == (old(self).capturing != edge(
                    old(self).display.was_down,
                    old(self).display.chord_down(held@),
                )),
                interacting == edge(old(self).interact.was_down, old(self).interact.chord_down(held@)),
                self.display == display,
                self.interact == interact,
                self.next == old(self).next,
                self.prev == old(self).prev,
                ms.len() == i + 1,
                ms[0] == *old(mem),
                ms[i as int] == *mem,
                forall|j: int| i <= j < n ==> #[trigger] self.commands@[j] == ws[j],
                forall|j: int| 0 <= j < n ==> (#[trigger] self.commands@[j]).wf(),
                forall|j: int|
                    0 <= j < i ==> ws[j].interact_post(
                        #[trigger] self.commands@[j],
                        ms[j],
                        ms[j + 1],
                        held@,
                        j == row && self.capturing && interacting,
                    ),
            decreases n - i,
        {
            let active = row == i && self.capturing;
            let mut w = self.commands.remove(i);
            w.interact(mem, held, active && interacting);
            self.commands.insert(i, w);
            proof {
                ms = ms.push(*mem);
            }
            i = i + 1;
        }
        assert(rows_run(ws, self.commands@, ms, held@, row as int, self.capturing && interacting));
        if self.capturing {
            if self.next.is_pressed(held) {
                if n > 0 {
                    self.current_row = crate::ui::next_row(self.current_row, n);
                }
            } else if self.prev.is_pressed(held) {
                if n > 0 {
                    self.current_row = crate::ui::prev_row(self.current_row);
                }
            }
        }
        assert(ms.last() == *mem);
        assert(rows_run(ws, self.commands@, ms, held@, row as int, self.capturing && interacting));
    }
}

} // verus!
