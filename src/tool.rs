//! The overlay session: settings, widgets and interface state, advanced once
//! per frame of the host. Drawing is left to the caller, which asks the
//! session what to draw and hands clicks back to it.

use vstd::prelude::*;
use crate::cell::{Bitflag, lemma_bitflag_set_get, lemma_with_bit};
use crate::chains::PointerChains;
use crate::config::{Config, Settings, built_as};
use crate::key::{edge, sampled};
use crate::memory::Memory;
use crate::pointer::walk_reads;
use crate::ui::{LogEntry, UiState, recent, retain_recent, spec_step};
use crate::widget::Widget;

verus! {

/// The cursor write made when the state goes from `s` to `t`: shown while
/// the menu is open, hidden on entering the other states.
pub open spec fn cursor_write(s: UiState, t: UiState) -> Option<bool> {
    if t == UiState::MenuOpen {
        Some(true)
    } else if t != s {
        Some(false)
    } else {
        None
    }
}

/// Whether `ms` are the memories as `ws` interact one after the other with
/// `held`, becoming `ws2`.
pub open spec fn widgets_run(ws: Seq<Widget>, ws2: Seq<Widget>, ms: Seq<Memory>, held: Seq<u32>) -> bool {
    &&& ws2.len() == ws.len()
    &&& ms.len() == ws.len() + 1
    &&& forall|j: int|
        0 <= j < ws.len() ==> #[trigger] ws[j].interact_post(ws2[j], ms[j], ms[j + 1], held, false)
}

/// After `set(v)` from `before` to `after`, the flag reads back `v` where
/// its chain does not read its own byte, and a bit set to the value it had
/// leaves the memory as it was.
proof fn cursor_read_back(c: Bitflag, before: Memory, after: Memory, v: bool)
    requires
        c.wf(),
        c.set_post(before, after, v, c.current(before).is_some()),
    ensures
        (c.current(before).is_some() && !walk_reads(
            before,
            c.chain.base as int,
            c.chain.offsets@,
            c.address(before),
        )) ==> c.current(after) == Some(v),
        c.current(before) == Some(v) ==> after.bytes@ == before.bytes@,
{
    if c.current(before).is_some() {
        if !walk_reads(before, c.chain.base as int, c.chain.offsets@, c.address(before)) {
            lemma_bitflag_set_get(c, before, after, v);
        }
        if c.current(before) == Some(v) {
            lemma_with_bit(before.byte_at(c.address(before)).unwrap(), c.bit, v);
            assert(after.bytes@ =~= before.bytes@);
        }
    }
}

/// A running overlay session.
#[derive(Debug)]
pub struct PracticeTool {
    pub settings: Settings,
    pub widgets: Vec<Widget>,
    pub pointers: PointerChains,
    pub ui_state: UiState,
    pub log: Vec<LogEntry>,
}

impl PracticeTool {
    pub open spec fn wf(self) -> bool {
        &&& self.pointers.wf()
        &&& forall|i: int| 0 <= i < self.widgets@.len() ==> (#[trigger] self.widgets@[i]).wf()
    }

    /// A session over the widgets of `config`, with the interface closed.
    pub fn new(config: Config, pointers: PointerChains) -> (r: PracticeTool)
        requires
            pointers.wf(),
        ensures
            r.wf(),
            r.settings == config.settings,
            r.pointers == pointers,
            r.ui_state == UiState::Closed,
            r.log@.len() == 0,
            r.widgets@.len() == config.commands@.len(),
            forall|i: int|
                0 <= i < r.widgets@.len() ==> built_as(
                    config.commands@[i],
                    pointers,
                    #[trigger] r.widgets@[i],
                ),
    {
        let widgets = config.make_commands(&pointers);
        PracticeTool {
            settings: config.settings,
            widgets,
            pointers,
            ui_state: UiState::Closed,
            log: Vec::new(),
        }
    }

    /// One frame: samples the display and hide hotkeys in `held`, moves the
    /// interface state, lets every widget interact, and shows or hides the
    /// game's cursor to match the state. While the interface wants the
    /// keyboard no hotkey is seen down. Returns the new state.
    pub fn frame(&mut self, mem: &mut Memory, held: &Vec<u32>, keyboard_captured: bool) -> (r:
        UiState)
        requires
            old(self).wf(),
        ensures
            final(self).wf(),
            r == final(self).ui_state,
            r == spec_step(
                old(self).ui_state,
                edge(
                    old(self).settings.display.was_down,
                    old(self).settings.display.chord_down(held@),
                ),
                match old(self).settings.hide {
                    Some(k) => edge(k.was_down, k.chord_down(held@)),
                    None => false,
                },
                keyboard_captured,
            ),
            final(self).pointers == old(self).pointers,
            final(self).settings.display == sampled(old(self).settings.display, held@),
            final(self).settings.hide == match old(self).settings.hide {
                Some(k) => Some(sampled(k, held@)),
                None => None,
            },
            final(self).settings.log_level == old(self).settings.log_level,
            final(self).settings.down == old(self).settings.down,
            final(self).settings.up == old(self).settings.up,
            final(self).settings.left == old(self).settings.left,
            final(self).settings.right == old(self).settings.right,
            final(self).log == old(self).log,
            exists|ms: Seq<Memory>|
                {
                    &&& widgets_run(
                        old(self).widgets@,
                        final(self).widgets@,
                        ms,
                        if keyboard_captured {
                            Seq::empty()
                        } else {
                            held@
                        },
                    )
                    &&& ms[0] == *old(mem)
                    &&& match cursor_write(old(self).ui_state, r) {
                        Some(v) => {
                            let c = old(self).pointers.cursor_show;
                            &&& c.set_post(ms.last(), *final(mem), v, c.current(ms.last()).is_some())
                            &&& (c.current(ms.last()).is_some() && !walk_reads(
                                ms.last(),
                                c.chain.base as int,
                                c.chain.offsets@,
                                c.address(ms.last()),
                            )) ==> c.current(*final(mem)) == Some(v)
                            &&& c.current(ms.last()) == Some(v) ==> final(mem).bytes@ == ms.last().bytes@
                        },
                        None => *final(mem) == ms.last(),
                    }
                },
    {
        let display = self.settings.display.is_pressed(held);
        let mut hide_key = self.settings.hide.take();
        let hide = match &mut hide_key {
            Some(k) => k.is_pressed(held),
            None => false,
        };
        assert(hide == match old(self).settings.hide {
            Some(k) => edge(k.was_down, k.chord_down(held@)),
            None => false,
        });
        self.settings.hide = hide_key;
        let before = self.ui_state;
        self.ui_state = self.ui_state.step(display, hide, keyboard_captured);

        let no_keys: Vec<u32> = Vec::new();
        let keys = if keyboard_captured {
            &no_keys
        } else {
            held
        };
        let ghost ws = self.widgets@;
        let ghost state = self.ui_state;
        let ghost settings = self.settings;
        let ghost mut ms: Seq<Memory> = seq![*mem];
        let n = self.widgets.len();
        let mut i: usize = 0;
        while i < n
            invariant
                i <= n == ws.len() == self.widgets@.len(),
                self.pointers.wf(),
                self.pointers == old(self).pointers,
                self.ui_state == state,
                self.settings == settings,
                self.log == old(self).log,
                ws == old(self).widgets@,
                keys@ == if keyboard_captured {
                    Seq::<u32>::empty()
                } else {
                    held@
                },
                ms.len() == i + 1,
                ms[0] == *old(mem),
                ms[i as int] == *mem,
                forall|j: int| i <= j < n ==> #[trigger] self.widgets@[j] == ws[j],
                forall|j: int| 0 <= j < n ==> (#[trigger] self.widgets@[j]).wf(),
                forall|j: int|
                    0 <= j < i ==> #[trigger] ws[j].interact_post(
                        self.widgets@[j],
                        ms[j],
                        ms[j + 1],
                        keys@,
                        false,
                    ),
            decreases n - i,
        {
            let mut w = self.widgets.remove(i);
            w.interact(mem, keys, false);
            self.widgets.insert(i, w);
            proof {
                ms = ms.push(*mem);
            }
            i = i + 1;
        }
        let ghost last = *mem;
        assert(ms.last() == last);
        assert(widgets_run(ws, self.widgets@, ms, keys@));
        let c = &self.pointers.cursor_show;
        if self.ui_state.shows_cursor() {
            c.set(mem, true);
            proof {
                cursor_read_back(*c, last, *mem, true);
            }
        } else if self.ui_state != before {
            c.set(mem, false);
            proof {
                cursor_read_back(*c, last, *mem, false);
            }
        }
        self.ui_state
    }

    /// The widget at `i` activated by a click on its control: the same effect
    /// as its hotkey. Returns whether it was written; `false` where there is
    /// no such widget.
    pub fn click(&mut self, i: usize, mem: &mut Memory) -> (r: bool)
        requires
            old(self).wf(),
        ensures
            final(self).wf(),
            i >= old(self).widgets@.len() ==> !r && *final(mem) == *old(mem),
            i < old(self).widgets@.len() ==> old(self).widgets@[i as int].activate_post(
                final(self).widgets@[i as int],
                *old(mem),
                *final(mem),
                r,
            ),
            forall|j: int|
                0 <= j < old(self).widgets@.len() && j != i ==> #[trigger] final(self).widgets@[j]
                    == old(self).widgets@[j],
            final(self).settings == old(self).settings,
            final(self).pointers == old(self).pointers,
            final(self).log == old(self).log,
            final(self).widgets@.len() == old(self).widgets@.len(),
            final(self).ui_state == old(self).ui_state,
    {
        if i >= self.widgets.len() {
            return false;
        }
        let mut w = self.widgets.remove(i);
        let r = w.activate(mem);
        self.widgets.insert(i, w);
        proof {
            assert forall|j: int| 0 <= j < self.widgets@.len() implies (
            #[trigger] self.widgets@[j]).wf() by {
                if j != i {
                    assert(self.widgets@[j] == old(self).widgets@[j]);
                }
            }
        }
        r
    }

    /// Whether the widget at `i` currently resolves; `false` where there is
    /// no such widget.
    pub fn is_valid(&self, i: usize, mem: &Memory) -> (r: bool)
        requires
            self.wf(),
        ensures
            r == (i < self.widgets@.len() && self.widgets@[i as int].valid(*mem)),
    {
        if i < self.widgets.len() {
            self.widgets[i].is_valid(mem)
        } else {
            false
        }
    }

    /// Records a message received at `now_ms`.
    pub fn push_log(&mut self, text: String, now_ms: u64)
        ensures
            final(self).log@.len() == old(self).log@.len() + 1,
            final(self).log@.last().text@ == text@,
            final(self).log@.last().at_ms == now_ms,
            final(self).log@.drop_last() == old(self).log@,
            final(self).widgets == old(self).widgets,
            final(self).pointers == old(self).pointers,
            final(self).ui_state == old(self).ui_state,
    {
        self.log.push(LogEntry { at_ms: now_ms, text });
        assert(self.log@.drop_last() =~= old(self).log@);
    }

    /// Drops the messages that have been shown for their whole lifetime at
    /// `now_ms`.
    pub fn age_log(&mut self, now_ms: u64)
        ensures
            final(self).log@ == recent(old(self).log@, now_ms),
            final(self).widgets == old(self).widgets,
            final(self).pointers == old(self).pointers,
            final(self).ui_state == old(self).ui_state,
    {
        retain_recent(&mut self.log, now_ms);
    }

    /// Whether the host should not see input this frame.
    pub fn should_block_messages(&self) -> (r: bool)
        ensures
            r == (self.ui_state == UiState::MenuOpen),
    {
        self.ui_state.should_block_messages()
    }
}

} // verus!
