//! The interface state machine and the small computations of one frame:
//! moving through rows, the in-game time display and the ageing of messages.

use vstd::prelude::*;

verus! {

/// How much of the overlay is shown.
#[derive(Debug, Clone, Copy, PartialEq, Eq, Structural)]
pub enum UiState {
    /// The full menu, with the cursor shown.
    MenuOpen,
    /// A compact status strip.
    Closed,
    /// Nothing drawn; hotkeys still work.
    Hidden,
}

/// The state after the display or hide hotkey was pressed in `s`: out of
/// `Hidden` either goes to `Closed`; otherwise hide goes to `Hidden` and
/// display toggles the menu.
pub open spec fn after_press(s: UiState, hide: bool) -> UiState {
    match (s, hide) {
        (UiState::Hidden, _) => UiState::Closed,
        (_, true) => UiState::Hidden,
        (UiState::MenuOpen, _) => UiState::Closed,
        (UiState::Closed, _) => UiState::MenuOpen,
    }
}

/// The state after a frame in `s` where `display` and `hide` report presses;
/// nothing changes while the interface wants the keyboard.
pub open spec fn spec_step(s: UiState, display: bool, hide: bool, keyboard_captured: bool) -> UiState {
    if !keyboard_captured && (display || hide) {
        after_press(s, hide)
    } else {
        s
    }
}

/// The transitions of the interface: display opens a closed menu and closes
/// an open one; hide goes to `Hidden` from the other two states; from
/// `Hidden`, display goes to `Closed`, not straight to the menu.
pub proof fn lemma_ui_transitions(s: UiState)
    ensures
        spec_step(UiState::Closed, true, false, false) == UiState::MenuOpen,
        spec_step(UiState::MenuOpen, true, false, false) == UiState::Closed,
        s != UiState::Hidden ==> spec_step(s, false, true, false) == UiState::Hidden,
        s != UiState::Hidden ==> spec_step(s, true, true, false) == UiState::Hidden,
        spec_step(UiState::Hidden, true, false, false) == UiState::Closed,
        spec_step(UiState::Hidden, false, true, false) == UiState::Closed,
        spec_step(s, true, false, true) == s && spec_step(s, false, true, true) == s,
        spec_step(s, false, false, false) == s,
{
}

impl UiState {
    /// The state after a frame where `display` and `hide` report presses.
    pub fn step(self, display: bool, hide: bool, keyboard_captured: bool) -> (r: UiState)
        ensures
            r == spec_step(self, display, hide, keyboard_captured),
    {
        if keyboard_captured || !(display || hide) {
            return self;
        }
        match (self, hide) {
            (UiState::Hidden, _) => UiState::Closed,
            (_, true) => UiState::Hidden,
            (UiState::MenuOpen, _) => UiState::Closed,
            (UiState::Closed, _) => UiState::MenuOpen,
        }
    }

    /// Whether the host should not see input: only while the menu is open.
    pub fn should_block_messages(&self) -> (r: bool)
        ensures
            r == (*self == UiState::MenuOpen),
    {
        match self {
            UiState::MenuOpen => true,
            UiState::Closed => false,
            UiState::Hidden => false,
        }
    }

    /// Whether the game's cursor is to be shown in this state.
    pub fn shows_cursor(&self) -> (r: bool)
        ensures
            r == (*self == UiState::MenuOpen),
    {
        match self {
            UiState::MenuOpen => true,
            _ => false,
        }
    }
}

/// The row below `row` in a list of `len` rows, staying on the last.
pub fn next_row(row: usize, len: usize) -> (r: usize)
    requires
        len > 0,
    ensures
        r == if row + 1 < len {
            row + 1
        } else {
            len - 1
        },
{
    if row < len - 1 {
        row + 1
    } else {
        len - 1
    }
}

/// The row above `row`, staying on the first.
pub fn prev_row(row: usize) -> (r: usize)
    ensures
        r == if row > 0 {
            row - 1
        } else {
            0
        },
{
    if row > 0 {
        row - 1
    } else {
        0
    }
}

/// An in-game time in milliseconds as hours, minutes, seconds and
/// hundredths.
pub fn igt_parts(igt: u32) -> (r: (u32, u32, u32, u32))
    ensures
        r.0 == igt / 1000 / 3600,
        r.1 == igt / 1000 / 60 % 60,
        r.2 == igt / 1000 % 60,
        r.3 == igt % 1000 / 10,
        r.1 < 60 && r.2 < 60 && r.3 < 100,
{
    let millis = (igt % 1000) / 10;
    let total_seconds = igt / 1000;
    let seconds = total_seconds % 60;
    let minutes = total_seconds / 60 % 60;
    let hours = total_seconds / 3600;
    (hours, minutes, seconds, millis)
}

/// How long a message stays on screen, in milliseconds.
pub const MESSAGE_LIFETIME_MS: u64 = 5000;

/// A message and the time it was received, in milliseconds.
#[derive(Debug)]
pub struct LogEntry {
    pub at_ms: u64,
    pub text: String,
}

/// Whether a message received at `at_ms` is still shown at `now_ms`.
pub open spec fn is_recent(at_ms: u64, now_ms: u64) -> bool {
    now_ms < at_ms || now_ms - at_ms < MESSAGE_LIFETIME_MS
}

/// The messages of `s` still shown at `now_ms`, in their order.
pub open spec fn recent(s: Seq<LogEntry>, now_ms: u64) -> Seq<LogEntry>
    decreases s.len(),
{
    if s.len() == 0 {
        s
    } else if is_recent(s.last().at_ms, now_ms) {
        recent(s.drop_last(), now_ms).push(s.last())
    } else {
        recent(s.drop_last(), now_ms)
    }
}

/// Drops the messages older than their lifetime at `now_ms`, keeping the
/// order of the others.
pub fn retain_recent(log: &mut Vec<LogEntry>, now_ms: u64)
    ensures
        final(log)@ == recent(old(log)@, now_ms),
{
    let ghost all = old(log)@;
    let n = log.len();
    let mut kept: Vec<LogEntry> = Vec::new();
    let mut i: usize = 0;
    assert(recent(all.take(0), now_ms) =~= Seq::<LogEntry>::empty());
    while log.len() > 0
        invariant
            i + log@.len() == all.len() == n,
            log@ == all.subrange(i as int, all.len() as int),
            kept@ == recent(all.take(i as int), now_ms),
        decreases log@.len(),
    {
        let e = log.remove(0);
        proof {
            assert(all.take(i + 1).drop_last() =~= all.take(i as int));
            assert(all.take(i + 1).last() == e);
        }
        if now_ms < e.at_ms || now_ms - e.at_ms < MESSAGE_LIFETIME_MS {
            kept.push(e);
        }
        i = i + 1;
        assert(log@ =~= all.subrange(i as int, all.len() as int));
    }
    assert(all.take(i as int) =~= all);
    *log = kept;
}

} // verus!
