//! The declarative configuration: settings and an ordered list of commands,
//! checked when it is loaded and then bound to widgets.

use vstd::prelude::*;
use vstd::string::StringExecFns;
use crate::chains::PointerChains;
use crate::flags::{FlagId, FlagSpec};
use crate::key::KeyState;
use crate::level::LevelFilterSerde;
use crate::widget::{CycleSpeed, FlagWidget, Position, Quitout, SavefileManager, Souls, Widget};

verus! {

/// Virtual-key code of the `0` key.
pub const VK_0: u32 = 0x30;
/// Virtual-key code of the left arrow.
pub const VK_LEFT: u32 = 0x25;
/// Virtual-key code of the up arrow.
pub const VK_UP: u32 = 0x26;
/// Virtual-key code of the right arrow.
pub const VK_RIGHT: u32 = 0x27;
/// Virtual-key code of the down arrow.
pub const VK_DOWN: u32 = 0x28;

/// Settings of the overlay.
#[derive(Debug)]
pub struct Settings {
    pub log_level: LevelFilterSerde,
    /// Opens and closes the menu.
    pub display: KeyState,
    /// Hides the overlay.
    pub hide: Option<KeyState>,
    pub down: KeyState,
    pub up: KeyState,
    pub left: KeyState,
    pub right: KeyState,
}

/// A command as the configuration writes it, flag names unchecked. Speeds
/// are the bit patterns of 32-bit floats.
#[derive(Debug)]
pub enum CfgCommand {
    SavefileManager { hotkey: KeyState },
    Flag { flag: String, hotkey: KeyState },
    Position { hotkey: KeyState },
    CycleSpeed { cycle_values: Vec<u32>, hotkey: KeyState },
    Souls { amount: u32, hotkey: KeyState },
    Quitout { hotkey: KeyState },
}

/// A checked command.
#[derive(Debug)]
pub enum CommandSpec {
    SavefileManager { hotkey: KeyState },
    Flag { flag: FlagSpec, hotkey: KeyState },
    Position { hotkey: KeyState },
    CycleSpeed { cycle_values: Vec<u32>, hotkey: KeyState },
    Souls { amount: u32, hotkey: KeyState },
    Quitout { hotkey: KeyState },
}

/// Whether a written command is well formed: a flag is named by a known
/// name, and a speed cycle is not empty.
pub open spec fn accepted(c: CfgCommand) -> bool {
    match c {
        CfgCommand::Flag { flag, .. } => exists|f: FlagId| f.spec_name() == flag@,
        CfgCommand::CycleSpeed { cycle_values, .. } => cycle_values@.len() > 0,
        _ => true,
    }
}

/// Whether `s` is the checked form of the written command `c`.
pub open spec fn checked_as(c: CfgCommand, s: CommandSpec) -> bool {
    match (c, s) {
        (CfgCommand::SavefileManager { hotkey: a }, CommandSpec::SavefileManager { hotkey: b }) => a
            == b,
        (CfgCommand::Flag { flag, hotkey: a }, CommandSpec::Flag { flag: f, hotkey: b }) => a == b
            && f.flag.spec_name() == flag@ && f.label@ == f.flag.spec_label(),
        (CfgCommand::Position { hotkey: a }, CommandSpec::Position { hotkey: b }) => a == b,
        (
            CfgCommand::CycleSpeed { cycle_values: v, hotkey: a },
            CommandSpec::CycleSpeed { cycle_values: w, hotkey: b },
        ) => a == b && v@ == w@,
        (CfgCommand::Souls { amount: x, hotkey: a }, CommandSpec::Souls { amount: y, hotkey: b }) => a
            == b && x == y,
        (CfgCommand::Quitout { hotkey: a }, CommandSpec::Quitout { hotkey: b }) => a == b,
        _ => false,
    }
}

/// Whether `w` is the widget built from `s` over `chains`: the same hotkey,
/// the cell that the command names, and its values.
pub open spec fn built_as(s: CommandSpec, chains: PointerChains, w: Widget) -> bool {
    match (s, w) {
        (CommandSpec::Flag { flag, hotkey }, Widget::Flag(x)) => x.hotkey@ == hotkey@ && x.label@
            == flag.label@ && x.flag@ == chains.flags@[flag.flag.spec_index() as int]@,
        (CommandSpec::CycleSpeed { cycle_values, hotkey }, Widget::CycleSpeed(x)) => x.hotkey@
            == hotkey@ && x.values@ == cycle_values@ && x.next == 0 && x.cell@ == chains.speed@,
        (CommandSpec::Souls { amount, hotkey }, Widget::Souls(x)) => x.hotkey@ == hotkey@
            && x.amount == amount && x.cell@ == chains.souls@,
        (CommandSpec::Quitout { hotkey }, Widget::Quitout(x)) => x.hotkey@ == hotkey@ && x.chain@
            == chains.quitout@,
        (CommandSpec::SavefileManager { hotkey }, Widget::SavefileManager(x)) => x.hotkey@
            == hotkey@ && !x.pending,
        (CommandSpec::Position { hotkey }, Widget::Position(x)) => x.hotkey@ == hotkey@ && x.chain@
            == chains.position@ && x.saved.is_none(),
        _ => false,
    }
}

/// The well-formed commands among `s`, in their order.
pub open spec fn accepted_commands(s: Seq<CfgCommand>) -> Seq<CfgCommand>
    decreases s.len(),
{
    if s.len() == 0 {
        s
    } else if accepted(s.last()) {
        accepted_commands(s.drop_last()).push(s.last())
    } else {
        accepted_commands(s.drop_last())
    }
}

/// A flag command with an unknown name is dropped alone: the well-formed
/// commands are those of the list without it.
pub proof fn lemma_unknown_flag_dropped(s: Seq<CfgCommand>, k: int)
    requires
        0 <= k < s.len(),
        s[k] matches CfgCommand::Flag { flag, .. } && forall|f: FlagId| f.spec_name() != flag@,
    ensures
        accepted_commands(s) == accepted_commands(s.remove(k)),
    decreases s.len(),
{
    if k == s.len() - 1 {
        assert(s.remove(k) =~= s.drop_last());
    } else {
        lemma_unknown_flag_dropped(s.drop_last(), k);
        assert(s.drop_last().remove(k) =~= s.remove(k).drop_last());
        assert(s.remove(k).last() == s.last());
    }
}

impl CfgCommand {
    /// Checks the command: an unknown flag name or an empty speed cycle is an
    /// error that says what is wrong.
    pub fn check(self) -> (r: Result<CommandSpec, String>)
        ensures
            r.is_ok() == accepted(self),
            r.is_ok() ==> checked_as(self, r.unwrap()),
    {
        match self {
            CfgCommand::SavefileManager { hotkey } => Ok(CommandSpec::SavefileManager { hotkey }),
            CfgCommand::Flag { flag, hotkey } => {
                let ghost name = flag@;
                match FlagSpec::try_from(flag) {
                    Ok(f) => Ok(CommandSpec::Flag { flag: f, hotkey }),
                    Err(e) => {
                        assert(!exists|f: FlagId| f.spec_name() == name);
                        Err(e)
                    },
                }
            },
            CfgCommand::Position { hotkey } => Ok(CommandSpec::Position { hotkey }),
            CfgCommand::CycleSpeed { cycle_values, hotkey } => {
                if cycle_values.len() == 0 {
                    Err(String::from_str("a speed command needs at least one cycle value"))
                } else {
                    Ok(CommandSpec::CycleSpeed { cycle_values, hotkey })
                }
            },
            CfgCommand::Souls { amount, hotkey } => Ok(CommandSpec::Souls { amount, hotkey }),
            CfgCommand::Quitout { hotkey } => Ok(CommandSpec::Quitout { hotkey }),
        }
    }
}

impl CommandSpec {
    /// The widget this command becomes over `chains`.
    pub fn to_widget(&self, chains: &PointerChains) -> (r: Widget)
        requires
            chains.wf(),
        ensures
            built_as(*self, *chains, r),
            r.wf(),
    {
        match self {
            CommandSpec::Flag { flag, hotkey } => {
                let f = chains.flag(flag.flag).copy();
                let label = String::from_str(flag.label.as_str());
                Widget::Flag(FlagWidget::new(label, f, hotkey.copy()))
            },
            CommandSpec::CycleSpeed { cycle_values, hotkey } => Widget::CycleSpeed(
                CycleSpeed::new(cycle_values.clone(), chains.speed.copy(), hotkey.copy()),
            ),
            CommandSpec::Souls { amount, hotkey } => Widget::Souls(
                Souls::new(*amount, chains.souls.copy(), hotkey.copy()),
            ),
            CommandSpec::Quitout { hotkey } => Widget::Quitout(
                Quitout::new(chains.quitout.copy(), hotkey.copy()),
            ),
            CommandSpec::SavefileManager { hotkey } => Widget::SavefileManager(
                SavefileManager::new(hotkey.copy()),
            ),
            CommandSpec::Position { hotkey } => Widget::Position(
                Position::new(chains.position.copy(), hotkey.copy()),
            ),
        }
    }
}

/// A loaded configuration.
#[derive(Debug)]
pub struct Config {
    pub settings: Settings,
    pub commands: Vec<CommandSpec>,
}

impl Config {
    /// Checks the written commands: each ill-formed one is dropped, with one
    /// error for it, and the others are kept in their order.
    pub fn from_parts(settings: Settings, commands: Vec<CfgCommand>) -> (r: (
        Config,
        Vec<String>,
    ))
        ensures
            r.0.settings == settings,
            r.0.commands@.len() == accepted_commands(commands@).len(),
            forall|i: int|
                0 <= i < r.0.commands@.len() ==> checked_as(
                    accepted_commands(commands@)[i],
                    #[trigger] r.0.commands@[i],
                ),
            r.1@.len() + r.0.commands@.len() == commands@.len(),
    {
        let ghost all = commands@;
        let n = commands.len();
        let mut rest = commands;
        let mut kept: Vec<CommandSpec> = Vec::new();
        let mut errors: Vec<String> = Vec::new();
        let mut i: usize = 0;
        proof {
            assert(accepted_commands(all.take(0)) =~= Seq::<CfgCommand>::empty());
        }
        while rest.len() > 0
            invariant
                i + rest@.len() == all.len() == n,
                rest@ == all.subrange(i as int, all.len() as int),
                kept@.len() == accepted_commands(all.take(i as int)).len(),
                forall|j: int|
                    0 <= j < kept@.len() ==> checked_as(
                        accepted_commands(all.take(i as int))[j],
                        #[trigger] kept@[j],
                    ),
                errors@.len() + kept@.len() == i,
            decreases rest@.len(),
        {
            let c = rest.remove(0);
            let ghost prev = accepted_commands(all.take(i as int));
            proof {
                assert(all.take(i + 1).drop_last() =~= all.take(i as int));
                assert(all.take(i + 1).last() == c);
            }
            match c.check() {
                Ok(s) => {
                    kept.push(s);
                    proof {
                        assert(accepted_commands(all.take(i + 1)) == prev.push(c));
                    }
                },
                Err(e) => {
                    errors.push(e);
                    proof {
                        assert(accepted_commands(all.take(i + 1)) == prev);
                    }
                },
            }
            i = i + 1;
            assert(rest@ =~= all.subrange(i as int, all.len() as int));
        }
        assert(all.take(i as int) =~= all);
        (Config { settings, commands: kept }, errors)
    }

    /// The loaded configuration, or where loading failed the default one and
    /// the reason.
    pub fn or_default(loaded: Result<Config, String>) -> (r: (Config, Option<String>))
        ensures
            match loaded {
                Ok(c) => r.0 == c && r.1.is_none(),
                Err(e) => is_default_config(r.0) && r.1 == Some(e),
            },
    {
        match loaded {
            Ok(c) => (c, None),
            Err(e) => (Config::default(), Some(e)),
        }
    }

    /// The widgets of the commands, one for each, in their order.
    pub fn make_commands(&self, chains: &PointerChains) -> (r: Vec<Widget>)
        requires
            chains.wf(),
        ensures
            r@.len() == self.commands@.len(),
            forall|i: int|
                0 <= i < r@.len() ==> built_as(self.commands@[i], *chains, #[trigger] r@[i])
                    && r@[i].wf(),
    {
        let mut out: Vec<Widget> = Vec::new();
        let mut i: usize = 0;
        while i < self.commands.len()
            invariant
                i <= self.commands@.len(),
                chains.wf(),
                out@.len() == i,
                forall|j: int|
                    0 <= j < i ==> built_as(self.commands@[j], *chains, #[trigger] out@[j])
                        && out@[j].wf(),
            decreases self.commands@.len() - i,
        {
            out.push(self.commands[i].to_widget(chains));
            i = i + 1;
        }
        out
    }
}

/// Whether `c` is the default configuration: logging at debug level, the
/// `0` key to open the menu, the arrows to move in it, no hide key and no
/// commands.
pub open spec fn is_default_config(c: Config) -> bool {
    &&& c.settings.log_level.0 == log::LevelFilter::Debug
    &&& c.settings.display@ == KeyState::new_spec(VK_0)
    &&& c.settings.hide.is_none()
    &&& c.settings.down@ == KeyState::new_spec(VK_DOWN)
    &&& c.settings.up@ == KeyState::new_spec(VK_UP)
    &&& c.settings.left@ == KeyState::new_spec(VK_LEFT)
    &&& c.settings.right@ == KeyState::new_spec(VK_RIGHT)
    &&& c.commands@.len() == 0
}

impl Default for Config {
    /// Logging at debug level, the `0` key to open the menu, the arrows to
    /// move in it, no hide key and no commands.
    fn default() -> (r: Config)
        ensures
            is_default_config(r),
    {
        Config {
            settings: Settings {
                log_level: LevelFilterSerde(log::LevelFilter::Debug),
                display: KeyState::new(VK_0),
                hide: None,
                down: KeyState::new(VK_DOWN),
                up: KeyState::new(VK_UP),
                left: KeyState::new(VK_LEFT),
                right: KeyState::new(VK_RIGHT),
            },
            commands: Vec::new(),
        }
    }
}

} // verus!
