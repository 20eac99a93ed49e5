use ds3_practice_tool::cell::{Bitflag, WordCell};
use ds3_practice_tool::chains::PointerChains;
use ds3_practice_tool::config::{CfgCommand, CommandSpec, Config, Settings, VK_0};
use ds3_practice_tool::flags::{FlagId, FlagSpec, FLAG_COUNT};
use ds3_practice_tool::key::KeyState;
use ds3_practice_tool::keynames::{get_key_code, parse_chord};
use ds3_practice_tool::level::LevelFilterSerde;
use ds3_practice_tool::memory::Memory;
use ds3_practice_tool::pointer::PointerChain;
use ds3_practice_tool::rows::RowTool;
use ds3_practice_tool::tool::PracticeTool;
use ds3_practice_tool::ui::{igt_parts, next_row, prev_row, retain_recent, LogEntry, UiState};
use ds3_practice_tool::version::{detect_version, DetectError, Signature, Version};
use ds3_practice_tool::widget::{CycleSpeed, Position, Quitout, SavefileManager, Souls, Widget};

const START: u64 = 0x1000;

/// 128 bytes at 0x1000; the word at 0x1000 points to 0x1010, the word at
/// 0x1008 is null.
fn memory() -> Memory {
    let mut bytes = vec![0u8; 128];
    bytes[0..8].copy_from_slice(&0x1010u64.to_le_bytes());
    Memory::new(START, bytes).unwrap()
}

fn chain(base: u64, offsets: &[u64]) -> PointerChain {
    PointerChain::new(base, offsets.to_vec())
}

fn chains_with_speed(speed: WordCell) -> PointerChains {
    let flags: Vec<Bitflag> =
        (0..FLAG_COUNT).map(|i| Bitflag::new(chain(START, &[0, 0x20 + i as u64]), 0)).collect();
    PointerChains::new(
        flags,
        speed,
        WordCell::new(chain(START, &[0, 0x08])),
        chain(START, &[0, 0x0c]),
        Bitflag::new(chain(START, &[0, 0x0d]), 1),
        WordCell::new(chain(START, &[0, 0x10])),
        chain(START, &[0, 0x50]),
    )
    .unwrap()
}

fn settings() -> Settings {
    Config::default().settings
}

#[test]
fn memory_reads_little_endian_words() {
    let m = memory();
    assert_eq!(m.read_le(START, 8), Some(0x1010));
    assert_eq!(m.read_le(START, 2), Some(0x1010));
    assert_eq!(m.read_le(START + 1, 1), Some(0x10));
    assert_eq!(m.read_u8(START - 1), None);
    assert_eq!(m.read_le(START + 124, 8), None);
    assert_eq!(m.read_le(START + 120, 8), Some(0));
}

#[test]
fn memory_write_then_read() {
    let mut m = memory();
    assert!(m.write_le(START + 0x30, 0xdead_beef, 4));
    assert_eq!(m.read_le(START + 0x30, 4), Some(0xdead_beef));
    assert_eq!(m.read_u8(START + 0x30), Some(0xef));
    assert_eq!(m.read_u8(START + 0x34), Some(0));
    assert!(!m.write_le(START + 126, 1, 4));
    assert!(!m.write_u8(START + 128, 1));
}

#[test]
fn memory_refuses_region_past_address_space() {
    assert!(Memory::new(u64::MAX - 3, vec![0; 8]).is_none());
    assert!(Memory::new(u64::MAX - 8, vec![0; 8]).is_some());
}

#[test]
fn resolve_follows_pointers() {
    let m = memory();
    assert_eq!(chain(START, &[0, 4]).resolve(&m), Some(0x1014));
    assert_eq!(chain(START, &[]).resolve(&m), Some(START));
    assert_eq!(chain(START, &[8]).resolve(&m), Some(0x1008));
}

#[test]
fn resolve_fails_on_null_unmapped_or_overflow() {
    let m = memory();
    // null pointer at 0x1008
    assert_eq!(chain(START, &[8, 4]).resolve(&m), None);
    // unmapped pointer
    assert_eq!(chain(0x9000, &[0, 4]).resolve(&m), None);
    // the pointer at 0x1000 leads to 0x1010, whose word is null
    assert_eq!(chain(START, &[0, 0, 0]).resolve(&m), None);
    // the last offset passes the address space
    assert_eq!(chain(START, &[0, u64::MAX]).resolve(&m), None);
}

#[test]
fn resolve_is_deterministic_on_one_snapshot() {
    let m = memory();
    let c = chain(START, &[0, 4]);
    assert_eq!(c.resolve(&m), c.resolve(&m));
}

#[test]
fn bitflag_set_then_get() {
    let mut m = memory();
    let f = Bitflag::new(chain(START, &[0, 0x20]), 3);
    assert_eq!(f.get(&m), Some(false));
    assert!(f.set(&mut m, true));
    assert_eq!(f.get(&m), Some(true));
    assert_eq!(m.read_u8(0x1030), Some(0b0000_1000));
    assert!(f.set(&mut m, false));
    assert_eq!(f.get(&m), Some(false));
    assert_eq!(m.read_u8(0x1030), Some(0));
}

#[test]
fn bitflag_keeps_other_bits() {
    let mut m = memory();
    assert!(m.write_u8(0x1030, 0b1111_0111));
    let f = Bitflag::new(chain(START, &[0, 0x20]), 3);
    assert_eq!(f.get(&m), Some(false));
    assert!(f.set(&mut m, false));
    assert_eq!(m.read_u8(0x1030), Some(0b1111_0111));
    assert!(f.set(&mut m, true));
    assert_eq!(m.read_u8(0x1030), Some(0b1111_1111));
    assert!(f.set(&mut m, true));
    assert_eq!(m.read_u8(0x1030), Some(0b1111_1111));
    assert!(f.set(&mut m, false));
    assert_eq!(m.read_u8(0x1030), Some(0b1111_0111));
}

#[test]
fn bitflag_unresolvable_is_skipped() {
    let mut m = memory();
    let before = m.bytes.clone();
    let f = Bitflag::new(chain(START, &[8, 0]), 0);
    assert_eq!(f.get(&m), None);
    assert!(!f.is_valid(&m));
    assert!(!f.set(&mut m, true));
    assert_eq!(m.bytes, before);
}

#[test]
fn word_cell_reads_and_writes() {
    let mut m = memory();
    let c = WordCell::new(chain(START, &[0, 0x18]));
    assert_eq!(c.read(&m), Some(0));
    assert!(c.write(&mut m, 123_456));
    assert_eq!(c.read(&m), Some(123_456));
    assert_eq!(m.read_le(0x1028, 4), Some(123_456));
    assert!(!WordCell::new(chain(START, &[0, 0x6e])).write(&mut m, 1));
}

#[test]
fn key_state_reports_rising_edge_once() {
    let mut k = KeyState::new(0x70);
    let down = vec![0x70];
    let up: Vec<u32> = vec![];
    let samples = [&down, &down, &down, &up, &down, &down];
    let got: Vec<bool> = samples.iter().map(|s| k.is_pressed(s)).collect();
    assert_eq!(got, vec![true, false, false, false, true, false]);
}

#[test]
fn key_state_needs_modifiers() {
    let mut k = KeyState::with_modifiers(0x70, vec![0x11]);
    assert!(!k.is_pressed(&vec![0x70]));
    assert!(k.is_pressed(&vec![0x70, 0x11]));
    assert!(!k.is_pressed(&vec![0x11, 0x70]));
    assert!(!k.is_pressed(&vec![0x11]));
    assert!(k.is_pressed(&vec![0x11, 0x70, 0x12]));
}

#[test]
fn cycle_speed_wraps_around() {
    let mut m = memory();
    let cell = WordCell::new(chain(START, &[0, 0x18]));
    let values = vec![1.0f32.to_bits(), 2.0f32.to_bits(), 0.5f32.to_bits()];
    let mut w = CycleSpeed::new(values, cell.clone(), KeyState::new(0x71));
    let mut seen = Vec::new();
    for _ in 0..4 {
        assert!(w.activate(&mut m));
        seen.push(f32::from_bits(cell.read(&m).unwrap()));
    }
    assert_eq!(seen, vec![1.0, 2.0, 0.5, 1.0]);
    assert_eq!(w.next, 1);
}

#[test]
fn souls_writes_amount() {
    let mut m = memory();
    let cell = WordCell::new(chain(START, &[0, 0x18]));
    let w = Souls::new(100_000, cell.clone(), KeyState::new(0x72));
    assert!(w.activate(&mut m));
    assert_eq!(cell.read(&m), Some(100_000));
}

#[test]
fn quitout_sets_request_byte() {
    let mut m = memory();
    let w = Quitout::new(chain(START, &[0, 0x1c]), KeyState::new(0x73));
    assert!(w.activate(&mut m));
    assert_eq!(m.read_u8(0x102c), Some(1));
}

#[test]
fn widget_hotkey_and_click_share_the_effect() {
    let mut m = memory();
    let flag = Bitflag::new(chain(START, &[0, 0x20]), 0);
    let mut w = Widget::Flag(ds3_practice_tool::widget::FlagWidget::new(
        "Gravity".to_string(),
        flag.clone(),
        KeyState::new(0x74),
    ));
    assert!(w.interact(&mut m, &vec![0x74], false));
    assert_eq!(flag.get(&m), Some(true));
    // held: no new press
    assert!(!w.interact(&mut m, &vec![0x74], false));
    assert_eq!(flag.get(&m), Some(true));
    assert!(w.interact(&mut m, &vec![], true));
    assert_eq!(flag.get(&m), Some(false));
}

#[test]
fn invalid_widget_is_inert() {
    let mut m = memory();
    let before = m.bytes.clone();
    let bad = chain(START, &[8, 0]);
    let mut widgets = vec![
        Widget::Flag(ds3_practice_tool::widget::FlagWidget::new(
            "x".to_string(),
            Bitflag::new(bad.clone(), 2),
            KeyState::new(0x75),
        )),
        Widget::Souls(Souls::new(5, WordCell::new(bad.clone()), KeyState::new(0x75))),
        Widget::CycleSpeed(CycleSpeed::new(vec![1], WordCell::new(bad.clone()), KeyState::new(0x75))),
        Widget::Quitout(Quitout::new(bad.clone(), KeyState::new(0x75))),
    ];
    for w in widgets.iter_mut() {
        assert!(!w.is_valid(&m));
        assert!(w.interact(&mut m, &vec![0x75], false));
        assert!(!w.activate(&mut m));
        assert!(w.interact(&mut m, &vec![], true));
    }
    assert_eq!(m.bytes, before);
}

#[test]
fn level_filter_parses_names() {
    assert_eq!(LevelFilterSerde::try_from("debug".to_string()).unwrap().inner(), log::LevelFilter::Debug);
    assert_eq!(LevelFilterSerde::try_from("WARN".to_string()).unwrap().inner(), log::LevelFilter::Warn);
    assert_eq!(LevelFilterSerde::try_from("Off".to_string()).unwrap().inner(), log::LevelFilter::Off);
    let e = LevelFilterSerde::try_from("loud".to_string()).unwrap_err();
    assert_eq!(
        e,
        "Couldn't parse log level filter: attempted to convert a string that doesn't match an existing log level"
    );
}

#[test]
fn flag_spec_from_names() {
    let s = FlagSpec::try_from("inf_stamina".to_string()).unwrap();
    assert_eq!(s.label, "Inf Stamina");
    assert_eq!(s.flag, FlagId::InfStamina);
    let s = FlagSpec::try_from("rend_mesh_lo".to_string()).unwrap();
    assert_eq!(s.label, "Collision mesh (lo)");
    assert_eq!(s.flag.index(), 14);
    assert_eq!(
        FlagSpec::try_from("bogus_flag".to_string()).unwrap_err(),
        "\"bogus_flag\" is not a valid flag specifier"
    );
    assert_eq!(FlagSpec::new("Label", FlagId::Gravity).label, "Label");
}

#[test]
fn config_drops_unknown_flag_only() {
    let cmds = vec![
        CfgCommand::Flag { flag: "no_death".to_string(), hotkey: KeyState::new(0x70) },
        CfgCommand::Flag { flag: "bogus_flag".to_string(), hotkey: KeyState::new(0x71) },
        CfgCommand::Souls { amount: 10, hotkey: KeyState::new(0x72) },
        CfgCommand::CycleSpeed { cycle_values: vec![], hotkey: KeyState::new(0x73) },
        CfgCommand::Quitout { hotkey: KeyState::new(0x74) },
    ];
    let (cfg, errors) = Config::from_parts(settings(), cmds);
    assert_eq!(errors, vec![
        "\"bogus_flag\" is not a valid flag specifier".to_string(),
        "a speed command needs at least one cycle value".to_string(),
    ]);
    assert_eq!(cfg.commands.len(), 3);
    assert!(matches!(&cfg.commands[0], CommandSpec::Flag { flag, .. } if flag.flag == FlagId::NoDeath));
    assert!(matches!(&cfg.commands[1], CommandSpec::Souls { amount: 10, .. }));
    assert!(matches!(&cfg.commands[2], CommandSpec::Quitout { .. }));
}

#[test]
fn config_invalid_syntax_gives_default() {
    let parsed: Result<Config, String> = toml::from_str::<toml::Value>("settings = = [")
        .map(|_| Config::default())
        .map_err(|e| format!("TOML configuration parse error: {}", e));
    assert!(parsed.is_err());
    let (cfg, err) = Config::or_default(parsed);
    assert!(cfg.commands.is_empty());
    assert_eq!(cfg.settings.display.key, VK_0);
    assert!(err.unwrap().starts_with("TOML configuration parse error"));
}

#[test]
fn config_default_settings() {
    let cfg = Config::default();
    assert_eq!(cfg.settings.log_level.inner(), log::LevelFilter::Debug);
    assert_eq!(cfg.settings.display.key, 0x30);
    assert_eq!(cfg.settings.down.key, 0x28);
    assert_eq!(cfg.settings.up.key, 0x26);
    assert_eq!(cfg.settings.left.key, 0x25);
    assert_eq!(cfg.settings.right.key, 0x27);
    assert!(cfg.settings.hide.is_none());
    assert!(cfg.commands.is_empty());
}

#[test]
fn make_commands_keeps_order() {
    let chains = chains_with_speed(WordCell::new(chain(START, &[0, 0x18])));
    let cmds = vec![
        CfgCommand::Souls { amount: 7, hotkey: KeyState::new(0x70) },
        CfgCommand::SavefileManager { hotkey: KeyState::new(0x71) },
        CfgCommand::Flag { flag: "gravity".to_string(), hotkey: KeyState::new(0x72) },
        CfgCommand::Position { hotkey: KeyState::new(0x73) },
        CfgCommand::CycleSpeed { cycle_values: vec![5], hotkey: KeyState::new(0x74) },
    ];
    let (cfg, errors) = Config::from_parts(settings(), cmds);
    assert!(errors.is_empty());
    let ws = cfg.make_commands(&chains);
    assert_eq!(ws.len(), 5);
    assert!(matches!(&ws[0], Widget::Souls(s) if s.amount == 7));
    assert!(matches!(&ws[1], Widget::SavefileManager(s) if !s.pending && s.hotkey.key == 0x71));
    match &ws[2] {
        Widget::Flag(f) => {
            assert_eq!(f.label, "Gravity");
            assert_eq!(f.flag.chain.offsets, vec![0, 0x20 + 19]);
        },
        _ => panic!("expected a flag widget"),
    }
    assert!(matches!(&ws[3], Widget::Position(p) if p.saved.is_none() && p.chain.offsets == vec![0, 0x50]));
    assert!(matches!(&ws[4], Widget::CycleSpeed(c) if c.values == vec![5]));
}

#[test]
fn ui_state_transitions() {
    let s = UiState::Closed;
    let s = s.step(true, false, false);
    assert_eq!(s, UiState::MenuOpen);
    let s = s.step(true, false, false);
    assert_eq!(s, UiState::Closed);
    assert_eq!(UiState::MenuOpen.step(false, true, false), UiState::Hidden);
    assert_eq!(UiState::Closed.step(false, true, false), UiState::Hidden);
    assert_eq!(UiState::Hidden.step(true, false, false), UiState::Closed);
    assert_eq!(UiState::Hidden.step(false, true, false), UiState::Closed);
    assert_eq!(UiState::Closed.step(true, false, true), UiState::Closed);
    assert!(UiState::MenuOpen.should_block_messages());
    assert!(!UiState::Closed.should_block_messages());
    assert!(!UiState::Hidden.should_block_messages());
}

#[test]
fn rows_stay_in_range() {
    assert_eq!(next_row(0, 3), 1);
    assert_eq!(next_row(2, 3), 2);
    assert_eq!(prev_row(2), 1);
    assert_eq!(prev_row(0), 0);
}

#[test]
fn igt_is_split() {
    assert_eq!(igt_parts(3_723_456), (1, 2, 3, 45));
    assert_eq!(igt_parts(0), (0, 0, 0, 0));
    assert_eq!(igt_parts(59_999), (0, 0, 59, 99));
}

#[test]
fn old_messages_age_out() {
    let mut log = vec![
        LogEntry { at_ms: 1000, text: "a".to_string() },
        LogEntry { at_ms: 4000, text: "b".to_string() },
        LogEntry { at_ms: 8000, text: "c".to_string() },
    ];
    retain_recent(&mut log, 8500);
    let texts: Vec<&str> = log.iter().map(|e| e.text.as_str()).collect();
    assert_eq!(texts, vec!["b", "c"]);
    retain_recent(&mut log, 8000 + 5000);
    assert!(log.is_empty());
}

#[test]
fn detects_version_by_signature() {
    let mut bytes = vec![0u8; 32];
    bytes[4..8].copy_from_slice(&[0xde, 0xad, 0xbe, 0xef]);
    let module = Memory::new(0x4000, bytes).unwrap();
    let v1 = Version { major: 1, minor: 8, patch: 0 };
    let v2 = Version { major: 1, minor: 15, patch: 2 };
    let known = vec![
        Signature { version: v1, offset: 4, pattern: vec![1, 2, 3, 4], region_offsets: vec![0x10] },
        Signature { version: v2, offset: 4, pattern: vec![0xde, 0xad], region_offsets: vec![0x10, 0x200] },
    ];
    let b = detect_version(&module, &known).unwrap();
    assert_eq!(b.version, v2);
    assert_eq!(b.regions, vec![0x4010, 0x4200]);
    assert_eq!(b.region(1), Some(0x4200));
    assert_eq!(b.region(2), None);
    assert_eq!(detect_version(&module, &known[..1].to_vec()).unwrap_err(), DetectError::UnknownVersion);
}

#[test]
fn frame_drives_state_and_widgets() {
    let mut m = memory();
    let chains = chains_with_speed(WordCell::new(chain(START, &[0, 0x18])));
    let cmds = vec![CfgCommand::Flag { flag: "all_no_damage".to_string(), hotkey: KeyState::new(0x70) }];
    let (cfg, _) = Config::from_parts(settings(), cmds);
    let mut tool = PracticeTool::new(cfg, chains.clone());
    assert_eq!(tool.ui_state, UiState::Closed);
    assert_eq!(tool.frame(&mut m, &vec![VK_0], false), UiState::MenuOpen);
    assert_eq!(chains.cursor_show.get(&m), Some(true));
    assert!(tool.should_block_messages());
    // still held: no new transition
    assert_eq!(tool.frame(&mut m, &vec![VK_0], false), UiState::MenuOpen);
    // the widget's hotkey toggles its flag
    tool.frame(&mut m, &vec![0x70], false);
    assert_eq!(chains.flags[0].get(&m), Some(true));
    // released, then pressed while the interface wants the keyboard
    tool.frame(&mut m, &vec![], false);
    tool.frame(&mut m, &vec![0x70, VK_0], true);
    assert_eq!(chains.flags[0].get(&m), Some(true));
    assert_eq!(tool.ui_state, UiState::MenuOpen);
    tool.frame(&mut m, &vec![], false);
    assert_eq!(tool.frame(&mut m, &vec![VK_0], false), UiState::Closed);
    assert_eq!(chains.cursor_show.get(&m), Some(false));
    assert!(tool.click(0, &mut m));
    assert_eq!(chains.flags[0].get(&m), Some(false));
    assert!(!tool.click(5, &mut m));
    assert!(tool.is_valid(0, &m));
    tool.push_log("hello".to_string(), 100);
    tool.age_log(5200);
    assert!(tool.log.is_empty());
}

#[test]
fn key_names_and_chords() {
    assert_eq!(get_key_code("0"), Some(0x30));
    assert_eq!(get_key_code("q"), Some(0x51));
    assert_eq!(get_key_code("Q"), Some(0x51));
    assert_eq!(get_key_code("down"), Some(0x28));
    assert_eq!(get_key_code("f12"), Some(0x7B));
    assert_eq!(get_key_code("numpad3"), Some(0x63));
    assert_eq!(get_key_code("bogus"), None);
    assert_eq!(get_key_code(""), None);
    let k = parse_chord("ctrl+shift+f1").unwrap();
    assert_eq!(k.key, 0x70);
    assert_eq!(k.modifiers, vec![0x11, 0x10]);
    assert!(!k.was_down);
    let k = parse_chord("9").unwrap();
    assert_eq!((k.key, k.modifiers.len()), (0x39, 0));
    assert!(parse_chord("ctrl+").is_none());
    assert!(parse_chord("hyper+f1").is_none());
    assert!(parse_chord("").is_none());
}

#[test]
fn position_saves_then_restores() {
    let mut m = memory();
    let mut w = Position::new(chain(START, &[0, 0x50]), KeyState::new(0x76));
    assert!(m.write_le(0x1060, 0x0102_0304, 4));
    assert!(w.activate(&mut m));
    assert_eq!(w.saved.as_ref().unwrap().len(), 12);
    assert!(m.write_le(0x1060, 0, 4));
    assert!(w.activate(&mut m));
    assert_eq!(m.read_le(0x1060, 4), Some(0x0102_0304));
    let mut bad = Position::new(chain(START, &[8, 0]), KeyState::new(0x76));
    assert!(!bad.activate(&mut m));
    assert!(bad.saved.is_none());
}

#[test]
fn savefile_manager_records_request() {
    let mut w = SavefileManager::new(KeyState::new(0x77));
    assert!(!w.take_request());
    assert!(w.activate());
    assert!(w.take_request());
    assert!(!w.take_request());
}

#[test]
fn held_display_key_toggles_once_over_frames() {
    let mut m = memory();
    let chains = chains_with_speed(WordCell::new(chain(START, &[0, 0x18])));
    let (cfg, _) = Config::from_parts(settings(), vec![]);
    let mut tool = PracticeTool::new(cfg, chains);
    let frames = [false, true, true, true];
    let got: Vec<UiState> = frames
        .iter()
        .map(|d| tool.frame(&mut m, &if *d { vec![VK_0] } else { vec![] }, false))
        .collect();
    assert_eq!(got, vec![UiState::Closed, UiState::MenuOpen, UiState::MenuOpen, UiState::MenuOpen]);
    let frames = [false, true, false, true, true];
    let got: Vec<UiState> = frames
        .iter()
        .map(|d| tool.frame(&mut m, &if *d { vec![VK_0] } else { vec![] }, false))
        .collect();
    assert_eq!(got, vec![UiState::MenuOpen, UiState::Closed, UiState::Closed, UiState::MenuOpen, UiState::MenuOpen]);
}

#[test]
fn speed_widget_cycles_through_frames() {
    let mut m = memory();
    let speed = WordCell::new(chain(START, &[0, 0x18]));
    let chains = chains_with_speed(speed.clone());
    let cmds = vec![CfgCommand::CycleSpeed {
        cycle_values: vec![1.0f32.to_bits(), 2.0f32.to_bits(), 0.5f32.to_bits()],
        hotkey: KeyState::new(0x71),
    }];
    let (cfg, _) = Config::from_parts(settings(), cmds);
    let mut tool = PracticeTool::new(cfg, chains);
    let mut seen = Vec::new();
    for _ in 0..4 {
        tool.frame(&mut m, &vec![0x71], false);
        seen.push(f32::from_bits(speed.read(&m).unwrap()));
        tool.frame(&mut m, &vec![], false);
    }
    assert_eq!(seen, vec![1.0, 2.0, 0.5, 1.0]);
}

#[test]
fn failed_load_gives_default_settings() {
    let (cfg, err) = Config::or_default(Err("Couldn't read config file".to_string()));
    assert_eq!(err.as_deref(), Some("Couldn't read config file"));
    assert_eq!(cfg.settings.log_level.inner(), log::LevelFilter::Debug);
    assert_eq!(cfg.settings.display.key, VK_0);
    assert_eq!(cfg.settings.down.key, 0x28);
    assert!(cfg.settings.hide.is_none());
    assert!(cfg.commands.is_empty());
}

#[test]
fn row_tool_moves_and_activates() {
    let mut m = memory();
    let chains = chains_with_speed(WordCell::new(chain(START, &[0, 0x18])));
    let cmds = vec![
        CfgCommand::Flag { flag: "all_no_damage".to_string(), hotkey: KeyState::new(0x70) },
        CfgCommand::Flag { flag: "inf_stamina".to_string(), hotkey: KeyState::new(0x71) },
    ];
    let (cfg, _) = Config::from_parts(settings(), cmds);
    let ws = cfg.make_commands(&chains);
    let (display, interact, next, prev) = (0x30, 0x0D, 0x28, 0x26);
    let mut t = RowTool::new(
        KeyState::new(display),
        KeyState::new(interact),
        KeyState::new(next),
        KeyState::new(prev),
        ws,
    );
    t.frame(&mut m, &vec![next]);
    assert_eq!(t.current_row, 1);
    t.frame(&mut m, &vec![]);
    t.frame(&mut m, &vec![next]);
    assert_eq!(t.current_row, 1);
    t.frame(&mut m, &vec![interact]);
    assert_eq!(chains.flags[1].get(&m), Some(true));
    assert_eq!(chains.flags[0].get(&m), Some(false));
    t.frame(&mut m, &vec![prev]);
    assert_eq!(t.current_row, 0);
    t.frame(&mut m, &vec![display]);
    assert!(!t.capturing);
    t.frame(&mut m, &vec![interact, next]);
    assert_eq!(t.current_row, 0);
    assert_eq!(chains.flags[0].get(&m), Some(false));
    let mut empty = RowTool::new(
        KeyState::new(display),
        KeyState::new(interact),
        KeyState::new(next),
        KeyState::new(prev),
        vec![],
    );
    empty.frame(&mut m, &vec![next]);
    assert_eq!(empty.current_row, 0);
}
