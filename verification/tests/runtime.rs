use strata::api::{ApiError, ConfigCommands, StrataApi};
use strata::config::{
    StrataInputSetup, StrataRepeatInfoUpdate, StrataXkbConfig, StrataXkbConfigUpdate,
};
use strata::input::{
    Key, KeyState, Modifier, ModifiersState, KEYSYM_ALT_L, KEYSYM_CONTROL_L, MOD_ALT_L,
    MOD_CONTROL_L,
};
use strata::state::{Compositor, KeyboardAction, Runtime, RuntimePhase, Strata};
use strata::workspaces::{Output, StrataWindow};
use strata::geometry::Rect;

const KEYSYM_RETURN: u32 = 0xff0d;

fn raw(depressed: u32, locked: u32) -> ModifiersState {
    ModifiersState { depressed, latched: 0, locked, group: 0 }
}

fn keyboard_action(s: &mut Strata, state: ModifiersState, keysym: u32, kind: KeyState) -> Option<KeyboardAction> {
    s.on_keyboard(&state, keysym, kind)
}

#[test]
fn keybind_dispatch_spawns_exactly_once() {
    // Keybind dispatch: {Control_L|Alt_L, Return} is bound to a callback that
    // spawns "kitty"; pressing Control_L, Alt_L, Return in that order runs
    // that callback exactly once.
    let mut comp = Compositor::new(5, raw(0, 0));
    let modifier = Modifier::from_bits(MOD_CONTROL_L | MOD_ALT_L).unwrap();
    let spawn_kitty_cb: u64 = 1;
    comp.register_keybind(modifier, Key(KEYSYM_RETURN), spawn_kitty_cb);
    let mut strata = Strata::new(comp);

    let mut spawned: Vec<String> = Vec::new();
    let mut run_callback = |strata: &mut Strata, spawned: &mut Vec<String>| {
        // the driver's scope around one interpreter run
        strata.rt.enter_scope().unwrap();
        strata.rt.begin_execute();
        let cb = strata.rt.executor.unwrap();
        if cb == spawn_kitty_cb {
            match StrataApi::spawn(&vec![String::from("kitty")]) {
                Ok(ConfigCommands::Spawn(cmd)) => spawned.push(cmd),
                _ => panic!("unexpected command"),
            }
        }
        strata.rt.finish_execute();
        strata.rt.exit_scope();
    };

    let r1 = keyboard_action(&mut strata, raw(1, 0), KEYSYM_CONTROL_L, KeyState::Pressed);
    assert!(r1.is_none());
    let r2 = keyboard_action(&mut strata, raw(2, 0), KEYSYM_ALT_L, KeyState::Pressed);
    assert!(r2.is_none());
    let r3 = keyboard_action(&mut strata, raw(2, 0), KEYSYM_RETURN, KeyState::Pressed);
    assert!(matches!(r3, Some(KeyboardAction::ExecutedLua)));
    run_callback(&mut strata, &mut spawned);

    assert_eq!(spawned, [String::from("kitty")]);
}

#[test]
fn scoped_reentrancy_is_refused() {
    // Scoped reentrancy guard: opening a second compositor scope while one is
    // active fails deterministically; the first scope stays usable.
    let mut rt = Runtime::new();
    assert!(rt.enter_scope().is_ok());
    assert!(rt.enter_scope().is_err());
    assert_eq!(rt.phase, RuntimePhase::Scoped);
    rt.exit_scope();
    assert_eq!(rt.phase, RuntimePhase::Idle);
    assert!(rt.enter_scope().is_ok());
}

#[test]
fn run_keybind_reports_whether_a_callback_ran() {
    let mut comp = Compositor::new(2, raw(0, 0));
    let modifier = Modifier::from_bits(MOD_CONTROL_L).unwrap();
    comp.register_keybind(modifier, Key(0x61), 9);
    let mut strata = Strata::new(comp);
    let pat = strata::input::KeyPattern { modifier, key: Key(0x61) };
    assert!(strata.run_keybind(pat));
    assert_eq!(strata.rt.executor, Some(9));
    let other = strata::input::KeyPattern { modifier, key: Key(0x62) };
    assert!(!strata.run_keybind(other));
}

#[test]
fn released_keys_and_unbound_chords_forward() {
    let mut comp = Compositor::new(2, raw(0, 0));
    comp.register_keybind(Modifier::from_bits(MOD_CONTROL_L).unwrap(), Key(0x61), 3);
    let mut strata = Strata::new(comp);
    assert!(keyboard_action(&mut strata, raw(0, 0), 0x61, KeyState::Released).is_none());
    assert!(keyboard_action(&mut strata, raw(0, 0), 0x61, KeyState::Pressed).is_none());
}

#[test]
fn quit_stops_the_loop() {
    let mut comp = Compositor::new(1, raw(0, 0));
    assert!(comp.running);
    comp.quit();
    assert!(!comp.running);
}

#[test]
fn pointer_driven_window_commands() {
    let mut comp = Compositor::new(3, raw(0, 0));
    comp.workspaces.workspaces[0].add_output(Output {
        id: 1,
        geometry: Rect { x: 0, y: 0, w: 1000, h: 600 },
    });
    comp.workspaces.workspaces[0].add_window(StrataWindow {
        id: 7,
        rec: Rect { x: 0, y: 0, w: 0, h: 0 },
    });
    assert_eq!(comp.close_window(10, 10), Some(7));
    assert_eq!(comp.close_window(5000, 10), None);
    let moved = comp.follow_window_move(10, 10, 2);
    assert_eq!(moved, Some(7));
    assert_eq!(comp.workspaces.current, 2);
    assert_eq!(comp.workspaces.workspaces[2].windows(), [7]);
    assert!(!comp.workspaces.workspaces[0].contains_window(7));
}

#[test]
fn input_setup_applies_partial_updates() {
    let mut comp = Compositor::new(1, raw(0, 0));
    let candidate = comp.setup_input(StrataInputSetup {
        repeat_info: Some(StrataRepeatInfoUpdate { rate: Some(-30), delay: None }),
        xkbconfig: Some(StrataXkbConfigUpdate {
            layout: Some(String::from("us")),
            rules: None,
            model: None,
            options: None,
            variant: None,
        }),
    });
    assert_eq!(comp.config.input_config.repeat_info.rate, 30);
    assert_eq!(comp.config.input_config.repeat_info.delay, 200);
    // the keyboard layer accepts the candidate; it becomes the settings
    comp.commit_xkb(candidate.unwrap(), true);
    let xkb: &StrataXkbConfig = comp.config.input_config.xkbconfig.as_ref().unwrap();
    assert_eq!(xkb.layout.as_str(), "us");
    // fields the update did not name keep their previous values
    assert_eq!(xkb.options.as_ref().unwrap().as_str(), "caps:swapescape");
}

#[test]
fn rejected_xkb_candidate_keeps_previous_settings() {
    let mut comp = Compositor::new(1, raw(0, 0));
    let candidate = comp.setup_input(StrataInputSetup {
        repeat_info: None,
        xkbconfig: Some(StrataXkbConfigUpdate {
            layout: Some(String::from("no-such-layout")),
            rules: None,
            model: None,
            options: None,
            variant: None,
        }),
    });
    // the keyboard layer rejects the candidate: the sub-config stays as it was
    comp.commit_xkb(candidate.unwrap(), false);
    let xkb: &StrataXkbConfig = comp.config.input_config.xkbconfig.as_ref().unwrap();
    assert_eq!(xkb.layout.as_str(), "it");
}

#[test]
fn api_commands() {
    assert!(matches!(StrataApi::switch_to_ws(3), ConfigCommands::SwitchWS(3)));
    assert!(matches!(StrataApi::move_window(1), ConfigCommands::MoveWindow(1)));
    assert!(matches!(
        StrataApi::move_window_and_follow(2),
        ConfigCommands::MoveWindowAndFollow(2)
    ));
    assert!(matches!(StrataApi::close_window(), ConfigCommands::CloseWindow));
    assert!(matches!(StrataApi::quit(), ConfigCommands::Quit));
}

#[test]
fn spawn_joins_words_and_rejects_empty() {
    match StrataApi::spawn(&vec![String::from("kitty")]) {
        Ok(ConfigCommands::Spawn(s)) => assert_eq!(s.as_str(), "kitty"),
        _ => panic!("expected a spawn command"),
    }
    match StrataApi::spawn(&vec![
        String::from("sh"),
        String::from("-c"),
        String::from("true"),
    ]) {
        Ok(ConfigCommands::Spawn(s)) => assert_eq!(s.as_str(), "sh -c true"),
        _ => panic!("expected a spawn command"),
    }
    assert!(matches!(StrataApi::spawn(&Vec::new()), Err(ApiError::EmptyCommand)));
}
