use strata::input::{Key, KeyPattern, KeybindMap, Modifier, MOD_ALT_L, MOD_CONTROL_L};

fn pat(bits: u16, keysym: u32) -> KeyPattern {
    KeyPattern { modifier: Modifier { bits }, key: Key(keysym) }
}

#[test]
fn register_replaces_prior_callback() {
    // Registry replace semantics: registering the same pattern twice keeps
    // only the second callback; the first is unreachable.
    let mut reg = KeybindMap::new();
    let p = pat(MOD_CONTROL_L, 0xff0d);
    reg.insert(p, 1);
    reg.insert(p, 2);
    assert_eq!(reg.get(&p), Some(2));
}

#[test]
fn lookup_is_exact_match() {
    // No "superset of held modifiers" matching: Control+Return does not
    // answer for Control+Alt+Return or for bare Return.
    let mut reg = KeybindMap::new();
    reg.insert(pat(MOD_CONTROL_L, 0xff0d), 7);
    assert_eq!(reg.get(&pat(MOD_CONTROL_L, 0xff0d)), Some(7));
    assert_eq!(reg.get(&pat(MOD_CONTROL_L | MOD_ALT_L, 0xff0d)), None);
    assert_eq!(reg.get(&pat(0, 0xff0d)), None);
    assert_eq!(reg.get(&pat(MOD_CONTROL_L, 0xff0e)), None);
}

#[test]
fn distinct_patterns_coexist() {
    let mut reg = KeybindMap::new();
    reg.insert(pat(MOD_CONTROL_L, 0x61), 1);
    reg.insert(pat(MOD_ALT_L, 0x61), 2);
    reg.insert(pat(MOD_CONTROL_L, 0x62), 3);
    assert_eq!(reg.get(&pat(MOD_CONTROL_L, 0x61)), Some(1));
    assert_eq!(reg.get(&pat(MOD_ALT_L, 0x61)), Some(2));
    assert_eq!(reg.get(&pat(MOD_CONTROL_L, 0x62)), Some(3));
}
