//! Keyboard input state: the chorded-modifier state machine, key patterns,
//! and the keybind registry consulted on every key press.
//!
//! The held-modifier set is a bitset derived from edge-triggered press and
//! release transitions of the physical modifier keys, not from the keyboard's
//! own lock or group state. Bits are toggled rather than set and cleared, so
//! keyboards that fire repeated press events for a held modifier do not wedge
//! a bit on.

use vstd::prelude::*;

verus! {

/// One bit per tracked physical modifier key.
pub const MOD_SHIFT_L: u16 = 0x1;

pub const MOD_SHIFT_R: u16 = 0x2;

pub const MOD_CONTROL_L: u16 = 0x4;

pub const MOD_CONTROL_R: u16 = 0x8;

pub const MOD_ALT_L: u16 = 0x10;

pub const MOD_ALT_R: u16 = 0x20;

pub const MOD_SUPER_L: u16 = 0x40;

pub const MOD_SUPER_R: u16 = 0x80;

pub const MOD_ISO_LEVEL3_SHIFT: u16 = 0x100;

pub const MOD_ISO_LEVEL5_SHIFT: u16 = 0x200;

pub const MOD_HYPER_L: u16 = 0x400;

pub const MOD_HYPER_R: u16 = 0x800;

/// All defined modifier bits together.
pub const MOD_ALL: u16 = 0xfff;

/// Keysyms of the tracked modifier keys.
pub const KEYSYM_SHIFT_L: u32 = 0xffe1;

pub const KEYSYM_SHIFT_R: u32 = 0xffe2;

pub const KEYSYM_CONTROL_L: u32 = 0xffe3;

pub const KEYSYM_CONTROL_R: u32 = 0xffe4;

pub const KEYSYM_META_L: u32 = 0xffe7;

pub const KEYSYM_META_R: u32 = 0xffe8;

pub const KEYSYM_ALT_L: u32 = 0xffe9;

pub const KEYSYM_ALT_R: u32 = 0xffea;

pub const KEYSYM_SUPER_L: u32 = 0xffeb;

pub const KEYSYM_SUPER_R: u32 = 0xffec;

pub const KEYSYM_HYPER_L: u32 = 0xffed;

pub const KEYSYM_HYPER_R: u32 = 0xffee;

pub const KEYSYM_ISO_LEVEL3_SHIFT: u32 = 0xfe03;

pub const KEYSYM_ISO_LEVEL5_SHIFT: u32 = 0xfe11;

/// A set of modifier keys, one bit per physical key.
#[derive(Clone, Copy, Debug, Hash, PartialEq, Eq, Structural)]
pub struct Modifier {
    pub bits: u16,
}

impl Modifier {
    /// Only defined modifier bits are set.
    pub open spec fn wf(self) -> bool {
        self.bits & MOD_ALL == self.bits
    }

    /// The empty modifier set.
    pub fn empty() -> (r: Modifier)
        ensures
            r.bits == 0,
            r.wf(),
    {
        proof {
            assert(0u16 & MOD_ALL == 0u16) by (bit_vector);
        }
        Modifier { bits: 0 }
    }

    /// Accepts a raw bit pattern only when every set bit is a defined
    /// modifier, as a script-supplied integer must be validated.
    pub fn from_bits(bits: u16) -> (r: Option<Modifier>)
        ensures
            r is Some <==> bits & MOD_ALL == bits,
            r is Some ==> r->0.bits == bits && r->0.wf(),
    {
        if bits & MOD_ALL == bits {
            Some(Modifier { bits })
        } else {
            None
        }
    }

    /// The modifier bit a script names in the `Mod` table, by its key name;
    /// unknown names are rejected.
    pub fn from_name(name: &str) -> (r: Option<Modifier>)
        ensures
            r == spec_modifier_from_name(name@),
    {
        let n = name.to_owned();
        let bits: u16 = if n == String::from_str("Shift_L") {
            MOD_SHIFT_L
        } else if n == String::from_str("Shift_R") {
            MOD_SHIFT_R
        } else if n == String::from_str("Control_L") {
            MOD_CONTROL_L
        } else if n == String::from_str("Control_R") {
            MOD_CONTROL_R
        } else if n == String::from_str("Alt_L") {
            MOD_ALT_L
        } else if n == String::from_str("Alt_R") {
            MOD_ALT_R
        } else if n == String::from_str("Super_L") {
            MOD_SUPER_L
        } else if n == String::from_str("Super_R") {
            MOD_SUPER_R
        } else if n == String::from_str("ISO_Level3_Shift") {
            MOD_ISO_LEVEL3_SHIFT
        } else if n == String::from_str("ISO_Level5_Shift") {
            MOD_ISO_LEVEL5_SHIFT
        } else if n == String::from_str("Hyper_L") {
            MOD_HYPER_L
        } else if n == String::from_str("Hyper_R") {
            MOD_HYPER_R
        } else {
            return None;
        };
        Some(Modifier { bits })
    }

    pub fn bits(&self) -> (r: u16)
        ensures
            r == self.bits,
    {
        self.bits
    }
}

/// The bit a modifier key's name stands for, or nothing for an unknown name.
pub open spec fn spec_modifier_from_name(s: Seq<char>) -> Option<Modifier> {
    if s == "Shift_L"@ {
        Some(Modifier { bits: MOD_SHIFT_L })
    } else if s == "Shift_R"@ {
        Some(Modifier { bits: MOD_SHIFT_R })
    } else if s == "Control_L"@ {
        Some(Modifier { bits: MOD_CONTROL_L })
    } else if s == "Control_R"@ {
        Some(Modifier { bits: MOD_CONTROL_R })
    } else if s == "Alt_L"@ {
        Some(Modifier { bits: MOD_ALT_L })
    } else if s == "Alt_R"@ {
        Some(Modifier { bits: MOD_ALT_R })
    } else if s == "Super_L"@ {
        Some(Modifier { bits: MOD_SUPER_L })
    } else if s == "Super_R"@ {
        Some(Modifier { bits: MOD_SUPER_R })
    } else if s == "ISO_Level3_Shift"@ {
        Some(Modifier { bits: MOD_ISO_LEVEL3_SHIFT })
    } else if s == "ISO_Level5_Shift"@ {
        Some(Modifier { bits: MOD_ISO_LEVEL5_SHIFT })
    } else if s == "Hyper_L"@ {
        Some(Modifier { bits: MOD_HYPER_L })
    } else if s == "Hyper_R"@ {
        Some(Modifier { bits: MOD_HYPER_R })
    } else {
        None
    }
}

/// A symbolic key code, independent of modifier state.
#[derive(Clone, Copy, Debug, Hash, PartialEq, Eq, Structural)]
pub struct Key(pub u32);

impl From<u32> for Key {
    /// A key from its raw keysym value.
    fn from(value: u32) -> (r: Key) {
        Key(value)
    }
}

impl vstd::std_specs::convert::FromSpecImpl<u32> for Key {
    open spec fn obeys_from_spec() -> bool {
        true
    }

    open spec fn from_spec(v: u32) -> Key {
        Key(v)
    }
}

/// An immutable (modifier set, keysym) pair: the unit the keybind registry
/// is keyed by. Lookups are exact-match on both halves.
#[derive(Clone, Copy, Debug, Hash, PartialEq, Eq, Structural)]
pub struct KeyPattern {
    pub modifier: Modifier,
    pub key: Key,
}

/// The raw modifier state the platform reports after a key transition:
/// counts of depressed, latched and locked modifiers plus the effective
/// layout group.
#[derive(Clone, Copy, Debug, PartialEq, Eq, Structural)]
pub struct ModifiersState {
    pub depressed: u32,
    pub latched: u32,
    pub locked: u32,
    pub group: u32,
}

/// Whether a key transition is a press or a release.
#[derive(Clone, Copy, Debug, PartialEq, Eq, Structural)]
pub enum KeyState {
    Pressed,
    Released,
}

/// The input-modifier state machine: the held-modifier bitset plus the last
/// raw modifier state seen.
#[derive(Clone, Copy, Debug)]
pub struct Mods {
    pub flags: Modifier,
    pub state: ModifiersState,
}

/// The modifier bit a keysym maps to; keys that are no tracked modifier map
/// to the empty bit and so never disturb the held set.
pub open spec fn spec_keysym_modflag(keysym: u32) -> u16 {
    if keysym == KEYSYM_META_L {
        MOD_ALT_L
    } else if keysym == KEYSYM_META_R {
        MOD_ALT_R
    } else if keysym == KEYSYM_SHIFT_L {
        MOD_SHIFT_L
    } else if keysym == KEYSYM_SHIFT_R {
        MOD_SHIFT_R
    } else if keysym == KEYSYM_CONTROL_L {
        MOD_CONTROL_L
    } else if keysym == KEYSYM_CONTROL_R {
        MOD_CONTROL_R
    } else if keysym == KEYSYM_ALT_L {
        MOD_ALT_L
    } else if keysym == KEYSYM_ALT_R {
        MOD_ALT_R
    } else if keysym == KEYSYM_SUPER_L {
        MOD_SUPER_L
    } else if keysym == KEYSYM_SUPER_R {
        MOD_SUPER_R
    } else if keysym == KEYSYM_ISO_LEVEL3_SHIFT {
        MOD_ISO_LEVEL3_SHIFT
    } else if keysym == KEYSYM_ISO_LEVEL5_SHIFT {
        MOD_ISO_LEVEL5_SHIFT
    } else if keysym == KEYSYM_HYPER_L {
        MOD_HYPER_L
    } else if keysym == KEYSYM_HYPER_R {
        MOD_HYPER_R
    } else {
        0
    }
}

/// Computes the modifier bit for a keysym.
pub fn keysym_modflag(keysym: u32) -> (r: u16)
    ensures
        r == spec_keysym_modflag(keysym),
{
    if keysym == KEYSYM_META_L {
        MOD_ALT_L
    } else if keysym == KEYSYM_META_R {
        MOD_ALT_R
    } else if keysym == KEYSYM_SHIFT_L {
        MOD_SHIFT_L
    } else if keysym == KEYSYM_SHIFT_R {
        MOD_SHIFT_R
    } else if keysym == KEYSYM_CONTROL_L {
        MOD_CONTROL_L
    } else if keysym == KEYSYM_CONTROL_R {
        MOD_CONTROL_R
    } else if keysym == KEYSYM_ALT_L {
        MOD_ALT_L
    } else if keysym == KEYSYM_ALT_R {
        MOD_ALT_R
    } else if keysym == KEYSYM_SUPER_L {
        MOD_SUPER_L
    } else if keysym == KEYSYM_SUPER_R {
        MOD_SUPER_R
    } else if keysym == KEYSYM_ISO_LEVEL3_SHIFT {
        MOD_ISO_LEVEL3_SHIFT
    } else if keysym == KEYSYM_ISO_LEVEL5_SHIFT {
        MOD_ISO_LEVEL5_SHIFT
    } else if keysym == KEYSYM_HYPER_L {
        MOD_HYPER_L
    } else if keysym == KEYSYM_HYPER_R {
        MOD_HYPER_R
    } else {
        0
    }
}

/// Whether a press event toggles its modifier bit: the raw state either did
/// not change (a repeated press of a held modifier) or reports one more
/// depressed modifier, and the transition is a chord modifier rather than a
/// lock — the depressed count exceeds whatever the locked count gained.
pub open spec fn press_applies(old_state: ModifiersState, new_state: ModifiersState) -> bool {
    &&& (new_state == old_state || new_state.depressed > old_state.depressed)
    &&& new_state.depressed > new_state.locked - old_state.locked
}

/// The state machine's transition function: a release always toggles the
/// key's bit out; a press toggles it in only when `press_applies`; the raw
/// state is remembered either way.
pub open spec fn spec_handle_mods(
    m: Mods,
    new_state: ModifiersState,
    keysym: u32,
    kind: KeyState,
) -> Mods {
    let flag = spec_keysym_modflag(keysym);
    let toggles = match kind {
        KeyState::Pressed => press_applies(m.state, new_state),
        KeyState::Released => true,
    };
    Mods {
        flags: Modifier { bits: if toggles { m.flags.bits ^ flag } else { m.flags.bits } },
        state: new_state,
    }
}

impl Mods {
    /// A fresh machine: nothing held, raw state as the platform reports it.
    pub fn new(state: ModifiersState) -> (r: Mods)
        ensures
            r.flags.bits == 0,
            r.state == state,
    {
        Mods { flags: Modifier::empty(), state }
    }

    /// Feeds one keyboard transition into the machine.
    pub fn handle_mods(&mut self, new_state: &ModifiersState, keysym: u32, kind: KeyState)
        ensures
            *final(self) == spec_handle_mods(*old(self), *new_state, keysym, kind),
    {
        let flag = keysym_modflag(keysym);
        let toggles = match kind {
            KeyState::Pressed => {
                let depressed = (*new_state == self.state) || new_state.depressed
                    > self.state.depressed;
                let is_modifier = (new_state.depressed as i64) > (new_state.locked as i64) - (
                self.state.locked as i64);
                depressed && is_modifier
            },
            KeyState::Released => true,
        };
        if toggles {
            self.flags.bits = self.flags.bits ^ flag;
        }
        self.state = *new_state;
    }
}

/// A clean press transition: one more modifier reported depressed, the
/// locked count unchanged. Every genuine press of a chord modifier looks
/// like this, and it always toggles the bit.
pub open spec fn clean_press(old_state: ModifiersState, new_state: ModifiersState) -> bool {
    &&& new_state.depressed > old_state.depressed
    &&& new_state.locked == old_state.locked
}

/// A clean press followed by a release of the same key leaves the held set
/// exactly as it was: the bit is toggled twice.
pub proof fn lemma_press_release_round_trip(
    m: Mods,
    keysym: u32,
    press_state: ModifiersState,
    release_state: ModifiersState,
)
    requires
        clean_press(m.state, press_state),
    ensures
        spec_handle_mods(
            spec_handle_mods(m, press_state, keysym, KeyState::Pressed),
            release_state,
            keysym,
            KeyState::Released,
        ).flags == m.flags,
{
    let f = spec_keysym_modflag(keysym);
    let b = m.flags.bits;
    assert((b ^ f) ^ f == b) by (bit_vector);
}

/// Runs the machine over a sequence of (press raw state, release raw state)
/// pairs for one key.
pub open spec fn run_press_release_pairs(
    m: Mods,
    keysym: u32,
    evs: Seq<(ModifiersState, ModifiersState)>,
) -> Mods
    decreases evs.len(),
{
    if evs.len() == 0 {
        m
    } else {
        run_press_release_pairs(
            spec_handle_mods(
                spec_handle_mods(m, evs[0].0, keysym, KeyState::Pressed),
                evs[0].1,
                keysym,
                KeyState::Released,
            ),
            keysym,
            evs.skip(1),
        )
    }
}

/// Modifier toggling: over any sequence of press/release pairs of a single
/// modifier key with no other keys interleaved — each press a clean press
/// from the state the previous release left behind — the held bit is toggled
/// an even number of times, so the whole held set ends as it started.
pub proof fn lemma_modifier_toggle_even(
    m: Mods,
    keysym: u32,
    evs: Seq<(ModifiersState, ModifiersState)>,
)
    requires
        forall|i: int|
            0 <= i < evs.len() ==> clean_press(
                if i == 0 {
                    m.state
                } else {
                    evs[i - 1].1
                },
                (#[trigger] evs[i]).0,
            ),
    ensures
        run_press_release_pairs(m, keysym, evs).flags == m.flags,
    decreases evs.len(),
{
    if evs.len() > 0 {
        lemma_press_release_round_trip(m, keysym, evs[0].0, evs[0].1);
        let m1 = spec_handle_mods(
            spec_handle_mods(m, evs[0].0, keysym, KeyState::Pressed),
            evs[0].1,
            keysym,
            KeyState::Released,
        );
        assert(m1.state == evs[0].1);
        assert forall|i: int| 0 <= i < evs.skip(1).len() implies clean_press(
            if i == 0 {
                m1.state
            } else {
                evs.skip(1)[i - 1].1
            },
            (#[trigger] evs.skip(1)[i]).0,
        ) by {
            assert(evs.skip(1)[i] == evs[i + 1]);
            if i > 0 {
                assert(evs.skip(1)[i - 1] == evs[i]);
            }
        }
        lemma_modifier_toggle_even(m1, keysym, evs.skip(1));
    }
}

/// The keybind registry: an insertion-ordered association list from key
/// pattern to stashed callback handle, with at most one entry per pattern.
/// Registration is insert-or-replace; lookup is exact-match and never
/// mutates. The list is scanned linearly, which is cheap at the handful of
/// bindings a configuration registers.
pub struct KeybindMap {
    pub entries: Vec<(KeyPattern, u64)>,
}

/// The association list as a map, later entries winning.
pub open spec fn seq_to_map(s: Seq<(KeyPattern, u64)>) -> Map<KeyPattern, u64>
    decreases s.len(),
{
    if s.len() == 0 {
        Map::empty()
    } else {
        seq_to_map(s.drop_last()).insert(s.last().0, s.last().1)
    }
}

pub proof fn lemma_seq_to_map_domain(s: Seq<(KeyPattern, u64)>, p: KeyPattern)
    ensures
        seq_to_map(s).contains_key(p) <==> exists|i: int| 0 <= i < s.len() && (#[trigger] s[i]).0 == p,
    decreases s.len(),
{
    if s.len() > 0 {
        lemma_seq_to_map_domain(s.drop_last(), p);
        if seq_to_map(s).contains_key(p) {
            if s.last().0 == p {
                assert(s[s.len() - 1].0 == p);
            } else {
                let i = choose|i: int| 0 <= i < s.drop_last().len() && (#[trigger] s.drop_last()[i]).0 == p;
                assert(s[i].0 == p);
            }
        }
        if exists|i: int| 0 <= i < s.len() && (#[trigger] s[i]).0 == p {
            let i = choose|i: int| 0 <= i < s.len() && (#[trigger] s[i]).0 == p;
            if i < s.len() - 1 {
                assert(s.drop_last()[i].0 == p);
            }
        }
    }
}

pub proof fn lemma_seq_to_map_get(s: Seq<(KeyPattern, u64)>, i: int)
    requires
        0 <= i < s.len(),
        forall|j: int, k: int|
            0 <= j < k < s.len() ==> (#[trigger] s[j]).0 != (#[trigger] s[k]).0,
    ensures
        seq_to_map(s).contains_key(s[i].0),
        seq_to_map(s)[s[i].0] == s[i].1,
    decreases s.len(),
{
    if i == s.len() - 1 {
        assert(s.last() == s[i]);
    } else {
        assert(forall|j: int, k: int|
            0 <= j < k < s.drop_last().len() ==> (#[trigger] s.drop_last()[j]).0 != (
            #[trigger] s.drop_last()[k]).0);
        lemma_seq_to_map_get(s.drop_last(), i);
        assert(s.drop_last()[i] == s[i]);
        assert(s[i].0 != s.last().0);
    }
}

pub proof fn lemma_seq_to_map_update(s: Seq<(KeyPattern, u64)>, i: int, cb: u64)
    requires
        0 <= i < s.len(),
        forall|j: int, k: int|
            0 <= j < k < s.len() ==> (#[trigger] s[j]).0 != (#[trigger] s[k]).0,
    ensures
        seq_to_map(s.update(i, (s[i].0, cb))) == seq_to_map(s).insert(s[i].0, cb),
    decreases s.len(),
{
    let p = s[i].0;
    let t = s.update(i, (p, cb));
    if i == s.len() - 1 {
        assert(t.drop_last() =~= s.drop_last());
        assert(t.last() == (p, cb));
        assert(seq_to_map(t) =~= seq_to_map(s).insert(p, cb));
    } else {
        assert(t.drop_last() =~= s.drop_last().update(i, (p, cb)));
        assert(forall|j: int, k: int|
            0 <= j < k < s.drop_last().len() ==> (#[trigger] s.drop_last()[j]).0 != (
            #[trigger] s.drop_last()[k]).0);
        assert(s.drop_last()[i] == s[i]);
        lemma_seq_to_map_update(s.drop_last(), i, cb);
        assert(t.last() == s.last());
        assert(p != s.last().0);
        assert(seq_to_map(t) =~= seq_to_map(s).insert(p, cb));
    }
}

impl KeybindMap {
    /// At most one entry per pattern.
    pub open spec fn wf(self) -> bool {
        forall|i: int, j: int|
            0 <= i < j < self.entries@.len() ==> (#[trigger] self.entries@[i]).0 != (
            #[trigger] self.entries@[j]).0
    }

    /// The registry's contents as a map from pattern to callback handle.
    pub open spec fn as_map(self) -> Map<KeyPattern, u64> {
        seq_to_map(self.entries@)
    }

    /// An empty registry.
    pub fn new() -> (r: KeybindMap)
        ensures
            r.wf(),
            r.as_map() == Map::<KeyPattern, u64>::empty(),
    {
        KeybindMap { entries: Vec::new() }
    }

    /// Registers `cb` for `pattern`, replacing and silently dropping any
    /// callback previously registered for the same pattern.
    pub fn insert(&mut self, pattern: KeyPattern, cb: u64)
        requires
            old(self).wf(),
        ensures
            final(self).wf(),
            final(self).as_map() == old(self).as_map().insert(pattern, cb),
    {
        let n = self.entries.len();
        let mut i: usize = 0;
        while i < n
            invariant
                n == self.entries@.len(),
                0 <= i <= n,
                self.wf(),
                *self == *old(self),
                forall|j: int| 0 <= j < i ==> (#[trigger] self.entries@[j]).0 != pattern,
            decreases n - i,
        {
            if self.entries[i].0 == pattern {
                self.entries[i] = (pattern, cb);
                proof {
                    assert(old(self).entries@[i as int].0 == pattern);
                    lemma_seq_to_map_update(old(self).entries@, i as int, cb);
                }
                return ;
            }
            i += 1;
        }
        self.entries.push((pattern, cb));
        proof {
            assert(self.entries@.drop_last() =~= old(self).entries@);
            assert(self.entries@.last() == (pattern, cb));
        }
    }

    /// Looks up the callback registered for `pattern`, if any.
    pub fn get(&self, pattern: &KeyPattern) -> (r: Option<u64>)
        requires
            self.wf(),
        ensures
            match r {
                Some(cb) => self.as_map().contains_key(*pattern) && self.as_map()[*pattern] == cb,
                None => !self.as_map().contains_key(*pattern),
            },
    {
        let n = self.entries.len();
        let mut i: usize = 0;
        while i < n
            invariant
                n == self.entries@.len(),
                0 <= i <= n,
                self.wf(),
                forall|j: int| 0 <= j < i ==> (#[trigger] self.entries@[j]).0 != *pattern,
            decreases n - i,
        {
            if self.entries[i].0 == *pattern {
                proof {
                    lemma_seq_to_map_get(self.entries@, i as int);
                }
                return Some(self.entries[i].1);
            }
            i += 1;
        }
        proof {
            lemma_seq_to_map_domain(self.entries@, *pattern);
        }
        None
    }
}

/// Registry replace semantics: after registering `c1` and then `c2` for the
/// same pattern, a lookup yields `c2` and nothing can reach `c1` through
/// that pattern any more, whatever the registry held before.
pub proof fn lemma_register_replace(m0: Map<KeyPattern, u64>, p: KeyPattern, c1: u64, c2: u64)
    ensures
        m0.insert(p, c1).insert(p, c2) == m0.insert(p, c2),
        m0.insert(p, c1).insert(p, c2)[p] == c2,
{
    assert(m0.insert(p, c1).insert(p, c2) =~= m0.insert(p, c2));
}

} // verus!
