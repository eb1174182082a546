//! The compositor state and the script-runtime bridge.
//!
//! One event-loop thread owns everything here. Script callbacks run inside a
//! scope that lends the compositor out for the duration of one interpreter
//! run; the `Runtime` state machine makes that discipline explicit — Idle
//! until an event fires, Scoped while the compositor is lent out, Executing
//! while the interpreter runs a callback to completion — and refuses a
//! second scope while one is active.

use vstd::prelude::*;

use crate::config::{StrataConfig, StrataInputSetup};
use crate::input::{spec_handle_mods, Key, KeyPattern, KeyState, Modifier, Mods, ModifiersState};
use crate::process::{ExitEvent, ProcessState};
use crate::workspaces::{spec_migrated, StrataWindow, Workspaces};

verus! {

/// What the keyboard filter decided: the event triggered a script callback
/// and is consumed rather than forwarded to the focused client.
#[derive(Clone, Copy, Debug, PartialEq, Eq, Structural)]
pub enum KeyboardAction {
    ExecutedLua,
}

/// The first window in `ws`'s list order whose rectangle contains the
/// point is the one with handle `id`.
pub open spec fn window_hit_at(ws: crate::workspaces::Workspace, px: int, py: int, id: u64) -> bool {
    exists|i: int|
        {
            &&& 0 <= i < ws.windows@.len()
            &&& (#[trigger] ws.windows@[i]).id == id
            &&& ws.windows@[i].rec.spec_contains(px, py)
            &&& forall|j: int| 0 <= j < i ==> !(#[trigger] ws.windows@[j]).rec.spec_contains(px, py)
        }
}

/// The compositor state the event loop owns: workspaces, the modifier state
/// machine, the configuration (including the keybind registries), the
/// process registries, and whether the loop keeps running.
pub struct Compositor {
    pub workspaces: Workspaces,
    pub mods: Mods,
    pub config: StrataConfig,
    pub process_state: ProcessState,
    pub running: bool,
}

impl Compositor {
    pub open spec fn wf(self) -> bool {
        &&& self.workspaces.wf()
        &&& self.config.input_config.global_keybinds.wf()
        &&& self.config.input_config.global_mousebinds.wf()
        &&& self.process_state.wf()
    }

    /// The keybind registry as a map, for contracts.
    pub open spec fn keybinds(self) -> Map<KeyPattern, u64> {
        self.config.input_config.global_keybinds.as_map()
    }

    /// A fresh compositor: the given number of empty workspaces, no
    /// modifiers held, default configuration, no children tracked, running.
    /// The initial raw modifier state is whatever the keyboard reports when
    /// it is acquired.
    pub fn new(workspaceamount: u8, initial_state: ModifiersState) -> (r: Compositor)
        requires
            workspaceamount >= 1,
        ensures
            r.wf(),
            r.running,
            r.workspaces.workspaces@.len() == workspaceamount,
            r.workspaces.current == 0,
            r.mods.flags.bits == 0,
            r.mods.state == initial_state,
            r.keybinds() == Map::<KeyPattern, u64>::empty(),
            r.process_state.on_exit_cbs.as_map() == Map::<i32, u64>::empty(),
    {
        Compositor {
            workspaces: Workspaces::new(workspaceamount),
            mods: Mods::new(initial_state),
            config: Default::default(),
            process_state: ProcessState::new(),
            running: true,
        }
    }

    /// Feeds one keyboard transition into the modifier state machine.
    pub fn handle_mods(&mut self, new_state: &ModifiersState, keysym: u32, kind: KeyState)
        requires
            old(self).wf(),
        ensures
            final(self).wf(),
            final(self).mods == spec_handle_mods(old(self).mods, *new_state, keysym, kind),
            final(self).workspaces == old(self).workspaces,
            final(self).config == old(self).config,
            final(self).process_state == old(self).process_state,
            final(self).running == old(self).running,
    {
        self.mods.handle_mods(new_state, keysym, kind);
    }

    /// The keyboard filter: updates the modifier state machine, and on a
    /// press looks the held chord plus the keysym up in the keybind
    /// registry. A hit returns the stashed callback to run; a miss or a
    /// release returns nothing and the event is forwarded to the client.
    pub fn on_keyboard(&mut self, new_state: &ModifiersState, keysym: u32, kind: KeyState) -> (r:
        Option<u64>)
        requires
            old(self).wf(),
        ensures
            final(self).wf(),
            final(self).mods == spec_handle_mods(old(self).mods, *new_state, keysym, kind),
            final(self).workspaces == old(self).workspaces,
            final(self).config == old(self).config,
            final(self).process_state == old(self).process_state,
            final(self).running == old(self).running,
            ({
                let pat = KeyPattern {
                    modifier: spec_handle_mods(old(self).mods, *new_state, keysym, kind).flags,
                    key: Key(keysym),
                };
                match kind {
                    KeyState::Pressed => match r {
                        Some(cb) => final(self).keybinds().contains_key(pat) && final(self).keybinds()[pat] == cb,
                        None => !final(self).keybinds().contains_key(pat),
                    },
                    KeyState::Released => r is None,
                }
            }),
    {
        self.handle_mods(new_state, keysym, kind);
        match kind {
            KeyState::Pressed => {
                let pat = KeyPattern { modifier: self.mods.flags, key: Key(keysym) };
                self.config.input_config.global_keybinds.get(&pat)
            },
            KeyState::Released => None,
        }
    }

    /// Registers a script callback for a key pattern, replacing any prior
    /// one for the same pattern.
    pub fn register_keybind(&mut self, modifier: Modifier, key: Key, cb: u64)
        requires
            old(self).wf(),
        ensures
            final(self).wf(),
            final(self).keybinds() == old(self).keybinds().insert(
                KeyPattern { modifier, key },
                cb,
            ),
            final(self).workspaces == old(self).workspaces,
            final(self).mods == old(self).mods,
            final(self).process_state == old(self).process_state,
            final(self).running == old(self).running,
            final(self).config.input_config.repeat_info == old(self).config.input_config.repeat_info,
            final(self).config.input_config.xkbconfig == old(self).config.input_config.xkbconfig,
    {
        let pat = KeyPattern { modifier, key };
        self.config.input_config.global_keybinds.insert(pat, cb);
    }

    /// Applies one `input.setup` call: a present repeat-info sub-table is
    /// applied as a partial update, and a present XKB sub-table yields a
    /// candidate configuration — the current settings with the named fields
    /// replaced. The driver asks the keyboard layer to accept the candidate
    /// and reports the outcome through `commit_xkb`, so a rejected
    /// reconfiguration leaves the stored settings at their previous value.
    pub fn setup_input(&mut self, setup: StrataInputSetup) -> (r: Option<
        crate::config::StrataXkbConfig,
    >)
        requires
            old(self).wf(),
            setup.repeat_info matches Some(ri) ==> ri.rate != Some(i32::MIN) && ri.delay != Some(
                i32::MIN,
            ),
        ensures
            final(self).wf(),
            final(self).workspaces == old(self).workspaces,
            final(self).mods == old(self).mods,
            final(self).process_state == old(self).process_state,
            final(self).running == old(self).running,
            final(self).config.input_config.global_keybinds == old(
                self,
            ).config.input_config.global_keybinds,
            final(self).config.input_config.xkbconfig == old(self).config.input_config.xkbconfig,
            setup.repeat_info is None ==> final(self).config.input_config.repeat_info == old(
                self,
            ).config.input_config.repeat_info,
            (r is Some) <==> (setup.xkbconfig is Some
                && old(self).config.input_config.xkbconfig is Some),
            r matches Some(cand) ==> crate::config::spec_xkb_updated(
                old(self).config.input_config.xkbconfig->0,
                setup.xkbconfig->0,
                cand,
            ),
    {
        if let Some(ri) = &setup.repeat_info {
            self.config.input_config.repeat_info.update(ri);
        }
        if let Some(xu) = setup.xkbconfig {
            match &self.config.input_config.xkbconfig {
                Some(cfg) => {
                    let mut cand = cfg.snapshot();
                    cand.update(xu);
                    Some(cand)
                },
                None => None,
            }
        } else {
            None
        }
    }

    /// Records the keyboard layer's verdict on a candidate XKB
    /// configuration: an accepted candidate becomes the stored settings, a
    /// rejected one is dropped and the previous settings stand.
    pub fn commit_xkb(&mut self, candidate: crate::config::StrataXkbConfig, accepted: bool)
        requires
            old(self).wf(),
        ensures
            final(self).wf(),
            final(self).workspaces == old(self).workspaces,
            final(self).mods == old(self).mods,
            final(self).process_state == old(self).process_state,
            final(self).running == old(self).running,
            final(self).config.input_config.global_keybinds == old(
                self,
            ).config.input_config.global_keybinds,
            final(self).config.input_config.repeat_info == old(
                self,
            ).config.input_config.repeat_info,
            accepted ==> final(self).config.input_config.xkbconfig == Some(candidate),
            !accepted ==> final(self).config.input_config.xkbconfig == old(
                self,
            ).config.input_config.xkbconfig,
    {
        if accepted {
            self.config.input_config.xkbconfig = Some(candidate);
        }
    }

    /// Delivers one child-exit notification: decides which callback runs and
    /// with which `(exit_code, signal_number)` arguments, destroying the
    /// registration; an exit nobody registered for is dropped.
    pub fn handle_exit(&mut self, ev: ExitEvent) -> (r: Option<(u64, i64, i64)>)
        requires
            old(self).wf(),
        ensures
            final(self).wf(),
            final(self).workspaces == old(self).workspaces,
            final(self).mods == old(self).mods,
            final(self).config == old(self).config,
            final(self).running == old(self).running,
            match r {
                Some((cb, code, signal)) => {
                    &&& old(self).process_state.on_exit_cbs.as_map().contains_key(ev.spec_pid())
                    &&& old(self).process_state.on_exit_cbs.as_map()[ev.spec_pid()] == cb
                    &&& (code, signal) == ev.spec_args()
                    &&& final(self).process_state.on_exit_cbs.as_map() == old(self).process_state.on_exit_cbs.as_map().remove(ev.spec_pid())
                },
                None => {
                    &&& !old(self).process_state.on_exit_cbs.as_map().contains_key(ev.spec_pid())
                    &&& final(self).process_state == old(self).process_state
                },
            },
    {
        self.process_state.handle_exit(ev)
    }

    /// Switches the active workspace. Input focus is updated separately by
    /// the driver; activation itself is a pure index change.
    pub fn switch_to_workspace(&mut self, id: u8)
        requires
            old(self).wf(),
            (id as int) < old(self).workspaces.workspaces@.len(),
        ensures
            final(self).wf(),
            final(self).workspaces.current == id,
            final(self).workspaces.workspaces == old(self).workspaces.workspaces,
            final(self).mods == old(self).mods,
            final(self).config == old(self).config,
            final(self).process_state == old(self).process_state,
            final(self).running == old(self).running,
    {
        self.workspaces.activate(id);
    }

    /// Moves the window under the pointer to the given workspace: hit-tests
    /// the active workspace's windows in list order, and migrates the first
    /// hit. Returns the handle of the window that moved, if any.
    pub fn move_window_to_workspace(&mut self, px: i32, py: i32, id: u8) -> (r: Option<u64>)
        requires
            old(self).wf(),
            (id as int) < old(self).workspaces.workspaces@.len(),
        ensures
            final(self).wf(),
            final(self).workspaces.current == old(self).workspaces.current,
            final(self).mods == old(self).mods,
            final(self).config == old(self).config,
            final(self).process_state == old(self).process_state,
            final(self).running == old(self).running,
            final(self).workspaces.workspaces@.len() == old(self).workspaces.workspaces@.len(),
            r is None ==> final(self).workspaces == old(self).workspaces,
            r is Some ==> window_hit_at(
                old(self).workspaces.workspaces@[old(self).workspaces.current as int],
                px as int,
                py as int,
                r->0,
            ),
            r is Some ==> spec_migrated(
                old(self).workspaces.workspaces@,
                final(self).workspaces.workspaces@,
                r->0,
                id as int,
            ),
    {
        let hit = self.workspaces.current().window_under(px, py);
        match hit {
            Some(w) => {
                proof {
                    let cur = old(self).workspaces.current as int;
                    let ws = old(self).workspaces.workspaces@[cur];
                    let i = choose|i: int|
                        {
                            &&& 0 <= i < ws.windows@.len()
                            &&& (#[trigger] ws.windows@[i]) == w
                            &&& w.rec.spec_contains(px as int, py as int)
                            &&& forall|j: int|
                                0 <= j < i ==> !(#[trigger] ws.windows@[j]).rec.spec_contains(
                                    px as int,
                                    py as int,
                                )
                        };
                    assert(ws.window_ids()[i] == w.id);
                    assert(ws.window_ids().contains(w.id));
                    assert(window_hit_at(ws, px as int, py as int, w.id));
                    assert(exists|j: int|
                        0 <= j < old(self).workspaces.workspaces@.len() && (#[trigger] old(self).workspaces.workspaces@[j]).window_ids().contains(w.id)) by {
                        assert(old(self).workspaces.workspaces@[cur].window_ids().contains(w.id));
                    }
                }
                self.workspaces.move_window_to_workspace(w.id, id);
                proof {
                    assert(spec_migrated(
                        old(self).workspaces.workspaces@,
                        self.workspaces.workspaces@,
                        w.id,
                        id as int,
                    ));
                }
                Some(w.id)
            },
            None => None,
        }
    }

    /// Moves the window under the pointer to the given workspace and then
    /// follows it there by activating that workspace.
    pub fn follow_window_move(&mut self, px: i32, py: i32, id: u8) -> (r: Option<u64>)
        requires
            old(self).wf(),
            (id as int) < old(self).workspaces.workspaces@.len(),
        ensures
            final(self).wf(),
            final(self).workspaces.current == id,
            final(self).mods == old(self).mods,
            final(self).config == old(self).config,
            final(self).process_state == old(self).process_state,
            final(self).running == old(self).running,
            r is None ==> final(self).workspaces.workspaces == old(self).workspaces.workspaces,
            r is Some ==> window_hit_at(
                old(self).workspaces.workspaces@[old(self).workspaces.current as int],
                px as int,
                py as int,
                r->0,
            ),
            r is Some ==> spec_migrated(
                old(self).workspaces.workspaces@,
                final(self).workspaces.workspaces@,
                r->0,
                id as int,
            ),
    {
        let r = self.move_window_to_workspace(px, py, id);
        self.switch_to_workspace(id);
        r
    }

    /// The window under the pointer in the active workspace, for the driver
    /// to send a close request to.
    pub fn close_window(&self, px: i32, py: i32) -> (r: Option<u64>)
        requires
            self.wf(),
        ensures
            match r {
                Some(id) => window_hit_at(
                    self.workspaces.workspaces@[self.workspaces.current as int],
                    px as int,
                    py as int,
                    id,
                ),
                None => forall|i: int|
                    0 <= i
                        < self.workspaces.workspaces@[self.workspaces.current as int].windows@.len()
                        ==> !(
                    #[trigger] self.workspaces.workspaces@[self.workspaces.current as int].windows@[i]).rec.spec_contains(
                        px as int,
                        py as int,
                    ),
            },
    {
        match self.workspaces.current().window_under(px, py) {
            Some(w) => Some(w.id),
            None => None,
        }
    }

    /// Asks the event loop to stop.
    pub fn quit(&mut self)
        requires
            old(self).wf(),
        ensures
            final(self).wf(),
            !final(self).running,
            final(self).workspaces == old(self).workspaces,
            final(self).mods == old(self).mods,
            final(self).config == old(self).config,
            final(self).process_state == old(self).process_state,
    {
        self.running = false;
    }
}

/// Where the script-runtime bridge stands in its cycle.
#[derive(Clone, Copy, Debug, PartialEq, Eq, Structural)]
pub enum RuntimePhase {
    /// Nothing borrowed, nothing running.
    Idle,
    /// The compositor is lent out to code running under the interpreter.
    Scoped,
    /// The interpreter is running a callback to completion or error.
    Executing,
}

/// Opening a scope while one is active: the reentrancy the bridge refuses.
#[derive(Clone, Copy, Debug, PartialEq, Eq, Structural)]
pub struct ScopeError;

/// The script-runtime bridge: the scope state machine plus the persistent
/// executor slot, which is restarted with a stashed callback before each
/// invocation and reused across them (also after an error).
pub struct Runtime {
    pub phase: RuntimePhase,
    pub executor: Option<u64>,
}

impl Runtime {
    /// A fresh bridge: idle, nothing loaded.
    pub fn new() -> (r: Runtime)
        ensures
            r.phase is Idle,
            r.executor is None,
    {
        Runtime { phase: RuntimePhase::Idle, executor: None }
    }

    /// Loads the executor slot with a callback to run next. Restarting
    /// discards whatever the slot held, which is how the slot is reused
    /// after an error.
    pub fn restart(&mut self, cb: u64)
        requires
            old(self).phase is Idle,
        ensures
            final(self).phase is Idle,
            final(self).executor == Some(cb),
    {
        self.executor = Some(cb);
    }

    /// Opens the scope that lends the compositor to the interpreter: the
    /// opening half of `with_scoped_compositor`. Exactly one scope can be
    /// active; a second attempt while one is active fails deterministically
    /// and changes nothing, so two mutable views of the compositor can never
    /// coexist.
    pub fn enter_scope(&mut self) -> (r: Result<(), ScopeError>)
        ensures
            old(self).phase is Idle ==> r is Ok && final(self).phase is Scoped,
            !(old(self).phase is Idle) ==> r is Err && *final(self) == *old(self),
            final(self).executor == old(self).executor,
    {
        match self.phase {
            RuntimePhase::Idle => {
                self.phase = RuntimePhase::Scoped;
                Ok(())
            },
            _ => Err(ScopeError),
        }
    }

    /// Closes the scope: the loan ends and the compositor is the event
    /// loop's again.
    pub fn exit_scope(&mut self)
        requires
            old(self).phase is Scoped,
        ensures
            final(self).phase is Idle,
            final(self).executor == old(self).executor,
    {
        self.phase = RuntimePhase::Idle;
    }

    /// Hands control to the interpreter: legal only inside a scope with a
    /// callback loaded.
    pub fn begin_execute(&mut self)
        requires
            old(self).phase is Scoped,
            old(self).executor is Some,
        ensures
            final(self).phase is Executing,
            final(self).executor == old(self).executor,
    {
        self.phase = RuntimePhase::Executing;
    }

    /// The interpreter returned, normally or with an error; either way the
    /// slot stays usable and the scope is still open.
    pub fn finish_execute(&mut self)
        requires
            old(self).phase is Executing,
        ensures
            final(self).phase is Scoped,
            final(self).executor == old(self).executor,
    {
        self.phase = RuntimePhase::Scoped;
    }
}

/// The whole program state: the compositor and the script-runtime bridge.
pub struct Strata {
    pub comp: Compositor,
    pub rt: Runtime,
}

impl Strata {
    pub open spec fn wf(self) -> bool {
        self.comp.wf()
    }

    /// Pairs a compositor with a fresh bridge.
    pub fn new(comp: Compositor) -> (r: Strata)
        requires
            comp.wf(),
        ensures
            r.wf(),
            r.comp == comp,
            r.rt.phase is Idle,
            r.rt.executor is None,
    {
        Strata { comp, rt: Runtime::new() }
    }

    /// Looks the pattern up in the keybind registry; on a hit the executor
    /// slot is freshly restarted with the stashed callback and the driver
    /// runs it to completion inside a scope. Returns whether a callback will
    /// run.
    pub fn run_keybind(&mut self, pattern: KeyPattern) -> (r: bool)
        requires
            old(self).wf(),
            old(self).rt.phase is Idle,
        ensures
            final(self).wf(),
            final(self).comp == old(self).comp,
            final(self).rt.phase is Idle,
            r == old(self).comp.keybinds().contains_key(pattern),
            r ==> final(self).rt.executor == Some(old(self).comp.keybinds()[pattern]),
            !r ==> final(self).rt == old(self).rt,
    {
        match self.comp.config.input_config.global_keybinds.get(&pattern) {
            Some(cb) => {
                self.rt.restart(cb);
                true
            },
            None => false,
        }
    }

    /// The keyboard filter at the program level: feeds the event through the
    /// modifier state machine, and on a chord hit loads the executor with
    /// the bound callback. `Some(ExecutedLua)` means the driver must now run
    /// the interpreter inside a scope and the event is consumed; `None`
    /// forwards the event.
    pub fn on_keyboard(&mut self, new_state: &ModifiersState, keysym: u32, kind: KeyState) -> (r:
        Option<KeyboardAction>)
        requires
            old(self).wf(),
            old(self).rt.phase is Idle,
        ensures
            final(self).wf(),
            final(self).rt.phase is Idle,
            final(self).comp.mods == spec_handle_mods(old(self).comp.mods, *new_state, keysym, kind),
            final(self).comp.workspaces == old(self).comp.workspaces,
            final(self).comp.config == old(self).comp.config,
            final(self).comp.process_state == old(self).comp.process_state,
            final(self).comp.running == old(self).comp.running,
            ({
                let pat = KeyPattern {
                    modifier: spec_handle_mods(old(self).comp.mods, *new_state, keysym, kind).flags,
                    key: Key(keysym),
                };
                match kind {
                    KeyState::Pressed => match r {
                        Some(_) => old(self).comp.keybinds().contains_key(pat) && final(self).rt.executor == Some(old(self).comp.keybinds()[pat]),
                        None => !old(self).comp.keybinds().contains_key(pat) && final(self).rt
                            == old(self).rt,
                    },
                    KeyState::Released => r is None && final(self).rt == old(self).rt,
                }
            }),
    {
        match self.comp.on_keyboard(new_state, keysym, kind) {
            Some(cb) => {
                self.rt.restart(cb);
                Some(KeyboardAction::ExecutedLua)
            },
            None => None,
        }
    }
}

} // verus!
