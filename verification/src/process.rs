//! Process lifecycle: the registry of per-child exit callbacks, and the
//! decision taken for each asynchronous exit notification. The signal
//! handler and the channel that carries notifications back to the event loop
//! live in the driver; what arrives here is a plain exit event.

use vstd::prelude::*;

verus! {

/// What the reaper observed of a child process: a normal exit with a status
/// code, or death by a signal.
#[derive(Clone, Copy, Debug, PartialEq, Eq, Structural)]
pub enum ExitEvent {
    Exited { pid: i32, code: i32 },
    Signaled { pid: i32, signal: i32 },
}

impl ExitEvent {
    /// The child the event is about.
    pub open spec fn spec_pid(self) -> i32 {
        match self {
            ExitEvent::Exited { pid, .. } => pid,
            ExitEvent::Signaled { pid, .. } => pid,
        }
    }

    /// The `(exit_code, signal_number)` pair a callback receives: the code
    /// with no signal for a normal exit, the signal with code zero for a
    /// death by signal.
    pub open spec fn spec_args(self) -> (i64, i64) {
        match self {
            ExitEvent::Exited { code, .. } => (code as i64, 0),
            ExitEvent::Signaled { signal, .. } => (0, signal as i64),
        }
    }
}

/// The pid-keyed association list backing the exit-callback registry: at
/// most one callback per pid, replacement on re-registration.
pub struct PidMap {
    pub entries: Vec<(i32, u64)>,
}

/// The association list as a map, later entries winning.
pub open spec fn pid_seq_to_map(s: Seq<(i32, u64)>) -> Map<i32, u64>
    decreases s.len(),
{
    if s.len() == 0 {
        Map::empty()
    } else {
        pid_seq_to_map(s.drop_last()).insert(s.last().0, s.last().1)
    }
}

pub proof fn lemma_pid_map_domain(s: Seq<(i32, u64)>, p: i32)
    ensures
        pid_seq_to_map(s).contains_key(p) <==> exists|i: int|
            0 <= i < s.len() && (#[trigger] s[i]).0 == p,
    decreases s.len(),
{
    if s.len() > 0 {
        lemma_pid_map_domain(s.drop_last(), p);
        if pid_seq_to_map(s).contains_key(p) {
            if s.last().0 == p {
                assert(s[s.len() - 1].0 == p);
            } else {
                let i = choose|i: int|
                    0 <= i < s.drop_last().len() && (#[trigger] s.drop_last()[i]).0 == p;
                assert(s[i].0 == p);
            }
        }
        if exists|i: int| 0 <= i < s.len() && (#[trigger] s[i]).0 == p {
            let i = choose|i: int| 0 <= i < s.len() && (#[trigger] s[i]).0 == p;
            if i < s.len() - 1 {
                assert(s.drop_last()[i].0 == p);
            }
        }
    }
}

pub proof fn lemma_pid_map_get(s: Seq<(i32, u64)>, i: int)
    requires
        0 <= i < s.len(),
        forall|j: int, k: int| 0 <= j < k < s.len() ==> (#[trigger] s[j]).0 != (#[trigger] s[k]).0,
    ensures
        pid_seq_to_map(s).contains_key(s[i].0),
        pid_seq_to_map(s)[s[i].0] == s[i].1,
    decreases s.len(),
{
    if i == s.len() - 1 {
        assert(s.last() == s[i]);
    } else {
        assert(forall|j: int, k: int|
            0 <= j < k < s.drop_last().len() ==> (#[trigger] s.drop_last()[j]).0 != (
            #[trigger] s.drop_last()[k]).0);
        lemma_pid_map_get(s.drop_last(), i);
        assert(s.drop_last()[i] == s[i]);
        assert(s[i].0 != s.last().0);
    }
}

pub proof fn lemma_pid_map_update(s: Seq<(i32, u64)>, i: int, cb: u64)
    requires
        0 <= i < s.len(),
        forall|j: int, k: int| 0 <= j < k < s.len() ==> (#[trigger] s[j]).0 != (#[trigger] s[k]).0,
    ensures
        pid_seq_to_map(s.update(i, (s[i].0, cb))) == pid_seq_to_map(s).insert(s[i].0, cb),
    decreases s.len(),
{
    let p = s[i].0;
    let t = s.update(i, (p, cb));
    if i == s.len() - 1 {
        assert(t.drop_last() =~= s.drop_last());
        assert(t.last() == (p, cb));
        assert(pid_seq_to_map(t) =~= pid_seq_to_map(s).insert(p, cb));
    } else {
        assert(t.drop_last() =~= s.drop_last().update(i, (p, cb)));
        assert(forall|j: int, k: int|
            0 <= j < k < s.drop_last().len() ==> (#[trigger] s.drop_last()[j]).0 != (
            #[trigger] s.drop_last()[k]).0);
        assert(s.drop_last()[i] == s[i]);
        lemma_pid_map_update(s.drop_last(), i, cb);
        assert(t.last() == s.last());
        assert(p != s.last().0);
        assert(pid_seq_to_map(t) =~= pid_seq_to_map(s).insert(p, cb));
    }
}

pub proof fn lemma_pid_map_remove(s: Seq<(i32, u64)>, i: int)
    requires
        0 <= i < s.len(),
        forall|j: int, k: int| 0 <= j < k < s.len() ==> (#[trigger] s[j]).0 != (#[trigger] s[k]).0,
    ensures
        pid_seq_to_map(s.remove(i)) == pid_seq_to_map(s).remove(s[i].0),
    decreases s.len(),
{
    let p = s[i].0;
    if i == s.len() - 1 {
        assert(s.remove(i) =~= s.drop_last());
        lemma_pid_map_domain(s.drop_last(), p);
        assert(!pid_seq_to_map(s.drop_last()).contains_key(p)) by {
            if pid_seq_to_map(s.drop_last()).contains_key(p) {
                let j = choose|j: int|
                    0 <= j < s.drop_last().len() && (#[trigger] s.drop_last()[j]).0 == p;
                assert(s[j].0 == s[i].0);
            }
        }
        assert(pid_seq_to_map(s.remove(i)) =~= pid_seq_to_map(s).remove(p));
    } else {
        assert(s.remove(i).drop_last() =~= s.drop_last().remove(i));
        assert(forall|j: int, k: int|
            0 <= j < k < s.drop_last().len() ==> (#[trigger] s.drop_last()[j]).0 != (
            #[trigger] s.drop_last()[k]).0);
        assert(s.drop_last()[i] == s[i]);
        lemma_pid_map_remove(s.drop_last(), i);
        assert(s.remove(i).last() == s.last());
        assert(p != s.last().0);
        assert(pid_seq_to_map(s.remove(i)) =~= pid_seq_to_map(s).remove(p));
    }
}

impl PidMap {
    /// At most one entry per pid.
    pub open spec fn wf(self) -> bool {
        forall|i: int, j: int|
            0 <= i < j < self.entries@.len() ==> (#[trigger] self.entries@[i]).0 != (
            #[trigger] self.entries@[j]).0
    }

    /// The registry's contents as a map from pid to callback handle.
    pub open spec fn as_map(self) -> Map<i32, u64> {
        pid_seq_to_map(self.entries@)
    }

    /// An empty registry.
    pub fn new() -> (r: PidMap)
        ensures
            r.wf(),
            r.as_map() == Map::<i32, u64>::empty(),
    {
        PidMap { entries: Vec::new() }
    }

    /// Registers `cb` for `pid`, replacing any prior registration.
    pub fn insert(&mut self, pid: i32, cb: u64)
        requires
            old(self).wf(),
        ensures
            final(self).wf(),
            final(self).as_map() == old(self).as_map().insert(pid, cb),
    {
        let n = self.entries.len();
        let mut i: usize = 0;
        while i < n
            invariant
                n == self.entries@.len(),
                0 <= i <= n,
                self.wf(),
                *self == *old(self),
                forall|j: int| 0 <= j < i ==> (#[trigger] self.entries@[j]).0 != pid,
            decreases n - i,
        {
            if self.entries[i].0 == pid {
                self.entries[i] = (pid, cb);
                proof {
                    assert(old(self).entries@[i as int].0 == pid);
                    lemma_pid_map_update(old(self).entries@, i as int, cb);
                }
                return ;
            }
            i += 1;
        }
        self.entries.push((pid, cb));
        proof {
            assert(self.entries@.drop_last() =~= old(self).entries@);
            assert(self.entries@.last() == (pid, cb));
        }
    }

    /// Takes the callback registered for `pid` out of the registry: the
    /// record is destroyed by delivery.
    pub fn take(&mut self, pid: i32) -> (r: Option<u64>)
        requires
            old(self).wf(),
        ensures
            final(self).wf(),
            match r {
                Some(cb) => {
                    &&& old(self).as_map().contains_key(pid)
                    &&& old(self).as_map()[pid] == cb
                    &&& final(self).as_map() == old(self).as_map().remove(pid)
                },
                None => {
                    &&& !old(self).as_map().contains_key(pid)
                    &&& *final(self) == *old(self)
                },
            },
    {
        let n = self.entries.len();
        let mut i: usize = 0;
        while i < n
            invariant
                n == self.entries@.len(),
                0 <= i <= n,
                self.wf(),
                *self == *old(self),
                forall|j: int| 0 <= j < i ==> (#[trigger] self.entries@[j]).0 != pid,
            decreases n - i,
        {
            if self.entries[i].0 == pid {
                let cb = self.entries[i].1;
                proof {
                    lemma_pid_map_get(self.entries@, i as int);
                    lemma_pid_map_remove(self.entries@, i as int);
                }
                self.entries.remove(i);
                proof {
                    assert(self.entries@ =~= old(self).entries@.remove(i as int));
                    assert forall|j: int, k: int|
                        0 <= j < k < self.entries@.len() implies (#[trigger] self.entries@[j]).0
                        != (#[trigger] self.entries@[k]).0 by {
                        let s = old(self).entries@;
                        let jj = if j < i {
                            j
                        } else {
                            j + 1
                        };
                        let kk = if k < i {
                            k
                        } else {
                            k + 1
                        };
                        assert(self.entries@[j] == s[jj]);
                        assert(self.entries@[k] == s[kk]);
                    }
                }
                return Some(cb);
            }
            i += 1;
        }
        proof {
            lemma_pid_map_domain(self.entries@, pid);
        }
        None
    }
}

/// What the compositor keeps per spawned child: the stashed exit callbacks.
pub struct ProcessState {
    pub on_exit_cbs: PidMap,
}

impl ProcessState {
    pub open spec fn wf(self) -> bool {
        self.on_exit_cbs.wf()
    }

    /// No children tracked yet.
    pub fn new() -> (r: ProcessState)
        ensures
            r.wf(),
            r.on_exit_cbs.as_map() == Map::<i32, u64>::empty(),
    {
        ProcessState { on_exit_cbs: PidMap::new() }
    }

    /// Registers the exit callback for a child, replacing any prior one.
    pub fn on_exit(&mut self, pid: i32, cb: u64)
        requires
            old(self).wf(),
        ensures
            final(self).wf(),
            final(self).on_exit_cbs.as_map() == old(self).on_exit_cbs.as_map().insert(pid, cb),
    {
        self.on_exit_cbs.insert(pid, cb);
    }

    /// Decides what an observed exit means: if a callback is registered for
    /// the child, it is taken out of the registry (delivery destroys the
    /// record, so a callback fires at most once) and returned together with
    /// the `(exit_code, signal_number)` arguments it must receive — the exit
    /// code for a normal exit, the signal number for a death by signal. An
    /// exit nobody registered for is dropped silently.
    pub fn handle_exit(&mut self, ev: ExitEvent) -> (r: Option<(u64, i64, i64)>)
        requires
            old(self).wf(),
        ensures
            final(self).wf(),
            match r {
                Some((cb, code, signal)) => {
                    &&& old(self).on_exit_cbs.as_map().contains_key(ev.spec_pid())
                    &&& old(self).on_exit_cbs.as_map()[ev.spec_pid()] == cb
                    &&& (code, signal) == ev.spec_args()
                    &&& final(self).on_exit_cbs.as_map() == old(self).on_exit_cbs.as_map().remove(
                        ev.spec_pid(),
                    )
                },
                None => {
                    &&& !old(self).on_exit_cbs.as_map().contains_key(ev.spec_pid())
                    &&& *final(self) == *old(self)
                },
            },
    {
        let pid = match ev {
            ExitEvent::Exited { pid, .. } => pid,
            ExitEvent::Signaled { pid, .. } => pid,
        };
        match self.on_exit_cbs.take(pid) {
            Some(cb) => {
                let args = match ev {
                    ExitEvent::Exited { code, .. } => (code as i64, 0i64),
                    ExitEvent::Signaled { signal, .. } => (0i64, signal as i64),
                };
                Some((cb, args.0, args.1))
            },
            None => None,
        }
    }
}

} // verus!
