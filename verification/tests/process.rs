use strata::process::{ExitEvent, ProcessState};

#[test]
fn exit_delivery_invokes_once_with_code() {
    // Process exit delivery: a child registered with on_exit exits with code
    // 7 and the callback is delivered exactly once, with (7, 0).
    let mut ps = ProcessState::new();
    ps.on_exit(1234, 42);
    let mut invocations: Vec<(u64, i64, i64)> = Vec::new();
    if let Some(call) = ps.handle_exit(ExitEvent::Exited { pid: 1234, code: 7 }) {
        invocations.push(call);
    }
    if let Some(call) = ps.handle_exit(ExitEvent::Exited { pid: 1234, code: 7 }) {
        invocations.push(call);
    }
    assert_eq!(invocations, [(42, 7, 0)]);
}

#[test]
fn signal_death_delivers_signal_number() {
    let mut ps = ProcessState::new();
    ps.on_exit(10, 1);
    let call = ps.handle_exit(ExitEvent::Signaled { pid: 10, signal: 9 });
    assert_eq!(call, Some((1, 0, 9)));
}

#[test]
fn unregistered_exit_is_dropped() {
    let mut ps = ProcessState::new();
    ps.on_exit(10, 1);
    assert_eq!(ps.handle_exit(ExitEvent::Exited { pid: 11, code: 0 }), None);
    // the registration for pid 10 is still there
    assert_eq!(ps.handle_exit(ExitEvent::Exited { pid: 10, code: 0 }), Some((1, 0, 0)));
}

#[test]
fn reregistration_replaces_callback() {
    let mut ps = ProcessState::new();
    ps.on_exit(10, 1);
    ps.on_exit(10, 2);
    assert_eq!(ps.handle_exit(ExitEvent::Exited { pid: 10, code: 3 }), Some((2, 3, 0)));
}
