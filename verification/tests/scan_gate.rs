use stax_backend::scan_gate::{GateChange, ScanGate};

#[test]
fn wait_idle_returns_immediately_when_no_holds() {
    let gate = ScanGate::new();
    assert!(gate.may_proceed(false));
}

#[test]
fn wait_idle_blocks_while_held_and_wakes_on_release() {
    let mut gate = ScanGate::new();
    assert!(matches!(gate.hold(), GateChange::Engaged));
    assert!(!gate.may_proceed(false));
    assert!(matches!(gate.release(), GateChange::Released));
    assert!(gate.may_proceed(false));
}

#[test]
fn multiple_holds_require_all_released() {
    let mut gate = ScanGate::new();
    assert!(matches!(gate.hold(), GateChange::Engaged));
    assert!(matches!(gate.hold(), GateChange::Held));
    assert!(matches!(gate.release(), GateChange::Held));
    assert!(!gate.may_proceed(false));
    assert!(matches!(gate.release(), GateChange::Released));
    assert!(gate.may_proceed(false));
}

#[test]
fn a_gate_that_is_gone_holds_nobody() {
    let mut gate = ScanGate::new();
    gate.hold();
    assert!(gate.may_proceed(true));
}
