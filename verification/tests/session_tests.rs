use atengine::{BrokenSink, Error, MemSink, ProbePort, TerminalPort, present_frame};

#[test]
fn teardown_after_failed_flush() {
    // The mid-session flush fails, yet the session is left exactly once.
    let mut port = ProbePort::new((4, 2));
    let result = present_frame(&mut port, BrokenSink, b"hi", (0, 0), (2, 1));
    assert!(matches!(result, Err(Error::IO(_))));
    assert_eq!(port.entered(), 1);
    assert_eq!(port.left(), 1);
}

#[test]
fn teardown_after_success() {
    let mut port = ProbePort::new((4, 2));
    let result = present_frame(&mut port, MemSink::new(), b"hi", (1, 0), (2, 1));
    assert!(result.is_ok());
    assert_eq!(port.entered(), 1);
    assert_eq!(port.left(), 1);
}

#[test]
fn no_teardown_without_enter() {
    let mut port = ProbePort::refusing((4, 2));
    let result = present_frame(&mut port, MemSink::new(), b"hi", (0, 0), (2, 1));
    assert!(matches!(result, Err(Error::IO(_))));
    assert_eq!(port.entered(), 0);
    assert_eq!(port.left(), 0);
}

#[test]
fn probe_port_counts_every_leave() {
    let mut port = ProbePort::new((1, 1));
    assert_eq!(port.enter().unwrap(), (1, 1));
    port.leave().unwrap();
    port.leave().unwrap();
    assert_eq!(port.entered(), 1);
    assert_eq!(port.left(), 2);
}
