use libhi::{OscArg, RegistryError, ServerState};

#[test]
fn new_state_is_empty() {
    let s: ServerState<u8, &str, u32> = ServerState::new();
    assert_eq!(s.handlers().len(), 0);
    assert!(s.error_handler().is_none());
    assert!(!s.stop_requested());
}

#[test]
fn state_registers_handlers() {
    let mut s: ServerState<u8, &str, u32> = ServerState::new();
    assert_eq!(s.register_handler("/a", "i", 1), Ok(()));
    assert_eq!(s.register_handler("/a*", "i", 2), Err(RegistryError::InvalidAddress));
    assert_eq!(s.handlers().len(), 1);
    let plan = s.handlers().plan_message("/a", &[OscArg::Int(1)]);
    assert_eq!(plan.len(), 1);
}

#[test]
fn error_handler_is_replaced() {
    let mut s: ServerState<u8, &str, u32> = ServerState::new();
    s.register_error_handler("first");
    s.register_error_handler("second");
    assert_eq!(s.error_handler(), Some(&"second"));
}

#[test]
fn stop_then_restart() {
    let mut s: ServerState<u8, &str, u32> = ServerState::new();
    s.register_handler("/a", "", 1).unwrap();
    s.set_thread(42);
    assert_eq!(s.request_stop(), Some(42));
    assert!(s.stop_requested());
    assert_eq!(s.request_stop(), None);
    s.clear_stop();
    assert!(!s.stop_requested());
    assert_eq!(s.handlers().len(), 1);
    s.set_thread(43);
    assert_eq!(s.request_stop(), Some(43));
}
