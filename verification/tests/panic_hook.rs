use resonance::panic_hook::{
    describe_location, flush_state, panic_message, set_emergency_flush, FlushReport,
};

#[test]
fn the_first_flush_that_is_set_stays() {
    let mut slot = None;
    set_emergency_flush(&mut slot, 1);
    set_emergency_flush(&mut slot, 2);
    assert_eq!(slot, Some(1));
}

#[test]
fn a_panic_is_described() {
    assert_eq!(describe_location(Some(("src/main.rs", 12, 5))), "src/main.rs:12:5");
    assert_eq!(describe_location(None), "<unknown location>");
    assert_eq!(panic_message(Some("boom".to_string())), "boom");
    assert_eq!(panic_message(None), "<non-string panic payload>");
    assert!(matches!(flush_state(None), FlushReport::NothingToFlush));
    assert!(matches!(flush_state(Some(true)), FlushReport::Flushed));
    assert!(matches!(flush_state(Some(false)), FlushReport::NotConfirmed));
}
