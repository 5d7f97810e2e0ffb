use stuck_in_a_loop::signals::SignalCounter;

#[test]
fn unregistered_channel_is_unsatisfied() {
    let counter = SignalCounter::new();
    assert!(!counter.signal_met(3));
}

#[test]
fn registered_channel_starts_unsatisfied() {
    let mut counter = SignalCounter::new();
    counter.register_signal_source(3);
    assert!(!counter.signal_met(3));
}

#[test]
fn increment_to_needed_satisfies() {
    let mut counter = SignalCounter::new();
    counter.register_signal_source(3);
    assert!(!counter.signal_met(3));
    counter.increment_signal(3);
    assert!(counter.signal_met(3));
}

#[test]
fn decrement_drops_back_below_needed() {
    let mut counter = SignalCounter::new();
    counter.register_signal_source(7);
    counter.increment_signal(7);
    assert!(counter.signal_met(7));
    counter.decrement_signal(7);
    assert!(!counter.signal_met(7));
}

#[test]
fn two_sources_need_two_presses() {
    let mut counter = SignalCounter::new();
    counter.register_signal_source(1);
    counter.register_signal_source(1);
    counter.increment_signal(1);
    assert!(!counter.signal_met(1));
    counter.increment_signal(1);
    assert!(counter.signal_met(1));
}

#[test]
fn channels_are_independent() {
    let mut counter = SignalCounter::new();
    counter.register_signal_source(1);
    counter.register_signal_source(2);
    counter.increment_signal(1);
    assert!(counter.signal_met(1));
    assert!(!counter.signal_met(2));
}

#[test]
fn reinit_forgets_everything() {
    let mut counter = SignalCounter::new();
    counter.register_signal_source(4);
    counter.increment_signal(4);
    assert!(counter.signal_met(4));
    counter.reinit();
    assert!(!counter.signal_met(4));
    assert!(counter.0.is_empty());
}
