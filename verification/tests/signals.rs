use task_coordinator::command::{parse_command, handle_command, Command};
use task_coordinator::stop::{worker_should_continue, StopSignal};

#[test]
fn workers_stop_at_iteration_boundaries() {
    let mut signal = StopSignal::new();
    assert!(worker_should_continue(&signal, 10));
    assert!(!worker_should_continue(&signal, 0));
    signal.stop();
    assert!(!worker_should_continue(&signal, 10));
    assert!(!worker_should_continue(&signal, 0));
}

#[test]
fn stop_signal_starts_lowered() {
    let signal = StopSignal::new();
    assert!(!signal.is_stopped());
}

#[test]
fn stop_transition_is_monotonic() {
    let mut signal = StopSignal::new();
    signal.stop();
    assert!(signal.is_stopped());
    signal.stop();
    assert!(signal.is_stopped());
    for _ in 0..100 {
        assert!(signal.is_stopped());
    }
}

#[test]
fn help_and_stop_are_recognized() {
    assert_eq!(parse_command(&b"help".to_vec()), Command::Help);
    assert_eq!(parse_command(&b"stop".to_vec()), Command::Stop);
}

#[test]
fn anything_else_is_unknown() {
    assert_eq!(parse_command(&b"".to_vec()), Command::Unknown);
    assert_eq!(parse_command(&b"halt".to_vec()), Command::Unknown);
    assert_eq!(parse_command(&b"stopp".to_vec()), Command::Unknown);
    assert_eq!(parse_command(&b"sto".to_vec()), Command::Unknown);
    assert_eq!(parse_command(&b"Stop".to_vec()), Command::Unknown);
    assert_eq!(parse_command(&b"HELP".to_vec()), Command::Unknown);
}

#[test]
fn stop_command_raises_the_signal_and_ends_the_loop() {
    let mut signal = StopSignal::new();
    let keep_reading = handle_command(&mut signal, Command::Stop);
    assert!(!keep_reading);
    assert!(signal.is_stopped());
}

#[test]
fn other_commands_leave_the_signal_alone() {
    let mut signal = StopSignal::new();
    assert!(handle_command(&mut signal, Command::Help));
    assert!(!signal.is_stopped());
    assert!(handle_command(&mut signal, Command::Unknown));
    assert!(!signal.is_stopped());
}

#[test]
fn repeated_stop_commands_are_idempotent() {
    let mut signal = StopSignal::new();
    assert!(!handle_command(&mut signal, Command::Stop));
    assert!(!handle_command(&mut signal, Command::Stop));
    assert!(signal.is_stopped());
}
