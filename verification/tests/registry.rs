use ping_supervisor::command::{Platform, ProbeError, SpawnFault};
use ping_supervisor::event::{reader_step, step_of_sample, ProbeEvent, ReaderStep};
use ping_supervisor::line::{Latency, Sample};
use ping_supervisor::registry::{
    stop_all_pings, toggle_ping, PingManager, TogglePingArgs, ToggleOutcome,
};

fn start(manager: &mut PingManager, identifier: &str, address: &str, count: u32) -> u64 {
    match toggle_ping(manager, TogglePingArgs::new(identifier, address, count), Platform::Other) {
        Ok(ToggleOutcome::Started { handle, .. }) => handle,
        other => panic!("{:?}", other),
    }
}

fn stopped(identifier: &str) -> ProbeEvent {
    ProbeEvent::Stopped { identifier: identifier.to_string() }
}

fn complete(identifier: &str) -> ProbeEvent {
    ProbeEvent::Complete { identifier: identifier.to_string() }
}

fn result(identifier: &str, latency: &str) -> ProbeEvent {
    ProbeEvent::Result {
        identifier: identifier.to_string(),
        latency: Latency::from_text(latency.to_string()).unwrap(),
    }
}

#[test]
fn new_manager_runs_nothing() {
    let manager = PingManager::new();
    assert!(!manager.is_running("s1"));
    let manager = PingManager::default();
    assert!(!manager.is_running(""));
}

#[test]
fn toggle_starts_then_stops() {
    let mut manager = PingManager::new();
    let first = toggle_ping(&mut manager, TogglePingArgs::new("s1", "8.8.8.8", 4), Platform::Other)
        .unwrap();
    assert!(first.is_started());
    let handle = match first {
        ToggleOutcome::Started { handle, command } => {
            assert_eq!(command.program, "ping");
            assert_eq!(
                command.args,
                vec!["-c".to_string(), "4".to_string(), "8.8.8.8".to_string()]
            );
            handle
        }
        other => panic!("{:?}", other),
    };
    assert!(manager.is_running("s1"));
    assert!(!manager.is_cancelled(handle));

    let second =
        toggle_ping(&mut manager, TogglePingArgs::new("s1", "8.8.8.8", 4), Platform::Other)
            .unwrap();
    assert!(!second.is_started());
    assert_eq!(second, ToggleOutcome::Stopped { handle, event: stopped("s1") });
    assert!(!manager.is_running("s1"));
    assert!(manager.is_cancelled(handle));
}

#[test]
fn toggle_accepts_a_plain_address() {
    let mut manager = PingManager::new();
    let outcome =
        toggle_ping(&mut manager, TogglePingArgs::new("dns", "8.8.8.8", 4), Platform::Other);
    assert!(matches!(outcome, Ok(ToggleOutcome::Started { .. })));
    assert!(manager.is_running("dns"));
}

#[test]
fn toggle_refuses_an_invalid_address_and_starts_nothing() {
    let mut manager = PingManager::new();
    let outcome = toggle_ping(
        &mut manager,
        TogglePingArgs::new("dns", "8.8.8.8; rm -rf /", 4),
        Platform::Other,
    );
    assert_eq!(outcome, Err(ProbeError::InvalidAddress));
    assert!(!manager.is_running("dns"));
    assert_eq!(stop_all_pings(&mut manager), Vec::<u64>::new());
}

#[test]
fn stopping_does_not_look_at_the_address() {
    let mut manager = PingManager::new();
    let handle = start(&mut manager, "s1", "8.8.8.8", 4);
    let outcome =
        toggle_ping(&mut manager, TogglePingArgs::new("s1", "not valid!", 0), Platform::Windows);
    assert_eq!(outcome, Ok(ToggleOutcome::Stopped { handle, event: stopped("s1") }));
}

#[test]
fn sessions_get_handles_of_their_own() {
    let mut manager = PingManager::new();
    let a = start(&mut manager, "a", "10.0.0.1", 1);
    let b = start(&mut manager, "b", "10.0.0.2", 1);
    assert_ne!(a, b);
    assert!(manager.is_running("a"));
    assert!(manager.is_running("b"));
    let outcome =
        toggle_ping(&mut manager, TogglePingArgs::new("a", "10.0.0.1", 1), Platform::Other);
    assert_eq!(outcome, Ok(ToggleOutcome::Stopped { handle: a, event: stopped("a") }));
    assert!(!manager.is_running("a"));
    assert!(manager.is_running("b"));
    assert!(!manager.is_cancelled(b));
}

#[test]
fn stopped_session_publishes_stop_and_no_completion() {
    let mut manager = PingManager::new();
    let handle = start(&mut manager, "s1", "8.8.8.8", 4);
    let outcome =
        toggle_ping(&mut manager, TogglePingArgs::new("s1", "8.8.8.8", 4), Platform::Other);
    assert_eq!(outcome, Ok(ToggleOutcome::Stopped { handle, event: stopped("s1") }));
    assert_eq!(
        manager.on_line(handle, "64 bytes from 8.8.8.8: icmp_seq=2 ttl=64 time=9.1 ms"),
        ReaderStep::Exit
    );
    assert_eq!(manager.finish(handle), None);
    assert_eq!(manager.finish(handle), None);
}

#[test]
fn ended_session_publishes_completion_once() {
    let mut manager = PingManager::new();
    let handle = start(&mut manager, "s1", "8.8.8.8", 1);
    assert_eq!(manager.finish(handle), Some(complete("s1")));
    assert!(!manager.is_running("s1"));
    assert!(manager.is_cancelled(handle));
    assert_eq!(manager.finish(handle), None);
}

#[test]
fn toggle_after_completion_starts_anew() {
    let mut manager = PingManager::new();
    let first = start(&mut manager, "s1", "8.8.8.8", 1);
    assert_eq!(manager.finish(first), Some(complete("s1")));
    let second = start(&mut manager, "s1", "8.8.8.8", 1);
    assert_ne!(first, second);
    assert!(manager.is_running("s1"));
}

#[test]
fn restart_while_the_old_reader_lingers() {
    let mut manager = PingManager::new();
    let old = start(&mut manager, "s1", "8.8.8.8", 9);
    toggle_ping(&mut manager, TogglePingArgs::new("s1", "8.8.8.8", 9), Platform::Other).unwrap();
    let new = start(&mut manager, "s1", "8.8.8.8", 9);
    assert!(manager.is_cancelled(old));
    assert!(!manager.is_cancelled(new));
    assert_eq!(manager.finish(old), None);
    assert!(manager.is_running("s1"));
    assert_eq!(manager.on_line(new, "time=3 ms"), ReaderStep::Emit(result("s1", "3")));
    assert_eq!(manager.finish(new), Some(complete("s1")));
    assert!(!manager.is_running("s1"));
}

#[test]
fn stop_all_sets_every_flag_and_empties_the_registry() {
    let mut manager = PingManager::new();
    let a = start(&mut manager, "a", "10.0.0.1", 5);
    let b = start(&mut manager, "b", "10.0.0.2", 5);
    let c = start(&mut manager, "c", "10.0.0.3", 5);
    toggle_ping(&mut manager, TogglePingArgs::new("b", "10.0.0.2", 5), Platform::Other).unwrap();
    assert_eq!(stop_all_pings(&mut manager), vec![a, c]);
    assert!(!manager.is_running("a"));
    assert!(!manager.is_running("b"));
    assert!(!manager.is_running("c"));
    assert!(manager.is_cancelled(a));
    assert!(manager.is_cancelled(b));
    assert!(manager.is_cancelled(c));
    assert_eq!(manager.finish(a), None);
    assert_eq!(manager.finish(b), None);
    assert_eq!(manager.finish(c), None);
    assert_eq!(stop_all_pings(&mut manager), Vec::<u64>::new());
}

#[test]
fn stop_all_on_an_empty_manager() {
    let mut manager = PingManager::new();
    assert_eq!(stop_all_pings(&mut manager), Vec::<u64>::new());
}

#[test]
fn abandoned_session_leaves_the_registry() {
    let mut manager = PingManager::new();
    let handle = start(&mut manager, "s1", "8.8.8.8", 4);
    assert_eq!(manager.abandon(handle, SpawnFault::NotLaunched), ProbeError::SpawnFailure);
    assert!(!manager.is_running("s1"));
    assert_eq!(manager.finish(handle), None);
    let handle = start(&mut manager, "s1", "8.8.8.8", 4);
    assert_eq!(manager.abandon(handle, SpawnFault::NoOutput), ProbeError::StreamUnavailable);
    assert!(!manager.is_running("s1"));
}

#[test]
fn abandoning_an_unknown_session_changes_nothing() {
    let mut manager = PingManager::new();
    let handle = start(&mut manager, "s1", "8.8.8.8", 4);
    assert_eq!(manager.abandon(handle + 1, SpawnFault::NotLaunched), ProbeError::SpawnFailure);
    assert!(manager.is_running("s1"));
    assert!(!manager.is_cancelled(handle));
}

#[test]
fn unknown_session_counts_as_cancelled() {
    let manager = PingManager::new();
    assert!(manager.is_cancelled(0));
    assert_eq!(manager.on_line(0, "time=1 ms"), ReaderStep::Exit);
}

#[test]
fn local_probe_of_two_cycles() {
    let mut manager = PingManager::new();
    let outcome =
        toggle_ping(&mut manager, TogglePingArgs::new("s1", "127.0.0.1", 2), Platform::Other);
    let handle = match outcome {
        Ok(ToggleOutcome::Started { handle, command }) => {
            assert_eq!(
                command.args,
                vec!["-c".to_string(), "2".to_string(), "127.0.0.1".to_string()]
            );
            handle
        }
        other => panic!("{:?}", other),
    };
    let output = [
        "PING 127.0.0.1 (127.0.0.1) 56(84) bytes of data.",
        "64 bytes from 127.0.0.1: icmp_seq=1 ttl=64 time=0.031 ms",
        "64 bytes from 127.0.0.1: icmp_seq=2 ttl=64 time=0.045 ms",
        "",
        "--- 127.0.0.1 ping statistics ---",
        "2 packets transmitted, 2 received, 0% packet loss, time 1012ms",
        "rtt min/avg/max/mdev = 0.031/0.038/0.045/0.007 ms",
    ];
    let mut events: Vec<ProbeEvent> = Vec::new();
    for line in output {
        match manager.on_line(handle, line) {
            ReaderStep::Exit => break,
            ReaderStep::Emit(event) => events.push(event),
            ReaderStep::Skip => {}
        }
    }
    if let Some(event) = manager.finish(handle) {
        events.push(event);
    }
    assert_eq!(events, vec![result("s1", "0.031"), result("s1", "0.045"), complete("s1")]);
    let names: Vec<&str> = events.iter().map(|e| e.name()).collect();
    assert_eq!(names, vec!["probe-result", "probe-result", "probe-complete"]);
    match &events[0] {
        ProbeEvent::Result { latency, .. } => {
            let millis = latency.as_str().parse::<f64>().unwrap();
            assert!(millis > 0.0 && millis < 1.0);
        }
        other => panic!("{:?}", other),
    }
    assert!(!manager.is_running("s1"));
}

#[test]
fn reader_leaves_before_reading_when_cancelled() {
    assert_eq!(reader_step(true, "s1", "time=12.3 ms"), ReaderStep::Exit);
    assert_eq!(reader_step(true, "s1", "Request timed out."), ReaderStep::Exit);
    assert_eq!(reader_step(true, "s1", ""), ReaderStep::Exit);
}

#[test]
fn reader_publishes_what_a_line_tells() {
    assert_eq!(reader_step(false, "s1", "time=12.3 ms"), ReaderStep::Emit(result("s1", "12.3")));
    assert_eq!(
        reader_step(false, "s1", "Request timed out."),
        ReaderStep::Emit(ProbeEvent::Timeout { identifier: "s1".to_string() })
    );
    assert_eq!(reader_step(false, "s1", "Pinging 8.8.8.8 with 32 bytes of data:"), ReaderStep::Skip);
}

#[test]
fn step_of_each_sample() {
    let latency = Latency::from_text("5".to_string()).unwrap();
    assert_eq!(
        step_of_sample("x", Some(Sample::Latency(latency))),
        ReaderStep::Emit(result("x", "5"))
    );
    assert_eq!(
        step_of_sample("x", Some(Sample::Timeout)),
        ReaderStep::Emit(ProbeEvent::Timeout { identifier: "x".to_string() })
    );
    assert_eq!(step_of_sample("x", None), ReaderStep::Skip);
}

#[test]
fn events_have_names_and_identifiers() {
    let events = [
        (result("a", "1.5"), "probe-result", false),
        (ProbeEvent::Timeout { identifier: "a".to_string() }, "probe-timeout", false),
        (stopped("a"), "probe-stopped", true),
        (complete("a"), "probe-complete", true),
    ];
    for (event, name, terminal) in events {
        assert_eq!(event.name(), name);
        assert_eq!(event.identifier(), "a");
        assert_eq!(event.is_terminal(), terminal);
    }
}

#[test]
fn launched_probe_is_confirmed_while_it_is_wanted() {
    let mut manager = PingManager::new();
    let handle = start(&mut manager, "s1", "8.8.8.8", 4);
    assert!(manager.confirm(handle));
    assert!(manager.is_running("s1"));
    assert!(!manager.is_cancelled(handle));
    assert!(manager.confirm(handle));
}

#[test]
fn probe_stopped_while_launching_is_not_confirmed() {
    let mut manager = PingManager::new();
    let handle = start(&mut manager, "s1", "8.8.8.8", 4);
    let outcome =
        toggle_ping(&mut manager, TogglePingArgs::new("s1", "8.8.8.8", 4), Platform::Other);
    assert_eq!(outcome, Ok(ToggleOutcome::Stopped { handle, event: stopped("s1") }));
    assert!(!manager.confirm(handle));
    assert!(!manager.is_running("s1"));
    assert_eq!(manager.finish(handle), None);
    assert!(!manager.confirm(handle + 7));
}
