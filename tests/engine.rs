use gcode_serial::engine::{Exchange, ResponseReader, finish_exchange, next_command, route_actions};
use gcode_serial::health::HealthState;
use gcode_serial::models::{Action, PrinterStatus, TelemetryData};
use gcode_serial::queue::CommandQueue;

#[test]
fn status_published_only_on_change() {
    let mut h = HealthState::new();
    let mut published = 0;
    for _ in 0..5 {
        if h.update_status(PrinterStatus::Idle).is_some() {
            published += 1;
        }
    }
    assert_eq!(published, 1);
    assert!(h.update_status(PrinterStatus::Active).is_some());
}

#[test]
fn empty_queue_turn_goes_idle_once() {
    let mut h = HealthState::new();
    let mut q = CommandQueue::new();
    let (c, acts) = next_command(&mut h, &mut q);
    assert!(c.is_none());
    assert_eq!(acts.len(), 1);
    assert!(matches!(acts[0], Action::StateChange(PrinterStatus::Idle)));
    let (c, acts) = next_command(&mut h, &mut q);
    assert!(c.is_none());
    assert!(acts.is_empty());
}

#[test]
fn next_command_reports_progress_and_presend() {
    let mut h = HealthState::new();
    let mut q = CommandQueue::new();
    q.push_back("M104 S210".to_string());
    q.push_back("G28".to_string());
    let (c, acts) = next_command(&mut h, &mut q);
    assert_eq!(c, Some("M104 S210".to_string()));
    assert_eq!(acts.len(), 2);
    assert!(matches!(acts[0], Action::Telemetry(TelemetryData::Progress(1))));
    assert!(matches!(acts[1], Action::Telemetry(TelemetryData::TargetExtruderTemp(210))));
    let (c, acts) = next_command(&mut h, &mut q);
    assert_eq!(c, Some("G28".to_string()));
    assert!(acts.is_empty());
}

#[test]
fn poll_command_reports_no_progress() {
    let mut h = HealthState::new();
    let mut q = CommandQueue::new();
    q.push_back("M105".to_string());
    q.push_back("G28".to_string());
    let (c, acts) = next_command(&mut h, &mut q);
    assert_eq!(c, Some("M105".to_string()));
    assert!(acts.is_empty());
}

#[test]
fn reader_joins_fragments_and_succeeds_on_ok() {
    let mut h = HealthState::new();
    let mut r = ResponseReader::new();
    let a = r.feed(&mut h, "T:20.0 /0.0 B:2", 1);
    assert!(a.is_empty());
    assert!(matches!(r.outcome(), Exchange::Pending));
    let a = r.feed(&mut h, "1.0 /0.0 @:0\r\nok\n", 1);
    assert_eq!(a.len(), 3);
    assert_eq!(r.msgs, vec!["T:20.0 /0.0 B:21.0 /0.0 @:0".to_string(), "ok".to_string()]);
    assert!(r.remainder.is_empty());
    assert!(matches!(r.outcome(), Exchange::Succeeded));
}

#[test]
fn reader_skips_blank_lines() {
    let mut h = HealthState::new();
    let mut r = ResponseReader::new();
    r.feed(&mut h, "\n  \nbusy\n", 0);
    assert_eq!(r.msgs, vec!["busy".to_string()]);
    assert!(matches!(r.outcome(), Exchange::Pending));
    r.feed(&mut h, "start", 0);
    assert!(matches!(r.outcome(), Exchange::Pending));
    r.feed(&mut h, "\n", 0);
    assert!(matches!(r.outcome(), Exchange::Succeeded));
}

#[test]
fn reader_fails_on_error_marker() {
    let mut h = HealthState::new();
    let mut r = ResponseReader::new();
    r.feed(&mut h, "echo:busy\nError:Line Number mismatch\n", 0);
    match r.outcome() {
        Exchange::Failed(m) => assert_eq!(m, "echo:busy;Error:Line Number mismatch"),
        _ => panic!("expected failure"),
    }
}

#[test]
fn reader_ok_wins_over_error() {
    let mut h = HealthState::new();
    let mut r = ResponseReader::new();
    r.feed(&mut h, "error: x\nok\n", 0);
    assert!(matches!(r.outcome(), Exchange::Succeeded));
}

#[test]
fn silence_times_out_after_five_seconds() {
    assert_eq!(ResponseReader::silence_outcome(5000), None);
    assert_eq!(ResponseReader::silence_outcome(5001), Some("No response received".to_string()));
}

#[test]
fn error_clears_queue_and_engine_continues() {
    let mut h = HealthState::new();
    let mut q = CommandQueue::new();
    q.push_back("G1 X1".to_string());
    q.push_back("G1 X2".to_string());
    q.push_back("G1 X3".to_string());
    let (c, _) = next_command(&mut h, &mut q);
    assert_eq!(c, Some("G1 X1".to_string()));
    let mut r = ResponseReader::new();
    r.feed(&mut h, "Error:Printer halted\n", 0);
    let outcome = r.outcome();
    assert!(matches!(outcome, Exchange::Failed(_)));
    finish_exchange(&mut q, &outcome);
    assert_eq!(q.len(), 0);
    let (c, _) = next_command(&mut h, &mut q);
    assert!(c.is_none());
    q.push_back("G28".to_string());
    let (c, _) = next_command(&mut h, &mut q);
    assert_eq!(c, Some("G28".to_string()));
}

#[test]
fn success_keeps_queue() {
    let mut q = CommandQueue::new();
    q.push_back("G28".to_string());
    finish_exchange(&mut q, &Exchange::Succeeded);
    assert_eq!(q.len(), 1);
}

#[test]
fn health_inserts_poll_and_recovers_status() {
    let mut h = HealthState::new();
    let mut q = CommandQueue::new();
    q.push_back("G28".to_string());
    let acts = h.health_tick(&mut q);
    assert_eq!(acts.len(), 1);
    assert!(matches!(acts[0], Action::StateChange(PrinterStatus::Idle)));
    assert_eq!(q.lines(), vec!["M105".to_string(), "G28".to_string()]);
    assert_eq!(h.missed_polls, 0);
}

#[test]
fn health_derives_active_for_long_queue() {
    let mut h = HealthState::new();
    let mut q = CommandQueue::new();
    for _ in 0..11 {
        q.push_back("G4".to_string());
    }
    let acts = h.health_tick(&mut q);
    assert!(matches!(acts[0], Action::StateChange(PrinterStatus::Active)));
    assert_eq!(h.status, PrinterStatus::Active);
}

#[test]
fn health_disconnects_once_after_four_missed_polls() {
    let mut h = HealthState { status: PrinterStatus::Active, missed_polls: 0 };
    let mut q = CommandQueue::new();
    q.push_back("G28".to_string());
    assert!(h.health_tick(&mut q).is_empty());
    for _ in 0..3 {
        assert!(h.health_tick(&mut q).is_empty());
        assert_eq!(h.status, PrinterStatus::Active);
    }
    let acts = h.health_tick(&mut q);
    assert_eq!(acts.len(), 1);
    assert!(matches!(acts[0], Action::StateChange(PrinterStatus::Disconnected)));
    for _ in 0..5 {
        assert!(h.health_tick(&mut q).is_empty());
    }
    assert_eq!(h.status, PrinterStatus::Disconnected);
    assert_eq!(q.len(), 2);
}

#[test]
fn health_resets_count_when_poll_consumed() {
    let mut h = HealthState { status: PrinterStatus::Idle, missed_polls: 0 };
    let mut q = CommandQueue::new();
    h.health_tick(&mut q);
    h.health_tick(&mut q);
    assert_eq!(h.missed_polls, 1);
    q.pop_front();
    h.health_tick(&mut q);
    assert_eq!(h.missed_polls, 0);
    assert!(q.front_is("M105"));
}

#[test]
fn routing_drops_repeated_status() {
    let mut h = HealthState { status: PrinterStatus::Idle, missed_polls: 0 };
    let acts = vec![
        Action::StateChange(PrinterStatus::Idle),
        Action::Telemetry(TelemetryData::TotalCommandCount(3)),
        Action::StateChange(PrinterStatus::Active),
        Action::StateChange(PrinterStatus::Active),
    ];
    let out = route_actions(&mut h, acts);
    assert_eq!(out.len(), 2);
    assert!(matches!(out[0], Action::Telemetry(TelemetryData::TotalCommandCount(3))));
    assert!(matches!(out[1], Action::StateChange(PrinterStatus::Active)));
    assert_eq!(h.status, PrinterStatus::Active);
}
