use gcode_serial::controller::{GcodeSerial, Reaction, load_line, to_count};
use gcode_serial::decimal::Decimal;
use gcode_serial::models::{Action, Command, GcodeFile, PrinterAction, PrinterStatus, TelemetryData};
use gcode_serial::queue::CommandQueue;

fn file(name: &str) -> GcodeFile {
    GcodeFile { name: name.to_string(), size: 1234, last_modified: 10, start_time: 20 }
}

fn lines(ls: &[&str]) -> Vec<String> {
    ls.iter().map(|s| s.to_string()).collect()
}

const SHUTDOWN: [&str; 8] =
    ["G1 X0 Y200 F3600", "G4", "M221 S100", "M900 K0", "M104 S0", "M140 S0", "M107", "M84"];

#[test]
fn load_filter_keeps_commands_in_order() {
    let mut q = CommandQueue::new();
    let g = GcodeSerial::new();
    let src = lines(&["", "; generated by slicer", "G28", "  G1 X10 Y10 ; move  ", "   ", "M104 S200", ";last"]);
    let acts = g.load_file_to_que(&mut q, &src);
    assert!(acts.is_empty());
    assert_eq!(q.lines(), vec!["G28".to_string(), "G1 X10 Y10 ".to_string(), "M104 S200".to_string()]);
}

#[test]
fn load_filter_reports_max_layer_and_skips_it() {
    let mut q = CommandQueue::new();
    let g = GcodeSerial::new();
    let src = lines(&["G28", "; max_layer_z = 12.400", "G1 Z0.2"]);
    let acts = g.load_file_to_que(&mut q, &src);
    assert_eq!(acts.len(), 1);
    match &acts[0] {
        Action::Telemetry(TelemetryData::MaxZHeight(d)) => assert_eq!(*d, Decimal { mantissa: 12400, scale: 3 }),
        _ => panic!("expected max layer height"),
    }
    assert_eq!(q.lines(), vec!["G28".to_string(), "G1 Z0.2".to_string()]);
}

#[test]
fn load_line_cases() {
    assert_eq!(load_line("  G1 X1  ").1, Some("G1 X1".to_string()));
    assert_eq!(load_line("G1 X1;c").1, Some("G1 X1".to_string()));
    assert_eq!(load_line(" ; only comment").1, None);
    assert_eq!(load_line("").1, None);
    let (z, c) = load_line(";max_layer_z=abc.1.2");
    assert_eq!(z, None);
    assert_eq!(c, None);
    let (z, c) = load_line(";max_layer_z=1.2.3");
    assert_eq!(z, Some(Decimal { mantissa: 0, scale: 0 }));
    assert_eq!(c, None);
}

#[test]
fn start_print_publishes_lifecycle() {
    let mut q = CommandQueue::new();
    let mut g = GcodeSerial::new();
    let acts = g.start_print(&mut q, file("part.gcode"), &lines(&["G28", "; c", "G1 X1"]));
    assert_eq!(q.len(), 2);
    assert_eq!(acts.len(), 3);
    match &acts[0] {
        Action::Telemetry(TelemetryData::ActiveFileChange(Some(f))) => assert_eq!(f.name, "part.gcode"),
        _ => panic!("expected the active file"),
    }
    assert!(matches!(acts[1], Action::Telemetry(TelemetryData::TotalCommandCount(2))));
    assert!(matches!(acts[2], Action::StateChange(PrinterStatus::Active)));
    assert!(g.active_file.is_some());
}

#[test]
fn start_print_rejected_when_queue_is_long() {
    let mut q = CommandQueue::new();
    for _ in 0..11 {
        q.push_back("G4".to_string());
    }
    let mut g = GcodeSerial::new();
    let acts = g.start_print(&mut q, file("part.gcode"), &lines(&["G28"]));
    assert!(acts.is_empty());
    assert_eq!(q.len(), 11);
    assert!(g.active_file.is_none());
}

#[test]
fn start_print_admitted_at_ten() {
    let mut q = CommandQueue::new();
    for _ in 0..10 {
        q.push_back("G4".to_string());
    }
    let mut g = GcodeSerial::new();
    let acts = g.start_print(&mut q, file("a"), &lines(&["G28"]));
    assert_eq!(q.len(), 11);
    assert!(matches!(acts[1], Action::Telemetry(TelemetryData::TotalCommandCount(11))));
}

#[test]
fn stop_print_queues_shutdown_sequence() {
    let mut q = CommandQueue::new();
    q.push_back("G1 X5".to_string());
    q.push_back("G1 X6".to_string());
    let g = GcodeSerial::new();
    let acts = g.stop_print(&mut q);
    assert_eq!(q.lines(), SHUTDOWN.iter().map(|s| s.to_string()).collect::<Vec<_>>());
    assert_eq!(acts.len(), 2);
    assert!(matches!(acts[0], Action::Telemetry(TelemetryData::TotalCommandCount(0))));
    assert!(matches!(acts[1], Action::StateChange(PrinterStatus::Idle)));
}

#[test]
fn stop_print_on_empty_queue() {
    let mut q = CommandQueue::new();
    let g = GcodeSerial::new();
    g.stop_print(&mut q);
    assert_eq!(q.lines(), SHUTDOWN.iter().map(|s| s.to_string()).collect::<Vec<_>>());
}

#[test]
fn set_temps_queues_bed_then_extruder() {
    let mut q = CommandQueue::new();
    let mut g = GcodeSerial::new();
    g.set_temps(&mut q, 60, 215);
    assert_eq!(q.lines(), vec!["M140 S60".to_string(), "M104 S215".to_string()]);
    g.set_temps(&mut q, 0, 65535);
    assert_eq!(q.lines()[3], "M104 S65535");
    assert_eq!(q.lines()[2], "M140 S0");
}

#[test]
fn idle_with_active_file_finishes_print() {
    let mut q = CommandQueue::new();
    let mut g = GcodeSerial::new();
    g.start_print(&mut q, file("cube"), &lines(&["G28"]));
    match g.handle_action(&mut q, Action::StateChange(PrinterStatus::Idle), 999) {
        Reaction::Publish(v) => {
            assert_eq!(v.len(), 1);
            match &v[0] {
                Action::Telemetry(TelemetryData::PrintFinished(f)) => {
                    assert_eq!(f.name, "cube");
                    assert_eq!(f.start_time, 20);
                    assert_eq!(f.finish_time, 999);
                }
                _ => panic!("expected a finished print"),
            }
        }
        _ => panic!("expected publish"),
    }
    assert!(g.active_file.is_none());
    match g.handle_action(&mut q, Action::StateChange(PrinterStatus::Idle), 1000) {
        Reaction::Publish(v) => assert!(v.is_empty()),
        _ => panic!("expected publish"),
    }
}

#[test]
fn handle_action_dispatch() {
    let mut q = CommandQueue::new();
    let mut g = GcodeSerial::new();
    match g.handle_action(&mut q, Action::Command(Command::StartPrint("x.gcode".to_string())), 0) {
        Reaction::LoadFile(p) => assert_eq!(p, "x.gcode"),
        _ => panic!("expected a file to load"),
    }
    match g.handle_action(&mut q, Action::PrinterAction(PrinterAction::Pause), 0) {
        Reaction::NotSupported(PrinterAction::Pause) => {}
        _ => panic!("expected not supported"),
    }
    match g.handle_action(&mut q, Action::PrinterAction(PrinterAction::Cancel), 0) {
        Reaction::Publish(v) => assert_eq!(v.len(), 2),
        _ => panic!("expected publish"),
    }
    assert_eq!(q.len(), 8);
    match g.handle_action(&mut q, Action::Command(Command::StartPrint("y".to_string())), 0) {
        Reaction::LoadFile(_) => {}
        _ => panic!("expected a file to load"),
    }
    match g.handle_action(&mut q, Action::Command(Command::SetTemps(50, 190)), 0) {
        Reaction::Publish(v) => assert!(v.is_empty()),
        _ => panic!("expected publish"),
    }
    assert_eq!(q.len(), 10);
}

#[test]
fn count_saturates() {
    assert_eq!(to_count(5), 5);
    assert_eq!(to_count(usize::MAX), u32::MAX);
}
