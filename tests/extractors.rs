use gcode_serial::decimal::Decimal;
use gcode_serial::health::HealthState;
use gcode_serial::models::{Action, PrinterAction, PrinterStatus, TelemetryData};
use gcode_serial::presend::presend_telemetry;
use gcode_serial::response::handle_response;

fn dec(mantissa: u64, scale: u32) -> Decimal {
    Decimal { mantissa, scale }
}

fn chars(s: &str) -> Vec<char> {
    s.chars().collect()
}

#[test]
fn decimal_parse_reads_digits_and_point() {
    assert_eq!(Decimal::parse(&chars("12.400")), Some(dec(12400, 3)));
    assert_eq!(Decimal::parse(&chars("1.25")), Some(dec(125, 2)));
    assert_eq!(Decimal::parse(&chars("7")), Some(dec(7, 0)));
    assert_eq!(Decimal::parse(&chars("3.")), Some(dec(3, 0)));
    assert_eq!(Decimal::parse(&chars(".5")), Some(dec(5, 1)));
}

#[test]
fn decimal_parse_rejects_malformed() {
    assert_eq!(Decimal::parse(&chars("")), None);
    assert_eq!(Decimal::parse(&chars(".")), None);
    assert_eq!(Decimal::parse(&chars("1.2.3")), None);
    assert_eq!(Decimal::parse(&chars("1a")), None);
    assert_eq!(Decimal::parse(&chars("99999999999999999999999")), None);
}

#[test]
fn decimal_whole_part_truncates_and_saturates() {
    assert_eq!(dec(2000, 1).whole_saturating(), 200);
    assert_eq!(dec(609, 1).whole_saturating(), 60);
    assert_eq!(dec(99_999_999_999, 0).whole_saturating(), u32::MAX);
    assert_eq!(dec(5, 3).whole_saturating(), 0);
}

#[test]
fn presend_extruder_target() {
    let r = presend_telemetry("M104 S205");
    assert_eq!(r.len(), 1);
    assert!(matches!(r[0], TelemetryData::TargetExtruderTemp(205)));
}

#[test]
fn presend_zero_target_is_suppressed() {
    assert!(presend_telemetry("M104 S0").is_empty());
    assert!(presend_telemetry("M140 S0").is_empty());
}

#[test]
fn presend_bed_target() {
    let r = presend_telemetry("M140 S60");
    assert_eq!(r.len(), 1);
    assert!(matches!(r[0], TelemetryData::TargetBedTemp(60)));
}

#[test]
fn presend_z_height() {
    let r = presend_telemetry("G1 X10 Y10 Z1.25 F1500");
    assert_eq!(r.len(), 1);
    match &r[0] {
        TelemetryData::ZHeight(d) => assert_eq!(*d, dec(125, 2)),
        _ => panic!("expected a Z height"),
    }
}

#[test]
fn presend_fan_duty() {
    let r = presend_telemetry("M106 S128");
    assert_eq!(r.len(), 1);
    match &r[0] {
        TelemetryData::FanSpeed(d) => {
            assert_eq!(*d, dec(128, 0));
            let ratio = d.mantissa as f64 / 255.0;
            assert!((ratio - 0.502).abs() < 0.001);
        }
        _ => panic!("expected a fan speed"),
    }
}

#[test]
fn presend_plain_command_has_no_telemetry() {
    assert!(presend_telemetry("G28").is_empty());
    assert!(presend_telemetry("M107").is_empty());
    assert!(presend_telemetry("G1 X10 Y10").is_empty());
}

#[test]
fn presend_fan_without_value() {
    assert!(presend_telemetry("M106 S").is_empty());
}

#[test]
fn response_full_temperature_report() {
    let mut h = HealthState::new();
    let r = handle_response(&mut h, "T:200.0 /200.0 B:60.0 /60.0 @:0 B@:0", 77);
    assert_eq!(r.len(), 3);
    match &r[0] {
        Action::Telemetry(TelemetryData::Temps(t)) => {
            assert_eq!(t.timestamp, 77);
            assert_eq!(t.ex_temp, dec(2000, 1));
            assert_eq!(t.bed_temp, dec(600, 1));
        }
        _ => panic!("expected temperatures"),
    }
    assert!(matches!(r[1], Action::Telemetry(TelemetryData::TargetExtruderTemp(200))));
    assert!(matches!(r[2], Action::Telemetry(TelemetryData::TargetBedTemp(60))));
    assert_eq!(h.status, PrinterStatus::Disconnected);
}

#[test]
fn response_heating_report() {
    let mut h = HealthState::new();
    let r = handle_response(&mut h, "T:180.5 E:0 W:? B:55.1", 5);
    assert_eq!(r.len(), 1);
    match &r[0] {
        Action::Telemetry(TelemetryData::Temps(t)) => {
            assert_eq!(t.ex_temp, dec(1805, 1));
            assert_eq!(t.bed_temp, dec(551, 1));
        }
        _ => panic!("expected temperatures"),
    }
}

#[test]
fn response_storage_progress() {
    let mut h = HealthState::new();
    let r = handle_response(
        &mut h,
        "NORMAL MODE: Percent done: 42; print time remaining in mins: 17; Change in mins: -1",
        0,
    );
    assert_eq!(r.len(), 2);
    assert!(matches!(r[0], Action::Telemetry(TelemetryData::PercentDone(42))));
    assert!(matches!(r[1], Action::Telemetry(TelemetryData::MinsRemaining(17))));
}

#[test]
fn response_action_comments() {
    let mut h = HealthState::new();
    let r = handle_response(&mut h, "// action:cancel", 0);
    assert_eq!(r.len(), 1);
    assert!(matches!(r[0], Action::PrinterAction(PrinterAction::Cancel)));
    let r = handle_response(&mut h, "//  action:pause", 0);
    assert!(matches!(r[0], Action::PrinterAction(PrinterAction::Pause)));
    let r = handle_response(&mut h, "// action:resume", 0);
    assert!(matches!(r[0], Action::PrinterAction(PrinterAction::Resume)));
    assert!(handle_response(&mut h, "// action:dance", 0).is_empty());
    assert!(handle_response(&mut h, "// action:cancelled", 0).is_empty());
}

#[test]
fn response_done_printing_sets_idle_once() {
    let mut h = HealthState::new();
    let r = handle_response(&mut h, "Done printing file", 0);
    assert_eq!(r.len(), 1);
    assert!(matches!(r[0], Action::StateChange(PrinterStatus::Idle)));
    assert_eq!(h.status, PrinterStatus::Idle);
    assert!(handle_response(&mut h, "Done printing file", 0).is_empty());
}

#[test]
fn response_plain_ok_has_no_telemetry() {
    let mut h = HealthState::new();
    assert!(handle_response(&mut h, "ok", 0).is_empty());
}
