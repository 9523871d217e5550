use serial_bridge::command::{request_arm, request_disarm, request_solenoid, Command, CommandQueue};
use serial_bridge::frame::{parse_frame, parse_received, Frame};
use serial_bridge::link::{terminated, LinkState, SerialLink};
use serial_bridge::page::index;
use serial_bridge::telemetry::{StateStore, Telemetry};
use serial_bridge::text::{chars_of, parse_u64, split_on, trimmed};

const GOOD: &str = "TS:100 | ARM:1 | BATT:11.5V | ARM_SENSE:2.3V | SOL:1:ON,2:OFF,3:OFF,4:OFF,5:OFF,6:OFF,7:OFF,8:OFF,9:OFF,10:OFF,11:OFF,12:OFF,13:OFF,14:OFF,15:OFF,16:OFF";

fn text(v: &[char]) -> String {
    v.iter().collect()
}

fn sol_field(states: &[&str]) -> String {
    let entries: Vec<String> = states
        .iter()
        .enumerate()
        .map(|(i, s)| format!("{}:{}", i + 1, s))
        .collect();
    entries.join(",")
}

fn line_with(ts: &str, arm: &str, sol: &str) -> String {
    format!("TS:{} | ARM:{} | BATT:12.0V | ARM_SENSE:0.5V | SOL:{}", ts, arm, sol)
}

fn all_off() -> String {
    sol_field(&["OFF"; 16])
}

fn record_from(frame: Frame) -> Option<Telemetry> {
    let b = text(&frame.battery).parse::<f32>().ok().map(f32::to_bits);
    let a = text(&frame.arming).parse::<f32>().ok().map(f32::to_bits);
    Telemetry::from_frame(frame, b, a)
}

fn sample_record(ts: u64) -> Telemetry {
    let mut solenoids = vec![false; 16];
    solenoids[3] = true;
    Telemetry {
        timestamp: ts,
        armed: true,
        battery: 7.25f32.to_bits(),
        arming: 1.5f32.to_bits(),
        solenoids,
    }
}

fn same(a: &Telemetry, b: &Telemetry) -> bool {
    a.timestamp == b.timestamp
        && a.armed == b.armed
        && a.battery == b.battery
        && a.arming == b.arming
        && a.solenoids == b.solenoids
}

#[test]
fn scenario_well_formed_line() {
    let f = parse_frame(GOOD).expect("accepted");
    assert_eq!(f.timestamp, 100);
    assert!(f.armed);
    assert_eq!(text(&f.battery), "11.5");
    assert_eq!(text(&f.arming), "2.3");
    let mut expected = vec![false; 16];
    expected[0] = true;
    assert_eq!(f.solenoids, expected);
    let r = record_from(f).expect("record");
    assert_eq!(r.timestamp, 100);
    assert!(r.armed);
    assert_eq!(f32::from_bits(r.battery), 11.5);
    assert_eq!(f32::from_bits(r.arming), 2.3);
    assert_eq!(r.solenoids, expected);
}

#[test]
fn scenario_four_fields_rejected_state_kept() {
    let line = "TS:100 | ARM:1 | BATT:11.5V | ARM_SENSE:2.3V";
    assert!(parse_frame(line).is_none());
    let mut store = StateStore::new();
    store.write(sample_record(9));
    store.publish(parse_frame(line).and_then(record_from));
    assert!(same(&store.read(), &sample_record(9)));
}

#[test]
fn scenario_solenoid_five_on() {
    let mut q = CommandQueue::new();
    assert!(request_solenoid(&mut q, 5, 1));
    assert_eq!(q.drain_available(), vec!["s51".to_string()]);
}

#[test]
fn scenario_channel_out_of_range() {
    let mut q = CommandQueue::new();
    assert!(!request_solenoid(&mut q, 17, 1));
    assert!(!request_solenoid(&mut q, 0, 1));
    assert!(!request_solenoid(&mut q, 3, 2));
    assert_eq!(q.len(), 0);
    assert!(q.drain_available().is_empty());
}

#[test]
fn scenario_open_failure_keeps_default() {
    let mut link = SerialLink::new();
    assert_eq!(link.state(), LinkState::Connecting);
    link.opened(false);
    assert_eq!(link.state(), LinkState::Stopped);
    link.opened(true);
    assert_eq!(link.state(), LinkState::Stopped);
    let mut store = StateStore::new();
    let mut q = CommandQueue::new();
    request_arm(&mut q);
    for i in 0..5 {
        assert!(link.outgoing(&mut q).is_empty());
        link.received(&mut store, Some(sample_record(i)));
        assert!(same(&store.read(), &Telemetry::default()));
    }
    assert_eq!(q.len(), 1);
}

#[test]
fn running_link_writes_then_publishes() {
    let mut link = SerialLink::new();
    link.opened(true);
    assert_eq!(link.state(), LinkState::Running);
    let mut q = CommandQueue::new();
    request_arm(&mut q);
    assert!(request_solenoid(&mut q, 12, 0));
    request_disarm(&mut q);
    assert_eq!(link.outgoing(&mut q), vec!["a\n".to_string(), "s120\n".to_string(), "d\n".to_string()]);
    assert_eq!(q.len(), 0);
    let mut store = StateStore::new();
    link.received(&mut store, None);
    assert!(same(&store.read(), &Telemetry::default()));
    link.received(&mut store, Some(sample_record(3)));
    assert!(same(&store.read(), &sample_record(3)));
}

#[test]
fn read_after_write_returns_record() {
    let mut store = StateStore::new();
    store.write(sample_record(1));
    store.write(sample_record(2));
    assert!(same(&store.read(), &sample_record(2)));
    assert!(same(&store.read(), &sample_record(2)));
}

#[test]
fn default_record_is_all_zero() {
    let d = Telemetry::default();
    assert_eq!(d.timestamp, 0);
    assert!(!d.armed);
    assert_eq!(f32::from_bits(d.battery), 0.0);
    assert_eq!(f32::from_bits(d.arming), 0.0);
    assert_eq!(d.solenoids, vec![false; 16]);
    assert!(same(&StateStore::new().read(), &d));
}

#[test]
fn queue_keeps_submission_order() {
    let mut q = CommandQueue::new();
    for c in ["a", "s11", "d", "s160", "a"] {
        q.submit(c.to_string());
    }
    assert_eq!(q.len(), 5);
    assert_eq!(q.drain_available(), vec!["a", "s11", "d", "s160", "a"]);
    assert!(q.drain_available().is_empty());
    q.submit("d".to_string());
    assert_eq!(q.drain_available(), vec!["d"]);
}

#[test]
fn command_tokens() {
    assert_eq!(Command::Arm.token(), "a");
    assert_eq!(Command::Disarm.token(), "d");
    assert_eq!(Command::solenoid(1, 0).unwrap().token(), "s10");
    assert_eq!(Command::solenoid(9, 1).unwrap().token(), "s91");
    assert_eq!(Command::solenoid(10, 1).unwrap().token(), "s101");
    assert_eq!(Command::solenoid(16, 0).unwrap().token(), "s160");
    assert!(Command::solenoid(16, 2).is_none());
    assert!(Command::solenoid(0, 0).is_none());
}

#[test]
fn terminated_adds_newline() {
    assert_eq!(terminated("s51".to_string()), "s51\n");
    assert_eq!(terminated(String::new()), "\n");
}

#[test]
fn channel_index_text_is_ignored() {
    let mut states = vec!["OFF"; 16];
    states[15] = "ON";
    let entries: Vec<String> = states.iter().map(|s| format!("7:{}", s)).collect();
    let f = parse_frame(&line_with("5", "0", &entries.join(","))).unwrap();
    assert!(!f.armed);
    assert!(f.solenoids[15]);
    assert_eq!(f.solenoids.iter().filter(|b| **b).count(), 1);
}

#[test]
fn state_token_must_be_exact() {
    for token in [" ON", "ON ", " ON ", "\tOFF", "On", "on", "1"] {
        let mut states = vec!["OFF"; 16];
        states[2] = token;
        assert!(parse_frame(&line_with("1", "1", &sol_field(&states))).is_none(), "{:?}", token);
    }
    let mut states = vec!["OFF"; 16];
    states[2] = "ON";
    assert!(parse_frame(&line_with("1", "1", &sol_field(&states))).unwrap().solenoids[2]);
}

#[test]
fn any_index_text_is_positional() {
    let entries: Vec<String> = (0..16)
        .map(|i| if i == 4 { "x y:ON".to_string() } else { format!("{}:OFF", 16 - i) })
        .collect();
    let f = parse_frame(&line_with("+0009", "1", &entries.join(","))).unwrap();
    assert_eq!(f.timestamp, 9);
    let mut expected = vec![false; 16];
    expected[4] = true;
    assert_eq!(f.solenoids, expected);
}

#[test]
fn timestamp_limits() {
    assert_eq!(parse_frame(&line_with("18446744073709551615", "1", &all_off())).unwrap().timestamp, u64::MAX);
    assert!(parse_frame(&line_with("18446744073709551616", "1", &all_off())).is_none());
    assert_eq!(parse_frame(&line_with("+7", "1", &all_off())).unwrap().timestamp, 7);
    assert!(parse_frame(&line_with("-7", "1", &all_off())).is_none());
    assert!(parse_frame(&line_with("", "1", &all_off())).is_none());
    assert!(parse_frame(&line_with("1x", "1", &all_off())).is_none());
}

#[test]
fn malformed_lines_rejected() {
    assert!(parse_frame(&line_with("1", "2", &all_off())).is_none());
    assert!(parse_frame(&line_with("1", "true", &all_off())).is_none());
    assert!(parse_frame(&line_with("1", "1", &sol_field(&["OFF"; 15]))).is_none());
    assert!(parse_frame(&line_with("1", "1", &sol_field(&["OFF"; 17]))).is_none());
    let mut states = vec!["OFF"; 16];
    states[4] = "on";
    assert!(parse_frame(&line_with("1", "1", &sol_field(&states))).is_none());
    let extra = format!("{},{}", sol_field(&["OFF"; 15]), "16:OFF:1");
    assert!(parse_frame(&line_with("1", "1", &extra)).is_none());
    let no_v = format!("TS:1 | ARM:1 | BATT:12.0 | ARM_SENSE:0.5V | SOL:{}", all_off());
    assert!(parse_frame(&no_v).is_none());
    let bad_prefix = format!("TS:1 | ARM:1 | BAT:12.0V | ARM_SENSE:0.5V | SOL:{}", all_off());
    assert!(parse_frame(&bad_prefix).is_none());
    let six = format!("{} | X", line_with("1", "1", &all_off()));
    assert!(parse_frame(&six).is_none());
    assert!(parse_frame("").is_none());
}

#[test]
fn non_numeric_voltage_has_no_record() {
    let line = format!("TS:1 | ARM:1 | BATT:abcV | ARM_SENSE:0.5V | SOL:{}", all_off());
    let f = parse_frame(&line).unwrap();
    assert_eq!(text(&f.battery), "abc");
    assert!(record_from(f).is_none());
    assert!(Telemetry::from_frame(parse_frame(GOOD).unwrap(), Some(1), None).is_none());
    let r = Telemetry::from_frame(parse_frame(GOOD).unwrap(), Some(1), Some(2)).unwrap();
    assert_eq!((r.battery, r.arming), (1, 2));
}

#[test]
fn received_line_is_trimmed() {
    let line = format!("  {}\r\n", GOOD);
    assert!(parse_frame(&line).is_none());
    assert_eq!(parse_received(&line).unwrap().timestamp, 100);
}

#[test]
fn text_helpers() {
    let v = chars_of("a | b | | c");
    let sep = chars_of(" | ");
    let parts: Vec<String> = split_on(&v, &sep).iter().map(|p| text(p)).collect();
    assert_eq!(parts, vec!["a", "b", "| c"]);
    let parts: Vec<String> = split_on(&chars_of("a |  | b"), &sep).iter().map(|p| text(p)).collect();
    assert_eq!(parts, vec!["a", "", "b"]);
    let parts: Vec<String> = split_on(&chars_of("x"), &sep).iter().map(|p| text(p)).collect();
    assert_eq!(parts, vec!["x"]);
    assert_eq!(text(&trimmed(&chars_of("\t ON \u{a0}"))), "ON");
    assert_eq!(parse_u64(&chars_of("0042")), Some(42));
    assert_eq!(parse_u64(&chars_of("+")), None);
}

#[test]
fn monitor_page_served() {
    let page = index();
    assert!(page.starts_with("<!DOCTYPE html>"));
    assert!(page.contains("/telemetry"));
}

#[test]
fn rendered_fields_read_back() {
    let states: Vec<&str> = (0..16).map(|i| if i % 3 == 0 { "ON" } else { "OFF" }).collect();
    let line = format!(
        "TS:0 | ARM:0 | BATT:3.75V | ARM_SENSE:-1e2V | SOL:{}",
        sol_field(&states)
    );
    let f = parse_frame(&line).unwrap();
    assert_eq!(f.timestamp, 0);
    assert!(!f.armed);
    assert_eq!(text(&f.battery), "3.75");
    assert_eq!(text(&f.arming), "-1e2");
    let expected: Vec<bool> = (0..16).map(|i| i % 3 == 0).collect();
    assert_eq!(f.solenoids, expected);
    let r = record_from(f).unwrap();
    assert_eq!(f32::from_bits(r.battery), 3.75);
    assert_eq!(f32::from_bits(r.arming), -100.0);
}
