use temp_probe::delivery::{classify, DeliveryOutcome, Reply};
use temp_probe::poll::{
    locate, start, step, Action, Config, Event, Note, Stage, BAUD_RATE, BUFFER_CAPACITY,
    POLL_INTERVAL_MILLIS, READ_TIMEOUT_MILLIS,
};
use temp_probe::reading::{ParseError, TemperatureReading};

fn config() -> Config {
    Config::new(
        7,
        "http://controller/api".to_string(),
        "token".to_string(),
        "/dev/ttyUSB0".to_string(),
    )
}

fn names(list: &[&str]) -> Vec<String> {
    list.iter().map(|s| s.to_string()).collect()
}

fn is_rest(action: &Action) -> bool {
    matches!(action, Action::Sleep { millis: 500 })
}

#[test]
fn constants_of_the_cycle() {
    assert_eq!(POLL_INTERVAL_MILLIS, 500);
    assert_eq!(BAUD_RATE, 9600);
    assert_eq!(READ_TIMEOUT_MILLIS, 2000);
    assert_eq!(BUFFER_CAPACITY, 256);
}

#[test]
fn locate_finds_the_exact_name() {
    let ports = names(&["/dev/ttyS0", "/dev/ttyUSB0", "/dev/ttyUSB1"]);
    assert_eq!(locate(&ports, "/dev/ttyUSB0"), vec![1]);
    assert_eq!(locate(&ports, "/dev/ttyusb0"), Vec::<usize>::new());
    assert_eq!(locate(&ports, "/dev/ttyUSB"), Vec::<usize>::new());
    assert_eq!(locate(&Vec::new(), "COM3"), Vec::<usize>::new());
}

#[test]
fn locate_reports_every_match_in_order() {
    let ports = names(&["COM3", "COM1", "COM3", "com3", "COM3"]);
    assert_eq!(locate(&ports, "COM3"), vec![0, 2, 4]);
}

#[test]
fn bridge_starts_with_a_pause() {
    let first = start();
    assert_eq!(first.next, Stage::Sleeping);
    assert!(is_rest(&first.action));
    assert_eq!(first.note, Note::Quiet);
}

#[test]
fn waking_lists_the_ports() {
    let next = step(&config(), Stage::Sleeping, Event::Woke);
    assert_eq!(next.next, Stage::Locating);
    assert!(matches!(next.action, Action::ListPorts));
    assert_eq!(next.note, Note::Waiting);
}

#[test]
fn matching_port_is_opened_and_read() {
    let ports = names(&["/dev/ttyS0", "/dev/ttyUSB0"]);
    let next = step(&config(), Stage::Locating, Event::Ports(ports));
    assert_eq!(next.next, Stage::Reading);
    assert!(matches!(
        next.action,
        Action::OpenAndRead { baud: 9600, timeout_millis: 2000, capacity: 256 }
    ));
    assert_eq!(next.note, Note::PortsListed);
}

#[test]
fn no_matching_port_means_no_read_and_no_delivery() {
    let ports = names(&["/dev/ttyS0", "/dev/ttyUSB1"]);
    let next = step(&config(), Stage::Locating, Event::Ports(ports));
    assert_eq!(next.next, Stage::Sleeping);
    assert!(is_rest(&next.action));
    assert_eq!(next.note, Note::PortsListed);
    let after = step(&config(), next.next, Event::Woke);
    assert!(matches!(after.action, Action::ListPorts));
}

#[test]
fn missing_port_list_halts() {
    let next = step(&config(), Stage::Locating, Event::PortsUnavailable);
    assert_eq!(next.next, Stage::Halted);
    assert!(matches!(next.action, Action::Halt));
    assert_eq!(next.note, Note::PortsMissing);
    let after = step(&config(), next.next, Event::Woke);
    assert_eq!(after.next, Stage::Halted);
    assert!(matches!(after.action, Action::Halt));
    assert_eq!(after.note, Note::Quiet);
}

#[test]
fn failed_open_is_reported_and_nothing_is_delivered() {
    let next = step(&config(), Stage::Reading, Event::OpenFailed);
    assert_eq!(next.next, Stage::Sleeping);
    assert!(is_rest(&next.action));
    assert_eq!(next.note, Note::OpenFailed);
}

#[test]
fn bytes_are_framed_for_decoding() {
    let raw = b"BANNER\r\n{\"humidity\":45,\"temperature\":22}\0\0".to_vec();
    let next = step(&config(), Stage::Reading, Event::Bytes(raw));
    assert_eq!(next.next, Stage::Parsing);
    match next.action {
        Action::Decode { payload } => assert_eq!(payload, "{\"humidity\":45,\"temperature\":22}"),
        other => panic!("{:?}", other),
    }
    assert_eq!(next.note, Note::Quiet);
}

#[test]
fn parsed_reading_is_delivered_without_humidity() {
    let reading = TemperatureReading::new(45, 22);
    let next = step(&config(), Stage::Parsing, Event::Parsed(reading));
    assert_eq!(next.next, Stage::Delivering);
    match next.action {
        Action::Deliver { request } => {
            assert_eq!(request.url, "http://controller/api");
            assert_eq!(request.token, "token");
            assert_eq!(request.body.entries(), vec![("id", 7), ("temp", 22)]);
        }
        other => panic!("{:?}", other),
    }
    assert_eq!(next.note, Note::ReadingParsed);
}

#[test]
fn failed_parse_ends_the_cycle() {
    let error = ParseError::new("EOF while parsing a value".to_string());
    let next = step(&config(), Stage::Parsing, Event::ParseFailed(error));
    assert_eq!(next.next, Stage::Sleeping);
    assert!(is_rest(&next.action));
    assert_eq!(next.note, Note::ParseFailed);
}

#[test]
fn server_error_is_rejected_and_not_retried() {
    let outcome = classify(Reply::Answered { status: 500, body: String::new() });
    assert!(matches!(outcome, DeliveryOutcome::ServerRejected));
    let next = step(&config(), Stage::Delivering, Event::Outcome(outcome));
    assert_eq!(next.next, Stage::Sleeping);
    assert!(is_rest(&next.action));
    assert_eq!(next.note, Note::OutcomeSeen);
}

#[test]
fn whole_cycle_from_pause_to_pause() {
    let cfg = config();
    let mut at = start();
    at = step(&cfg, at.next, Event::Woke);
    at = step(&cfg, at.next, Event::Ports(names(&["/dev/ttyUSB0"])));
    let raw = b"BANNER\r\n{\"humidity\":45,\"temperature\":22}\0\0".to_vec();
    at = step(&cfg, at.next, Event::Bytes(raw));
    at = step(&cfg, at.next, Event::Parsed(TemperatureReading::new(45, 22)));
    assert!(matches!(at.action, Action::Deliver { .. }));
    at = step(&cfg, at.next, Event::Outcome(DeliveryOutcome::Delivered));
    assert_eq!(at.next, Stage::Sleeping);
    assert!(is_rest(&at.action));
}

#[test]
fn event_out_of_turn_starts_the_pause() {
    let reading = TemperatureReading::new(1, 2);
    let next = step(&config(), Stage::Sleeping, Event::Parsed(reading));
    assert_eq!(next.next, Stage::Sleeping);
    assert!(is_rest(&next.action));
    assert_eq!(next.note, Note::OutOfTurn);
    let next = step(&config(), Stage::Delivering, Event::Bytes(vec![1, 2, 3]));
    assert!(is_rest(&next.action));
    assert_eq!(next.note, Note::OutOfTurn);
}
