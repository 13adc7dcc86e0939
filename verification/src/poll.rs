//! The polling cycle: what the bridge does next, given what just happened.

use crate::delivery::{delivery_request, DeliveryOutcome, DeliveryRequest};
use crate::frame::{frame_payload, frames};
use crate::reading::{ParseError, TemperatureReading};
use vstd::prelude::*;

verus! {

/// Pause between two cycles, in milliseconds.
pub const POLL_INTERVAL_MILLIS: u64 = 500;

/// Speed at which the probe's port is opened.
pub const BAUD_RATE: u32 = 9600;

/// How long one read may wait for bytes, in milliseconds.
pub const READ_TIMEOUT_MILLIS: u64 = 2000;

/// Size of the buffer that one read fills, in bytes.
pub const BUFFER_CAPACITY: usize = 256;

/// The settings of the bridge, fixed when it starts.
#[derive(Clone, Debug)]
pub struct Config {
    pub probe_id: i32,
    pub endpoint_url: String,
    pub auth_token: String,
    pub port_name: String,
}

/// What the cycle is waiting for.
#[derive(Clone, Copy, Debug, PartialEq, Eq, Structural)]
pub enum Stage {
    Sleeping,
    Locating,
    Reading,
    Parsing,
    Delivering,
    Halted,
}

/// What the world reports back after an action.
#[derive(Clone, Debug)]
pub enum Event {
    /// The pause is over.
    Woke,
    /// The ports that the host shows, by name.
    Ports(Vec<String>),
    /// The host cannot list its ports.
    PortsUnavailable,
    /// The port could not be opened.
    OpenFailed,
    /// The buffer after one read, zero-padded where the read was short or
    /// failed.
    Bytes(Vec<u8>),
    /// The payload decoded into a reading.
    Parsed(TemperatureReading),
    /// The payload did not decode.
    ParseFailed(ParseError),
    /// The delivery ended.
    Outcome(DeliveryOutcome),
}

/// What the bridge is to do next.
#[derive(Clone, Debug)]
pub enum Action {
    Sleep { millis: u64 },
    ListPorts,
    OpenAndRead { baud: u32, timeout_millis: u64, capacity: usize },
    Decode { payload: String },
    Deliver { request: DeliveryRequest },
    Halt,
}

/// What is to be reported to the observer along with a step.
#[derive(Clone, Copy, Debug, PartialEq, Eq, Structural)]
pub enum Note {
    Quiet,
    Waiting,
    PortsListed,
    PortsMissing,
    OpenFailed,
    ParseFailed,
    ReadingParsed,
    OutcomeSeen,
    OutOfTurn,
}

/// One decision of the cycle.
#[derive(Clone, Debug)]
pub struct Step {
    pub next: Stage,
    pub action: Action,
    pub note: Note,
}

/// Positions below `n` of the ports that bear `name`, ascending.
pub open spec fn matches_upto(ports: Seq<String>, name: Seq<char>, n: int) -> Seq<usize>
    decreases n,
{
    if n <= 0 {
        Seq::empty()
    } else {
        let before = matches_upto(ports, name, n - 1);
        if n <= ports.len() && ports[n - 1]@ == name {
            before.push((n - 1) as usize)
        } else {
            before
        }
    }
}

/// Positions of the ports that bear `name`, ascending.
pub open spec fn matching_ports(ports: Seq<String>, name: Seq<char>) -> Seq<usize> {
    matches_upto(ports, name, ports.len() as int)
}

/// The step that ends a cycle without a delivery and starts the pause.
pub open spec fn rests(step: Step, note: Note) -> bool {
    &&& step.next == Stage::Sleeping
    &&& step.action == (Action::Sleep { millis: POLL_INTERVAL_MILLIS })
    &&& step.note == note
}

/// The rule of the cycle: whether `step` is what follows `event` at `stage`.
pub open spec fn follows(config: Config, stage: Stage, event: Event, step: Step) -> bool {
    match (stage, event) {
        (Stage::Halted, _) => {
            &&& step.next == Stage::Halted
            &&& step.action is Halt
            &&& step.note == Note::Quiet
        },
        (Stage::Sleeping, Event::Woke) => {
            &&& step.next == Stage::Locating
            &&& step.action is ListPorts
            &&& step.note == Note::Waiting
        },
        (Stage::Locating, Event::Ports(ports)) => {
            if matching_ports(ports@, config.port_name@).len() > 0 {
                &&& step.next == Stage::Reading
                &&& step.action == (Action::OpenAndRead {
                    baud: BAUD_RATE,
                    timeout_millis: READ_TIMEOUT_MILLIS,
                    capacity: BUFFER_CAPACITY,
                })
                &&& step.note == Note::PortsListed
            } else {
                rests(step, Note::PortsListed)
            }
        },
        (Stage::Locating, Event::PortsUnavailable) => {
            &&& step.next == Stage::Halted
            &&& step.action is Halt
            &&& step.note == Note::PortsMissing
        },
        (Stage::Reading, Event::OpenFailed) => rests(step, Note::OpenFailed),
        (Stage::Reading, Event::Bytes(bytes)) => {
            &&& step.next == Stage::Parsing
            &&& step.action matches Action::Decode { payload }
            &&& frames(bytes@, payload@)
            &&& step.note == Note::Quiet
        },
        (Stage::Parsing, Event::Parsed(reading)) => {
            &&& step.next == Stage::Delivering
            &&& step.action matches Action::Deliver { request }
            &&& request.url@ == config.endpoint_url@
            &&& request.token@ == config.auth_token@
            &&& request.body.id == config.probe_id
            &&& request.body.temp == reading.temperature
            &&& step.note == Note::ReadingParsed
        },
        (Stage::Parsing, Event::ParseFailed(_)) => rests(step, Note::ParseFailed),
        (Stage::Delivering, Event::Outcome(_)) => rests(step, Note::OutcomeSeen),
        _ => rests(step, Note::OutOfTurn),
    }
}

impl Config {
    /// Gathers the four settings.
    pub fn new(probe_id: i32, endpoint_url: String, auth_token: String, port_name: String) -> (config:
        Config)
        ensures
            config.probe_id == probe_id,
            config.endpoint_url@ == endpoint_url@,
            config.auth_token@ == auth_token@,
            config.port_name@ == port_name@,
    {
        Config { probe_id, endpoint_url, auth_token, port_name }
    }
}

/// Finds the configured port among those that the host shows: the positions
/// of the ports whose name is `port_name`, letter for letter.
pub fn locate(ports: &Vec<String>, port_name: &str) -> (found: Vec<usize>)
    ensures
        found@ == matching_ports(ports@, port_name@),
{
    let wanted: String = port_name.to_owned();
    let mut found: Vec<usize> = Vec::new();
    let mut i: usize = 0;
    while i < ports.len()
        invariant
            i <= ports.len(),
            wanted@ == port_name@,
            found@ == matches_upto(ports@, port_name@, i as int),
        decreases ports.len() - i,
    {
        if ports[i] == wanted {
            found.push(i);
        }
        i += 1;
    }
    found
}

/// The step that starts the pause.
fn rest(note: Note) -> (step: Step)
    ensures
        rests(step, note),
{
    Step { next: Stage::Sleeping, action: Action::Sleep { millis: POLL_INTERVAL_MILLIS }, note }
}

/// How the bridge starts: asleep, with the first pause ahead.
pub fn start() -> (step: Step)
    ensures
        rests(step, Note::Quiet),
{
    rest(Note::Quiet)
}

/// Decides what follows `event` at `stage`. The cycle is: pause, list the
/// ports, open and read the configured one, decode the payload, deliver the
/// reading, pause again. Whatever fails on the way ends the cycle and starts
/// the pause; only a host without a port list halts the bridge. An event that
/// does not belong to the stage starts the pause as well.
pub fn step(config: &Config, stage: Stage, event: Event) -> (step: Step)
    ensures
        follows(*config, stage, event, step),
{
    match (stage, event) {
        (Stage::Halted, _) => Step { next: Stage::Halted, action: Action::Halt, note: Note::Quiet },
        (Stage::Sleeping, Event::Woke) => Step {
            next: Stage::Locating,
            action: Action::ListPorts,
            note: Note::Waiting,
        },
        (Stage::Locating, Event::Ports(ports)) => {
            let found = locate(&ports, config.port_name.as_str());
            if found.len() > 0 {
                Step {
                    next: Stage::Reading,
                    action: Action::OpenAndRead {
                        baud: BAUD_RATE,
                        timeout_millis: READ_TIMEOUT_MILLIS,
                        capacity: BUFFER_CAPACITY,
                    },
                    note: Note::PortsListed,
                }
            } else {
                rest(Note::PortsListed)
            }
        },
        (Stage::Locating, Event::PortsUnavailable) => Step {
            next: Stage::Halted,
            action: Action::Halt,
            note: Note::PortsMissing,
        },
        (Stage::Reading, Event::OpenFailed) => rest(Note::OpenFailed),
        (Stage::Reading, Event::Bytes(bytes)) => Step {
            next: Stage::Parsing,
            action: Action::Decode { payload: frame_payload(bytes) },
            note: Note::Quiet,
        },
        (Stage::Parsing, Event::Parsed(reading)) => Step {
            next: Stage::Delivering,
            action: Action::Deliver {
                request: delivery_request(
                    reading,
                    config.probe_id,
                    config.endpoint_url.as_str(),
                    config.auth_token.as_str(),
                ),
            },
            note: Note::ReadingParsed,
        },
        (Stage::Parsing, Event::ParseFailed(_)) => rest(Note::ParseFailed),
        (Stage::Delivering, Event::Outcome(_)) => rest(Note::OutcomeSeen),
        _ => rest(Note::OutOfTurn),
    }
}

/// `matching_ports` lists exactly the positions of the ports that bear the
/// name, each once and in ascending order.
pub proof fn matching_ports_are_exact(ports: Seq<String>, name: Seq<char>)
    requires
        ports.len() <= usize::MAX,
    ensures
        forall|k: int|
            0 <= k < matching_ports(ports, name).len() ==> {
                let at = #[trigger] matching_ports(ports, name)[k];
                at < ports.len() && ports[at as int]@ == name
            },
        forall|i: int|
            0 <= i < ports.len() && #[trigger] ports[i]@ == name ==> matching_ports(
                ports,
                name,
            ).contains(i as usize),
        forall|a: int, b: int|
            0 <= a < b < matching_ports(ports, name).len() ==> matching_ports(ports, name)[a]
                < matching_ports(ports, name)[b],
{
    matches_upto_are_exact(ports, name, ports.len() as int);
}

/// The same, of the positions below `n`.
pub proof fn matches_upto_are_exact(ports: Seq<String>, name: Seq<char>, n: int)
    requires
        0 <= n <= ports.len() <= usize::MAX,
    ensures
        forall|k: int|
            0 <= k < matches_upto(ports, name, n).len() ==> {
                let at = #[trigger] matches_upto(ports, name, n)[k];
                at < n && ports[at as int]@ == name
            },
        forall|i: int|
            0 <= i < n && #[trigger] ports[i]@ == name ==> matches_upto(ports, name, n).contains(
                i as usize,
            ),
        forall|a: int, b: int|
            0 <= a < b < matches_upto(ports, name, n).len() ==> matches_upto(ports, name, n)[a]
                < matches_upto(ports, name, n)[b],
    decreases n,
{
    if n > 0 {
        matches_upto_are_exact(ports, name, n - 1);
        let before = matches_upto(ports, name, n - 1);
        let now = matches_upto(ports, name, n);
        assert forall|i: int| 0 <= i < n && #[trigger] ports[i]@ == name implies now.contains(
            i as usize,
        ) by {
            if i < n - 1 {
                let k = choose|k: int| 0 <= k < before.len() && before[k] == i as usize;
                assert(now[k] == i as usize);
            } else {
                assert(now[now.len() - 1] == i as usize);
            }
        }
    }
}

/// A reading leaves the bridge only after it was parsed: a step delivers if
/// and only if it answers a parsed reading at the parsing stage, and it opens
/// the port if and only if it answers a port list that holds the configured
/// name. So a cycle in which the port is missing, cannot be opened, or yields
/// no reading, delivers nothing.
pub proof fn delivery_only_follows_a_reading(config: Config, stage: Stage, event: Event, step: Step)
    requires
        follows(config, stage, event, step),
    ensures
        step.action is Deliver <==> stage == Stage::Parsing && event is Parsed,
        step.action is OpenAndRead <==> stage == Stage::Locating && event is Ports
            && matching_ports(event->Ports_0@, config.port_name@).len() > 0,
        step.action is Decode <==> stage == Stage::Reading && event is Bytes,
        step.action is Halt <==> stage == Stage::Halted || (stage == Stage::Locating
            && event is PortsUnavailable),
        !(step.action is Deliver) && !(step.action is OpenAndRead) && !(step.action is Decode)
            && stage != Stage::Halted && !(stage == Stage::Sleeping && event is Woke) && !(stage
            == Stage::Locating && event is PortsUnavailable) ==> step.next == Stage::Sleeping
            && step.action == (Action::Sleep { millis: POLL_INTERVAL_MILLIS }),
{
}

/// Nothing is sent twice: whatever is reported after a delivery, the step that
/// follows starts the pause, so the same cycle makes no second attempt.
pub proof fn delivery_is_followed_by_the_pause(
    config: Config,
    stage: Stage,
    event: Event,
    step: Step,
    answer: Event,
    after: Step,
)
    requires
        follows(config, stage, event, step),
        step.action is Deliver,
        follows(config, step.next, answer, after),
    ensures
        after.next == Stage::Sleeping,
        after.action == (Action::Sleep { millis: POLL_INTERVAL_MILLIS }),
{
}

} // verus!
