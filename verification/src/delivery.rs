//! What is sent to the controller for a reading, and what its answer means.

use crate::reading::TemperatureReading;
use vstd::prelude::*;

verus! {

/// The JSON object posted to the controller, as its two integer members.
#[derive(Clone, Copy, Debug, PartialEq, Eq, Structural)]
pub struct DeliveryBody {
    pub id: i32,
    pub temp: i32,
}

/// One authenticated POST: where it goes, the bearer token, and the body.
#[derive(Clone, Debug)]
pub struct DeliveryRequest {
    pub url: String,
    pub token: String,
    pub body: DeliveryBody,
}

/// What came back from one attempt to reach the controller.
#[derive(Clone, Debug)]
pub enum Reply {
    /// The controller answered with this status; `body` is the text of the
    /// answer where it was read.
    Answered { status: u16, body: String },
    /// No answer: the client could not be built or the request failed in
    /// transit.
    Failed { reason: String },
}

/// The three ways in which the library treats a status code.
#[derive(Clone, Copy, Debug, PartialEq, Eq, Structural)]
pub enum StatusClass {
    Success,
    ServerError,
    Other,
}

/// How one delivery ended.
#[derive(Clone, Debug)]
pub enum DeliveryOutcome {
    Delivered,
    ServerRejected,
    UnknownOutcome { status: u16, body: String },
    TransportFailed { reason: String },
}

/// Status codes 200 to 299.
pub open spec fn is_success(status: u16) -> bool {
    200 <= status < 300
}

/// Status codes 500 to 599.
pub open spec fn is_server_error(status: u16) -> bool {
    500 <= status < 600
}

/// The class of a status code.
pub open spec fn class_of(status: u16) -> StatusClass {
    if is_success(status) {
        StatusClass::Success
    } else if is_server_error(status) {
        StatusClass::ServerError
    } else {
        StatusClass::Other
    }
}

/// Whether `outcome` is the classification of `reply`.
pub open spec fn classifies(reply: Reply, outcome: DeliveryOutcome) -> bool {
    match reply {
        Reply::Answered { status, body } => match class_of(status) {
            StatusClass::Success => outcome is Delivered,
            StatusClass::ServerError => outcome is ServerRejected,
            StatusClass::Other => outcome matches DeliveryOutcome::UnknownOutcome {
                status: seen,
                body: text,
            } && seen == status && text@ == body@,
        },
        Reply::Failed { reason } => outcome matches DeliveryOutcome::TransportFailed {
            reason: told,
        } && told@ == reason@,
    }
}

impl DeliveryBody {
    /// The members of the posted object, by name.
    pub open spec fn fields(self) -> Map<Seq<char>, int> {
        map!["id"@ => self.id as int, "temp"@ => self.temp as int]
    }

    /// The members of the posted object as name and value, `id` first.
    pub fn entries(&self) -> (out: Vec<(&'static str, i32)>)
        ensures
            out@.len() == 2,
            out@[0].0@ == "id"@,
            out@[0].1 == self.id,
            out@[1].0@ == "temp"@,
            out@[1].1 == self.temp,
            self.fields() == Map::<Seq<char>, int>::empty().insert(
                out@[0].0@,
                out@[0].1 as int,
            ).insert(out@[1].0@, out@[1].1 as int),
    {
        let mut out: Vec<(&'static str, i32)> = Vec::new();
        out.push(("id", self.id));
        out.push(("temp", self.temp));
        out
    }
}

/// The body for a reading: the probe's id and the temperature. Humidity is
/// measured but not transmitted.
pub fn delivery_body(reading: TemperatureReading, probe_id: i32) -> (body: DeliveryBody)
    ensures
        body.id == probe_id,
        body.temp == reading.temperature,
{
    DeliveryBody { id: probe_id, temp: reading.temperature }
}

/// The request that delivers `reading` for the probe `probe_id` to `url`,
/// authenticated by `token`.
pub fn delivery_request(reading: TemperatureReading, probe_id: i32, url: &str, token: &str) -> (request:
    DeliveryRequest)
    ensures
        request.url@ == url@,
        request.token@ == token@,
        request.body.id == probe_id,
        request.body.temp == reading.temperature,
{
    DeliveryRequest {
        url: url.to_owned(),
        token: token.to_owned(),
        body: delivery_body(reading, probe_id),
    }
}

/// Calls `StatusCode::from_u16` and, on the code it gives, `is_success` of
/// reqwest's `StatusCode`. A number that is no status code (below 100 or above
/// 999) is no success; of a status code, `is_success` tells whether it lies in
/// 200 to 299.
#[verifier::external_body]
fn status_is_success(status: u16) -> (yes: bool)
    ensures
        yes == is_success(status),
{
    match reqwest::StatusCode::from_u16(status) {
        Ok(code) => code.is_success(),
        Err(_) => false,
    }
}

/// Calls `StatusCode::from_u16` and, on the code it gives, `is_server_error`
/// of reqwest's `StatusCode`. A number that is no status code is no server
/// error; of a status code, `is_server_error` tells whether it lies in 500 to
/// 599.
#[verifier::external_body]
fn status_is_server_error(status: u16) -> (yes: bool)
    ensures
        yes == is_server_error(status),
{
    match reqwest::StatusCode::from_u16(status) {
        Ok(code) => code.is_server_error(),
        Err(_) => false,
    }
}

/// Sorts a status code into success, server error, or anything else.
pub fn classify_status(status: u16) -> (class: StatusClass)
    ensures
        class == class_of(status),
{
    if status_is_success(status) {
        StatusClass::Success
    } else if status_is_server_error(status) {
        StatusClass::ServerError
    } else {
        StatusClass::Other
    }
}

/// Classifies the end of one delivery. A success status means delivered, a
/// server error means rejected; any other status is passed on with the
/// answer's text, and a failure without an answer with its reason.
pub fn classify(reply: Reply) -> (outcome: DeliveryOutcome)
    ensures
        classifies(reply, outcome),
{
    match reply {
        Reply::Answered { status, body } => match classify_status(status) {
            StatusClass::Success => DeliveryOutcome::Delivered,
            StatusClass::ServerError => DeliveryOutcome::ServerRejected,
            StatusClass::Other => DeliveryOutcome::UnknownOutcome { status, body },
        },
        Reply::Failed { reason } => DeliveryOutcome::TransportFailed { reason },
    }
}

/// The posted object has exactly the members `id` and `temp`, with the
/// probe's id and the temperature as their values: humidity never leaves the
/// bridge, whatever the reading and the probe.
pub proof fn body_omits_humidity(reading: TemperatureReading, probe_id: i32)
    ensures
        ({
            let body = DeliveryBody { id: probe_id, temp: reading.temperature };
            &&& body.fields().dom() =~= set!["id"@, "temp"@]
            &&& !body.fields().contains_key("humidity"@)
            &&& body.fields()["id"@] == probe_id
            &&& body.fields()["temp"@] == reading.temperature
        }),
{
    reveal_strlit("id");
    reveal_strlit("temp");
    reveal_strlit("humidity");
    assert("id"@.len() == 2);
    assert("temp"@.len() == 4);
    assert("humidity"@.len() == 8);
}

} // verus!
