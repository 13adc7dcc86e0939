use vstd::prelude::*;

verus! {

/// One measurement reported by the probe.
#[derive(Clone, Copy, Debug, PartialEq, Eq, Structural)]
pub struct TemperatureReading {
    pub humidity: i32,
    pub temperature: i32,
}

/// Why a payload could not be decoded into a reading.
#[derive(Clone, Debug)]
pub struct ParseError {
    pub message: String,
}

impl TemperatureReading {
    /// Builds a reading from its two measured values.
    pub fn new(humidity: i32, temperature: i32) -> (reading: TemperatureReading)
        ensures
            reading.humidity == humidity,
            reading.temperature == temperature,
    {
        TemperatureReading { humidity, temperature }
    }
}

impl ParseError {
    /// Wraps the decoder's message.
    pub fn new(message: String) -> (error: ParseError)
        ensures
            error.message@ == message@,
    {
        ParseError { message }
    }

    /// The decoder's message.
    pub fn message(&self) -> (text: &str)
        ensures
            text@ == self.message@,
    {
        self.message.as_str()
    }
}

} // verus!
