//! Decision logic of a bridge between a serial temperature probe and an HTTP
//! controller: framing of the probe's raw output, the request that carries a
//! reading, the classification of the controller's answer, and the polling
//! cycle that ties them together.

pub mod delivery;
pub mod frame;
pub mod poll;
pub mod reading;
