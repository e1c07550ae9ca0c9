//! Command decoding, actuator timing and response rendering for a small
//! serial-controlled device.
pub mod decoder;
pub mod dispatch;
pub mod led;
pub mod protocol;
pub mod text;
