//! Decoding of flight-simulator telemetry datagrams and the presence state
//! machine that turns them into status payloads.
pub mod text;
pub mod numeral;
pub mod telemetry;
pub mod presence;
