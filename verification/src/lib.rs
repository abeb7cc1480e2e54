//! Decoding of Hemisphere GNSS binary messages (the satellite SNR report,
//! message 309) read from a serial port, and protobuf encoding of the
//! receiver information record.
pub mod wire;
pub mod message;
pub mod report;
pub mod frame;
pub mod items;
pub mod models;
