//! The client proper: stamped telemetry cells, the robot slot, the frame
//! buffer of the serial transport, and the base station aggregate with the
//! rules that route each received frame.
pub mod basestation;
pub mod robot;
pub mod serial;
pub mod utils;
