//! Host-side link to a USB-serial base station that relays fixed-layout radio
//! records to and from a fleet of up to sixteen robots.
//!
//! The crate holds the deterministic core of the link: the wire schema, the
//! CRC-checked frame codec, the per-robot telemetry aggregate and the rules
//! that route each received frame. Ports, threads and channels are left to the
//! caller, which hands bytes in and takes frames out.
#![allow(non_camel_case_types)]
#![allow(non_upper_case_globals)]
#![allow(non_snake_case)]

pub mod base_station_client;
pub mod crc8;
pub mod glue;
pub mod records;
pub mod schema;
pub mod text;
pub mod wire;
