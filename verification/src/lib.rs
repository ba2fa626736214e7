//! Verified core of a UDX710 cellular-modem management plane.
//!
//! The library holds the logic that decides and computes: the band-mask
//! codec, the vendor AT-response parsers, webhook template rendering, the
//! connectivity-watchdog decisions, the call-history state machine and the
//! USB gadget mode tables.  I/O (D-Bus, HTTP, configfs, the SQL store)
//! stays outside, in thin unverified glue that hands plain values in and
//! out.

pub mod atresp;
pub mod bands;
pub mod cells;
pub mod config;
pub mod models;
pub mod modem;
pub mod store;
pub mod system;
pub mod text;
pub mod usb;
pub mod watchdog;
pub mod webhook;
