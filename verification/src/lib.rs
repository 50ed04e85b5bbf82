//! Device-side logic of SentryUSB: the rules, parsers and state machines that
//! decide what the device does, kept apart from the code that touches sysfs,
//! sockets and disks.

pub mod adapter;
pub mod board;
pub mod command;
pub mod early_bind;
pub mod flags;
pub mod gadget;
pub mod order;
pub mod overview;
pub mod radio;
pub mod row;
pub mod serial;
pub mod setup;
pub mod store_codec;
pub mod text;
