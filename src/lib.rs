//! Client-side protocol logic for usbmuxd, the daemon that multiplexes byte
//! streams to USB-attached iOS devices over one Unix-domain socket.
//!
//! The library holds the frame codec, a structured value model for the
//! property-list payloads, and the interpretation of the daemon's replies.
//! Socket I/O and the property-list text encoding are done by the caller.
pub mod client;
pub mod error;
pub mod frame;
pub mod value;

pub use client::{
    byte_swap, connect_request, connect_status, devices_from_reply, list_devices_request, Device,
};
pub use error::Error;
pub use frame::{decode_frame, payload_length, prepare_request_data, HEADER_LEN};
pub use value::{find, get, message_type, Dictionary, Value};
