//! Protocol logic for keyboards that speak the Weisheng HID protocol:
//! frame layout, fragmentation and reassembly of command payloads, the
//! function-info record, and the table of supported devices.

pub mod error;
pub mod hid;
pub mod model;
pub mod protocol;
pub mod util;
