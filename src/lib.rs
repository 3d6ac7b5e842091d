//! Client for a virtual HID keyboard and mouse driven through a vendor
//! control channel: key and modifier encoding, textual click tokens, the
//! fixed binary reports, device identification and coordinate mapping.
//! Operating-system calls are made by the caller; every decision is here.

pub mod device;
pub mod display;
pub mod keyboard;
pub mod mouse;
pub mod report;
pub mod tokens;
