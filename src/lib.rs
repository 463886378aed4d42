//! USB device enumeration: the record model, the extraction of IDs and strings
//! from the raw values that an operating system reports, and the per-platform
//! rules that turn what the system reports of each device into `UsbDevice` records.

pub mod common;
pub mod text;
pub mod extract;
pub mod linux;
pub mod windows;
