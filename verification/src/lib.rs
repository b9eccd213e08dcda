//! Verified core of the logger client: console line capture, the device
//! protocol helpers, CSV export of decoded logs and the MoTeC `.ld` writer.

pub mod bytes;
pub mod config;
pub mod config_tab;
pub mod console;
pub mod decimal;
pub mod device;
pub mod ld;
pub mod link;
pub mod log_parse;
pub mod motec;
pub mod text;
pub mod ui;
