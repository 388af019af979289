//! The protocol core of a small FTP server: command framing, command
//! parsing, the per-connection session state machine, data-port address
//! encoding, path containment under a virtual root, transfer-type
//! transcoding and directory-listing text.

pub mod addr;
pub mod bytes;
pub mod command;
pub mod frame;
pub mod listing;
pub mod path;
pub mod session;
pub mod transcode;
