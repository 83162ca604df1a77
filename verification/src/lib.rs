//! Verified core of a Bluetooth HID mouse: who may connect, what a connected
//! host is answered, and which reports the mouse sends.
//!
//! The sockets, the timer and the wire encodings belong to the program around
//! the library; it hands in what happened and carries out what comes back.

pub mod address;
pub mod connection;
pub mod errno;
pub mod handler;
pub mod handler_laws;
pub mod io_option;
pub mod report;
pub mod server;
pub mod server_laws;

pub use address::{Address, AddressType, HidPsms, ListenerAddress};
pub use connection::{Connection, ConnectionControl, Event};
pub use errno::ClassWriteOutcome;
pub use io_option::IOOption;
