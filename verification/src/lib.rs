//! Core engine of an interactive remote-shell client: a terminal emulator
//! driven by an escape-sequence parser, the SOCKS5 handshake logic used by
//! dynamic port forwarding and upstream proxies, the port-forward rule
//! table, and the file-transfer bookkeeping of the SFTP browser.
//!
//! Everything here is pure state and arithmetic; network and file I/O live
//! in the surrounding application, which feeds plain values in and out.

pub mod cell;
pub mod emulator;
pub mod parser;
pub mod selection;
pub mod forward;
pub mod keys;
pub mod session;
pub mod sftp;
pub mod socks5;
pub mod text;
