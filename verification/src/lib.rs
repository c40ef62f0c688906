//! Read and configure a VectorNav VN-100 IMU over serial.
//!
//! The VN-100 speaks an ASCII protocol over a serial port. Each command is
//!
//! ```text
//! $<payload>*XX\r\n
//! ```
//!
//! where `XX` is the 8-bit XOR checksum of every character of `<payload>` (i.e.
//! everything between `$` and `*`). Replies echo the same form; binary outputs
//! (register 75) use a packed frame ending in a 16-bit CRC instead.
//!
//! Key VN messages:
//!
//! - `$VNRRG,<id>*XX` -> `$VNRRG,<id>,<f1>,...*YY` (read register)
//! - `$VNWRG,<id>,<f1>,...*XX` -> echo (write register)
//! - `$VNWNV*XX` -> `$VNWNV*YY` (save all to flash)
//! - `$VNERR,<code>*XX` (error; see `proto::error_description`)
//!
//! From the wire up:
//!
//! - `proto` frames and checks messages; `fields`, `registers` and `output` hold
//!   the values that registers take.
//! - `line` and `frame` find ASCII lines and binary frames in a stream of bytes.
//! - `transact` decides what to make of the bytes after a command; `bench` counts
//!   what streams, and `report` says what is printed of that.
//! - `cli` and `rdwr` are the command languages of the two tools, `rw-vn100` and
//!   `rdwr_vn100`; `args` and `help` are common to them.
//! - `run` turns a command into a dialogue of turns (`session`); `configure` holds
//!   the dialogues of the bench that configures what it measures.
//! - `run_laws`, `cli_laws`, `rdwr_laws` and `help_laws` state what holds of whole
//!   sessions, of every command line, and of the usage texts.
//! - `text`, `number` and `unicode` are the text primitives beneath.
//!
//! Nothing here touches a port, a clock or a terminal: each function says what to
//! do with what was read, and the caller reads, writes, waits and prints.
use vstd::prelude::*;

pub mod args;
pub mod bench;
pub mod cli;
pub mod cli_laws;
pub mod configure;
pub mod fields;
pub mod frame;
pub mod help;
pub mod help_laws;
pub mod line;
pub mod number;
pub mod output;
pub mod proto;
pub mod rdwr;
pub mod rdwr_laws;
pub mod registers;
pub mod report;
pub mod run;
pub mod run_laws;
pub mod session;
pub mod text;
pub mod transact;
pub mod unicode;

verus! {

} // verus!
