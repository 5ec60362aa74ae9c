//! A line-oriented session protocol engine with verified framing and
//! session logic, plus verified helpers for PNG-style chunks and pool
//! rate arithmetic.
//!
//! The framing layer turns an incrementally fed byte buffer into discrete
//! protocol units (CRLF lines, folded header blocks, dot-terminated
//! bodies).  The session layer drives a per-connection state machine over
//! those units.  All I/O stays outside this crate; callers feed bytes in
//! and write replies out.

pub mod chunk;
pub mod chunk_type;
pub mod frame;
pub mod kvmap;
pub mod pool;
pub mod scan;
pub mod session;
