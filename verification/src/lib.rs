//! Verified core of a PTY session manager: a UTF-8 boundary scanner and
//! output coalescer that never split a multi-byte character across two
//! delivered chunks, an environment sanitizer for spawned shells, and a
//! session registry with create/write/resize/close operations.

pub mod coalesce;
pub mod env;
pub mod manager;
pub mod pty;
pub mod strutil;
pub mod utf8;
