//! Retrieval of a platform-specific, stable machine identifier without
//! elevated privileges.
//!
//! Each operating-system family exposes the identifier through a different
//! mechanism: a text file on Linux, a file with a helper-process fallback on
//! the BSDs, diagnostic device-tree output on macOS, a registry value on
//! Windows, and a host-identifier system call on illumos.  The modules here
//! hold the decision and parsing logic of each branch, stated over plain
//! values; the surrounding program performs the reads, spawns and queries and
//! hands their outcomes in.

pub mod bsd;
pub mod decode;
pub mod errors;
pub mod hex;
pub mod illumos;
pub mod lines;
pub mod linux;
pub mod macos;
pub mod text;
pub mod windows;
