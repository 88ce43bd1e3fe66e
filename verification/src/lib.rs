//! A remotely-managed cron agent library.
//!
//! The agent authenticates to a control server over mutual TLS, lets the
//! server resolve cron schedule syntax into presence bitmaps, evaluates which
//! jobs are due at each minute tick, and reports job output back over the
//! same framed binary protocol.  This crate holds the verified logic: message
//! framing, schedule bitmaps and the due-check, configuration-line parsing,
//! remote-trigger application, and the certificate status decision.  The
//! process entry point, sockets, files and process spawning live outside.

pub mod cert;
pub mod conf;
pub mod cron;
pub mod msg;
pub mod point;
pub mod text;
