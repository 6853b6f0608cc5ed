//! Verified peer-lifecycle bookkeeping.
//!
//! A dynamic set of peers attaches to and detaches from a shared connection
//! bus, while an independent hierarchical directory lists the same peers
//! under human-readable names. This crate holds the verified core of a
//! harness that checks the two views against each other:
//!
//! * [`registry`] — the ordered peer registry mirroring live connections,
//!   appended on join and pruned on leave;
//! * [`resolver`] — point-in-time correlation of registry entries against the
//!   identifier-to-name mapping read from the directory;
//! * [`session`] — the lifecycle verifier state machine that drives a
//!   launch / settle / verify-present / terminate / settle / verify-absent
//!   run;
//! * [`report`] — a bounded diagnostic view of the registry tail.
//!
//! Identifiers and names are byte strings (`Vec<u8>`), compared
//! case-insensitively by ASCII folding where a name is matched ([`bytes`]).
//! The bus transport, the directory's remote calls and the process launcher
//! are outside collaborators and stay outside this crate: a caller performs
//! them and feeds the observed values back in.

pub mod bytes;
pub mod peer;
pub mod registry;
pub mod report;
pub mod resolver;
pub mod seqs;
pub mod session;
