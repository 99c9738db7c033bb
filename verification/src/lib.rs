//! The replication game: provers replicate data between two seeds that the
//! server issues, and are ranked by the time they took.
//!
//! A seed is a timestamp and a domain value under a keyed code, so that
//! nobody but the server can make one. The start seed fixes when the work
//! began; the challenge seed is bound to the commitment of the finished
//! replica, so that a proof cannot be prepared ahead or taken from another
//! prover. A submission is checked against both seeds before and after the
//! proof scheme is run on it, and its time is kept only where it is the
//! prover's best on that parameter set.
//!
//! - [`crypto`], [`hexcode`], [`endian`], [`text`]: the secret key, and the
//!   few operations taken from other crates, each with what is assumed of it;
//! - [`domain`], [`models`]: the values that travel and the records kept;
//! - [`routes`]: what each endpoint computes;
//! - [`proofs`]: what is derived for the proof scheme, and the prover's work
//!   as a sequence of steps;
//! - [`gzip`], [`error`]: compressed bodies, cache headers, and errors.

pub mod crypto;
pub mod domain;
pub mod endian;
pub mod error;
pub mod gzip;
pub mod hexcode;
pub mod models;
pub mod proofs;
pub mod routes;
pub mod text;
