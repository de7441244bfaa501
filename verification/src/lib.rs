//! Credential pool and request dispatcher for a Gemini reverse proxy.
//!
//! The crate keeps a pool of interchangeable backend credentials (API keys
//! and session cookies), hands them out least-recently-used first, applies
//! cooldown and invalidation when a credential comes back, and decides when
//! a failed call is retried on another credential.
//!
//! - `models`: credentials, their states, and the failures a caller may see.
//! - `config`, `cli`: the configuration and the command line, once read.
//! - `policy`: the pool's rules as mathematics, and what follows from them.
//! - `pool`: the executable pool, which moves exactly as `policy` says.
//! - `fairness`: why least-recently-used selection spreads the load evenly.
//! - `queue`: the bounded queue in front of the workers.
//! - `dispatcher`: classification of outcomes and the retry decisions.
//! - `ident`: random identifiers for credentials.
//!
//! Nothing here reads a clock, a file or a socket: times and outcomes are
//! handed in by whoever drives the dispatcher.

pub mod cli;
pub mod config;
pub mod dispatcher;
pub mod fairness;
pub mod ident;
pub mod models;
pub mod policy;
pub mod pool;
pub mod queue;
