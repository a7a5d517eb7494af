//! Behaviour anomaly guard: events go in, a recommended decision comes out.
//!
//! The library keeps a short per-actor memory of events, measures how an
//! actor's recent behaviour departs from its configured limits, and maps the
//! combined risk onto allow / warn / delay / block.  Callers enforce.

mod clock;
pub mod analyzer;
pub mod cli;
pub mod config;
pub mod decision;
pub mod event;
pub mod guard;
pub mod keyed;
mod lru_cache;
pub mod numeric;
pub mod tracker;

pub use decision::Decision;
pub use event::Event;
pub use guard::Guard;
pub use config::Config;
pub use numeric::Real;
pub use tracker::Tracker;
