//! Odeon: the integer, text and decision logic of the Odeon observers —
//! the deterministic generator behind the noise models, the progress
//! handle a run shares with its driver, the observation choices of the
//! models, the model descriptions' dimensions, the wire protocol's routes
//! and its client state machine, the job server's admission rules, and
//! the small parsers the front ends need.

pub mod admission;
pub mod client;
pub mod docs;
pub mod frontend;
pub mod grid;
pub mod model;
pub mod palette;
pub mod progress;
pub mod protocol;
pub mod rng;
pub mod runs;
pub mod snapshots;
pub mod text;
pub mod viewer;
