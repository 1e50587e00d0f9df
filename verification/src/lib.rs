//! A circuit breaker: wraps calls to a service and stops sending them while
//! the service keeps failing, giving it time to recover.
//!
//! The breaker has three states:
//! - **Closed**: calls pass through and failures are counted by a [`Policy`];
//! - **Open**: calls are rejected at once until the open duration has elapsed;
//! - **Half-open**: probe calls test whether the service has recovered; enough
//!   successful probes close the breaker, a failed probe opens it again.

pub mod breaker;
pub mod classifier;
pub mod config;
pub mod error;
pub mod policy;
pub mod state;
pub mod time;

pub use breaker::{CallOutcome, CircuitBreaker};
pub use classifier::{AlwaysFailure, Classifier, MatchClassifier, NeverFailure};
pub use config::Config;
pub use error::Error;
pub use policy::{CountBased, Policy, SlidingWindow};
pub use state::{transition, State};
pub use time::MAX_DURATION_NANOS;
