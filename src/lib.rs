//! Orchestration core of a load-generation engine: the throttle that bounds
//! the aggregate request rate, the metrics aggregator, the distribution of
//! virtual users over task sets and their ramp-up schedule, the task
//! selection policies, and the decisions of the virtual users, of the
//! controller that runs them, and of the debug-log sink. Each loop that
//! waits on the outside world is a state machine here: its owner performs
//! the action it returns and hands back what happened.

pub mod throttle;
pub mod metrics;
pub mod tasks;
pub mod schedule;
pub mod sink;
pub mod user;
pub mod controller;
