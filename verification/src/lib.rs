//! Verified core of a heartbeat tool that periodically runs one shell command
//! on a set of remote nodes and reports a timestamped status line per node.

pub mod node;
pub mod params;
pub mod poller;
pub mod status;

pub use node::Node;
pub use params::ConfigError;
pub use params::ConnectionParameters;
pub use params::resolve;
pub use poller::Poller;
pub use poller::capture_tick_timestamp;
pub use poller::make_pollers;
pub use status::ExecutionAttempt;
pub use status::Stage;
pub use status::format_output;
pub use status::format_status;
