//! Observability for an HTTP service, with what the service needs around it.
//!
//! The core is the request middleware: [`middleware`] follows one exchange
//! of request and response through its stages, [`counting`] counts the bytes
//! of a request body as it streams past, [`policy`] decides which exchanges
//! are recorded and under which endpoint label, and [`registry`] holds the
//! counters and histograms that the measurements go into. [`metrics`] names
//! the metrics of the service, [`uptime`] counts the seconds it has been up,
//! and [`exposition`] turns the registry into the text that a scrape returns.
//!
//! The other modules hold the rules of the service's surroundings:
//! configuration and the tool that looks it up, the connection pools, the
//! stores, the log files, and the codes of the answers.
//!
//! Nothing here reads a clock, the environment, a file or a socket. The
//! caller does, and hands over what it found as plain values.

pub mod clio;
pub mod config;
pub mod connect;
pub mod counting;
pub mod exposition;
pub mod logger;
pub mod metrics;
pub mod middleware;
pub mod policy;
pub mod registry;
pub mod repository;
pub mod request;
pub mod response;
pub mod text;
pub mod uptime;
