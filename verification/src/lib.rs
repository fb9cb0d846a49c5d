// froman: a demand-driven supervisor for local worker processes.
//
// Each configured worker is bound to a queue backend; when the backend shows
// pending or in-flight work the worker's process is started, and when demand
// disappears the process is kept alive for a grace period and then stopped.

pub mod colors;
pub mod config;
pub mod errors;
pub mod runner;
pub mod text;
pub mod workers;

pub use colors::colorize;
