pub mod config;
pub mod errors;
pub mod handlers;
pub mod iso8601;
pub mod numfmt;
pub mod performance;
pub mod selection;
pub mod state;
pub mod stats;
pub mod stream;
pub mod sync;
pub mod timebase;
