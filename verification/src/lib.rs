//! Aircraft tracking over an APRS/OGN feed: wire types, the line parser, the
//! time-windowed airspace buffer and the pacing rules of the task scheduler.

pub mod airspace;
pub mod channel;
pub mod clock;
pub mod config;
pub mod hex;
pub mod ingestor;
pub mod keys;
pub mod parser;
pub mod text;
pub mod thread_manager;
pub mod types;
