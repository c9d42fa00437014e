//! The settings of the program.

pub use crate::ingestor::GliderNetConfig;
use vstd::prelude::*;

verus! {

/// The settings of the airspace.
#[derive(Debug, Clone, Copy, PartialEq, Eq, Structural)]
pub struct AirspaceConfig {
    pub time_buffer_seconds: u8,
}

impl AirspaceConfig {
    /// The length of the airspace's window, in seconds.
    pub fn buffer_duration(&self) -> (seconds: u32)
        ensures
            seconds == self.time_buffer_seconds,
    {
        self.time_buffer_seconds as u32
    }
}

/// All settings.
#[derive(Debug, Clone)]
pub struct ApplicationConfig {
    pub glidernet: GliderNetConfig,
    pub airspace: AirspaceConfig,
}

/// The settings under the name that the ingestor knows them by.
pub type IngestorConfig = ApplicationConfig;

/// What the command line says.
#[derive(Debug, Clone)]
pub struct Cli {
    /// The seconds to run for; a negative number sets no limit.
    pub duration: i32,
    pub debug: bool,
    /// Where the settings are.
    pub config_file: String,
}

impl Cli {
    /// The seconds after which the tasks are told to stop, if the run has a
    /// limit.
    pub fn run_seconds(&self) -> (limit: Option<u64>)
        ensures
            limit == if self.duration < 0 {
                None::<u64>
            } else {
                Some(self.duration as u64)
            },
    {
        if self.duration < 0 {
            None
        } else {
            Some(self.duration as u64)
        }
    }
}

} // verus!
