//! The ingestor's part that is not reading: what it says to the server, and
//! what it does with what it has read.

use crate::text::{decimal, push_decimal};
use crossbeam_channel::Sender;
use vstd::prelude::*;
use vstd::string::StringExecFns;

verus! {

/// Where the feed is, and which part of it is asked for.
#[derive(Debug, Clone)]
pub struct GliderNetConfig {
    pub host: String,
    pub port: u64,
    pub filter: String,
}

/// The line that logs in as a reader of the part of the feed that `filter`
/// selects.
pub open spec fn login_text(filter: Seq<char>) -> Seq<char> {
    "user N0CALL pass -1 vers AirspaceRadar 0.1.0 filter "@ + filter + " \r\n"@
}

impl GliderNetConfig {
    /// The line to send after the connection stands.
    pub fn login_line(&self) -> (line: String)
        ensures
            line@ == login_text(self.filter@),
    {
        let mut line = "user N0CALL pass -1 vers AirspaceRadar 0.1.0 filter ".to_owned();
        line.append(self.filter.as_str());
        line.append(" \r\n");
        line
    }

    /// The address to connect to: the host, a colon, and the port in
    /// decimal digits.
    pub fn server_address(&self) -> (address: String)
        ensures
            address@ == self.host@ + seq![':'] + decimal(self.port as nat),
    {
        proof {
            reveal_strlit(":");
        }
        let mut address = self.host.clone();
        address.append(":");
        assert(address@ =~= self.host@ + seq![':']);
        push_decimal(&mut address, self.port);
        address
    }
}

/// What one attempt to read a line gave.
#[derive(Debug)]
pub enum ReadOutcome {
    /// The attempt failed.
    Failed,
    /// The attempt gave `bytes` bytes, which make up `line`. No bytes mean
    /// that the stream has ended.
    Read { bytes: usize, line: String },
}

/// What the ingestor does after an attempt to read a line.
#[derive(Debug)]
pub enum IngestorStep {
    /// Nothing goes out, the task goes on.
    Continue,
    /// The task ends.
    Stop,
    /// The line goes out.
    Forward(String),
}

/// The task that passes the lines of the feed on.
pub struct Ingestor {
    sender: Sender<String>,
}

impl Ingestor {
    /// The queue that the lines go to.
    pub closed spec fn lines_out(&self) -> Sender<String> {
        self.sender
    }

    pub fn new(sender: Sender<String>) -> (ingestor: Self)
        ensures
            ingestor.lines_out() == sender,
    {
        Ingestor { sender }
    }

    /// Decides on an attempt to read: a failure is passed over, the end of
    /// the stream ends the task, and a line goes out as it was read.
    pub fn after_read(outcome: ReadOutcome) -> (step: IngestorStep)
        ensures
            step == Self::after_read_spec(outcome),
    {
        match outcome {
            ReadOutcome::Failed => IngestorStep::Continue,
            ReadOutcome::Read { bytes, line } => if bytes == 0 {
                IngestorStep::Stop
            } else {
                IngestorStep::Forward(line)
            },
        }
    }

    /// Does what `after_read` decides on `outcome`, and tells whether the
    /// task goes on. A line that cannot be passed on ends the task.
    pub fn step_with(&mut self, outcome: ReadOutcome) -> (goes_on: bool)
        ensures
            Self::after_read_spec(outcome) is Continue ==> goes_on,
            Self::after_read_spec(outcome) is Stop ==> !goes_on,
            final(self).lines_out() == old(self).lines_out(),
    {
        match Ingestor::after_read(outcome) {
            IngestorStep::Continue => true,
            IngestorStep::Stop => false,
            IngestorStep::Forward(line) => self.sender.send(line).is_ok(),
        }
    }

    /// What `after_read` decides.
    pub open spec fn after_read_spec(outcome: ReadOutcome) -> IngestorStep {
        match outcome {
            ReadOutcome::Failed => IngestorStep::Continue,
            ReadOutcome::Read { bytes, line } => if bytes == 0 {
                IngestorStep::Stop
            } else {
                IngestorStep::Forward(line)
            },
        }
    }
}

} // verus!
