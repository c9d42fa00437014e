//! Decoding of APRS/OGN position reports.

pub mod builder;
pub mod grammar;
pub mod types;

use crate::clock::local_today;
use crate::parser::builder::{build_aircraft_on, line_verdict, LineVerdict};
use crate::thread_manager::Runnable;
use crate::types::{is_callsign, Aircraft, AircraftView};
use crossbeam_channel::{Receiver, Sender};
use vstd::prelude::*;

verus! {

/// What the parser does with what its queue gave.
#[derive(Debug)]
pub enum ParserStep {
    /// The queue is closed: the task ends.
    Stop,
    /// The line is refused: nothing goes out, the task goes on.
    Skip,
    /// The line gave a report, which goes out.
    Emit(Aircraft),
}

/// The task that decodes the lines of one queue into the reports of
/// another.
pub struct AircraftParser {
    receiver: Receiver<String>,
    sender: Sender<Aircraft>,
}

impl AircraftParser {
    /// The queue that the lines come from.
    pub closed spec fn lines_in(&self) -> Receiver<String> {
        self.receiver
    }

    /// The queue that the reports go to.
    pub closed spec fn reports_out(&self) -> Sender<Aircraft> {
        self.sender
    }

    pub fn new(messages_receiver: Receiver<String>, aircraft_sender: Sender<Aircraft>) -> (parser:
        Self)
        ensures
            parser.lines_in() == messages_receiver,
            parser.reports_out() == aircraft_sender,
    {
        AircraftParser { receiver: messages_receiver, sender: aircraft_sender }
    }

    /// Decides on what the queue of lines gave, `None` standing for a queue
    /// that is closed: a line is decoded for the day `today`; its report
    /// goes out, its refusal drops it.
    pub fn after_receive(received: Option<String>, today: i32) -> (step: ParserStep)
        ensures
            match received {
                None => step is Stop,
                Some(line) => match line_verdict(line@, today) {
                    LineVerdict::Report(report) => step matches ParserStep::Emit(aircraft)
                        && aircraft@ == report,
                    _ => step is Skip,
                },
            },
            step matches ParserStep::Emit(aircraft) ==> is_callsign(aircraft.callsign@),
    {
        match received {
            None => ParserStep::Stop,
            Some(line) => match build_aircraft_on(line.as_str(), today) {
                Ok(aircraft) => ParserStep::Emit(aircraft),
                Err(_) => ParserStep::Skip,
            },
        }
    }
}

impl AircraftParser {
    /// Does what `after_receive` decides on what the queue of lines gave,
    /// and tells whether the task goes on: a closed queue ends it, a line
    /// that is refused does not, and a report that cannot be passed on ends
    /// it. The task keeps its queues.
    pub fn step_on(&mut self, received: Option<String>, today: i32) -> (goes_on: bool)
        ensures
            final(self).lines_in() == old(self).lines_in(),
            final(self).reports_out() == old(self).reports_out(),
            received is None ==> !goes_on,
            received matches Some(line) && !(line_verdict(line@, today) is Report) ==> goes_on,
    {
        match AircraftParser::after_receive(received, today) {
            ParserStep::Stop => false,
            ParserStep::Skip => true,
            ParserStep::Emit(aircraft) => self.sender.send(aircraft).is_ok(),
        }
    }
}

impl Runnable for AircraftParser {
    /// Waits for one line and decodes it for the day of the local
    /// calendar, as `step_on` says. The task ends when the queue of lines is
    /// closed, or when the report cannot be passed on.
    fn step(&mut self) -> (goes_on: bool)
        ensures
            final(self).lines_in() == old(self).lines_in(),
            final(self).reports_out() == old(self).reports_out(),
    {
        let received = match self.receiver.recv() {
            Ok(line) => Some(line),
            Err(_) => None,
        };
        self.step_on(received, local_today())
    }
}

/// The reports that the lines `lines` give on the day `today`, in the order
/// of the lines: a line that is refused gives none.
pub open spec fn reports_of(lines: Seq<Seq<char>>, today: i32) -> Seq<AircraftView>
    decreases lines.len(),
{
    if lines.len() == 0 {
        Seq::empty()
    } else {
        let earlier = reports_of(lines.drop_last(), today);
        match line_verdict(lines.last(), today) {
            LineVerdict::Report(report) => earlier.push(report),
            _ => earlier,
        }
    }
}

/// One more line adds its report behind those of the lines before it, or
/// adds nothing: what `after_receive` emits line by line is, in the order of
/// the lines, what `reports_of` gives for all of them.
pub proof fn lemma_one_more_line(lines: Seq<Seq<char>>, line: Seq<char>, today: i32)
    ensures
        reports_of(lines.push(line), today) == match line_verdict(line, today) {
            LineVerdict::Report(report) => reports_of(lines, today).push(report),
            _ => reports_of(lines, today),
        },
{
    assert(lines.push(line).drop_last() == lines);
    assert(lines.push(line).last() == line);
}

/// Decodes the lines of a recorded feed. The reports come out in the order
/// of their lines; refused lines are left out and move nothing.
pub fn parse_lines(lines: &Vec<String>, today: i32) -> (reports: Vec<Aircraft>)
    ensures
        reports@.map_values(|a: Aircraft| a@) == reports_of(
            lines@.map_values(|line: String| line@),
            today,
        ),
        forall|i: int| 0 <= i < reports.len() ==> is_callsign(#[trigger] reports[i].callsign@),
{
    let ghost texts = lines@.map_values(|line: String| line@);
    let mut reports: Vec<Aircraft> = Vec::new();
    let mut at: usize = 0;
    while at < lines.len()
        invariant
            at <= lines.len(),
            texts == lines@.map_values(|line: String| line@),
            reports@.map_values(|a: Aircraft| a@) == reports_of(texts.take(at as int), today),
            forall|i: int| 0 <= i < reports.len() ==> is_callsign(#[trigger] reports[i].callsign@),
        decreases lines.len() - at,
    {
        let ghost before = reports@.map_values(|a: Aircraft| a@);
        assert(texts.take(at + 1).drop_last() == texts.take(at as int));
        assert(texts.take(at + 1).last() == lines[at as int]@);
        match build_aircraft_on(lines[at].as_str(), today) {
            Ok(aircraft) => {
                reports.push(aircraft);
                assert(reports@.map_values(|a: Aircraft| a@) == before.push(aircraft@));
            },
            Err(_) => {},
        }
        at += 1;
    }
    assert(texts.take(lines.len() as int) == texts);
    reports
}

} // verus!
