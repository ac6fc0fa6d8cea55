//! What the supervisor tells its subscriber, and what the reader of a
//! probe's output does with each line.

use crate::line::{classify_line, sample_in, Latency, Sample, SampleText};
use vstd::prelude::*;

verus! {

/// An event for the subscriber. Each names the probe that it is about.
#[derive(Debug, PartialEq, Eq)]
pub enum ProbeEvent {
    /// An echo came back.
    Result { identifier: String, latency: Latency },
    /// An echo was lost or could not be delivered.
    Timeout { identifier: String },
    /// The probe was stopped by its caller.
    Stopped { identifier: String },
    /// The probe ended by itself.
    Complete { identifier: String },
}

/// A `ProbeEvent` with its texts as sequences of characters.
pub ghost enum EventText {
    Result { identifier: Seq<char>, latency: Seq<char> },
    Timeout { identifier: Seq<char> },
    Stopped { identifier: Seq<char> },
    Complete { identifier: Seq<char> },
}

impl View for ProbeEvent {
    type V = EventText;

    open spec fn view(&self) -> EventText {
        match self {
            ProbeEvent::Result { identifier, latency } => EventText::Result {
                identifier: identifier@,
                latency: latency@,
            },
            ProbeEvent::Timeout { identifier } => EventText::Timeout { identifier: identifier@ },
            ProbeEvent::Stopped { identifier } => EventText::Stopped { identifier: identifier@ },
            ProbeEvent::Complete { identifier } => EventText::Complete { identifier: identifier@ },
        }
    }
}

impl EventText {
    /// The name under which the event is published.
    pub open spec fn name(self) -> Seq<char> {
        match self {
            EventText::Result { .. } => "probe-result"@,
            EventText::Timeout { .. } => "probe-timeout"@,
            EventText::Stopped { .. } => "probe-stopped"@,
            EventText::Complete { .. } => "probe-complete"@,
        }
    }

    /// The probe that the event is about.
    pub open spec fn identifier(self) -> Seq<char> {
        match self {
            EventText::Result { identifier, .. } => identifier,
            EventText::Timeout { identifier } => identifier,
            EventText::Stopped { identifier } => identifier,
            EventText::Complete { identifier } => identifier,
        }
    }

    /// The event ends a session: the probe was stopped, or it ended by itself.
    pub open spec fn is_terminal(self) -> bool {
        self is Stopped || self is Complete
    }
}

impl ProbeEvent {
    /// The name under which the event is published.
    pub fn name(&self) -> (r: &'static str)
        ensures
            r@ == self@.name(),
    {
        match self {
            ProbeEvent::Result { .. } => "probe-result",
            ProbeEvent::Timeout { .. } => "probe-timeout",
            ProbeEvent::Stopped { .. } => "probe-stopped",
            ProbeEvent::Complete { .. } => "probe-complete",
        }
    }

    /// The probe that the event is about.
    pub fn identifier(&self) -> (r: &str)
        ensures
            r@ == self@.identifier(),
    {
        match self {
            ProbeEvent::Result { identifier, .. } => identifier.as_str(),
            ProbeEvent::Timeout { identifier } => identifier.as_str(),
            ProbeEvent::Stopped { identifier } => identifier.as_str(),
            ProbeEvent::Complete { identifier } => identifier.as_str(),
        }
    }

    /// Whether the event ends a session.
    pub fn is_terminal(&self) -> (r: bool)
        ensures
            r == self@.is_terminal(),
    {
        match self {
            ProbeEvent::Stopped { .. } => true,
            ProbeEvent::Complete { .. } => true,
            _ => false,
        }
    }
}

/// What the reader of a probe's output does with one line.
#[derive(Debug, PartialEq, Eq)]
pub enum ReaderStep {
    /// Leave the loop: the line and all that follow go unread.
    Exit,
    /// Publish the event and read on.
    Emit(ProbeEvent),
    /// Read on.
    Skip,
}

/// A `ReaderStep` with its event as text.
pub ghost enum StepText {
    Exit,
    Emit(EventText),
    Skip,
}

impl View for ReaderStep {
    type V = StepText;

    open spec fn view(&self) -> StepText {
        match self {
            ReaderStep::Exit => StepText::Exit,
            ReaderStep::Emit(event) => StepText::Emit(event@),
            ReaderStep::Skip => StepText::Skip,
        }
    }
}

/// The step that a sample asks for: its event, or none without a sample.
pub open spec fn step_for_sample(identifier: Seq<char>, sample: Option<SampleText>) -> StepText {
    match sample {
        Some(SampleText::Latency(latency)) => StepText::Emit(
            EventText::Result { identifier, latency },
        ),
        Some(SampleText::Timeout) => StepText::Emit(EventText::Timeout { identifier }),
        None => StepText::Skip,
    }
}

/// The step for one line: cancellation is looked at before the line, so a
/// cancelled reader leaves without reading it.
pub open spec fn step_for(cancelled: bool, identifier: Seq<char>, line: Seq<char>) -> StepText {
    if cancelled {
        StepText::Exit
    } else {
        step_for_sample(identifier, sample_in(line))
    }
}

/// The step that a sample of the probe `identifier` asks for.
pub fn step_of_sample(identifier: &str, sample: Option<Sample>) -> (r: ReaderStep)
    ensures
        r@ == step_for_sample(identifier@, crate::line::sample_text(sample)),
{
    match sample {
        Some(Sample::Latency(latency)) => ReaderStep::Emit(
            ProbeEvent::Result { identifier: String::from_str(identifier), latency },
        ),
        Some(Sample::Timeout) => ReaderStep::Emit(
            ProbeEvent::Timeout { identifier: String::from_str(identifier) },
        ),
        None => ReaderStep::Skip,
    }
}

/// Decides what the reader of the probe `identifier` does with `line`,
/// given whether the probe's cancellation was asked for.
pub fn reader_step(cancelled: bool, identifier: &str, line: &str) -> (r: ReaderStep)
    ensures
        r@ == step_for(cancelled, identifier@, line@),
{
    if cancelled {
        ReaderStep::Exit
    } else {
        step_of_sample(identifier, classify_line(line))
    }
}

} // verus!
