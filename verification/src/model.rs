//! The registry of sessions as a mathematical value, and what each
//! operation of the supervisor makes of it.

use crate::command::{command_for, valid_address, CommandText, Platform, ProbeError};
use crate::event::{step_for, EventText, StepText};
use vstd::prelude::*;

verus! {

/// One session: a probe under its identifier, the handle by which its
/// process and its reader are known, and its cancellation flag.
pub ghost struct SessionModel {
    pub identifier: Seq<char>,
    pub handle: u64,
    pub cancelled: bool,
}

/// The sessions whose readers have not ended, in the order in which they
/// were started, and the handle that the next session gets.
///
/// A session is registered, and its probe counts as running, while its
/// flag is not set. Stopping a session sets the flag; the session stays
/// in the sequence until its reader ends.
pub ghost struct Registry {
    pub sessions: Seq<SessionModel>,
    pub next_handle: u64,
}

/// What a toggle came to.
pub ghost enum OutcomeText {
    /// The session with this handle was stopped; the event reports it.
    Stopped { handle: u64, event: EventText },
    /// A session with this handle was registered; the command starts its probe.
    Started { handle: u64, command: CommandText },
}

impl Registry {
    /// The registry without sessions.
    pub open spec fn empty() -> Registry {
        Registry { sessions: Seq::empty(), next_handle: 0 }
    }

    /// Handles are below the next one and differ from each other, and no
    /// two registered sessions share an identifier.
    pub open spec fn wf(self) -> bool {
        &&& forall|i: int|
            0 <= i < self.sessions.len() ==> (#[trigger] self.sessions[i]).handle
                < self.next_handle
        &&& forall|i: int, j: int|
            0 <= i < j < self.sessions.len() ==> (#[trigger] self.sessions[i]).handle != (
            #[trigger] self.sessions[j]).handle
        &&& forall|i: int, j: int|
            0 <= i < j < self.sessions.len() && !(#[trigger] self.sessions[i]).cancelled && !(
            #[trigger] self.sessions[j]).cancelled ==> self.sessions[i].identifier
                != self.sessions[j].identifier
    }

    /// The session at `i` is registered under `identifier`.
    pub open spec fn runs_at(self, i: int, identifier: Seq<char>) -> bool {
        &&& 0 <= i < self.sessions.len()
        &&& !self.sessions[i].cancelled
        &&& self.sessions[i].identifier == identifier
    }

    /// A session is registered under `identifier`.
    pub open spec fn is_running(self, identifier: Seq<char>) -> bool {
        exists|i: int| self.runs_at(i, identifier)
    }

    /// Where the session registered under `identifier` stands.
    pub open spec fn running_index(self, identifier: Seq<char>) -> int {
        choose|i: int| self.runs_at(i, identifier)
    }

    /// The identifiers under which a session is registered.
    pub open spec fn keys(self) -> Set<Seq<char>> {
        Set::new(|identifier: Seq<char>| self.is_running(identifier))
    }

    /// The session at `i` has the handle `handle`.
    pub open spec fn held_at(self, i: int, handle: u64) -> bool {
        &&& 0 <= i < self.sessions.len()
        &&& self.sessions[i].handle == handle
    }

    /// Some session has the handle `handle`.
    pub open spec fn holds(self, handle: u64) -> bool {
        exists|i: int| self.held_at(i, handle)
    }

    /// Where the session with the handle `handle` stands.
    pub open spec fn handle_index(self, handle: u64) -> int {
        choose|i: int| self.held_at(i, handle)
    }

    /// The reader of the session `handle` is to stop: the session's flag
    /// is set, or the session is gone.
    pub open spec fn is_cancelled(self, handle: u64) -> bool {
        !self.holds(handle) || self.sessions[self.handle_index(handle)].cancelled
    }

    /// The handles of the registered sessions, in order.
    pub open spec fn running_handles(self) -> Seq<u64> {
        self.sessions.filter(|s: SessionModel| !s.cancelled).map_values(
            |s: SessionModel| s.handle,
        )
    }

    /// The registry with the flag of the session at `i` set.
    pub open spec fn with_stopped(self, i: int) -> Registry {
        Registry {
            sessions: self.sessions.update(
                i,
                SessionModel { cancelled: true, ..self.sessions[i] },
            ),
            ..self
        }
    }

    /// The registry with a new session under `identifier`.
    pub open spec fn with_started(self, identifier: Seq<char>) -> Registry {
        Registry {
            sessions: self.sessions.push(
                SessionModel { identifier, handle: self.next_handle, cancelled: false },
            ),
            next_handle: (self.next_handle + 1) as u64,
        }
    }

    /// The registry without the session at `i`.
    pub open spec fn without(self, i: int) -> Registry {
        Registry { sessions: self.sessions.remove(i), ..self }
    }

    /// Toggling `identifier`: a registered session is stopped, whatever the
    /// address; else a valid address starts one, as long as a handle is left.
    pub open spec fn toggle(
        self,
        identifier: Seq<char>,
        address: Seq<char>,
        count: u32,
        platform: Platform,
    ) -> (Registry, Result<OutcomeText, ProbeError>) {
        if self.is_running(identifier) {
            let i = self.running_index(identifier);
            (
                self.with_stopped(i),
                Ok(
                    OutcomeText::Stopped {
                        handle: self.sessions[i].handle,
                        event: EventText::Stopped { identifier },
                    },
                ),
            )
        } else if !valid_address(address) {
            (self, Err(ProbeError::InvalidAddress))
        } else if self.next_handle == u64::MAX {
            (self, Err(ProbeError::SpawnFailure))
        } else {
            (
                self.with_started(identifier),
                Ok(
                    OutcomeText::Started {
                        handle: self.next_handle,
                        command: command_for(address, count, platform),
                    },
                ),
            )
        }
    }

    /// Giving up the session `handle`, whose probe did not start.
    pub open spec fn abandon(self, handle: u64) -> Registry {
        if self.holds(handle) {
            self.without(self.handle_index(handle))
        } else {
            self
        }
    }

    /// The probe of the session `handle` was launched: the session goes on
    /// unless it was stopped meanwhile, and then it leaves.
    pub open spec fn confirm(self, handle: u64) -> (Registry, bool) {
        if self.is_cancelled(handle) {
            (self.abandon(handle), false)
        } else {
            (self, true)
        }
    }

    /// What the reader of the session `handle` does with `line`.
    pub open spec fn line_step(self, handle: u64, line: Seq<char>) -> StepText {
        if self.is_cancelled(handle) {
            StepText::Exit
        } else {
            step_for(false, self.sessions[self.handle_index(handle)].identifier, line)
        }
    }

    /// The end of the reader of the session `handle`: the session leaves,
    /// and its completion is reported unless its flag was set.
    pub open spec fn finish(self, handle: u64) -> (Registry, Option<EventText>) {
        if self.holds(handle) {
            let i = self.handle_index(handle);
            (
                self.without(i),
                if self.sessions[i].cancelled {
                    None
                } else {
                    Some(EventText::Complete { identifier: self.sessions[i].identifier })
                },
            )
        } else {
            (self, None)
        }
    }

    /// The registry with every flag set.
    pub open spec fn all_stopped(self) -> Registry {
        Registry {
            sessions: self.sessions.map_values(
                |s: SessionModel| SessionModel { cancelled: true, ..s },
            ),
            ..self
        }
    }

    /// In a well-formed registry an identifier is registered at one place.
    pub proof fn lemma_running_index(self, i: int, identifier: Seq<char>)
        requires
            self.wf(),
            self.runs_at(i, identifier),
        ensures
            self.is_running(identifier),
            self.running_index(identifier) == i,
    {
        let j = self.running_index(identifier);
        assert(self.runs_at(j, identifier));
        if i < j {
            assert(self.sessions[i].identifier != self.sessions[j].identifier);
        }
        if j < i {
            assert(self.sessions[j].identifier != self.sessions[i].identifier);
        }
    }

    /// In a well-formed registry a handle is held at one place.
    pub proof fn lemma_handle_index(self, i: int, handle: u64)
        requires
            self.wf(),
            self.held_at(i, handle),
        ensures
            self.holds(handle),
            self.handle_index(handle) == i,
    {
        let j = self.handle_index(handle);
        assert(self.held_at(j, handle));
        if i < j {
            assert(self.sessions[i].handle != self.sessions[j].handle);
        }
        if j < i {
            assert(self.sessions[j].handle != self.sessions[i].handle);
        }
    }

    /// Setting a flag keeps the registry well-formed.
    pub proof fn lemma_with_stopped_wf(self, i: int)
        requires
            self.wf(),
            0 <= i < self.sessions.len(),
        ensures
            self.with_stopped(i).wf(),
    {
        let next = self.with_stopped(i);
        assert forall|a: int| 0 <= a < next.sessions.len() implies (#[trigger] next.sessions[a]).handle
            < next.next_handle by {
            assert(self.sessions[a].handle < self.next_handle);
        }
        assert forall|a: int, b: int| 0 <= a < b < next.sessions.len() implies (
        #[trigger] next.sessions[a]).handle != (#[trigger] next.sessions[b]).handle by {
            assert(self.sessions[a].handle != self.sessions[b].handle);
        }
        assert forall|a: int, b: int|
            0 <= a < b < next.sessions.len() && !(#[trigger] next.sessions[a]).cancelled && !(
            #[trigger] next.sessions[b]).cancelled implies next.sessions[a].identifier
            != next.sessions[b].identifier by {
            assert(self.sessions[a].identifier != self.sessions[b].identifier);
        }
    }

    /// Registering a fresh identifier keeps the registry well-formed.
    pub proof fn lemma_with_started_wf(self, identifier: Seq<char>)
        requires
            self.wf(),
            !self.is_running(identifier),
            self.next_handle < u64::MAX,
        ensures
            self.with_started(identifier).wf(),
    {
        let next = self.with_started(identifier);
        let last = self.sessions.len() as int;
        assert forall|a: int| 0 <= a < next.sessions.len() implies (#[trigger] next.sessions[a]).handle
            < next.next_handle by {
            if a < last {
                assert(self.sessions[a].handle < self.next_handle);
            }
        }
        assert forall|a: int, b: int| 0 <= a < b < next.sessions.len() implies (
        #[trigger] next.sessions[a]).handle != (#[trigger] next.sessions[b]).handle by {
            assert(self.sessions[a].handle < self.next_handle);
            if b < last {
                assert(self.sessions[a].handle != self.sessions[b].handle);
            }
        }
        assert forall|a: int, b: int|
            0 <= a < b < next.sessions.len() && !(#[trigger] next.sessions[a]).cancelled && !(
            #[trigger] next.sessions[b]).cancelled implies next.sessions[a].identifier
            != next.sessions[b].identifier by {
            if b < last {
                assert(self.sessions[a].identifier != self.sessions[b].identifier);
            } else {
                assert(!self.runs_at(a, identifier));
            }
        }
    }

    /// Taking a session out keeps the registry well-formed.
    pub proof fn lemma_without_wf(self, i: int)
        requires
            self.wf(),
            0 <= i < self.sessions.len(),
        ensures
            self.without(i).wf(),
    {
        let next = self.without(i);
        assert forall|a: int| 0 <= a < next.sessions.len() implies (#[trigger] next.sessions[a]).handle
            < next.next_handle by {
            let a0 = if a < i { a } else { a + 1 };
            assert(next.sessions[a] == self.sessions[a0]);
        }
        assert forall|a: int, b: int| 0 <= a < b < next.sessions.len() implies (
        #[trigger] next.sessions[a]).handle != (#[trigger] next.sessions[b]).handle by {
            let a0 = if a < i { a } else { a + 1 };
            let b0 = if b < i { b } else { b + 1 };
            assert(next.sessions[a] == self.sessions[a0]);
            assert(next.sessions[b] == self.sessions[b0]);
        }
        assert forall|a: int, b: int|
            0 <= a < b < next.sessions.len() && !(#[trigger] next.sessions[a]).cancelled && !(
            #[trigger] next.sessions[b]).cancelled implies next.sessions[a].identifier
            != next.sessions[b].identifier by {
            let a0 = if a < i { a } else { a + 1 };
            let b0 = if b < i { b } else { b + 1 };
            assert(next.sessions[a] == self.sessions[a0]);
            assert(next.sessions[b] == self.sessions[b0]);
        }
    }

    /// Setting every flag keeps the registry well-formed.
    pub proof fn lemma_all_stopped_wf(self)
        requires
            self.wf(),
        ensures
            self.all_stopped().wf(),
    {
        let next = self.all_stopped();
        assert forall|a: int| 0 <= a < next.sessions.len() implies (#[trigger] next.sessions[a]).handle
            < next.next_handle by {
            assert(self.sessions[a].handle < self.next_handle);
        }
        assert forall|a: int, b: int| 0 <= a < b < next.sessions.len() implies (
        #[trigger] next.sessions[a]).handle != (#[trigger] next.sessions[b]).handle by {
            assert(self.sessions[a].handle != self.sessions[b].handle);
        }
    }
}

/// One thing that happens to the registry.
pub ghost enum Op {
    /// A caller toggles a probe.
    Toggle { identifier: Seq<char>, address: Seq<char>, count: u32, platform: Platform },
    /// The probe of a session could not be started.
    Abandon { handle: u64 },
    /// The probe of a session was launched.
    Confirm { handle: u64 },
    /// The reader of a session has a line.
    Line { handle: u64, line: Seq<char> },
    /// The reader of a session ends.
    Finish { handle: u64 },
    /// Every probe is stopped at once.
    StopAll,
}

/// An event as it is published, with the session that it belongs to.
pub ghost struct Emission {
    pub handle: u64,
    pub event: EventText,
}

impl Registry {
    /// The registry after `op`, and what `op` publishes: the event of a
    /// stop, of a line, or of a completion.
    pub open spec fn step(self, op: Op) -> (Registry, Seq<Emission>) {
        match op {
            Op::Toggle { identifier, address, count, platform } => {
                let (next, outcome) = self.toggle(identifier, address, count, platform);
                (
                    next,
                    match outcome {
                        Ok(OutcomeText::Stopped { handle, event }) => seq![
                            Emission { handle, event },
                        ],
                        _ => Seq::empty(),
                    },
                )
            },
            Op::Abandon { handle } => (self.abandon(handle), Seq::empty()),
            Op::Confirm { handle } => (self.confirm(handle).0, Seq::empty()),
            Op::Line { handle, line } => (
                self,
                match self.line_step(handle, line) {
                    StepText::Emit(event) => seq![Emission { handle, event }],
                    _ => Seq::empty(),
                },
            ),
            Op::Finish { handle } => {
                let (next, event) = self.finish(handle);
                (
                    next,
                    match event {
                        Some(event) => seq![Emission { handle, event }],
                        None => Seq::empty(),
                    },
                )
            },
            Op::StopAll => (self.all_stopped(), Seq::empty()),
        }
    }

    /// All that is published while `ops` happen one after the other.
    pub open spec fn run(self, ops: Seq<Op>) -> Seq<Emission>
        decreases ops.len(),
    {
        if ops.len() == 0 {
            Seq::empty()
        } else {
            let (next, out) = self.step(ops[0]);
            out + next.run(ops.skip(1))
        }
    }

    /// The session `handle` was started and is over for its subscriber:
    /// its flag is set, or it has left the registry.
    pub open spec fn is_over(self, handle: u64) -> bool {
        &&& handle < self.next_handle
        &&& forall|i: int|
            0 <= i < self.sessions.len() && (#[trigger] self.sessions[i]).handle == handle
                ==> self.sessions[i].cancelled
    }
}

} // verus!
