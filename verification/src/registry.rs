//! The registry of running probes: the one place where a probe is started,
//! stopped and found again.

use crate::command::{build_command, Platform, ProbeCommand, ProbeError, SpawnFault};
use crate::event::{reader_step, ProbeEvent, ReaderStep};
use crate::model::{OutcomeText, Registry, SessionModel};
use vstd::prelude::*;

verus! {

/// A request to toggle one probe.
#[derive(Debug, PartialEq, Eq)]
pub struct TogglePingArgs {
    /// The caller's name for the probe.
    pub identifier: String,
    /// The host to probe.
    pub address: String,
    /// The number of echo cycles.
    pub count: u32,
}

impl TogglePingArgs {
    /// The request to toggle the probe `identifier` of `address` for `count` cycles.
    pub fn new(identifier: &str, address: &str, count: u32) -> (r: TogglePingArgs)
        ensures
            r.identifier@ == identifier@,
            r.address@ == address@,
            r.count == count,
    {
        TogglePingArgs {
            identifier: String::from_str(identifier),
            address: String::from_str(address),
            count,
        }
    }
}

struct Session {
    identifier: String,
    handle: u64,
    cancelled: bool,
}

impl View for Session {
    type V = SessionModel;

    closed spec fn view(&self) -> SessionModel {
        SessionModel {
            identifier: self.identifier@,
            handle: self.handle,
            cancelled: self.cancelled,
        }
    }
}

/// The sessions of all probes whose readers have not ended.
pub struct PingManager {
    sessions: Vec<Session>,
    next_handle: u64,
}

impl View for PingManager {
    type V = Registry;

    closed spec fn view(&self) -> Registry {
        Registry { sessions: models(self.sessions@), next_handle: self.next_handle }
    }
}

spec fn models(sessions: Seq<Session>) -> Seq<SessionModel> {
    sessions.map_values(|s: Session| s@)
}

/// What a toggle came to, and what its caller is to do.
#[derive(Debug, PartialEq, Eq)]
pub enum ToggleOutcome {
    /// The probe was stopped: end the process known by `handle` and
    /// publish the event.
    Stopped { handle: u64, event: ProbeEvent },
    /// The probe was registered: run the command, and start a reader under
    /// `handle`.
    Started { handle: u64, command: ProbeCommand },
}

impl View for ToggleOutcome {
    type V = OutcomeText;

    open spec fn view(&self) -> OutcomeText {
        match self {
            ToggleOutcome::Stopped { handle, event } => OutcomeText::Stopped {
                handle: *handle,
                event: event@,
            },
            ToggleOutcome::Started { handle, command } => OutcomeText::Started {
                handle: *handle,
                command: command@,
            },
        }
    }
}

impl ToggleOutcome {
    /// Whether the probe runs now: `true` after a start, `false` after a stop.
    pub fn is_started(&self) -> (r: bool)
        ensures
            r == (self@ is Started),
    {
        match self {
            ToggleOutcome::Started { .. } => true,
            ToggleOutcome::Stopped { .. } => false,
        }
    }
}

/// The result of a toggle with its texts as sequences of characters.
pub open spec fn outcome_text(r: Result<ToggleOutcome, ProbeError>) -> Result<
    OutcomeText,
    ProbeError,
> {
    match r {
        Ok(outcome) => Ok(outcome@),
        Err(e) => Err(e),
    }
}

/// The event of an optional `ProbeEvent`, as text.
pub open spec fn event_text(e: Option<ProbeEvent>) -> Option<crate::event::EventText> {
    match e {
        Some(e) => Some(e@),
        None => None,
    }
}

impl Default for PingManager {
    fn default() -> (r: PingManager)
        ensures
            r@ == Registry::empty(),
    {
        PingManager::new()
    }
}

impl PingManager {
    #[verifier::type_invariant]
    spec fn well_formed(&self) -> bool {
        self@.wf()
    }

    /// A manager without sessions.
    pub fn new() -> (r: PingManager)
        ensures
            r@ == Registry::empty(),
    {
        let r = PingManager { sessions: Vec::new(), next_handle: 0 };
        assert(r@.sessions =~= Registry::empty().sessions);
        r
    }

    /// Moves the sessions and the next handle out, leaving none behind.
    fn take(&mut self) -> (r: (Vec<Session>, u64))
        ensures
            r.0 == old(self).sessions,
            r.1 == old(self).next_handle,
    {
        let mut other = PingManager::new();
        core::mem::swap(self, &mut other);
        (other.sessions, other.next_handle)
    }

    /// Takes the session at `i` out.
    fn remove_at(&mut self, i: usize) -> (r: Session)
        requires
            i < old(self)@.sessions.len(),
        ensures
            final(self)@ == old(self)@.without(i as int),
            r@ == old(self)@.sessions[i as int],
    {
        proof {
            use_type_invariant(&*self);
            self@.lemma_without_wf(i as int);
        }
        let (mut sessions, next_handle) = self.take();
        let session = sessions.remove(i);
        assert(models(sessions@) =~= old(self)@.without(i as int).sessions);
        *self = PingManager { sessions, next_handle };
        session
    }

    fn find_running(&self, identifier: &String) -> (r: Option<usize>)
        ensures
            match r {
                Some(i) => self@.runs_at(i as int, identifier@),
                None => !self@.is_running(identifier@),
            },
    {
        let mut i: usize = 0;
        while i < self.sessions.len()
            invariant
                i <= self.sessions.len(),
                forall|j: int| 0 <= j < i ==> !self@.runs_at(j, identifier@),
            decreases self.sessions.len() - i,
        {
            if !self.sessions[i].cancelled && self.sessions[i].identifier == *identifier {
                return Some(i);
            }
            i += 1;
        }
        None
    }

    fn find_handle(&self, handle: u64) -> (r: Option<usize>)
        ensures
            match r {
                Some(i) => self@.held_at(i as int, handle),
                None => !self@.holds(handle),
            },
    {
        let mut i: usize = 0;
        while i < self.sessions.len()
            invariant
                i <= self.sessions.len(),
                forall|j: int| 0 <= j < i ==> !self@.held_at(j, handle),
            decreases self.sessions.len() - i,
        {
            if self.sessions[i].handle == handle {
                return Some(i);
            }
            i += 1;
        }
        None
    }

    /// Whether a probe runs under `identifier`.
    pub fn is_running(&self, identifier: &str) -> (r: bool)
        ensures
            r == self@.is_running(identifier@),
            self@.wf(),
    {
        proof {
            use_type_invariant(self);
        }
        self.find_running(&String::from_str(identifier)).is_some()
    }

    /// Whether the reader of the session `handle` is to stop.
    pub fn is_cancelled(&self, handle: u64) -> (r: bool)
        ensures
            r == self@.is_cancelled(handle),
            self@.wf(),
    {
        proof {
            use_type_invariant(self);
        }
        match self.find_handle(handle) {
            Some(i) => {
                proof {
                    self@.lemma_handle_index(i as int, handle);
                }
                self.sessions[i].cancelled
            },
            None => true,
        }
    }

    /// What the reader of the session `handle` does with `line`: it leaves
    /// where the session was cancelled, and else reads the line.
    pub fn on_line(&self, handle: u64, line: &str) -> (r: ReaderStep)
        ensures
            r@ == self@.line_step(handle, line@),
    {
        proof {
            use_type_invariant(self);
        }
        match self.find_handle(handle) {
            Some(i) => {
                proof {
                    self@.lemma_handle_index(i as int, handle);
                }
                reader_step(self.sessions[i].cancelled, self.sessions[i].identifier.as_str(), line)
            },
            None => ReaderStep::Exit,
        }
    }

    /// Ends the session `handle` when its reader has ended: the session
    /// leaves the registry, and its completion is reported unless it was
    /// stopped before.
    pub fn finish(&mut self, handle: u64) -> (r: Option<ProbeEvent>)
        ensures
            (final(self)@, event_text(r)) == old(self)@.finish(handle),
            final(self)@.wf(),
    {
        proof {
            use_type_invariant(&*self);
        }
        match self.find_handle(handle) {
            Some(i) => {
                proof {
                    self@.lemma_handle_index(i as int, handle);
                    self@.lemma_without_wf(i as int);
                }
                let session = self.remove_at(i);
                if session.cancelled {
                    None
                } else {
                    Some(ProbeEvent::Complete { identifier: session.identifier })
                }
            },
            None => None,
        }
    }

    /// Takes note that the probe of the session `handle` was launched, and
    /// tells whether it is still wanted. A session that was stopped
    /// meanwhile leaves the registry, and its process is to be ended
    /// without a reader.
    pub fn confirm(&mut self, handle: u64) -> (r: bool)
        ensures
            (final(self)@, r) == old(self)@.confirm(handle),
            final(self)@.wf(),
    {
        proof {
            use_type_invariant(&*self);
        }
        match self.find_handle(handle) {
            Some(i) => {
                proof {
                    self@.lemma_handle_index(i as int, handle);
                    self@.lemma_without_wf(i as int);
                }
                if self.sessions[i].cancelled {
                    let _ = self.remove_at(i);
                    false
                } else {
                    true
                }
            },
            None => false,
        }
    }

    /// Gives up the session `handle`, whose probe could not be started:
    /// the session leaves the registry, and the error that reports the
    /// fault comes back.
    pub fn abandon(&mut self, handle: u64, fault: SpawnFault) -> (r: ProbeError)
        ensures
            final(self)@ == old(self)@.abandon(handle),
            final(self)@.wf(),
            r == fault.error(),
    {
        proof {
            use_type_invariant(&*self);
        }
        match self.find_handle(handle) {
            Some(i) => {
                proof {
                    self@.lemma_handle_index(i as int, handle);
                    self@.lemma_without_wf(i as int);
                }
                let _ = self.remove_at(i);
            },
            None => {},
        }
        match fault {
            SpawnFault::NotLaunched => ProbeError::SpawnFailure,
            SpawnFault::NoOutput => ProbeError::StreamUnavailable,
        }
    }
}

/// Toggles the probe that `args` names. A running probe is stopped,
/// whatever the address. Else a session is registered and its command
/// built; this fails with `InvalidAddress` for an address that holds a
/// character outside the permitted set, and with `SpawnFailure` once every
/// handle has been given out.
pub fn toggle_ping(manager: &mut PingManager, args: TogglePingArgs, platform: Platform) -> (r:
    Result<ToggleOutcome, ProbeError>)
    ensures
        (final(manager)@, outcome_text(r)) == old(manager)@.toggle(
            args.identifier@,
            args.address@,
            args.count,
            platform,
        ),
        final(manager)@.wf(),
{
    proof {
        use_type_invariant(&*manager);
    }
    match manager.find_running(&args.identifier) {
        Some(i) => {
            proof {
                manager@.lemma_running_index(i as int, args.identifier@);
                manager@.lemma_with_stopped_wf(i as int);
            }
            let (mut sessions, next_handle) = manager.take();
            let handle = sessions[i].handle;
            sessions[i].cancelled = true;
            assert(models(sessions@) =~= old(manager)@.with_stopped(i as int).sessions);
            *manager = PingManager { sessions, next_handle };
            Ok(
                ToggleOutcome::Stopped {
                    handle,
                    event: ProbeEvent::Stopped { identifier: args.identifier },
                },
            )
        },
        None => {
            match build_command(args.address.as_str(), args.count, platform) {
                Err(e) => Err(e),
                Ok(command) => {
                    if manager.next_handle == u64::MAX {
                        Err(ProbeError::SpawnFailure)
                    } else {
                        proof {
                            manager@.lemma_with_started_wf(args.identifier@);
                        }
                        let (mut sessions, handle) = manager.take();
                        sessions.push(
                            Session { identifier: args.identifier, handle, cancelled: false },
                        );
                        assert(models(sessions@) =~= old(manager)@.with_started(
                            args.identifier@,
                        ).sessions);
                        *manager = PingManager { sessions, next_handle: handle + 1 };
                        Ok(ToggleOutcome::Started { handle, command })
                    }
                },
            }
        },
    }
}

/// Stops every running probe: each session's flag is set and no probe is
/// registered any more. The handles of the sessions that were running
/// come back, in the order in which they were started, for their processes
/// to be ended. No event is due, and no reader is waited for.
pub fn stop_all_pings(manager: &mut PingManager) -> (r: Vec<u64>)
    ensures
        final(manager)@ == old(manager)@.all_stopped(),
        r@ == old(manager)@.running_handles(),
        final(manager)@.wf(),
        final(manager)@.keys() == Set::<Seq<char>>::empty(),
        forall|i: int|
            0 <= i < final(manager)@.sessions.len() ==> (
            #[trigger] final(manager)@.sessions[i]).cancelled,
{
    proof {
        use_type_invariant(&*manager);
        manager@.lemma_all_stopped_wf();
    }
    let ghost before = manager@.sessions;
    let ghost running = |s: SessionModel| !s.cancelled;
    let ghost handle_of = |s: SessionModel| s.handle;
    let (mut sessions, next_handle) = manager.take();
    let mut handles: Vec<u64> = Vec::new();
    let mut i: usize = 0;
    while i < sessions.len()
        invariant
            i <= sessions.len(),
            sessions.len() == before.len(),
            running == |s: SessionModel| !s.cancelled,
            handle_of == |s: SessionModel| s.handle,
            forall|j: int|
                0 <= j < i ==> (#[trigger] sessions@[j])@ == (SessionModel {
                    cancelled: true,
                    ..before[j]
                }),
            forall|j: int| i <= j < sessions.len() ==> (#[trigger] sessions@[j])@ == before[j],
            handles@ == before.take(i as int).filter(running).map_values(handle_of),
        decreases sessions.len() - i,
    {
        proof {
            assert(before.take(i + 1) =~= before.take(i as int).push(before[i as int]));
            before.take(i as int).lemma_filter_push(before[i as int], running);
        }
        if !sessions[i].cancelled {
            handles.push(sessions[i].handle);
            sessions[i].cancelled = true;
        }
        assert(handles@ =~= before.take(i + 1).filter(running).map_values(handle_of));
        i += 1;
    }
    proof {
        assert(before.take(i as int) =~= before);
        assert(models(sessions@) =~= old(manager)@.all_stopped().sessions);
    }
    *manager = PingManager { sessions, next_handle };
    proof {
        assert(manager@.keys() =~= Set::<Seq<char>>::empty()) by {
            assert forall|identifier: Seq<char>| !manager@.is_running(identifier) by {
                assert forall|k: int| !manager@.runs_at(k, identifier) by {}
            }
        }
    }
    handles
}

} // verus!
