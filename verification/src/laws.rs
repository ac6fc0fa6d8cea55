//! What holds of the supervisor whatever is asked of it.

use crate::command::{command_for, valid_address, Platform};
use crate::event::EventText;
use crate::line::{
    is_timeout, latency_in, sample_in, SampleText, UNIX_PATTERN, WINDOWS_PATTERN,
};
use crate::model::{Emission, Op, OutcomeText, Registry};
use crate::pattern::first_group;
use crate::text::is_substring;
use crate::unicode::lowercase_of;
use vstd::prelude::*;

verus! {

/// A line in which neither latency shape is found, and whose lowercase form
/// holds "request timed out", gives no latency and is a timeout.
pub proof fn lemma_timed_out_line(line: Seq<char>)
    requires
        first_group(UNIX_PATTERN@, line) is NoMatch,
        first_group(WINDOWS_PATTERN@, line) is NoMatch,
        is_substring("request timed out"@, lowercase_of(line)),
    ensures
        latency_in(line) is None,
        is_timeout(line),
        sample_in(line) == Some(SampleText::Timeout),
{
}

/// A line in which neither latency shape is found, and which is not
/// phrased as a timeout, gives no sample.
pub proof fn lemma_plain_line(line: Seq<char>)
    requires
        first_group(UNIX_PATTERN@, line) is NoMatch,
        first_group(WINDOWS_PATTERN@, line) is NoMatch,
        !is_timeout(line),
    ensures
        latency_in(line) is None,
        sample_in(line) is None,
{
}

/// In a well-formed registry the reader of a session is to stop exactly
/// when every session with its handle has its flag set.
pub proof fn lemma_cancelled(reg: Registry, handle: u64)
    requires
        reg.wf(),
    ensures
        reg.is_cancelled(handle) <==> (forall|i: int|
            0 <= i < reg.sessions.len() && (#[trigger] reg.sessions[i]).handle == handle
                ==> reg.sessions[i].cancelled),
{
    if reg.holds(handle) {
        let at = reg.handle_index(handle);
        assert(reg.held_at(at, handle));
        assert forall|i: int|
            0 <= i < reg.sessions.len() && (#[trigger] reg.sessions[i]).handle
                == handle implies i == at by {
            reg.lemma_handle_index(i, handle);
        }
    } else {
        assert forall|i: int| 0 <= i < reg.sessions.len() implies (#[trigger] reg.sessions[i]).handle
            != handle by {
            assert(!reg.held_at(i, handle));
        }
    }
}

/// Whatever happens, the registry stays well-formed: at every moment at
/// most one session is registered under an identifier.
pub proof fn lemma_step_wf(reg: Registry, op: Op)
    requires
        reg.wf(),
    ensures
        reg.step(op).0.wf(),
{
    match op {
        Op::Toggle { identifier, address, count, platform } => {
            if reg.is_running(identifier) {
                let i = reg.running_index(identifier);
                assert(reg.runs_at(i, identifier));
                reg.lemma_with_stopped_wf(i);
            } else if valid_address(address) && reg.next_handle < u64::MAX {
                reg.lemma_with_started_wf(identifier);
            }
        },
        Op::Abandon { handle } => {
            if reg.holds(handle) {
                let i = reg.handle_index(handle);
                assert(reg.held_at(i, handle));
                reg.lemma_without_wf(i);
            }
        },
        Op::Confirm { handle } => {
            if reg.holds(handle) {
                let i = reg.handle_index(handle);
                assert(reg.held_at(i, handle));
                reg.lemma_without_wf(i);
            }
        },
        Op::Line { .. } => {},
        Op::Finish { handle } => {
            if reg.holds(handle) {
                let i = reg.handle_index(handle);
                assert(reg.held_at(i, handle));
                reg.lemma_without_wf(i);
            }
        },
        Op::StopAll => {
            reg.lemma_all_stopped_wf();
        },
    }
}

/// Taking a session out leaves a session that is over as it was.
proof fn lemma_without_over(reg: Registry, i: int, handle: u64)
    requires
        0 <= i < reg.sessions.len(),
        reg.is_over(handle),
    ensures
        reg.without(i).is_over(handle),
{
    let next = reg.without(i);
    assert forall|a: int|
        0 <= a < next.sessions.len() && (#[trigger] next.sessions[a]).handle
            == handle implies next.sessions[a].cancelled by {
        let a0 = if a < i { a } else { a + 1 };
        assert(next.sessions[a] == reg.sessions[a0]);
    }
}

/// A session that is over stays so, and nothing is published for it.
pub proof fn lemma_step_over(reg: Registry, op: Op, handle: u64)
    requires
        reg.wf(),
        reg.is_over(handle),
    ensures
        reg.step(op).0.is_over(handle),
        forall|k: int| 0 <= k < reg.step(op).1.len() ==> (#[trigger] reg.step(op).1[k]).handle != handle,
{
    let (next, out) = reg.step(op);
    match op {
        Op::Toggle { identifier, address, count, platform } => {
            if reg.is_running(identifier) {
                let i = reg.running_index(identifier);
                assert(reg.runs_at(i, identifier));
                assert(reg.sessions[i].handle != handle);
                assert forall|a: int|
                    0 <= a < next.sessions.len() && (#[trigger] next.sessions[a]).handle
                        == handle implies next.sessions[a].cancelled by {
                    assert(reg.sessions[a].handle == handle);
                }
            } else if valid_address(address) && reg.next_handle < u64::MAX {
                assert forall|a: int|
                    0 <= a < next.sessions.len() && (#[trigger] next.sessions[a]).handle
                        == handle implies next.sessions[a].cancelled by {
                    if a < reg.sessions.len() {
                        assert(reg.sessions[a].handle == handle);
                    }
                }
            }
        },
        Op::Abandon { handle: h } => {
            if reg.holds(h) {
                let i = reg.handle_index(h);
                assert(reg.held_at(i, h));
                lemma_without_over(reg, i, handle);
            }
        },
        Op::Confirm { handle: h } => {
            if reg.holds(h) {
                let i = reg.handle_index(h);
                assert(reg.held_at(i, h));
                lemma_without_over(reg, i, handle);
            }
        },
        Op::Line { handle: h, line } => {
            lemma_cancelled(reg, h);
        },
        Op::Finish { handle: h } => {
            if reg.holds(h) {
                let i = reg.handle_index(h);
                assert(reg.held_at(i, h));
                lemma_without_over(reg, i, handle);
            }
        },
        Op::StopAll => {},
    }
}

/// Once a session is over, nothing more is published for it.
pub proof fn lemma_over_is_silent(reg: Registry, ops: Seq<Op>, handle: u64)
    requires
        reg.wf(),
        reg.is_over(handle),
    ensures
        forall|k: int| 0 <= k < reg.run(ops).len() ==> (#[trigger] reg.run(ops)[k]).handle != handle,
    decreases ops.len(),
{
    if ops.len() > 0 {
        let (next, out) = reg.step(ops[0]);
        lemma_step_wf(reg, ops[0]);
        lemma_step_over(reg, ops[0], handle);
        lemma_over_is_silent(next, ops.skip(1), handle);
    }
}

/// At most one event is published at a time, and a terminal event leaves
/// its session over.
pub proof fn lemma_terminal_ends(reg: Registry, op: Op)
    requires
        reg.wf(),
    ensures
        reg.step(op).1.len() <= 1,
        forall|k: int|
            0 <= k < reg.step(op).1.len() && (#[trigger] reg.step(op).1[k]).event.is_terminal()
                ==> reg.step(op).0.is_over(reg.step(op).1[k].handle),
{
    let (next, out) = reg.step(op);
    match op {
        Op::Toggle { identifier, address, count, platform } => {
            if reg.is_running(identifier) {
                let i = reg.running_index(identifier);
                assert(reg.runs_at(i, identifier));
                let handle = reg.sessions[i].handle;
                assert forall|a: int|
                    0 <= a < next.sessions.len() && (#[trigger] next.sessions[a]).handle
                        == handle implies next.sessions[a].cancelled by {
                    if a != i {
                        assert(reg.held_at(a, handle));
                        reg.lemma_handle_index(a, handle);
                        reg.lemma_handle_index(i, handle);
                    }
                }
            }
        },
        Op::Finish { handle } => {
            if reg.holds(handle) {
                let i = reg.handle_index(handle);
                assert(reg.held_at(i, handle));
                assert forall|a: int|
                    0 <= a < next.sessions.len() implies (#[trigger] next.sessions[a]).handle
                    != handle by {
                    let a0 = if a < i { a } else { a + 1 };
                    assert(next.sessions[a] == reg.sessions[a0]);
                    if reg.sessions[a0].handle == handle {
                        reg.lemma_handle_index(a0, handle);
                    }
                }
            }
        },
        _ => {},
    }
}

/// The terminal event of a session is the last that is published for it.
/// So a session has at most one terminal event: never both a stop and a
/// completion, and neither twice.
pub proof fn lemma_terminal_is_last(reg: Registry, ops: Seq<Op>, i: int, j: int)
    requires
        reg.wf(),
        0 <= i < j < reg.run(ops).len(),
        reg.run(ops)[i].event.is_terminal(),
    ensures
        reg.run(ops)[j].handle != reg.run(ops)[i].handle,
    decreases ops.len(),
{
    if ops.len() > 0 {
        let (next, out) = reg.step(ops[0]);
        let rest = next.run(ops.skip(1));
        lemma_step_wf(reg, ops[0]);
        lemma_terminal_ends(reg, ops[0]);
        if i < out.len() {
            assert(reg.run(ops)[i] == out[i]);
            assert(reg.run(ops)[j] == rest[j - out.len()]);
            lemma_over_is_silent(next, ops.skip(1), out[i].handle);
        } else {
            assert(reg.run(ops)[i] == rest[i - out.len()]);
            assert(reg.run(ops)[j] == rest[j - out.len()]);
            lemma_terminal_is_last(next, ops.skip(1), i - out.len(), j - out.len());
        }
    }
}

/// Toggling an identifier that is not registered starts a session, and
/// toggling it again stops that very session and starts no other, whatever
/// address comes with the second toggle.
pub proof fn lemma_toggle_twice(
    reg: Registry,
    identifier: Seq<char>,
    address: Seq<char>,
    count: u32,
    platform: Platform,
    address_again: Seq<char>,
    count_again: u32,
    platform_again: Platform,
)
    requires
        reg.wf(),
        !reg.is_running(identifier),
        valid_address(address),
        reg.next_handle < u64::MAX,
    ensures
        ({
            let (first, started) = reg.toggle(identifier, address, count, platform);
            let (second, stopped) = first.toggle(
                identifier,
                address_again,
                count_again,
                platform_again,
            );
            &&& started == Ok::<OutcomeText, crate::command::ProbeError>(
                OutcomeText::Started {
                    handle: reg.next_handle,
                    command: command_for(address, count, platform),
                },
            )
            &&& first.is_running(identifier)
            &&& stopped == Ok::<OutcomeText, crate::command::ProbeError>(
                OutcomeText::Stopped {
                    handle: reg.next_handle,
                    event: EventText::Stopped { identifier },
                },
            )
            &&& !second.is_running(identifier)
            &&& second.sessions.len() == reg.sessions.len() + 1
        }),
{
    let (first, started) = reg.toggle(identifier, address, count, platform);
    let at = reg.sessions.len() as int;
    reg.lemma_with_started_wf(identifier);
    assert(first.runs_at(at, identifier));
    first.lemma_running_index(at, identifier);
    let (second, stopped) = first.toggle(identifier, address_again, count_again, platform_again);
    assert forall|k: int| !second.runs_at(k, identifier) by {
        if 0 <= k < at {
            assert(!reg.runs_at(k, identifier));
        }
    }
}

/// Once the reader of a running probe has ended, its identifier is free
/// again: the next toggle starts a new session under a new handle.
pub proof fn lemma_toggle_after_completion(
    reg: Registry,
    handle: u64,
    address: Seq<char>,
    count: u32,
    platform: Platform,
)
    requires
        reg.wf(),
        !reg.is_cancelled(handle),
        valid_address(address),
        reg.next_handle < u64::MAX,
    ensures
        ({
            let identifier = reg.sessions[reg.handle_index(handle)].identifier;
            let (ended, event) = reg.finish(handle);
            let (next, outcome) = ended.toggle(identifier, address, count, platform);
            &&& event == Some(EventText::Complete { identifier })
            &&& !ended.is_running(identifier)
            &&& outcome == Ok::<OutcomeText, crate::command::ProbeError>(
                OutcomeText::Started {
                    handle: reg.next_handle,
                    command: command_for(address, count, platform),
                },
            )
            &&& next.is_running(identifier)
            &&& reg.next_handle != handle
        }),
{
    let at = reg.handle_index(handle);
    assert(reg.held_at(at, handle));
    let identifier = reg.sessions[at].identifier;
    let (ended, event) = reg.finish(handle);
    reg.lemma_without_wf(at);
    assert forall|k: int| !ended.runs_at(k, identifier) by {
        if 0 <= k < ended.sessions.len() {
            let k0 = if k < at { k } else { k + 1 };
            assert(ended.sessions[k] == reg.sessions[k0]);
            if reg.runs_at(k0, identifier) {
                reg.lemma_running_index(k0, identifier);
                reg.lemma_running_index(at, identifier);
            }
        }
    }
    let next = ended.with_started(identifier);
    assert(next.runs_at(ended.sessions.len() as int, identifier));
}

/// Stopping a running probe publishes its stop, once, and nothing is
/// published for that session afterwards: no completion and no other stop.
pub proof fn lemma_stop_is_final(
    reg: Registry,
    identifier: Seq<char>,
    address: Seq<char>,
    count: u32,
    platform: Platform,
    ops: Seq<Op>,
)
    requires
        reg.wf(),
        reg.is_running(identifier),
    ensures
        ({
            let toggle = Op::Toggle { identifier, address, count, platform };
            let (next, out) = reg.step(toggle);
            let handle = reg.sessions[reg.running_index(identifier)].handle;
            &&& out == seq![Emission { handle, event: EventText::Stopped { identifier } }]
            &&& forall|k: int|
                0 <= k < next.run(ops).len() ==> (#[trigger] next.run(ops)[k]).handle != handle
        }),
{
    let toggle = Op::Toggle { identifier, address, count, platform };
    let (next, out) = reg.step(toggle);
    lemma_step_wf(reg, toggle);
    lemma_terminal_ends(reg, toggle);
    assert(out[0].event.is_terminal());
    lemma_over_is_silent(next, ops, out[0].handle);
}

/// When the reader of a session that was not stopped ends, the session's
/// completion is published, once, and nothing is published for that
/// session afterwards: no stop and no other completion.
pub proof fn lemma_completion_is_final(reg: Registry, handle: u64, ops: Seq<Op>)
    requires
        reg.wf(),
        !reg.is_cancelled(handle),
    ensures
        ({
            let (next, out) = reg.step(Op::Finish { handle });
            let identifier = reg.sessions[reg.handle_index(handle)].identifier;
            &&& out == seq![Emission { handle, event: EventText::Complete { identifier } }]
            &&& forall|k: int|
                0 <= k < next.run(ops).len() ==> (#[trigger] next.run(ops)[k]).handle != handle
        }),
{
    let finish = Op::Finish { handle };
    let (next, out) = reg.step(finish);
    lemma_step_wf(reg, finish);
    lemma_terminal_ends(reg, finish);
    assert(out[0].event.is_terminal());
    lemma_over_is_silent(next, ops, out[0].handle);
}

/// After every probe was stopped at once, none is registered, every flag
/// is set, and every reader is told to stop.
pub proof fn lemma_stop_all(reg: Registry, handle: u64)
    requires
        reg.wf(),
    ensures
        reg.all_stopped().keys() == Set::<Seq<char>>::empty(),
        forall|i: int|
            0 <= i < reg.all_stopped().sessions.len() ==> (
            #[trigger] reg.all_stopped().sessions[i]).cancelled,
        reg.all_stopped().is_cancelled(handle),
        reg.all_stopped().running_handles().len() == 0,
{
    let next = reg.all_stopped();
    reg.lemma_all_stopped_wf();
    assert(next.keys() =~= Set::<Seq<char>>::empty()) by {
        assert forall|identifier: Seq<char>| !next.is_running(identifier) by {
            assert forall|k: int| !next.runs_at(k, identifier) by {}
        }
    }
    lemma_cancelled(next, handle);
    next.sessions.lemma_all_neg_filter_empty(|s: crate::model::SessionModel| !s.cancelled);
}

} // verus!
