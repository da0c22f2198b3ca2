//! What holds of the registry over every sequence of calls, and of a reader
//! over every sequence of reads.

use vstd::prelude::*;
use crate::error::not_found;
use crate::reader::{announcement, NotificationView, ReaderState, ReadingView};
use crate::registry::{Call, RegistryState};
use crate::terminal::MAX_TERMINAL_ID;

verus! {

/// A call keeps the registry well formed and never lowers the next
/// identifier.
pub proof fn lemma_after_keeps_wf(s: RegistryState, call: Call)
    requires
        s.wf(),
    ensures
        s.after(call).wf(),
        s.after(call).next_id >= s.next_id,
{
}

/// Any sequence of calls keeps the registry well formed and never lowers the
/// next identifier.
pub proof fn lemma_after_all_keeps_wf(s: RegistryState, calls: Seq<Call>)
    requires
        s.wf(),
    ensures
        s.after_all(calls).wf(),
        s.after_all(calls).next_id >= s.next_id,
    decreases calls.len(),
{
    if calls.len() > 0 {
        lemma_after_all_keeps_wf(s, calls.drop_last());
        lemma_after_keeps_wf(s.after_all(calls.drop_last()), calls.last());
    }
}

/// The next identifier only grows along a sequence of calls.
proof fn lemma_next_id_grows(s: RegistryState, calls: Seq<Call>, i: int, j: int)
    requires
        s.wf(),
        0 <= i <= j <= calls.len(),
    ensures
        s.after_all(calls.take(i)).next_id <= s.after_all(calls.take(j)).next_id,
        s.after_all(calls.take(i)).wf(),
    decreases j - i,
{
    lemma_after_all_keeps_wf(s, calls.take(i));
    if i < j {
        lemma_next_id_grows(s, calls, i, j - 1);
        lemma_after_all_keeps_wf(s, calls.take(j - 1));
        assert(calls.take(j).drop_last() =~= calls.take(j - 1));
        lemma_after_keeps_wf(s.after_all(calls.take(j - 1)), calls[j - 1]);
    }
}

/// Identifiers are handed out in strictly increasing order, whatever calls
/// are made in between: of two calls that each create a session, the later
/// one gets the larger identifier. So no identifier is handed out twice.
pub proof fn lemma_identifiers_increase(s: RegistryState, calls: Seq<Call>, i: int, j: int)
    requires
        s.wf(),
        0 <= i < j < calls.len(),
        s.after_all(calls.take(i)).issued(calls[i]) is Some,
        s.after_all(calls.take(j)).issued(calls[j]) is Some,
    ensures
        s.after_all(calls.take(i)).issued(calls[i])->0 < s.after_all(calls.take(j)).issued(
            calls[j],
        )->0,
{
    lemma_next_id_grows(s, calls, i + 1, j);
    assert(calls.take(i + 1).drop_last() =~= calls.take(i));
}

/// An identifier that is handed out is new: no session was ever registered
/// under it, and it is at least as large as the first identifier.
pub proof fn lemma_issued_identifier_is_new(s: RegistryState, calls: Seq<Call>, call: Call)
    requires
        s.wf(),
        s.after_all(calls).issued(call) is Some,
    ensures
        !s.after_all(calls).sessions.contains_key(s.after_all(calls).issued(call)->0),
        s.after_all(calls).issued(call)->0 >= s.next_id,
        s.after_all(calls).after(call).sessions.contains_key(
            s.after_all(calls).issued(call)->0,
        ),
{
    lemma_after_all_keeps_wf(s, calls);
}

/// A session stays registered under its identifier until a call closes it.
/// Until then every call leaves its identifier, name and creation time as
/// they were, and only an update of its working directory changes its
/// working directory.
pub proof fn lemma_session_persists(s: RegistryState, calls: Seq<Call>, id: u32)
    requires
        s.wf(),
        s.sessions.contains_key(id),
        forall|k: int| 0 <= k < calls.len() ==> !(#[trigger] calls[k]).closes(id),
    ensures
        s.after_all(calls).sessions.contains_key(id),
        s.after_all(calls).sessions[id].id == id,
        s.after_all(calls).sessions[id].name == s.sessions[id].name,
        s.after_all(calls).sessions[id].created_at == s.sessions[id].created_at,
        (forall|k: int|
            0 <= k < calls.len() ==> !(#[trigger] calls[k] matches Call::UpdateCwd {
                id: target,
                ..
            } && target == id)) ==> s.after_all(calls).sessions[id] == s.sessions[id],
    decreases calls.len(),
{
    if calls.len() > 0 {
        let before = calls.drop_last();
        assert forall|k: int| 0 <= k < before.len() implies !(#[trigger] before[k]).closes(id) by {
            assert(before[k] == calls[k]);
        }
        lemma_session_persists(s, before, id);
        lemma_after_all_keeps_wf(s, before);
        assert(!calls[calls.len() - 1].closes(id));
        if forall|k: int|
            0 <= k < calls.len() ==> !(#[trigger] calls[k] matches Call::UpdateCwd {
                id: target,
                ..
            } && target == id) {
            assert forall|k: int| 0 <= k < before.len() implies !(
            #[trigger] before[k] matches Call::UpdateCwd { id: target, .. } && target == id) by {
                assert(before[k] == calls[k]);
            }
            assert(!(calls[calls.len() - 1] matches Call::UpdateCwd { id: target, .. } && target
                == id));
        }
    }
}

/// Once a session is closed, a write to it, a resize of it, an update of its
/// working directory and a second close are all answered with the error for
/// a session that is not registered.
pub proof fn lemma_closed_session_is_gone(s: RegistryState, id: u32, cwd: Seq<char>)
    requires
        s.wf(),
    ensures
        ({
            let closed = s.after(Call::Close { id });
            &&& !closed.sessions.contains_key(id)
            &&& closed.refusal(Call::Write { id }) == Some(not_found(id))
            &&& closed.refusal(Call::Resize { id }) == Some(not_found(id))
            &&& closed.refusal(Call::UpdateCwd { id, cwd }) == Some(not_found(id))
            &&& closed.refusal(Call::Close { id }) == Some(not_found(id))
        }),
{
}

/// Creations that find an identifier left each add one session: after `n`
/// of them the registry holds `n` more sessions, under the `n` identifiers
/// that follow the ones in use.
pub proof fn lemma_every_creation_registers(s: RegistryState, calls: Seq<Call>)
    requires
        s.wf(),
        forall|k: int| 0 <= k < calls.len() ==> #[trigger] calls[k] is Spawn,
        s.next_id + calls.len() <= MAX_TERMINAL_ID,
    ensures
        s.after_all(calls).next_id == s.next_id + calls.len(),
        s.after_all(calls).sessions.len() == s.sessions.len() + calls.len(),
        forall|id: u32|
            s.after_all(calls).sessions.contains_key(id) <==> s.sessions.contains_key(id) || (
            s.next_id <= id < s.next_id + calls.len()),
    decreases calls.len(),
{
    if calls.len() > 0 {
        let before = calls.drop_last();
        assert forall|k: int| 0 <= k < before.len() implies #[trigger] before[k] is Spawn by {
            assert(before[k] == calls[k]);
        }
        lemma_every_creation_registers(s, before);
        lemma_after_all_keeps_wf(s, before);
        assert(calls[calls.len() - 1] is Spawn);
    }
}

/// The number of reads before the first one that ends the stream; the
/// number of all reads where none does.
pub open spec fn reads_before_end(readings: Seq<ReadingView>) -> int
    decreases readings.len(),
{
    if readings.len() == 0 || readings.first().is_final() {
        0
    } else {
        1 + reads_before_end(readings.drop_first())
    }
}

/// A reader that has stopped announces nothing, whatever is read.
pub proof fn lemma_stopped_reader_is_silent(reader: ReaderState, readings: Seq<ReadingView>)
    requires
        reader.finished,
    ensures
        reader.trace(readings) == Seq::<NotificationView>::empty(),
    decreases readings.len(),
{
    if readings.len() > 0 {
        lemma_stopped_reader_is_silent(reader.after(readings.first()), readings.drop_first());
    }
}

/// What a reader announces over any sequence of reads: one output for each
/// read before the stream ends, in the order of the reads; then, if the
/// stream ends, one closure of its session; and nothing after that. So a
/// session is announced closed at most once, and no output follows.
pub proof fn lemma_reader_announces_outputs_then_one_closure(
    id: u32,
    readings: Seq<ReadingView>,
)
    ensures
        ({
            let reader = ReaderState { id, finished: false };
            let n = reads_before_end(readings);
            let trace = reader.trace(readings);
            &&& 0 <= n <= readings.len()
            &&& trace.len() == if n < readings.len() {
                n + 1
            } else {
                n
            }
            &&& forall|i: int|
                0 <= i < n ==> #[trigger] trace[i] == announcement(id, readings[i]) && trace[i]
                    is Output
            &&& n < readings.len() ==> trace[n] == announcement(id, readings[n]) && trace[n]
                is Closed
        }),
    decreases readings.len(),
{
    let reader = ReaderState { id, finished: false };
    if readings.len() > 0 {
        let rest = readings.drop_first();
        if readings.first().is_final() {
            lemma_stopped_reader_is_silent(reader.after(readings.first()), rest);
        } else {
            lemma_reader_announces_outputs_then_one_closure(id, rest);
            assert(reader.after(readings.first()) == reader);
            let n = reads_before_end(readings);
            let trace = reader.trace(readings);
            assert forall|i: int| 0 <= i < n implies #[trigger] trace[i] == announcement(
                id,
                readings[i],
            ) && trace[i] is Output by {
                if i > 0 {
                    assert(trace[i] == reader.trace(rest)[i - 1]);
                    assert(rest[i - 1] == readings[i]);
                }
            }
            if n < readings.len() {
                assert(trace[n] == reader.trace(rest)[n - 1]);
                assert(rest[n - 1] == readings[n]);
            }
        }
    }
}

} // verus!
