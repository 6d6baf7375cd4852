//! The guarantees of the tailer, proved of the transition relation.
//!
//! [`run_spec`] folds [`next_spec`] over a sequence of events and collects
//! everything emitted along the way; the theorems below state what any
//! driving loop therefore gets: bytes come out in order and byte-identical,
//! quiet polls emit nothing, rotation flushes the remainder and then tails
//! the new file from its beginning, and a closed watcher never emits again.

use vstd::prelude::*;

use vstd::seq_lib::lemma_flatten_concat;

use crate::reader::{read_chunks, lemma_read_chunks_ordering, lemma_line_chunks_pending_bound};
use crate::watcher::{
    WatcherModel, EventModel, ReaderModel, next_spec, close_spec, flush_of,
    fresh_reader, model_wf, reader_model_wf,
};

verus! {

/// Run the machine over a sequence of events: the final state, and every
/// chunk emitted on the way, in order.
pub open spec fn run_spec(s: WatcherModel, es: Seq<EventModel>) -> (WatcherModel, Seq<Seq<u8>>)
    decreases es.len(),
{
    if es.len() == 0 {
        (s, seq![])
    } else {
        let step = next_spec(s, es.first());
        let rest = run_spec(step.0, es.drop_first());
        (rest.0, step.1.emit + rest.1)
    }
}

/// The reader carried by a state that holds one.
pub open spec fn reader_of(s: WatcherModel) -> ReaderModel
    recommends
        s is Initializing || s is Waiting || s is Reading || s is Missing,
{
    match s {
        WatcherModel::Initializing(r) => r,
        WatcherModel::Waiting(r) => r,
        WatcherModel::Reading(r) => r,
        WatcherModel::Missing(r) => r,
        _ => vstd::pervasive::arbitrary(),
    }
}

/// The bytes the file handed over, poll by poll.
pub open spec fn polled_inputs(es: Seq<EventModel>) -> Seq<Seq<u8>>
    decreases es.len(),
{
    if es.len() == 0 {
        seq![]
    } else {
        let head = match es.first() {
            EventModel::Polled { input, token } => input,
            _ => seq![],
        };
        seq![head] + polled_inputs(es.drop_first())
    }
}

/// A poll that does not look like a rotation: when the watcher is idle in
/// `Waiting` and the poll reads nothing, the probed change token must still
/// match the baseline.
pub open spec fn benign_poll(s: WatcherModel, e: EventModel) -> bool {
    &&& e is Polled
    &&& (e matches EventModel::Polled { input, token } ==> rotation_free(s, input, token))
}

/// A quiet poll of an idle watcher must come with an unchanged change token.
pub open spec fn rotation_free(s: WatcherModel, input: Seq<u8>, token: Option<u64>) -> bool {
    s is Waiting && input.len() == 0 ==> token is Some && token->0 <= reader_of(s).last_ctime
}

/// Every event in the run is a poll of the same, never-rotated file.
pub open spec fn benign_polls(s: WatcherModel, es: Seq<EventModel>) -> bool
    decreases es.len(),
{
    es.len() == 0 || {
        &&& benign_poll(s, es.first())
        &&& benign_polls(next_spec(s, es.first()).0, es.drop_first())
    }
}

/// Ordering: over any sequence of polls of a file that is only appended to,
/// the concatenation of everything emitted, followed by the bytes still
/// pending, equals the bytes that were pending at the start followed by the
/// concatenation of everything the file handed over — byte for byte, in
/// order, whatever the chunk boundaries.
pub proof fn theorem_ordering(s: WatcherModel, es: Seq<EventModel>)
    requires
        model_wf(s),
        s is Waiting || s is Reading,
        benign_polls(s, es),
    ensures
        ({
            let run = run_spec(s, es);
            &&& run.0 is Waiting || run.0 is Reading
            &&& model_wf(run.0)
            &&& reader_of(run.0).mode == reader_of(s).mode
            &&& reader_of(run.0).path == reader_of(s).path
            &&& run.1.flatten() + reader_of(run.0).pending == reader_of(s).pending + polled_inputs(
                es,
            ).flatten()
        }),
    decreases es.len(),
{
    let run = run_spec(s, es);
    let r = reader_of(s);
    if es.len() == 0 {
        assert(run.1.flatten() + r.pending =~= r.pending + polled_inputs(es).flatten());
    } else {
        let e = es.first();
        let step = next_spec(s, e);
        let es1 = es.drop_first();
        let input = match e {
            EventModel::Polled { input, token } => input,
            _ => seq![],
        };
        assert(polled_inputs(es) == seq![input] + polled_inputs(es1));
        assert((seq![input] + polled_inputs(es1)).drop_first() =~= polled_inputs(es1));
        assert(polled_inputs(es).flatten() == input + polled_inputs(es1).flatten());
        if input.len() == 0 {
            assert(step.0 == WatcherModel::Waiting(r));
            assert(step.1.emit == Seq::<Seq<u8>>::empty());
            theorem_ordering(step.0, es1);
            let rest = run_spec(step.0, es1);
            assert(run.1 =~= rest.1);
            assert(r.pending + (input + polled_inputs(es1).flatten()) =~= r.pending
                + polled_inputs(es1).flatten());
        } else {
            let rc = read_chunks(r.mode, r.pending, input);
            lemma_read_chunks_ordering(r.mode, r.pending, input);
            if r.mode is NextLine {
                lemma_line_chunks_pending_bound(r.pending, input);
            }
            let r2 = reader_of(step.0);
            assert(step.0 is Waiting || step.0 is Reading);
            assert(r2.pending == rc.1 && r2.mode == r.mode && r2.path == r.path);
            assert(reader_model_wf(r2));
            theorem_ordering(step.0, es1);
            let rest = run_spec(step.0, es1);
            lemma_flatten_concat(rc.0, rest.1);
            assert(run.1.flatten() == rc.0.flatten() + rest.1.flatten());
            assert(run.1.flatten() + reader_of(run.0).pending =~= rc.0.flatten() + (rest.1.flatten()
                + reader_of(run.0).pending));
            assert(rest.1.flatten() + reader_of(run.0).pending == rc.1 + polled_inputs(
                es1,
            ).flatten());
            assert(rc.0.flatten() + (rc.1 + polled_inputs(es1).flatten()) =~= (rc.0.flatten()
                + rc.1) + polled_inputs(es1).flatten());
            assert((r.pending + input) + polled_inputs(es1).flatten() =~= r.pending + (input
                + polled_inputs(es1).flatten()));
        }
    }
}

/// No-growth idempotence: a poll that reads nothing from a file that was not
/// replaced emits nothing and leaves the reader exactly as it was.
pub proof fn theorem_no_growth(s: WatcherModel, token: Option<u64>)
    requires
        s is Waiting || s is Reading,
        s is Waiting ==> token is Some && token->0 <= reader_of(s).last_ctime,
    ensures
        next_spec(s, EventModel::Polled { input: seq![], token }).1.emit == Seq::<Seq<u8>>::empty(),
        next_spec(s, EventModel::Polled { input: seq![], token }).0 == WatcherModel::Waiting(
            reader_of(s),
        ),
{
}

/// Rotation: from `Missing`, the machine first flushes the untailed
/// remainder of the old file, and from then on behaves exactly as a watcher
/// freshly opened on the new file — nothing pending, tailing from byte
/// zero.
pub proof fn theorem_rotation(r: ReaderModel, token: u64, es: Seq<EventModel>)
    ensures
        ({
            let fresh = WatcherModel::Waiting(fresh_reader(r.path, r.mode, token));
            let evs = seq![EventModel::Tick, EventModel::Opened { token }] + es;
            let run = run_spec(WatcherModel::Missing(r), evs);
            &&& run.1 == flush_of(r.pending) + run_spec(fresh, es).1
            &&& run.0 == run_spec(fresh, es).0
        }),
{
    let fresh = WatcherModel::Waiting(fresh_reader(r.path, r.mode, token));
    let s0 = WatcherModel::Missing(r);
    let evs = seq![EventModel::Tick, EventModel::Opened { token }] + es;
    let evs1 = evs.drop_first();
    let evs2 = evs1.drop_first();
    assert(evs.len() == 2 + es.len());
    assert(evs.first() == EventModel::Tick);
    assert(evs[1] == EventModel::Opened { token });
    assert(evs1.first() == evs[1]);
    assert(evs2 =~= es);
    let step1 = next_spec(s0, evs.first());
    assert(step1.0 == WatcherModel::Reloading(r.path, r.mode));
    assert(step1.1.emit == flush_of(r.pending));
    let step2 = next_spec(step1.0, evs1.first());
    assert(step2.0 == fresh);
    assert(step2.1.emit == Seq::<Seq<u8>>::empty());
    let rest = run_spec(fresh, es);
    assert(run_spec(s0, evs).1 == step1.1.emit + run_spec(step1.0, evs1).1);
    assert(run_spec(s0, evs).0 == run_spec(step1.0, evs1).0);
    assert(run_spec(step1.0, evs1).1 == step2.1.emit + run_spec(step2.0, evs2).1);
    assert(run_spec(step1.0, evs1).0 == run_spec(step2.0, evs2).0);
    assert(run_spec(step2.0, evs2) == rest);
    assert(step2.1.emit + rest.1 =~= rest.1);
}

/// Rotation, end to end: given new content appended to the recreated file,
/// everything the machine emits from `Missing` onward is the old pending
/// remainder followed by the new file's bytes, in order and from byte zero.
pub proof fn theorem_rotation_ordering(r: ReaderModel, token: u64, es: Seq<EventModel>)
    requires
        reader_model_wf(r),
        benign_polls(
            WatcherModel::Waiting(fresh_reader(r.path, r.mode, token)),
            es,
        ),
    ensures
        ({
            let evs = seq![EventModel::Tick, EventModel::Opened { token }] + es;
            let run = run_spec(WatcherModel::Missing(r), evs);
            run.1.flatten() + reader_of(run.0).pending == r.pending + polled_inputs(es).flatten()
        }),
{
    let fresh = WatcherModel::Waiting(fresh_reader(r.path, r.mode, token));
    let evs = seq![EventModel::Tick, EventModel::Opened { token }] + es;
    let run = run_spec(WatcherModel::Missing(r), evs);
    theorem_rotation(r, token, es);
    theorem_ordering(fresh, es);
    let rest = run_spec(fresh, es);
    lemma_flatten_concat(flush_of(r.pending), rest.1);
    lemma_flatten_flush(r.pending);
    assert(run.1.flatten() + reader_of(run.0).pending =~= r.pending + (rest.1.flatten()
        + reader_of(run.0).pending));
    assert(rest.1.flatten() + reader_of(run.0).pending =~= polled_inputs(es).flatten());
    assert(r.pending + (rest.1.flatten() + reader_of(run.0).pending) =~= r.pending
        + polled_inputs(es).flatten());
}

/// Flattening the best-effort flush of a pending buffer gives the buffer
/// back.
proof fn lemma_flatten_flush(pending: Seq<u8>)
    ensures
        flush_of(pending).flatten() == pending,
{
    if pending.len() > 0 {
        assert(flush_of(pending) == seq![pending]);
        assert(seq![pending].drop_first() =~= Seq::<Seq<u8>>::empty());
        assert(seq![pending].flatten() == pending + Seq::<Seq<u8>>::empty().flatten());
        assert(pending + Seq::<u8>::empty() =~= pending);
    } else {
        assert(flush_of(pending).flatten() =~= pending);
    }
}

/// Close semantics: `Close` terminates in one step from any state, and a
/// closed watcher emits nothing ever again, whatever events arrive.
pub proof fn theorem_close(s: WatcherModel, es: Seq<EventModel>)
    ensures
        close_spec(s).0 == WatcherModel::Closed,
        run_spec(WatcherModel::Closed, es).0 == WatcherModel::Closed,
        run_spec(WatcherModel::Closed, es).1 == Seq::<Seq<u8>>::empty(),
    decreases es.len(),
{
    if es.len() > 0 {
        theorem_close(s, es.drop_first());
        assert(run_spec(WatcherModel::Closed, es).1 =~= Seq::<Seq<u8>>::empty());
    } else {
        assert(run_spec(WatcherModel::Closed, es).1 =~= Seq::<Seq<u8>>::empty());
    }
}

} // verus!
