//! Whole requests: the actions a session asks for over a sequence of events,
//! and what holds of every such run.

use vstd::prelude::*;
use crate::naming::{lemma_distinct_ids_distinct_names, stored_name};
use crate::session::{
    next, start, success_message, ActionView, EventView, ResponseView, SessionView, Stage,
    UploadError,
};

verus! {

/// The session after the events `evs`, and the actions it asked for on the
/// way. Each file field takes the next identifier of `ids`.
pub open spec fn run(s: SessionView, evs: Seq<EventView>, ids: Seq<u128>) -> (
    SessionView,
    Seq<ActionView>,
)
    decreases evs.len(),
{
    if evs.len() == 0 {
        (s, Seq::empty())
    } else {
        let (s1, a) = next(s, evs[0], ids[0]);
        let rest_ids = if evs[0] is FileField {
            ids.drop_first()
        } else {
            ids
        };
        let (s2, acts) = run(s1, evs.drop_first(), rest_ids);
        (s2, seq![a] + acts)
    }
}

/// The events of file fields with these client-side names, each read and
/// written without fault.
pub open spec fn file_events(originals: Seq<Seq<char>>) -> Seq<EventView>
    decreases originals.len(),
{
    if originals.len() == 0 {
        Seq::empty()
    } else {
        seq![EventView::FileField(originals[0]), EventView::BodyReceived, EventView::Written]
            + file_events(originals.drop_first())
    }
}

/// The actions a session asks for over `file_events(originals)`.
pub open spec fn file_actions(originals: Seq<Seq<char>>, ids: Seq<u128>) -> Seq<ActionView>
    decreases originals.len(),
{
    if originals.len() == 0 {
        Seq::empty()
    } else {
        seq![
            ActionView::ReadBody,
            ActionView::Write(stored_name(originals[0], ids[0])),
            ActionView::NextField,
        ] + file_actions(originals.drop_first(), ids.drop_first())
    }
}

/// The stored names of files with these client-side names and identifiers.
pub open spec fn names(originals: Seq<Seq<char>>, ids: Seq<u128>) -> Seq<Seq<char>> {
    Seq::new(originals.len(), |i: int| stored_name(originals[i], ids[i]))
}

/// `n` plain form fields.
pub open spec fn plain_events(n: nat) -> Seq<EventView> {
    Seq::new(n, |i: int| EventView::PlainField)
}

/// Whether `e` tells that the stream has ended.
pub open spec fn ends_stream(e: EventView) -> bool {
    e is NoMoreFields || e is MalformedStream
}

/// A run of one event is one step.
proof fn lemma_run_one(s: SessionView, e: EventView, ids: Seq<u128>)
    ensures
        run(s, seq![e], ids) == (next(s, e, ids[0]).0, seq![next(s, e, ids[0]).1]),
{
    let evs = seq![e];
    let (s1, a) = next(s, e, ids[0]);
    let rest_ids = if e is FileField {
        ids.drop_first()
    } else {
        ids
    };
    assert(evs.drop_first() =~= Seq::<EventView>::empty());
    assert(run(s1, evs.drop_first(), rest_ids) == (s1, Seq::<ActionView>::empty()));
    assert(seq![a] + Seq::<ActionView>::empty() =~= seq![a]);
}

/// File fields that all go through append their stored names, in order, and
/// leave the session waiting for the next field.
proof fn lemma_file_run(
    s: SessionView,
    originals: Seq<Seq<char>>,
    ids: Seq<u128>,
    tail: Seq<EventView>,
    tail_ids: Seq<u128>,
)
    requires
        s.stage is AwaitingField,
        ids.len() == originals.len(),
    ensures
        ({
            let after = SessionView {
                saved: s.saved + names(originals, ids),
                stage: Stage::AwaitingField,
            };
            let rest = run(after, tail, tail_ids);
            run(s, file_events(originals) + tail, ids + tail_ids) == (
                rest.0,
                file_actions(originals, ids) + rest.1,
            )
        }),
    decreases originals.len(),
{
    let evs = file_events(originals) + tail;
    let all_ids = ids + tail_ids;
    if originals.len() == 0 {
        assert(evs =~= tail);
        assert(all_ids =~= tail_ids);
        assert(s.saved + names(originals, ids) =~= s.saved);
        assert(file_actions(originals, ids) + run(s, tail, tail_ids).1 =~= run(
            s,
            tail,
            tail_ids,
        ).1);
    } else {
        let name = stored_name(originals[0], ids[0]);
        let s1 = SessionView { saved: s.saved, stage: Stage::ReadingBody(name) };
        let s2 = SessionView { saved: s.saved, stage: Stage::Writing(name) };
        let s3 = SessionView { saved: s.saved.push(name), stage: Stage::AwaitingField };
        let more = originals.drop_first();
        let more_ids = ids.drop_first();
        let rest_evs = file_events(more) + tail;
        let e1 = evs.drop_first();
        let e2 = e1.drop_first();
        assert(evs[0] == EventView::FileField(originals[0]));
        assert(e1 =~= seq![EventView::BodyReceived, EventView::Written] + rest_evs);
        assert(e2 =~= seq![EventView::Written] + rest_evs);
        assert(e2.drop_first() =~= rest_evs);
        assert(all_ids[0] == ids[0]);
        assert(all_ids.drop_first() =~= more_ids + tail_ids);
        assert(next(s, evs[0], all_ids[0]) == (s1, ActionView::ReadBody));
        assert(next(s1, e1[0], all_ids[0]) == (s2, ActionView::Write(name)));
        assert(next(s2, e2[0], all_ids[0]) == (s3, ActionView::NextField));
        lemma_file_run(s3, more, more_ids, tail, tail_ids);
        assert(s3.saved + names(more, more_ids) =~= s.saved + names(originals, ids));
        let rest = run(
            SessionView { saved: s.saved + names(originals, ids), stage: Stage::AwaitingField },
            tail,
            tail_ids,
        );
        assert(run(s2, e2, more_ids + tail_ids) == (rest.0, seq![ActionView::NextField] + (
        file_actions(more, more_ids) + rest.1)));
        assert(run(s1, e1, more_ids + tail_ids) == (rest.0, seq![ActionView::Write(name)] + (seq![
            ActionView::NextField,
        ] + (file_actions(more, more_ids) + rest.1))));
        assert(seq![ActionView::ReadBody] + (seq![ActionView::Write(name)] + (seq![
            ActionView::NextField,
        ] + (file_actions(more, more_ids) + rest.1))) =~= file_actions(originals, ids) + rest.1);
    }
}

/// Plain form fields change nothing: each asks only for the next field.
proof fn lemma_plain_run(s: SessionView, n: nat, tail: Seq<EventView>, ids: Seq<u128>)
    requires
        s.stage is AwaitingField,
    ensures
        run(s, plain_events(n) + tail, ids) == (
            run(s, tail, ids).0,
            Seq::new(n, |i: int| ActionView::NextField) + run(s, tail, ids).1,
        ),
    decreases n,
{
    let evs = plain_events(n) + tail;
    if n == 0 {
        assert(evs =~= tail);
        assert(Seq::new(n, |i: int| ActionView::NextField) + run(s, tail, ids).1 =~= run(
            s,
            tail,
            ids,
        ).1);
    } else {
        let m = (n - 1) as nat;
        assert(evs[0] == EventView::PlainField);
        assert(evs.drop_first() =~= plain_events(m) + tail);
        lemma_plain_run(s, m, tail, ids);
        assert(seq![ActionView::NextField] + (Seq::new(m, |i: int| ActionView::NextField) + run(
            s,
            tail,
            ids,
        ).1) =~= Seq::new(n, |i: int| ActionView::NextField) + run(s, tail, ids).1);
    }
}

/// A request with N ≥ 1 file fields, each read and written without fault and
/// with no plain field between them, is answered with the success message and
/// exactly N stored names: the i-th is the stored name of the i-th file field.
/// Where the identifiers drawn are distinct, so are the names.
pub proof fn lemma_uploads_listed_in_order(
    originals: Seq<Seq<char>>,
    ids: Seq<u128>,
    end: EventView,
)
    requires
        originals.len() >= 1,
        ids.len() == originals.len(),
        ends_stream(end),
    ensures
        run(start(), file_events(originals) + seq![end], ids).1.last() == ActionView::Respond(
            Ok(ResponseView { message: success_message(), filenames: names(originals, ids) }),
        ),
        run(start(), file_events(originals) + seq![end], ids).0.stage is Finished,
        names(originals, ids).len() == originals.len(),
        forall|i: int|
            0 <= i < originals.len() ==> #[trigger] names(originals, ids)[i] == stored_name(
                originals[i],
                ids[i],
            ),
        (forall|i: int, j: int|
            0 <= i < j < ids.len() ==> ids[i] != ids[j]) ==> forall|i: int, j: int|
            0 <= i < j < originals.len() ==> names(originals, ids)[i] != names(
                originals,
                ids,
            )[j],
{
    let s0 = start();
    let tail = seq![end];
    let empty_ids = Seq::<u128>::empty();
    assert(ids + empty_ids =~= ids);
    lemma_file_run(s0, originals, ids, tail, empty_ids);
    let after = SessionView { saved: s0.saved + names(originals, ids), stage: Stage::AwaitingField };
    assert(s0.saved + names(originals, ids) =~= names(originals, ids));
    lemma_run_one(after, end, empty_ids);
    if forall|i: int, j: int| 0 <= i < j < ids.len() ==> ids[i] != ids[j] {
        assert forall|i: int, j: int| 0 <= i < j < originals.len() implies names(
            originals,
            ids,
        )[i] != names(originals, ids)[j] by {
            lemma_distinct_ids_distinct_names(originals[i], originals[j], ids[i], ids[j]);
        }
    }
}

/// A request whose stream holds no file field (only plain fields, or none at
/// all) is answered with a bad request, and no write is ever asked for.
pub proof fn lemma_no_files_bad_request(n: nat, end: EventView, ids: Seq<u128>)
    requires
        ends_stream(end),
    ensures
        ({
            let acts = run(start(), plain_events(n) + seq![end], ids).1;
            &&& acts.len() == n + 1
            &&& acts.last() == ActionView::Respond(Err(UploadError::BadRequest))
            &&& forall|k: int| 0 <= k < acts.len() ==> !(#[trigger] acts[k] is Write)
        }),
{
    let s0 = start();
    let tail = seq![end];
    lemma_plain_run(s0, n, tail, ids);
    lemma_run_one(s0, end, ids);
    let acts = run(s0, plain_events(n) + tail, ids).1;
    assert(forall|k: int| 0 <= k < n ==> acts[k] == ActionView::NextField);
}

} // verus!
