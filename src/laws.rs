use vstd::prelude::*;
use crate::document::Document;
use crate::batch::{BatchBuffer, WriteAction, accept_step, elapsed};

verus! {

/// `states[j + 1]` and `actions[j]` are what accepting `docs[j]` at time
/// `nows[j]` makes of `states[j]`, for each call in turn.
pub open spec fn accept_run(
    states: Seq<BatchBuffer>,
    docs: Seq<Document>,
    nows: Seq<u64>,
    actions: Seq<WriteAction>,
) -> bool {
    &&& states.len() == docs.len() + 1
    &&& nows.len() == docs.len()
    &&& actions.len() == docs.len()
    &&& forall|j: int|
        0 <= j < docs.len() ==> #[trigger] accept_step(
            states[j],
            docs[j],
            nows[j],
            states[j + 1],
            actions[j],
        )
}

/// Every call of the run comes before the interval since the first state's
/// last flush has passed.
pub open spec fn all_before_interval(states: Seq<BatchBuffer>, nows: Seq<u64>, upto: int) -> bool {
    forall|j: int|
        0 <= j < upto ==> #[trigger] elapsed(nows[j], states[0].last_flush())
            < states[0].policy().interval_ms
}

proof fn lemma_quiet_prefix(
    states: Seq<BatchBuffer>,
    docs: Seq<Document>,
    nows: Seq<u64>,
    actions: Seq<WriteAction>,
    k: int,
)
    requires
        accept_run(states, docs, nows, actions),
        states[0].policy().buffered(),
        0 <= k <= docs.len(),
        states[0].pending().len() + k < states[0].policy().size_threshold,
        all_before_interval(states, nows, k),
    ensures
        states[k].pending() == states[0].pending() + docs.take(k),
        states[k].last_flush() == states[0].last_flush(),
        states[k].policy() == states[0].policy(),
        forall|j: int| 0 <= j < k ==> actions[j] is Nothing,
    decreases k,
{
    if k == 0 {
        assert(states[0].pending() + docs.take(0) =~= states[0].pending());
    } else {
        lemma_quiet_prefix(states, docs, nows, actions, k - 1);
        let j = k - 1;
        assert(accept_step(states[j], docs[j], nows[j], states[j + 1], actions[j]));
        assert(elapsed(nows[k - 1], states[0].last_flush()) < states[0].policy().interval_ms);
        assert(states[0].pending() + docs.take(k) =~= (states[0].pending() + docs.take(k - 1)).push(
            docs[k - 1],
        ));
    }
}

/// A buffered sink writes nothing while its pending documents stay under the
/// size threshold and the interval has not passed: the documents wait, in the
/// order they came.
pub proof fn lemma_no_write_before_thresholds(
    states: Seq<BatchBuffer>,
    docs: Seq<Document>,
    nows: Seq<u64>,
    actions: Seq<WriteAction>,
)
    requires
        accept_run(states, docs, nows, actions),
        states[0].policy().buffered(),
        states[0].pending().len() + docs.len() < states[0].policy().size_threshold,
        all_before_interval(states, nows, docs.len() as int),
    ensures
        forall|j: int| 0 <= j < docs.len() ==> (#[trigger] actions[j]) is Nothing,
        states.last().pending() == states[0].pending() + docs,
{
    lemma_quiet_prefix(states, docs, nows, actions, docs.len() as int);
    assert(docs.take(docs.len() as int) =~= docs);
}

/// An unbuffered sink writes each accepted document on its own, at once, and
/// never holds one back.
pub proof fn lemma_unbuffered_writes_each(
    states: Seq<BatchBuffer>,
    docs: Seq<Document>,
    nows: Seq<u64>,
    actions: Seq<WriteAction>,
)
    requires
        accept_run(states, docs, nows, actions),
        !states[0].policy().buffered(),
    ensures
        forall|j: int|
            0 <= j < docs.len() ==> (#[trigger] actions[j]) == WriteAction::InsertOne(docs[j])
                && actions[j].written() == seq![docs[j]],
{
    assert forall|j: int| 0 <= j < docs.len() implies !states[j].policy().buffered() by {
        lemma_policy_kept(states, docs, nows, actions, j);
    }
    assert forall|j: int| 0 <= j < docs.len() implies (#[trigger] actions[j])
        == WriteAction::InsertOne(docs[j]) && actions[j].written() == seq![docs[j]] by {
        assert(accept_step(states[j], docs[j], nows[j], states[j + 1], actions[j]));
    }
}

proof fn lemma_policy_kept(
    states: Seq<BatchBuffer>,
    docs: Seq<Document>,
    nows: Seq<u64>,
    actions: Seq<WriteAction>,
    k: int,
)
    requires
        accept_run(states, docs, nows, actions),
        0 <= k <= docs.len(),
    ensures
        states[k].policy() == states[0].policy(),
    decreases k,
{
    if k > 0 {
        lemma_policy_kept(states, docs, nows, actions, k - 1);
        let j = k - 1;
        assert(accept_step(states[j], docs[j], nows[j], states[j + 1], actions[j]));
    }
}

/// Starting empty, with a size threshold of N and the interval never
/// reached, N accepted documents give exactly one write: the last call
/// writes all N, in the order they were accepted, in one unordered call,
/// and leaves nothing pending.
pub proof fn lemma_size_triggered_flush(
    states: Seq<BatchBuffer>,
    docs: Seq<Document>,
    nows: Seq<u64>,
    actions: Seq<WriteAction>,
)
    requires
        accept_run(states, docs, nows, actions),
        states[0].policy().buffered(),
        states[0].pending().len() == 0,
        docs.len() == states[0].policy().size_threshold,
        all_before_interval(states, nows, docs.len() as int),
    ensures
        forall|j: int| 0 <= j < docs.len() - 1 ==> (#[trigger] actions[j]) is Nothing,
        actions.last() is InsertMany,
        !actions.last()->ordered,
        actions.last().written() == docs,
        states.last().pending().len() == 0,
{
    let n = docs.len() as int;
    lemma_quiet_prefix(states, docs, nows, actions, n - 1);
    let j = n - 1;
    assert(accept_step(states[j], docs[j], nows[j], states[j + 1], actions[j]));
    assert(Seq::<Document>::empty() + docs.take(n - 1) =~= docs.take(n - 1));
    assert(docs.take(n - 1).push(docs[n - 1]) =~= docs);
}

/// With fewer calls than the size threshold, a call made once the interval
/// has passed writes every document still pending together with its own, in
/// one unordered call, after calls that wrote nothing.
pub proof fn lemma_time_triggered_flush(
    states: Seq<BatchBuffer>,
    docs: Seq<Document>,
    nows: Seq<u64>,
    actions: Seq<WriteAction>,
)
    requires
        accept_run(states, docs, nows, actions),
        states[0].policy().buffered(),
        states[0].pending().len() == 0,
        0 < docs.len() < states[0].policy().size_threshold,
        all_before_interval(states, nows, docs.len() - 1),
        elapsed(nows.last(), states[0].last_flush()) >= states[0].policy().interval_ms,
    ensures
        forall|j: int| 0 <= j < docs.len() - 1 ==> (#[trigger] actions[j]) is Nothing,
        actions.last() is InsertMany,
        !actions.last()->ordered,
        actions.last().written() == docs,
        states.last().pending().len() == 0,
{
    let n = docs.len() as int;
    lemma_quiet_prefix(states, docs, nows, actions, n - 1);
    let j = n - 1;
    assert(accept_step(states[j], docs[j], nows[j], states[j + 1], actions[j]));
    assert(Seq::<Document>::empty() + docs.take(n - 1) =~= docs.take(n - 1));
    assert(docs.take(n - 1).push(docs[n - 1]) =~= docs);
}

/// Two calls that would each leave the batch under its threshold, but that
/// together reach it, give one flush holding both documents, not two.
pub proof fn lemma_single_flush_for_two(
    s0: BatchBuffer,
    s1: BatchBuffer,
    s2: BatchBuffer,
    a: Document,
    b: Document,
    now_a: u64,
    now_b: u64,
    r1: WriteAction,
    r2: WriteAction,
)
    requires
        s0.wf(),
        s0.policy().buffered(),
        s0.pending().len() + 2 == s0.policy().size_threshold,
        elapsed(now_a, s0.last_flush()) < s0.policy().interval_ms,
        elapsed(now_b, s0.last_flush()) < s0.policy().interval_ms,
        accept_step(s0, a, now_a, s1, r1),
        accept_step(s1, b, now_b, s2, r2),
    ensures
        r1 is Nothing,
        r2 is InsertMany,
        r2.written() == s0.pending().push(a).push(b),
        s2.pending().len() == 0,
{
}

} // verus!
