use vstd::prelude::*;
use vstd::utf8::encode_utf8;

use crate::model::{InputEntryView, MetadataView, QuestionView};
use crate::quiz::{
    after_submit, after_update_metadata, after_upsert, authorized, created, first_match, has_id,
    is_first_match, is_operator, lemma_first_match_exists, lemma_first_match_unique, selected,
    submit_result, unique_ids, upserted, lemma_upsert_keeps_ids_unique, DaQuizView, Error,
};

verus! {

/// The positions `0, 1, ..., n - 1`.
pub open spec fn all_positions(n: nat) -> Seq<u32> {
    Seq::new(n, |i: int| i as u32)
}

/// The positions of `indices` that name an element of a sequence of length `n`.
pub open spec fn valid_positions(indices: Seq<u32>, n: nat) -> Seq<u32> {
    indices.filter(|i: u32| (i as int) < n)
}

/// The registry after each of `es` is submitted in turn.
pub open spec fn submit_all(q: DaQuizView, es: Seq<InputEntryView>) -> DaQuizView
    decreases es.len(),
{
    if es.len() == 0 {
        q
    } else {
        after_submit(submit_all(q, es.drop_last()), es.last())
    }
}

proof fn lemma_selected_prefix(qs: Seq<QuestionView>, k: nat)
    requires
        k <= qs.len(),
        qs.len() <= u32::MAX + 1,
    ensures
        selected(all_positions(k), qs) == qs.subrange(0, k as int),
    decreases k,
{
    if k > 0 {
        assert(all_positions(k).drop_last() =~= all_positions((k - 1) as nat));
        lemma_selected_prefix(qs, (k - 1) as nat);
        assert(qs.subrange(0, k - 1).push(qs[k - 1]) =~= qs.subrange(0, k as int));
    } else {
        assert(qs.subrange(0, 0) =~= Seq::<QuestionView>::empty());
    }
}

/// A registry as created hands back the metadata it was given, every question
/// it was given when asked for all their positions, and an empty ledger to its
/// creator, who is its operator.
pub proof fn law_created_reads_back(caller: Seq<u8>, m: MetadataView, qs: Seq<QuestionView>)
    requires
        qs.len() <= u32::MAX + 1,
    ensures
        created(caller, m, qs).state.metadata == m,
        selected(all_positions(qs.len()), created(caller, m, qs).state.questions) == qs,
        authorized(created(caller, m, qs), caller) == Ok::<(), Error>(()),
        created(caller, m, qs).state.entries.len() == 0,
{
    lemma_selected_prefix(qs, qs.len());
    assert(qs.subrange(0, qs.len() as int) =~= qs);
}

/// Selecting by positions keeps exactly the positions in range, in their
/// order, and hands back the element at each.
pub proof fn law_selected_matches_valid<V>(indices: Seq<u32>, items: Seq<V>)
    ensures
        selected(indices, items) == valid_positions(indices, items.len()).map_values(
            |i: u32| items[i as int],
        ),
        selected(indices, items).len() == valid_positions(indices, items.len()).len(),
    decreases indices.len(),
{
    reveal(Seq::filter);
    let pred = |i: u32| (i as int) < items.len();
    if indices.len() > 0 {
        law_selected_matches_valid(indices.drop_last(), items);
        let rest = indices.drop_last().filter(pred);
        if (indices.last() as int) < items.len() {
            assert(indices.filter(pred) == rest.push(indices.last()));
            assert(rest.push(indices.last()).map_values(|i: u32| items[i as int]) =~= rest.map_values(
                |i: u32| items[i as int],
            ).push(items[indices.last() as int]));
        } else {
            assert(indices.filter(pred) == rest);
        }
    } else {
        assert(indices.filter(pred) =~= Seq::<u32>::empty());
        assert(selected(indices, items) =~= Seq::<V>::empty());
    }
    assert(valid_positions(indices, items.len()) == indices.filter(pred));
}

proof fn lemma_submit_all_fills(q: DaQuizView, es: Seq<InputEntryView>)
    requires
        q.state.entries.len() + es.len() <= q.state.metadata.max_entries,
        forall|i: int| 0 <= i < es.len() ==> encode_utf8(#[trigger] es[i].author).len() == 32,
    ensures
        submit_all(q, es).state.entries.len() == q.state.entries.len() + es.len(),
        submit_all(q, es).state.metadata == q.state.metadata,
        forall|k: int|
            0 <= k < es.len() ==> #[trigger] submit_result(submit_all(q, es.take(k)), es[k])
                == Ok::<(), Error>(()),
    decreases es.len(),
{
    if es.len() > 0 {
        let init = es.drop_last();
        lemma_submit_all_fills(q, init);
        assert forall|k: int|
            0 <= k < es.len() implies #[trigger] submit_result(submit_all(q, es.take(k)), es[k])
            == Ok::<(), Error>(()) by {
            if k < init.len() {
                assert(es.take(k) =~= init.take(k));
                assert(init[k] == es[k]);
            } else {
                assert(es.take(k) =~= init);
            }
        }
    }
}

/// Once as many submissions as the capacity allows have succeeded on an empty
/// ledger, the next one is refused with `NotAllowed` and changes nothing.
pub proof fn law_capacity(q: DaQuizView, es: Seq<InputEntryView>, next: InputEntryView)
    requires
        q.state.entries.len() == 0,
        es.len() == q.state.metadata.max_entries,
        forall|i: int| 0 <= i < es.len() ==> encode_utf8(#[trigger] es[i].author).len() == 32,
    ensures
        forall|k: int|
            0 <= k < es.len() ==> #[trigger] submit_result(submit_all(q, es.take(k)), es[k])
                == Ok::<(), Error>(()),
        submit_all(q, es).state.entries.len() == q.state.metadata.max_entries,
        submit_result(submit_all(q, es), next) == Err::<(), Error>(Error::NotAllowed),
        after_submit(submit_all(q, es), next) == submit_all(q, es),
{
    lemma_submit_all_fills(q, es);
}

/// A caller other than the operator is refused with `NotAllowed` by every
/// privileged operation, and the registry stays as it was.
pub proof fn law_only_operator(
    q: DaQuizView,
    caller: Seq<u8>,
    m: MetadataView,
    question: QuestionView,
)
    requires
        !is_operator(q, caller),
    ensures
        authorized(q, caller) == Err::<(), Error>(Error::NotAllowed),
        after_update_metadata(q, caller, m) == q,
        after_upsert(q, caller, question) == q,
{
}

/// Upserting the same question twice leaves the bank as the first upsert
/// left it; where ids were not repeated before, exactly one question has its id.
pub proof fn law_upsert_idempotent(qs: Seq<QuestionView>, q: QuestionView)
    ensures
        upserted(upserted(qs, q), q) == upserted(qs, q),
        has_id(upserted(qs, q), q.id),
        first_match(upserted(upserted(qs, q), q), q.id) == first_match(upserted(qs, q), q.id),
        unique_ids(qs) ==> forall|j: int|
            0 <= j < upserted(qs, q).len() && #[trigger] upserted(qs, q)[j].id == q.id ==> j
                == first_match(upserted(qs, q), q.id),
{
    let r1 = upserted(qs, q);
    if has_id(qs, q.id) {
        lemma_first_match_exists(qs, q.id);
        let p = first_match(qs, q.id);
        assert(is_first_match(r1, q.id, p));
        lemma_first_match_unique(r1, q.id, p);
        assert(r1.update(p, q) =~= r1);
    } else {
        let p = qs.len() as int;
        assert forall|j: int| 0 <= j < p implies #[trigger] r1[j].id != q.id by {
            assert(r1[j] == qs[j]);
        }
        assert(is_first_match(r1, q.id, p));
        lemma_first_match_unique(r1, q.id, p);
        assert(r1.update(p, q) =~= r1);
    }
    if unique_ids(qs) {
        lemma_upsert_keeps_ids_unique(qs, q);
        lemma_first_match_exists(r1, q.id);
    }
}

/// An upsert with a new id appends the question at the end; one with a known
/// id keeps the length and puts the question where the first match stood.
pub proof fn law_upsert_shape(qs: Seq<QuestionView>, q: QuestionView)
    ensures
        !has_id(qs, q.id) ==> upserted(qs, q) == qs.push(q),
        !has_id(qs, q.id) ==> upserted(qs, q).len() == qs.len() + 1,
        has_id(qs, q.id) ==> upserted(qs, q).len() == qs.len(),
        has_id(qs, q.id) ==> is_first_match(qs, q.id, first_match(qs, q.id)),
        has_id(qs, q.id) ==> is_first_match(upserted(qs, q), q.id, first_match(qs, q.id)),
        has_id(qs, q.id) ==> upserted(qs, q)[first_match(qs, q.id)] == q,
        has_id(qs, q.id) ==> forall|j: int|
            0 <= j < qs.len() && j != first_match(qs, q.id) ==> #[trigger] upserted(qs, q)[j]
                == qs[j],
{
    if has_id(qs, q.id) {
        lemma_first_match_exists(qs, q.id);
    }
}

} // verus!
