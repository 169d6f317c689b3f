use vstd::prelude::*;
use vstd::utf8::encode_utf8;

use crate::account::AccountId;
use crate::model::{
    duplicate_all, empty_metadata, views, Duplicate, Entry, EntryView, InputEntry,
    InputEntryView, Metadata, MetadataView, Question, QuestionView,
};

verus! {

/// Why an operation was refused. A refused operation changes nothing.
#[derive(Debug, Clone, Copy, PartialEq, Eq, Structural)]
pub enum Error {
    /// The caller is not the operator, or the ledger is full.
    NotAllowed,
    /// A referenced question does not exist.
    NotFound,
    /// An author's textual form does not name an identity.
    InvalidIdentity,
}

/// What the registry holds besides its operator.
#[derive(Debug, Clone, PartialEq, Eq)]
pub struct DaState {
    pub metadata: Metadata,
    pub entries: Vec<Entry>,
    pub questions: Vec<Question>,
}

pub struct DaStateView {
    pub metadata: MetadataView,
    pub entries: Seq<EntryView>,
    pub questions: Seq<QuestionView>,
}

impl View for DaState {
    type V = DaStateView;

    open spec fn view(&self) -> DaStateView {
        DaStateView {
            metadata: self.metadata@,
            entries: views(self.entries@),
            questions: views(self.questions@),
        }
    }
}

/// The registry: an operator fixed at creation, and the state it curates.
pub struct DaQuiz {
    operator: AccountId,
    state: DaState,
}

pub struct DaQuizView {
    pub operator: Seq<u8>,
    pub state: DaStateView,
}

impl View for DaQuiz {
    type V = DaQuizView;

    closed spec fn view(&self) -> DaQuizView {
        DaQuizView { operator: self.operator@, state: self.state@ }
    }
}

/// The registry as `caller` creates it.
pub open spec fn created(
    caller: Seq<u8>,
    metadata: MetadataView,
    questions: Seq<QuestionView>,
) -> DaQuizView {
    DaQuizView {
        operator: caller,
        state: DaStateView { metadata, entries: Seq::empty(), questions },
    }
}

/// The elements of `items` at the positions listed in `indices`, in the order
/// of `indices`; a position past the end is skipped.
pub open spec fn selected<V>(indices: Seq<u32>, items: Seq<V>) -> Seq<V>
    decreases indices.len(),
{
    if indices.len() == 0 {
        Seq::empty()
    } else {
        let rest = selected(indices.drop_last(), items);
        let i = indices.last() as int;
        if i < items.len() {
            rest.push(items[i])
        } else {
            rest
        }
    }
}

/// Whether `caller` may use the privileged operations of `q`.
pub open spec fn is_operator(q: DaQuizView, caller: Seq<u8>) -> bool {
    caller == q.operator
}

/// The outcome of a privileged operation that `caller` asks of `q`.
pub open spec fn authorized(q: DaQuizView, caller: Seq<u8>) -> Result<(), Error> {
    if is_operator(q, caller) {
        Ok(())
    } else {
        Err(Error::NotAllowed)
    }
}

/// The outcome of submitting `e` to `q`: refused while the ledger is full,
/// then refused if the author's UTF-8 bytes are not 32 of them.
pub open spec fn submit_result(q: DaQuizView, e: InputEntryView) -> Result<(), Error> {
    if q.state.entries.len() >= q.state.metadata.max_entries {
        Err(Error::NotAllowed)
    } else if encode_utf8(e.author).len() != 32 {
        Err(Error::InvalidIdentity)
    } else {
        Ok(())
    }
}

/// The registry after submitting `e` to `q`.
pub open spec fn after_submit(q: DaQuizView, e: InputEntryView) -> DaQuizView {
    if submit_result(q, e) is Ok {
        DaQuizView {
            state: DaStateView {
                entries: q.state.entries.push(
                    EntryView { author: encode_utf8(e.author), questions: e.questions },
                ),
                ..q.state
            },
            ..q
        }
    } else {
        q
    }
}

/// The registry after `caller` asks to replace the metadata of `q` by `m`.
pub open spec fn after_update_metadata(
    q: DaQuizView,
    caller: Seq<u8>,
    m: MetadataView,
) -> DaQuizView {
    if is_operator(q, caller) {
        DaQuizView { state: DaStateView { metadata: m, ..q.state }, ..q }
    } else {
        q
    }
}

/// Whether some question of `qs` has the id `id`.
pub open spec fn has_id(qs: Seq<QuestionView>, id: Seq<char>) -> bool {
    exists|i: int| 0 <= i < qs.len() && #[trigger] qs[i].id == id
}

/// Whether `p` is the first position of `qs` whose question has the id `id`.
pub open spec fn is_first_match(qs: Seq<QuestionView>, id: Seq<char>, p: int) -> bool {
    &&& 0 <= p < qs.len()
    &&& qs[p].id == id
    &&& forall|j: int| 0 <= j < p ==> #[trigger] qs[j].id != id
}

/// The first position of `qs` whose question has the id `id`, where there is one.
pub open spec fn first_match(qs: Seq<QuestionView>, id: Seq<char>) -> int {
    choose|p: int| is_first_match(qs, id, p)
}

/// `qs` with the first question of `q`'s id replaced by `q`, or with `q`
/// appended where no question has that id.
pub open spec fn upserted(qs: Seq<QuestionView>, q: QuestionView) -> Seq<QuestionView> {
    if has_id(qs, q.id) {
        qs.update(first_match(qs, q.id), q)
    } else {
        qs.push(q)
    }
}

/// The registry after `caller` asks to upsert `question` into `q`.
pub open spec fn after_upsert(q: DaQuizView, caller: Seq<u8>, question: QuestionView) -> DaQuizView {
    if is_operator(q, caller) {
        DaQuizView {
            state: DaStateView { questions: upserted(q.state.questions, question), ..q.state },
            ..q
        }
    } else {
        q
    }
}

/// Whether no two questions of `qs` share an id.
pub open spec fn unique_ids(qs: Seq<QuestionView>) -> bool {
    forall|i: int, j: int|
        0 <= i < qs.len() && 0 <= j < qs.len() && i != j ==> #[trigger] qs[i].id != #[trigger] qs[j].id
}

/// A position that is a first match is the only one.
pub proof fn lemma_first_match_unique(qs: Seq<QuestionView>, id: Seq<char>, p: int)
    requires
        is_first_match(qs, id, p),
    ensures
        has_id(qs, id),
        first_match(qs, id) == p,
{
    assert(qs[p].id == id);
    let c = first_match(qs, id);
    assert(is_first_match(qs, id, c));
    if c < p {
        assert(qs[c].id != id);
    } else if p < c {
        assert(qs[p].id != id);
    }
}

/// Where some question has the id, a first match exists.
pub proof fn lemma_first_match_exists(qs: Seq<QuestionView>, id: Seq<char>)
    requires
        has_id(qs, id),
    ensures
        is_first_match(qs, id, first_match(qs, id)),
    decreases qs.len(),
{
    if qs[0].id == id {
        assert(is_first_match(qs, id, 0));
    } else {
        let rest = qs.drop_first();
        let i = choose|i: int| 0 <= i < qs.len() && #[trigger] qs[i].id == id;
        assert(rest[i - 1].id == id);
        lemma_first_match_exists(rest, id);
        let p = first_match(rest, id);
        assert forall|j: int| 0 <= j < p + 1 implies #[trigger] qs[j].id != id by {
            if j > 0 {
                assert(qs[j] == rest[j - 1]);
            }
        }
        assert(is_first_match(qs, id, p + 1));
    }
}

/// Copies the elements of `items` at the positions listed in `indices`, in the
/// order of `indices`, skipping positions past the end.
pub fn filter<T: Duplicate>(indices: &Vec<u32>, items: &Vec<T>) -> (r: Vec<T>)
    ensures
        views(r@) == selected(indices@, views(items@)),
{
    let mut r: Vec<T> = Vec::new();
    let mut k: usize = 0;
    while k < indices.len()
        invariant
            k <= indices.len(),
            views(r@) == selected(indices@.subrange(0, k as int), views(items@)),
        decreases indices.len() - k,
    {
        let index = indices[k];
        assert(indices@.subrange(0, k + 1).drop_last() =~= indices@.subrange(0, k as int));
        if (index as usize) < items.len() {
            let ghost prev = r@;
            r.push(items[index as usize].duplicate());
            assert(views(r@) =~= views(prev).push(items@[index as int]@));
        }
        k += 1;
    }
    assert(indices@.subrange(0, indices.len() as int) =~= indices@);
    r
}

impl DaQuiz {
    /// Creates the registry; `caller` becomes its operator for good.
    pub fn new(caller: AccountId, init_metadata: Metadata, init_questions: Vec<Question>) -> (r:
        DaQuiz)
        ensures
            r@ == created(caller@, init_metadata@, views(init_questions@)),
    {
        let r = DaQuiz {
            operator: caller,
            state: DaState { metadata: init_metadata, entries: Vec::new(), questions: init_questions },
        };
        assert(r@.state.entries =~= Seq::<EntryView>::empty());
        r
    }

    /// Creates the registry with empty metadata and no questions.
    pub fn default(caller: AccountId) -> (r: DaQuiz)
        ensures
            r@ == created(caller@, empty_metadata(), Seq::empty()),
    {
        let r = Self::new(caller, Metadata::default(), Vec::new());
        assert(r@.state.questions =~= Seq::<QuestionView>::empty());
        r
    }

    /// Rebuilds a registry from its operator and state, as a host that stores
    /// them keeps them.
    pub fn from_parts(operator: AccountId, state: DaState) -> (r: DaQuiz)
        ensures
            r@ == (DaQuizView { operator: operator@, state: state@ }),
    {
        DaQuiz { operator, state }
    }

    /// Splits a registry into its operator and state.
    pub fn into_parts(self) -> (r: (AccountId, DaState))
        ensures
            r.0@ == self@.operator,
            r.1@ == self@.state,
    {
        (self.operator, self.state)
    }

    /// A copy of the current metadata; open to every caller.
    #[allow(non_snake_case)]
    pub fn getMetadata(&self) -> (r: Metadata)
        ensures
            r@ == self@.state.metadata,
    {
        self.state.metadata.duplicate()
    }

    /// Copies of the questions at the listed positions; open to every caller.
    #[allow(non_snake_case)]
    pub fn getQuestions(&self, indices: Vec<u32>) -> (r: Vec<Question>)
        ensures
            views(r@) == selected(indices@, self@.state.questions),
    {
        filter(&indices, &self.state.questions)
    }

    /// A copy of the ledger, for the operator alone.
    #[allow(non_snake_case)]
    pub fn getEntries(&self, caller: AccountId) -> (r: Result<Vec<Entry>, Error>)
        ensures
            authorized(self@, caller@) is Ok ==> (r matches Ok(v) && v@.len()
                == self@.state.entries.len() && views(v@) == self@.state.entries),
            authorized(self@, caller@) is Err ==> r == Err::<Vec<Entry>, Error>(Error::NotAllowed),
    {
        if caller.is(&self.operator) {
            Ok(duplicate_all(&self.state.entries))
        } else {
            Err(Error::NotAllowed)
        }
    }

    /// Appends `data` to the ledger, with its author resolved to an identity,
    /// while the ledger holds fewer than `maxEntries` entries; open to every caller.
    #[allow(non_snake_case)]
    pub fn setOwnEntry(&mut self, data: InputEntry) -> (r: Result<(), Error>)
        ensures
            r == submit_result(old(self)@, data@),
            final(self)@ == after_submit(old(self)@, data@),
            r is Ok ==> final(self)@.state.entries.len() <= final(self)@.state.metadata.max_entries,
    {
        if (self.state.entries.len() as u64) < self.state.metadata.maxEntries {
            match AccountId::from_text(&data.author) {
                Some(id) => {
                    let ghost prev = self.state.entries@;
                    self.state.entries.push(Entry { author: id, questions: data.questions });
                    assert(views(self.state.entries@) =~= views(prev).push(
                        EntryView { author: encode_utf8(data@.author), questions: data@.questions },
                    ));
                    Ok(())
                },
                None => Err(Error::InvalidIdentity),
            }
        } else {
            Err(Error::NotAllowed)
        }
    }

    /// Replaces the metadata wholesale, for the operator alone.
    #[allow(non_snake_case)]
    pub fn updateMetadata(&mut self, caller: AccountId, data: Metadata) -> (r: Result<(), Error>)
        ensures
            r == authorized(old(self)@, caller@),
            final(self)@ == after_update_metadata(old(self)@, caller@, data@),
    {
        if caller.is(&self.operator) {
            self.state.metadata = data;
            Ok(())
        } else {
            Err(Error::NotAllowed)
        }
    }

    /// Replaces the first question with the id of `question` by it, or appends
    /// it where there is none; for the operator alone.
    #[allow(non_snake_case)]
    pub fn updateQuestion(&mut self, caller: AccountId, question: Question) -> (r: Result<(), Error>)
        ensures
            r == authorized(old(self)@, caller@),
            final(self)@ == after_upsert(old(self)@, caller@, question@),
            unique_ids(old(self)@.state.questions) ==> unique_ids(final(self)@.state.questions),
    {
        if !caller.is(&self.operator) {
            return Err(Error::NotAllowed);
        }
        let ghost qs = self@.state.questions;
        let ghost q = question@;
        let n = self.state.questions.len();
        let mut pos: usize = 0;
        while pos < n
            invariant
                pos <= n,
                n == self.state.questions.len(),
                qs == views(self.state.questions@),
                q == question@,
                forall|j: int| 0 <= j < pos ==> #[trigger] qs[j].id != q.id,
            ensures
                pos <= n,
                pos < n ==> qs[pos as int].id == q.id,
                forall|j: int| 0 <= j < pos ==> #[trigger] qs[j].id != q.id,
            decreases n - pos,
        {
            assert(qs[pos as int] == self.state.questions@[pos as int]@);
            if self.state.questions[pos].id == question.id {
                break;
            }
            pos += 1;
        }
        if pos < n {
            assert(qs[pos as int] == self.state.questions@[pos as int]@);
            assert(is_first_match(qs, q.id, pos as int));
            proof {
                lemma_first_match_unique(qs, q.id, pos as int);
            }
            self.state.questions.set(pos, question);
            assert(views(self.state.questions@) =~= qs.update(pos as int, q));
        } else {
            self.state.questions.push(question);
            assert(views(self.state.questions@) =~= qs.push(q));
        }
        proof {
            if unique_ids(qs) {
                lemma_upsert_keeps_ids_unique(qs, q);
            }
        }
        Ok(())
    }
}

/// Upserting into a bank without repeated ids leaves none repeated.
pub proof fn lemma_upsert_keeps_ids_unique(qs: Seq<QuestionView>, q: QuestionView)
    requires
        unique_ids(qs),
    ensures
        unique_ids(upserted(qs, q)),
{
    if has_id(qs, q.id) {
        lemma_first_match_exists(qs, q.id);
    }
}

} // verus!
