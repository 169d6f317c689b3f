use vstd::prelude::*;

use crate::account::AccountId;

verus! {

/// The views of every element of `s`, in order.
pub open spec fn views<T: View>(s: Seq<T>) -> Seq<T::V> {
    s.map_values(|x: T| x@)
}

/// A value that can be copied into a new one with the same view.
pub trait Duplicate: View + Sized {
    fn duplicate(&self) -> (r: Self)
        ensures
            r@ == self@,
    ;
}

impl Duplicate for String {
    fn duplicate(&self) -> (r: String) {
        self.clone()
    }
}

/// Copies every element of `v`, keeping the order.
pub fn duplicate_all<T: Duplicate>(v: &Vec<T>) -> (r: Vec<T>)
    ensures
        r@.len() == v@.len(),
        views(r@) == views(v@),
{
    let mut r: Vec<T> = Vec::new();
    let mut i: usize = 0;
    while i < v.len()
        invariant
            i <= v.len(),
            r@.len() == i,
            forall|j: int| 0 <= j < i ==> r@[j]@ == v@[j]@,
        decreases v.len() - i,
    {
        r.push(v[i].duplicate());
        i += 1;
    }
    assert(views(r@) =~= views(v@));
    r
}

/// Display hints for a quiz.
#[derive(Debug, Clone, PartialEq, Eq)]
pub struct Style {
    pub background: String,
    pub text: String,
}

pub struct StyleView {
    pub background: Seq<char>,
    pub text: Seq<char>,
}

impl View for Style {
    type V = StyleView;

    open spec fn view(&self) -> StyleView {
        StyleView { background: self.background@, text: self.text@ }
    }
}

impl Default for Style {
    fn default() -> (r: Style)
        ensures
            r@.background.len() == 0,
            r@.text.len() == 0,
    {
        Style { background: String::new(), text: String::new() }
    }
}

impl Duplicate for Style {
    fn duplicate(&self) -> (r: Style) {
        Style { background: self.background.clone(), text: self.text.clone() }
    }
}

/// Quiz-level configuration. `maxEntries` caps the number of entries;
/// `allow` is stored and handed back but consulted by no operation.
#[allow(non_snake_case)]
#[derive(Debug, Clone, PartialEq, Eq)]
pub struct Metadata {
    pub title: String,
    pub tokens: String,
    pub ticker: String,
    pub chain: String,
    pub allow: Vec<String>,
    pub maxEntries: u64,
    pub note: String,
    pub style: Style,
}

pub struct MetadataView {
    pub title: Seq<char>,
    pub tokens: Seq<char>,
    pub ticker: Seq<char>,
    pub chain: Seq<char>,
    pub allow: Seq<Seq<char>>,
    pub max_entries: u64,
    pub note: Seq<char>,
    pub style: StyleView,
}

impl View for Metadata {
    type V = MetadataView;

    open spec fn view(&self) -> MetadataView {
        MetadataView {
            title: self.title@,
            tokens: self.tokens@,
            ticker: self.ticker@,
            chain: self.chain@,
            allow: views(self.allow@),
            max_entries: self.maxEntries,
            note: self.note@,
            style: self.style@,
        }
    }
}

impl Default for Metadata {
    fn default() -> (r: Metadata)
        ensures
            r@ == empty_metadata(),
    {
        let r = Metadata {
            title: String::new(),
            tokens: String::new(),
            ticker: String::new(),
            chain: String::new(),
            allow: Vec::new(),
            maxEntries: 0,
            note: String::new(),
            style: Style::default(),
        };
        assert(r@.allow =~= Seq::<Seq<char>>::empty());
        assert(r@.style.background =~= Seq::<char>::empty());
        assert(r@.style.text =~= Seq::<char>::empty());
        r
    }
}

/// Metadata with every text empty, nothing allowed and no room for entries.
pub open spec fn empty_metadata() -> MetadataView {
    MetadataView {
        title: Seq::empty(),
        tokens: Seq::empty(),
        ticker: Seq::empty(),
        chain: Seq::empty(),
        allow: Seq::empty(),
        max_entries: 0,
        note: Seq::empty(),
        style: StyleView { background: Seq::empty(), text: Seq::empty() },
    }
}

impl Duplicate for Metadata {
    fn duplicate(&self) -> (r: Metadata) {
        Metadata {
            title: self.title.clone(),
            tokens: self.tokens.clone(),
            ticker: self.ticker.clone(),
            chain: self.chain.clone(),
            allow: duplicate_all(&self.allow),
            maxEntries: self.maxEntries,
            note: self.note.clone(),
            style: self.style.duplicate(),
        }
    }
}

/// One participant's answers to the question with id `id`.
#[derive(Debug, Default, Clone, PartialEq, Eq)]
pub struct QuestionEntry {
    pub id: String,
    pub answers: Vec<String>,
}

pub struct QuestionEntryView {
    pub id: Seq<char>,
    pub answers: Seq<Seq<char>>,
}

impl View for QuestionEntry {
    type V = QuestionEntryView;

    open spec fn view(&self) -> QuestionEntryView {
        QuestionEntryView { id: self.id@, answers: views(self.answers@) }
    }
}

impl Duplicate for QuestionEntry {
    fn duplicate(&self) -> (r: QuestionEntry) {
        QuestionEntry { id: self.id.clone(), answers: duplicate_all(&self.answers) }
    }
}

/// A submission as a participant presents it: the author in textual form.
#[derive(Debug, Clone, PartialEq, Eq)]
pub struct InputEntry {
    pub author: String,
    pub questions: Vec<QuestionEntry>,
}

pub struct InputEntryView {
    pub author: Seq<char>,
    pub questions: Seq<QuestionEntryView>,
}

impl View for InputEntry {
    type V = InputEntryView;

    open spec fn view(&self) -> InputEntryView {
        InputEntryView { author: self.author@, questions: views(self.questions@) }
    }
}

/// A submission as the ledger keeps it: the author resolved to an identity.
#[derive(Debug, Clone, PartialEq, Eq)]
pub struct Entry {
    pub author: AccountId,
    pub questions: Vec<QuestionEntry>,
}

pub struct EntryView {
    pub author: Seq<u8>,
    pub questions: Seq<QuestionEntryView>,
}

impl View for Entry {
    type V = EntryView;

    open spec fn view(&self) -> EntryView {
        EntryView { author: self.author@, questions: views(self.questions@) }
    }
}

impl Duplicate for Entry {
    fn duplicate(&self) -> (r: Entry) {
        Entry { author: self.author, questions: duplicate_all(&self.questions) }
    }
}

/// One possible answer to a question.
#[derive(Debug, Default, Clone, PartialEq, Eq)]
pub struct Answer {
    pub caption: String,
}

impl View for Answer {
    type V = Seq<char>;

    open spec fn view(&self) -> Seq<char> {
        self.caption@
    }
}

impl Duplicate for Answer {
    fn duplicate(&self) -> (r: Answer) {
        Answer { caption: self.caption.clone() }
    }
}

/// A question of the bank, keyed by `id`.
#[derive(Debug, Default, Clone, PartialEq, Eq)]
pub struct Question {
    pub id: String,
    pub question: String,
    pub note: String,
    pub answers: Vec<Answer>,
}

pub struct QuestionView {
    pub id: Seq<char>,
    pub question: Seq<char>,
    pub note: Seq<char>,
    pub answers: Seq<Seq<char>>,
}

impl View for Question {
    type V = QuestionView;

    open spec fn view(&self) -> QuestionView {
        QuestionView {
            id: self.id@,
            question: self.question@,
            note: self.note@,
            answers: views(self.answers@),
        }
    }
}

impl Duplicate for Question {
    fn duplicate(&self) -> (r: Question) {
        Question {
            id: self.id.clone(),
            question: self.question.clone(),
            note: self.note.clone(),
            answers: duplicate_all(&self.answers),
        }
    }
}

} // verus!
