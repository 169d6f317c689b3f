use da_quiz::model::{duplicate_all, Duplicate};
use da_quiz::quiz::filter;
use da_quiz::{
    AccountId, Answer, DaQuiz, Entry, Error, InputEntry, Metadata, Question, QuestionEntry, Style,
};

fn operator() -> AccountId {
    AccountId::new([1u8; 32])
}

fn stranger() -> AccountId {
    AccountId::new([2u8; 32])
}

fn question(id: &str, text: &str) -> Question {
    Question {
        id: id.to_string(),
        question: text.to_string(),
        note: String::new(),
        answers: vec![Answer { caption: "yes".to_string() }, Answer { caption: "no".to_string() }],
    }
}

fn metadata(max_entries: u64) -> Metadata {
    Metadata {
        title: "test-title".to_string(),
        tokens: "100200300400500600700800900".to_string(),
        chain: "Ethereum".to_string(),
        ticker: "ETH".to_string(),
        allow: vec![],
        maxEntries: max_entries,
        note: Default::default(),
        style: Default::default(),
    }
}

fn input(author: &str, id: &str) -> InputEntry {
    InputEntry {
        author: author.to_string(),
        questions: vec![QuestionEntry { id: id.to_string(), answers: vec!["yes".to_string()] }],
    }
}

const AUTHOR_A: &str = "abcdefghijklmnopqrstuvwxyz012345";
const AUTHOR_B: &str = "ABCDEFGHIJKLMNOPQRSTUVWXYZ012345";

#[test]
fn default_works() {
    let quiz = DaQuiz::default(operator());
    assert_eq!(quiz.getEntries(operator()), Ok(vec![] as Vec<Entry>));
}

#[test]
fn it_allows_submissions() {
    let metadata = metadata(100);
    let quiz = DaQuiz::new(operator(), metadata.clone(), Default::default());
    assert_eq!(quiz.getMetadata(), metadata.clone());
}

#[test]
fn default_metadata_is_empty() {
    let quiz = DaQuiz::default(operator());
    let m = quiz.getMetadata();
    assert_eq!(m.title, "");
    assert_eq!(m.maxEntries, 0);
    assert!(m.allow.is_empty());
    assert_eq!(m.style, Style { background: String::new(), text: String::new() });
    assert_eq!(quiz.getQuestions(vec![0, 1]), vec![]);
}

#[test]
fn created_quiz_reads_back_everything() {
    let qs = vec![question("a", "first?"), question("b", "second?"), question("c", "third?")];
    let quiz = DaQuiz::new(operator(), metadata(5), qs.clone());
    assert_eq!(quiz.getMetadata(), metadata(5));
    assert_eq!(quiz.getQuestions(vec![0, 1, 2]), qs);
    assert_eq!(quiz.getEntries(operator()), Ok(vec![]));
}

#[test]
fn get_questions_skips_out_of_range_and_keeps_duplicates() {
    let qs = vec![question("a", "first?"), question("b", "second?")];
    let quiz = DaQuiz::new(operator(), metadata(5), qs.clone());
    let got = quiz.getQuestions(vec![1, 7, 0, 1, 2, u32::MAX]);
    assert_eq!(got, vec![qs[1].clone(), qs[0].clone(), qs[1].clone()]);
    assert_eq!(quiz.getQuestions(vec![]), vec![]);
}

#[test]
fn filter_works_on_any_items() {
    let items = vec!["x".to_string(), "y".to_string(), "z".to_string()];
    let got = filter(&vec![2, 2, 3, 0], &items);
    assert_eq!(got, vec!["z".to_string(), "z".to_string(), "x".to_string()]);
    assert_eq!(duplicate_all(&items), items);
    assert_eq!("w".to_string().duplicate(), "w");
}

#[test]
fn entries_are_for_the_operator_only() {
    let quiz = DaQuiz::new(operator(), metadata(5), vec![]);
    assert_eq!(quiz.getEntries(stranger()), Err(Error::NotAllowed));
}

#[test]
fn submission_resolves_the_author() {
    let mut quiz = DaQuiz::new(operator(), metadata(5), vec![]);
    assert_eq!(quiz.setOwnEntry(input(AUTHOR_A, "q1")), Ok(()));
    let entries = quiz.getEntries(operator()).unwrap();
    assert_eq!(entries.len(), 1);
    let mut expected = [0u8; 32];
    expected.copy_from_slice(AUTHOR_A.as_bytes());
    assert_eq!(entries[0].author, AccountId::new(expected));
    assert_eq!(entries[0].questions, input(AUTHOR_A, "q1").questions);
}

#[test]
fn malformed_author_is_rejected() {
    let mut quiz = DaQuiz::new(operator(), metadata(5), vec![]);
    assert_eq!(quiz.setOwnEntry(input("too-short", "q1")), Err(Error::InvalidIdentity));
    assert_eq!(quiz.setOwnEntry(input(&format!("{}x", AUTHOR_A), "q1")), Err(Error::InvalidIdentity));
    assert_eq!(quiz.getEntries(operator()), Ok(vec![]));
}

#[test]
fn account_from_text() {
    assert_eq!(AccountId::from_text(&"short".to_string()), None);
    let id = AccountId::from_text(&AUTHOR_B.to_string()).unwrap();
    assert_eq!(&id.bytes[..], AUTHOR_B.as_bytes());
    assert!(id.is(&id));
    assert!(!id.is(&AccountId::from_text(&AUTHOR_A.to_string()).unwrap()));
}

#[test]
fn zero_capacity_refuses_everything() {
    let mut quiz = DaQuiz::new(operator(), metadata(0), vec![]);
    assert_eq!(quiz.setOwnEntry(input(AUTHOR_A, "q1")), Err(Error::NotAllowed));
    // capacity is checked before the author
    assert_eq!(quiz.setOwnEntry(input("bad", "q1")), Err(Error::NotAllowed));
}

#[test]
fn capacity_is_enforced() {
    let mut quiz = DaQuiz::new(operator(), metadata(3), vec![]);
    for _ in 0..3 {
        assert_eq!(quiz.setOwnEntry(input(AUTHOR_A, "q1")), Ok(()));
    }
    assert_eq!(quiz.setOwnEntry(input(AUTHOR_B, "q2")), Err(Error::NotAllowed));
    assert_eq!(quiz.getEntries(operator()).unwrap().len(), 3);
}

#[test]
fn single_slot_scenario() {
    let mut quiz = DaQuiz::new(operator(), metadata(1), vec![]);
    assert_eq!(quiz.setOwnEntry(input(AUTHOR_A, "q1")), Ok(()));
    assert_eq!(quiz.getEntries(operator()).unwrap().len(), 1);
    assert_eq!(quiz.setOwnEntry(input(AUTHOR_B, "q2")), Err(Error::NotAllowed));
    let entries = quiz.getEntries(operator()).unwrap();
    let mut a = [0u8; 32];
    a.copy_from_slice(AUTHOR_A.as_bytes());
    assert_eq!(entries, vec![Entry { author: AccountId::new(a), questions: input(AUTHOR_A, "q1").questions }]);
}

#[test]
fn metadata_update_is_for_the_operator_only() {
    let mut quiz = DaQuiz::new(operator(), metadata(5), vec![]);
    let mut other = metadata(9);
    other.title = "renamed".to_string();
    other.allow = vec!["someone".to_string()];
    assert_eq!(quiz.updateMetadata(stranger(), other.clone()), Err(Error::NotAllowed));
    assert_eq!(quiz.getMetadata(), metadata(5));
    assert_eq!(quiz.updateMetadata(operator(), other.clone()), Ok(()));
    assert_eq!(quiz.getMetadata(), other);
}

#[test]
fn question_update_is_for_the_operator_only() {
    let qs = vec![question("a", "first?")];
    let mut quiz = DaQuiz::new(operator(), metadata(5), qs.clone());
    assert_eq!(quiz.updateQuestion(stranger(), question("b", "new?")), Err(Error::NotAllowed));
    assert_eq!(quiz.updateQuestion(stranger(), question("a", "changed?")), Err(Error::NotAllowed));
    assert_eq!(quiz.getQuestions(vec![0, 1]), qs);
}

#[test]
fn upsert_appends_a_new_id() {
    let qs = vec![question("a", "first?"), question("b", "second?")];
    let mut quiz = DaQuiz::new(operator(), metadata(5), qs.clone());
    assert_eq!(quiz.updateQuestion(operator(), question("c", "third?")), Ok(()));
    assert_eq!(
        quiz.getQuestions(vec![0, 1, 2, 3]),
        vec![qs[0].clone(), qs[1].clone(), question("c", "third?")]
    );
}

#[test]
fn upsert_replaces_the_first_match_in_place() {
    let qs = vec![question("a", "first?"), question("b", "second?"), question("b", "again?")];
    let mut quiz = DaQuiz::new(operator(), metadata(5), qs.clone());
    assert_eq!(quiz.updateQuestion(operator(), question("b", "changed?")), Ok(()));
    assert_eq!(
        quiz.getQuestions(vec![0, 1, 2, 3]),
        vec![qs[0].clone(), question("b", "changed?"), qs[2].clone()]
    );
}

#[test]
fn upsert_twice_is_upsert_once() {
    let qs = vec![question("a", "first?"), question("b", "second?")];
    let mut quiz = DaQuiz::new(operator(), metadata(5), qs);
    assert_eq!(quiz.updateQuestion(operator(), question("z", "new?")), Ok(()));
    let once = quiz.getQuestions(vec![0, 1, 2, 3]);
    assert_eq!(quiz.updateQuestion(operator(), question("z", "new?")), Ok(()));
    let twice = quiz.getQuestions(vec![0, 1, 2, 3]);
    assert_eq!(once, twice);
    assert_eq!(twice.iter().filter(|q| q.id == "z").count(), 1);
    assert_eq!(twice[2].id, "z");
}
