use triviabot::db::{build_question_set, FeedEntry};

fn entry(question: &str, answer: &str, wrong: &[&str]) -> FeedEntry {
    FeedEntry {
        category: String::from("General"),
        difficulty: String::from("easy"),
        question: String::from(question),
        correct_answer: String::from(answer),
        incorrect_answers: wrong.iter().map(|w| String::from(*w)).collect(),
    }
}

#[test]
fn builds_one_question_per_entry() {
    let entries = vec![
        entry("q1?", "a1", &["b", "c", "d"]),
        entry("q2?", "a2", &["e", "f", "g"]),
    ];
    let mut set = build_question_set(entries, 2).expect("plain entries must build");
    let q1 = set.get_current_question().expect("first question");
    assert_eq!(q1.prompt, "q1?");
    assert_eq!(q1.answer, "a1");
    assert_eq!(q1.options.len(), 4);
    set.next_question();
    let q2 = set.get_current_question().expect("second question");
    assert_eq!(q2.prompt, "q2?");
    set.next_question();
    assert!(set.get_current_question().is_none());
}

#[test]
fn entry_with_too_few_wrong_answers_fails() {
    let entries = vec![entry("q?", "a", &["b", "c"])];
    assert!(build_question_set(entries, 1).is_none());
}

#[test]
fn entry_with_malformed_entity_fails() {
    let entries = vec![entry("q &oops; q", "a", &["b", "c", "d"])];
    assert!(build_question_set(entries, 1).is_none());
}

#[test]
fn entries_are_entity_decoded() {
    let entries = vec![entry("Rock &amp; Roll?", "a", &["b", "c", "d"])];
    let set = build_question_set(entries, 1).expect("decodable entry must build");
    assert_eq!(
        set.get_current_question().expect("one question").prompt,
        "Rock & Roll?"
    );
}
