use triviabot::question::Question;
use triviabot::questionset::QuestionSet;

fn q(prompt: &str, answer_pos: usize) -> Question {
    let options = vec![
        String::from("o1"),
        String::from("o2"),
        String::from("o3"),
        String::from("o4"),
    ];
    let answer = options[answer_pos].clone();
    Question::from_shuffled(
        String::from(prompt),
        answer,
        options,
        String::from("cat"),
        String::from("easy"),
        false,
    )
}

#[test]
fn cursor_starts_at_the_first_question() {
    let set = QuestionSet::new(vec![q("one", 0), q("two", 1)], 2);
    let current = set.get_current_question().expect("first question is live");
    assert_eq!(current.prompt, "one");
}

#[test]
fn advance_moves_to_the_next_question() {
    let mut set = QuestionSet::new(vec![q("one", 0), q("two", 1)], 2);
    set.next_question();
    let current = set.get_current_question().expect("second question is live");
    assert_eq!(current.prompt, "two");
}

#[test]
fn exhausted_set_returns_none() {
    let mut set = QuestionSet::new(vec![q("one", 0)], 1);
    set.next_question();
    assert!(set.get_current_question().is_none());
}

#[test]
fn advance_past_the_end_saturates() {
    let mut set = QuestionSet::new(vec![q("one", 0)], 1);
    for _ in 0..10 {
        set.next_question();
        assert!(set.get_current_question().is_none());
    }
}

#[test]
fn empty_set_is_exhausted_at_once() {
    let mut set = QuestionSet::new(Vec::new(), 0);
    assert!(set.get_current_question().is_none());
    set.next_question();
    assert!(set.get_current_question().is_none());
}
