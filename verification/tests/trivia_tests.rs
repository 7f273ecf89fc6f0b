use triviabot::chat::{ChatMessage, Participant};
use triviabot::optionset::OptionSet;
use triviabot::question::Question;
use triviabot::questionset::QuestionSet;
use triviabot::trivia::TriviaManager;

// Every test question keeps its answer on the first option, so "a" is always
// the correct letter.
fn q(prompt: &str) -> Question {
    Question::from_shuffled(
        String::from(prompt),
        String::from("right"),
        vec![
            String::from("right"),
            String::from("w1"),
            String::from("w2"),
            String::from("w3"),
        ],
        String::from("General"),
        String::from("easy"),
        false,
    )
}

fn qset(n: usize) -> QuestionSet {
    let questions = (0..n).map(|i| q(&format!("q{}?", i + 1))).collect();
    QuestionSet::new(questions, n as u32)
}

fn announce(prompt: &str) -> String {
    format!("```Question: {}\n\nA. right\nB. w1\nC. w2\nD. w3\n```", prompt)
}

fn msg(id: u64, name: &str, content: &str) -> ChatMessage {
    ChatMessage {
        author: Participant { id, name: String::from(name) },
        channel_id: 42,
        content: String::from(content),
    }
}

fn started(n: usize) -> TriviaManager {
    let mut mgr = TriviaManager::new();
    let opts = OptionSet::with_defaults(42);
    mgr.start(&opts, Some(qset(n)));
    mgr.take_outbox();
    mgr
}

#[test]
fn start_announces_and_asks_the_first_question() {
    let mut mgr = TriviaManager::new();
    let opts = OptionSet::from_args(&vec![String::from("3"), String::from("easy")], 42);
    assert_eq!(opts.number_of_questions, 3);
    assert_eq!(opts.difficulty, "easy");
    mgr.start(&opts, Some(qset(3)));
    assert!(mgr.running);
    assert_eq!(mgr.current_channel(), Some(42));
    assert_eq!(
        mgr.take_outbox(),
        vec![String::from("Trivia Starting"), announce("q1?")]
    );
}

#[test]
fn correct_answer_scores_and_advances() {
    let mut mgr = started(3);
    mgr.on_message(msg(10, "u1", "a"));
    assert_eq!(
        mgr.take_outbox(),
        vec![String::from("u1 got the correct answer"), announce("q2?")]
    );
    mgr.stop();
    assert_eq!(
        mgr.take_outbox(),
        vec![
            String::from("Scores:\n10 - u1 - 1\n"),
            String::from("Trivia Stopping")
        ]
    );
    assert!(!mgr.running);
}

#[test]
fn wrong_guess_is_silent_and_blocks_a_retry() {
    let mut mgr = started(2);
    mgr.on_message(msg(10, "u1", "b"));
    assert_eq!(mgr.take_outbox(), Vec::<String>::new());
    // Same round: u1 has burned their guess, a correct letter earns nothing.
    mgr.on_message(msg(10, "u1", "a"));
    assert_eq!(mgr.take_outbox(), Vec::<String>::new());
    assert_eq!(
        mgr.current_question().expect("round still live").prompt,
        "q1?"
    );
    // Another participant can still win the round, with either letter case.
    mgr.on_message(msg(11, "u2", "A"));
    assert_eq!(
        mgr.take_outbox(),
        vec![String::from("u2 got the correct answer"), announce("q2?")]
    );
    mgr.stop();
    assert_eq!(
        mgr.take_outbox(),
        vec![
            String::from("Scores:\n11 - u2 - 1\n"),
            String::from("Trivia Stopping")
        ]
    );
}

#[test]
fn text_that_is_no_letter_is_ignored() {
    let mut mgr = started(2);
    mgr.on_message(msg(10, "u1", "hello"));
    mgr.on_message(msg(10, "u1", "ab"));
    mgr.on_message(msg(10, "u1", "e"));
    assert_eq!(mgr.take_outbox(), Vec::<String>::new());
    // None of that marked u1 as having answered.
    mgr.on_message(msg(10, "u1", "a"));
    assert_eq!(
        mgr.take_outbox(),
        vec![String::from("u1 got the correct answer"), announce("q2?")]
    );
}

#[test]
fn three_distinct_skip_votes_advance_the_round() {
    let mut mgr = started(3);
    mgr.vote_skip(&msg(1, "s1", ""));
    assert_eq!(
        mgr.take_outbox(),
        vec![String::from("s1 voted to skip. **Votes Needed: 1/3**")]
    );
    mgr.vote_skip(&msg(2, "s2", ""));
    assert_eq!(
        mgr.take_outbox(),
        vec![String::from("s2 voted to skip. **Votes Needed: 2/3**")]
    );
    mgr.vote_skip(&msg(3, "s3", ""));
    assert_eq!(
        mgr.take_outbox(),
        vec![String::from("Skipping question."), announce("q2?")]
    );
    // The counter was reset with the advance: a fresh vote counts from one.
    mgr.vote_skip(&msg(4, "s4", ""));
    assert_eq!(
        mgr.take_outbox(),
        vec![String::from("s4 voted to skip. **Votes Needed: 1/3**")]
    );
}

#[test]
fn repeated_skip_votes_from_one_identity_count_once() {
    let mut mgr = started(2);
    mgr.vote_skip(&msg(1, "s1", ""));
    assert_eq!(
        mgr.take_outbox(),
        vec![String::from("s1 voted to skip. **Votes Needed: 1/3**")]
    );
    mgr.vote_skip(&msg(1, "s1", ""));
    assert_eq!(mgr.take_outbox(), Vec::<String>::new());
    mgr.vote_skip(&msg(2, "s2", ""));
    assert_eq!(
        mgr.take_outbox(),
        vec![String::from("s2 voted to skip. **Votes Needed: 2/3**")]
    );
}

#[test]
fn round_advance_clears_the_answered_set() {
    let mut mgr = started(3);
    // u1 burns their guess in round one.
    mgr.on_message(msg(10, "u1", "b"));
    // Three others skip the round.
    mgr.vote_skip(&msg(1, "s1", ""));
    mgr.vote_skip(&msg(2, "s2", ""));
    mgr.vote_skip(&msg(3, "s3", ""));
    mgr.take_outbox();
    // Fresh round: u1 may answer again and wins.
    mgr.on_message(msg(10, "u1", "a"));
    assert_eq!(
        mgr.take_outbox(),
        vec![String::from("u1 got the correct answer"), announce("q3?")]
    );
}

#[test]
fn starting_twice_leaves_the_first_game_untouched() {
    let mut mgr = started(3);
    let opts = OptionSet::with_defaults(42);
    mgr.start(&opts, None);
    assert_eq!(mgr.take_outbox(), vec![String::from("Trivia is already running")]);
    mgr.start(&opts, Some(qset(1)));
    assert_eq!(mgr.take_outbox(), vec![String::from("Trivia is already running")]);
    assert_eq!(
        mgr.current_question().expect("first game still live").prompt,
        "q1?"
    );
}

#[test]
fn answering_the_last_question_stops_the_game() {
    let mut mgr = started(1);
    mgr.on_message(msg(10, "u1", "a"));
    assert_eq!(
        mgr.take_outbox(),
        vec![
            String::from("u1 got the correct answer"),
            String::from("Out of questions"),
            String::from("Scores:\n10 - u1 - 1\n"),
            String::from("Trivia Stopping")
        ]
    );
    assert!(!mgr.running);
}

#[test]
fn starting_with_no_questions_stops_at_once() {
    let mut mgr = TriviaManager::new();
    let opts = OptionSet::with_defaults(42);
    mgr.start(&opts, Some(qset(0)));
    assert_eq!(
        mgr.take_outbox(),
        vec![
            String::from("Trivia Starting"),
            String::from("Out of questions"),
            String::from("Scores:\n"),
            String::from("Trivia Stopping")
        ]
    );
    assert!(!mgr.running);
}

#[test]
fn failed_fetch_leaves_the_manager_idle() {
    let mut mgr = TriviaManager::new();
    let opts = OptionSet::with_defaults(42);
    mgr.start(&opts, None);
    assert_eq!(mgr.take_outbox(), vec![String::from("Trivia failed to start")]);
    assert!(!mgr.running);
    // A later start works.
    mgr.start(&opts, Some(qset(1)));
    assert!(mgr.running);
}

#[test]
fn stop_while_idle_only_notes_it() {
    let mut mgr = TriviaManager::new();
    mgr.stop();
    assert_eq!(mgr.take_outbox(), vec![String::from("Trivia is not running")]);
}

#[test]
fn skip_while_idle_only_notes_it() {
    let mut mgr = TriviaManager::new();
    mgr.vote_skip(&msg(1, "s1", ""));
    assert_eq!(
        mgr.take_outbox(),
        vec![String::from("Can't skip because trivia is not running")]
    );
}

#[test]
fn messages_while_idle_are_ignored() {
    let mut mgr = TriviaManager::new();
    mgr.on_message(msg(10, "u1", "a"));
    assert_eq!(mgr.take_outbox(), Vec::<String>::new());
}

#[test]
fn set_channel_binds_where_messages_go() {
    let mut mgr = TriviaManager::new();
    assert_eq!(mgr.current_channel(), None);
    let mut m = msg(1, "u1", "");
    m.channel_id = 99;
    mgr.set_channel(&m);
    assert_eq!(mgr.current_channel(), Some(99));
}
