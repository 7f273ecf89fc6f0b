use triviabot::chat::Participant;
use triviabot::scores::Scores;

fn user(id: u64, name: &str) -> Participant {
    Participant { id, name: String::from(name) }
}

#[test]
fn unseen_participant_scores_zero() {
    let scores = Scores::new();
    assert_eq!(scores.get_score(&user(1, "alice")), 0);
}

#[test]
fn increments_accumulate() {
    let mut scores = Scores::new();
    scores.increase_score(user(1, "alice"), 1);
    scores.increase_score(user(1, "alice"), 1);
    scores.increase_score(user(1, "alice"), 3);
    assert_eq!(scores.get_score(&user(1, "alice")), 5);
}

#[test]
fn participants_are_scored_independently() {
    let mut scores = Scores::new();
    scores.increase_score(user(1, "alice"), 1);
    scores.increase_score(user(2, "bob"), 2);
    assert_eq!(scores.get_score(&user(1, "alice")), 1);
    assert_eq!(scores.get_score(&user(2, "bob")), 2);
    assert_eq!(scores.get_score(&user(3, "carol")), 0);
}

#[test]
fn rendering_lists_one_row_per_participant() {
    let mut scores = Scores::new();
    scores.increase_score(user(7, "alice"), 2);
    scores.increase_score(user(9, "bob"), 1);
    assert_eq!(scores.output_scores(), "Scores:\n7 - alice - 2\n9 - bob - 1\n");
}

#[test]
fn rendering_of_an_empty_list_is_just_the_heading() {
    let scores = Scores::new();
    assert_eq!(scores.output_scores(), "Scores:\n");
}

#[test]
fn totals_saturate_at_the_ceiling() {
    let mut scores = Scores::new();
    scores.increase_score(user(1, "alice"), u32::MAX);
    scores.increase_score(user(1, "alice"), 1);
    assert_eq!(scores.get_score(&user(1, "alice")), u32::MAX);
}

#[test]
fn row_keeps_the_latest_name() {
    let mut scores = Scores::new();
    scores.increase_score(user(1, "alice"), 1);
    scores.increase_score(user(1, "alicia"), 1);
    assert_eq!(scores.output_scores(), "Scores:\n1 - alicia - 2\n");
}
