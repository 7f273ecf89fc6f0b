use triviabot::votetracker::VoteTracker;

#[test]
fn first_answer_is_fresh_then_marked() {
    let mut t = VoteTracker::new();
    assert!(!t.has_answered(1));
    assert!(t.has_answered(1));
    assert!(t.has_answered(1));
}

#[test]
fn first_skip_is_fresh_then_marked() {
    let mut t = VoteTracker::new();
    assert!(!t.has_skipped(1));
    assert!(t.has_skipped(1));
}

#[test]
fn the_two_sets_are_independent() {
    let mut t = VoteTracker::new();
    assert!(!t.has_answered(1));
    assert!(!t.has_skipped(1));
    assert!(!t.has_answered(2));
    assert!(!t.has_skipped(2));
}

#[test]
fn clear_empties_both_sets() {
    let mut t = VoteTracker::new();
    t.has_answered(1);
    t.has_skipped(1);
    t.clear();
    assert!(!t.has_answered(1));
    assert!(!t.has_skipped(1));
}
