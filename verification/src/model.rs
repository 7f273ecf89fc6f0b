//! The abstract game state and its transitions.
//!
//! Every public method of the session manager states its effect as one of
//! these transitions; the round and scoring laws at the end of this module are
//! proved over them alone.
use vstd::prelude::*;

verus! {

use crate::scores::bump;
use crate::text::{is_valid_letter, lower_letter};

/// How many distinct skip votes advance the round.
pub const SKIP_THRESHOLD: u32 = 3;

/// The abstract state of one game context: whether a session runs, where it
/// speaks, the correct letters of its questions, the live question's position,
/// the totals, the round's dedup sets, and the round's skip tally.
#[verifier::ext_equal]
pub struct GameState {
    pub running: bool,
    pub channel: Option<u64>,
    /// The correct letter of each question, lower case, in asking order.
    pub letters: Seq<char>,
    pub cursor: nat,
    pub scores: Map<u64, u32>,
    pub answered: Set<u64>,
    pub skipped: Set<u64>,
    pub skips: u32,
}

/// A total read from the map; zero for an identity never seen.
pub open spec fn score_of(m: Map<u64, u32>, u: u64) -> u32 {
    if m.contains_key(u) {
        m[u]
    } else {
        0
    }
}

impl GameState {
    /// The state with no session: nothing kept but a channel binding.
    pub open spec fn idle(channel: Option<u64>) -> GameState {
        GameState {
            running: false,
            channel,
            letters: Seq::empty(),
            cursor: 0,
            scores: Map::empty(),
            answered: Set::empty(),
            skipped: Set::empty(),
            skips: 0,
        }
    }

    /// Sanity of a state: the tally is below the threshold, a running session
    /// has a live question and a channel, and an idle one keeps nothing.
    pub open spec fn wf(self) -> bool {
        &&& self.skips < SKIP_THRESHOLD
        &&& self.running ==> self.cursor < self.letters.len()
        &&& self.running ==> self.channel is Some
        &&& !self.running ==> self =~= GameState::idle(self.channel)
    }

    /// One round advance: the cursor moves forward and the dedup sets and the
    /// skip tally are cleared; the session ends when the questions are
    /// exhausted.
    pub open spec fn advanced(self) -> GameState {
        if self.cursor + 1 < self.letters.len() {
            GameState {
                cursor: (self.cursor + 1) as nat,
                answered: Set::empty(),
                skipped: Set::empty(),
                skips: 0,
                ..self
            }
        } else {
            GameState::idle(None)
        }
    }

    /// The start transition.  A running session is untouched; a failed fetch
    /// leaves the state unchanged; an empty fetch starts and at once stops;
    /// otherwise a fresh session begins at the first question.
    pub open spec fn started(self, channel: u64, fetched: Option<Seq<char>>) -> GameState {
        if self.running {
            self
        } else if fetched is None {
            self
        } else if fetched.unwrap().len() == 0 {
            GameState::idle(None)
        } else {
            GameState {
                running: true,
                channel: Some(channel),
                letters: fetched.unwrap(),
                cursor: 0,
                scores: Map::empty(),
                answered: Set::empty(),
                skipped: Set::empty(),
                skips: 0,
            }
        }
    }

    /// The stop transition: a running session is discarded whole.
    pub open spec fn stopped(self) -> GameState {
        if self.running {
            GameState::idle(None)
        } else {
            self
        }
    }

    /// The channel-binding transition.
    pub open spec fn channel_set(self, chan: u64) -> GameState {
        GameState { channel: Some(chan), ..self }
    }

    /// The answer-candidate transition.  A syntactically valid letter marks
    /// its author as having answered; the first correct one credits a point
    /// and advances the round.
    pub open spec fn answered_msg(self, author: u64, content: Seq<char>) -> GameState {
        if !self.running || !is_valid_letter(content) {
            self
        } else {
            let correct = lower_letter(content[0]) == self.letters[self.cursor as int];
            let already = self.answered.contains(author);
            let marked = GameState { answered: self.answered.insert(author), ..self };
            if correct && !already {
                let credited = GameState {
                    scores: marked.scores.insert(
                        author,
                        bump(score_of(marked.scores, author), 1),
                    ),
                    ..marked
                };
                credited.advanced()
            } else {
                marked
            }
        }
    }

    /// The skip-vote transition.  A first vote raises the tally; the vote that
    /// reaches the threshold advances the round.
    pub open spec fn skip_voted(self, author: u64) -> GameState {
        if !self.running || self.skipped.contains(author) {
            self
        } else {
            let voted = GameState {
                skipped: self.skipped.insert(author),
                skips: (self.skips + 1) as u32,
                ..self
            };
            if voted.skips >= SKIP_THRESHOLD {
                voted.advanced()
            } else {
                voted
            }
        }
    }
}

/// An inbound event while a session runs: an ordinary chat message, or a skip
/// vote.
pub enum GameEvent {
    Answer { author: u64, content: Seq<char> },
    SkipVote { author: u64 },
}

/// One event applied to a state.
pub open spec fn step(s: GameState, e: GameEvent) -> GameState {
    match e {
        GameEvent::Answer { author, content } => s.answered_msg(author, content),
        GameEvent::SkipVote { author } => s.skip_voted(author),
    }
}

/// A whole sequence of events applied in order.
pub open spec fn run_events(s: GameState, es: Seq<GameEvent>) -> GameState
    decreases es.len(),
{
    if es.len() == 0 {
        s
    } else {
        run_events(step(s, es.first()), es.drop_first())
    }
}

/// Whether the event wins the round for the participant: a syntactically
/// valid, correct answer from someone who had not answered this round.
pub open spec fn is_win(s: GameState, e: GameEvent, u: u64) -> bool {
    match e {
        GameEvent::Answer { author, content } => {
            &&& author == u
            &&& s.running
            &&& is_valid_letter(content)
            &&& lower_letter(content[0]) == s.letters[s.cursor as int]
            &&& !s.answered.contains(author)
        },
        GameEvent::SkipVote { .. } => false,
    }
}

/// How many rounds the participant wins as first correct responder along the
/// event sequence.
pub open spec fn wins(s: GameState, es: Seq<GameEvent>, u: u64) -> nat
    decreases es.len(),
{
    if es.len() == 0 {
        0
    } else {
        (if is_win(s, es.first(), u) {
            1 as nat
        } else {
            0 as nat
        }) + wins(step(s, es.first()), es.drop_first(), u)
    }
}

/// Every transition preserves sanity of the state.
pub proof fn lemma_step_wf(s: GameState, e: GameEvent)
    requires
        s.wf(),
    ensures
        step(s, e).wf(),
{
}

/// Events reaching an idle state change nothing and win nothing.
pub proof fn lemma_idle_stays(s: GameState, es: Seq<GameEvent>, u: u64)
    requires
        s.wf(),
        !s.running,
    ensures
        run_events(s, es) == s,
        wins(s, es, u) == 0,
    decreases es.len(),
{
    if es.len() > 0 {
        assert(step(s, es.first()) =~= s);
        lemma_idle_stays(s, es.drop_first(), u);
    }
}

/// A participant wins at most one round per event.
pub proof fn lemma_wins_bounded(s: GameState, es: Seq<GameEvent>, u: u64)
    ensures
        wins(s, es, u) <= es.len(),
    decreases es.len(),
{
    if es.len() > 0 {
        lemma_wins_bounded(step(s, es.first()), es.drop_first(), u);
    }
}

proof fn lemma_run_events_wins(s: GameState, es: Seq<GameEvent>, u: u64)
    requires
        s.wf(),
        score_of(s.scores, u) + wins(s, es, u) <= u32::MAX,
    ensures
        run_events(s, es).running ==> score_of(run_events(s, es).scores, u) == score_of(
            s.scores,
            u,
        ) + wins(s, es, u),
    decreases es.len(),
{
    if es.len() > 0 {
        let e = es.first();
        let s1 = step(s, e);
        lemma_step_wf(s, e);
        if s1.running {
            assert(score_of(s1.scores, u) == score_of(s.scores, u) + (if is_win(s, e, u) {
                1 as nat
            } else {
                0 as nat
            }));
        } else {
            lemma_idle_stays(s1, es.drop_first(), u);
        }
        lemma_run_events_wins(s1, es.drop_first(), u);
    }
}

/// While the session is still running, each participant's total equals the
/// number of rounds they won as first correct responder since the session
/// began with a fresh scoreboard.
pub proof fn lemma_scoreboard_counts_wins(s0: GameState, es: Seq<GameEvent>, u: u64)
    requires
        s0.wf(),
        s0.scores == Map::<u64, u32>::empty(),
        es.len() <= u32::MAX,
    ensures
        run_events(s0, es).running ==> score_of(run_events(s0, es).scores, u) == wins(s0, es, u),
{
    lemma_wins_bounded(s0, es, u);
    lemma_run_events_wins(s0, es, u);
}

/// A second submission by a participant already marked as having answered
/// changes nothing: a correct letter is credited at most once per round.
pub proof fn lemma_answer_credited_once(
    s: GameState,
    u: u64,
    content: Seq<char>,
    content2: Seq<char>,
)
    requires
        s.wf(),
        s.running,
        is_valid_letter(content),
    ensures
        ({
            let s1 = s.answered_msg(u, content);
            (s1.running && s1.cursor == s.cursor) ==> s1.answered_msg(u, content2) == s1
        }),
{
    let s1 = s.answered_msg(u, content);
    if s1.running && s1.cursor == s.cursor {
        assert(s1.answered.contains(u)) by {
            assert(s1.answered == s.answered.insert(u));
        }
        assert(s1.answered_msg(u, content2) =~= s1) by {
            if is_valid_letter(content2) {
                assert(s1.answered.insert(u) =~= s1.answered);
            }
        }
    }
}

/// A second skip vote by a participant already marked as having voted changes
/// nothing: one identity contributes at most one to the tally per round.
pub proof fn lemma_skip_counted_once(s: GameState, u: u64)
    requires
        s.wf(),
        s.running,
    ensures
        ({
            let s1 = s.skip_voted(u);
            (s1.running && s1.cursor == s.cursor) ==> s1.skip_voted(u) == s1
        }),
{
    let s1 = s.skip_voted(u);
    if s1.running && s1.cursor == s.cursor {
        if !s.skipped.contains(u) {
            assert(s1.skipped.contains(u));
        }
        assert(s1.skip_voted(u) =~= s1);
    }
}

/// After any event that advances the round or ends the session, the skip
/// tally and both dedup sets are empty — including the advance caused by
/// reaching the skip threshold.
pub proof fn lemma_advance_clears(s: GameState, e: GameEvent)
    requires
        s.wf(),
    ensures
        ({
            let s1 = step(s, e);
            (s1.cursor != s.cursor || s1.running != s.running) ==> {
                &&& s1.answered == Set::<u64>::empty()
                &&& s1.skipped == Set::<u64>::empty()
                &&& s1.skips == 0
            }
        }),
{
}

} // verus!
