//! The session state machine: start/stop, question sequencing, answer
//! verification, vote-skip coordination, and scoring.
//!
//! Outbound text is queued in an outbox rather than sent; the caller drains it
//! and hands each message to its messaging sink.  Every public method states
//! its effect on the abstract game state as one transition of `GameState`.
use vstd::prelude::*;

verus! {

use crate::chat::{ChatMessage, Participant};
use crate::model::{GameState, SKIP_THRESHOLD};
use crate::optionset::OptionSet;
use crate::question::Question;
use crate::questionset::{letters_of, QuestionSet};
use crate::scores::{bumped, render_scores, ScoreEntry, Scores};
use crate::text::{dec_digits, lemma_views_push, views_of};
use crate::votetracker::VoteTracker;

/// What the question-announce step emits: the live question, or the
/// out-of-questions notice followed by what stopping emits.
pub open spec fn ask_msgs(qs: QuestionSet, entries: Seq<ScoreEntry>) -> Seq<Seq<char>> {
    if qs.has_current() {
        seq![qs.current().announce_text()]
    } else {
        seq!["Out of questions"@, render_scores(entries), "Trivia Stopping"@]
    }
}

/// What the round-advance step emits, given the state before the advance.
pub open spec fn advance_msgs(qs: QuestionSet, entries: Seq<ScoreEntry>) -> Seq<Seq<char>> {
    if qs.cursor() + 1 < qs.questions().len() {
        seq![qs.questions()[qs.cursor() as int + 1].announce_text()]
    } else {
        seq!["Out of questions"@, render_scores(entries), "Trivia Stopping"@]
    }
}

/// The tally notice a below-threshold skip vote emits.
pub open spec fn skip_tally_msg(name: Seq<char>, votes: u32) -> Seq<char> {
    name + " voted to skip. **Votes Needed: "@ + dec_digits(votes as nat) + "/3**"@
}

/// The congratulation a round winner is named in.
pub open spec fn congrats_msg(name: Seq<char>) -> Seq<char> {
    name + " got the correct answer"@
}

/// Whether a message from the author wins the round in the given state: the
/// first syntactically valid, correct answer.
pub open spec fn wins_round(s: GameState, author: u64, content: Seq<char>) -> bool {
    crate::model::is_win(s, (crate::model::GameEvent::Answer { author, content }), author)
}

/// The TriviaManager holds the current gamestate.
pub struct TriviaManager {
    pub running: bool,
    question_set: Option<QuestionSet>,
    channel: Option<u64>,
    scores: Option<Scores>,
    skips: u32,
    vote_tracker: VoteTracker,
    outbox: Vec<String>,
}

impl TriviaManager {
    /// Whether a session runs.
    pub closed spec fn spec_running(self) -> bool {
        self.running
    }

    /// The question set of the running session.
    pub closed spec fn spec_qset(self) -> Option<QuestionSet> {
        self.question_set
    }

    /// The channel the session speaks into.
    pub closed spec fn spec_channel(self) -> Option<u64> {
        self.channel
    }

    /// The score list of the running session.
    pub closed spec fn spec_scores(self) -> Option<Scores> {
        self.scores
    }

    /// The round's skip tally.
    pub closed spec fn spec_skips(self) -> u32 {
        self.skips
    }

    /// The round's dedup sets.
    pub closed spec fn spec_tracker(self) -> VoteTracker {
        self.vote_tracker
    }

    /// The queued outbound messages, as views.
    pub closed spec fn outbox_views(self) -> Seq<Seq<char>> {
        views_of(self.outbox@)
    }

    /// The score rows of the running session; empty when idle.
    pub open spec fn score_entries(self) -> Seq<ScoreEntry> {
        match self.spec_scores() {
            Some(sc) => sc.entries(),
            None => Seq::empty(),
        }
    }

    /// The abstract state this manager realizes.
    pub open spec fn model(self) -> GameState {
        GameState {
            running: self.spec_running(),
            channel: self.spec_channel(),
            letters: match self.spec_qset() {
                Some(qs) => letters_of(qs),
                None => Seq::empty(),
            },
            cursor: match self.spec_qset() {
                Some(qs) => qs.cursor(),
                None => 0,
            },
            scores: match self.spec_scores() {
                Some(sc) => sc.as_map(),
                None => Map::empty(),
            },
            answered: self.spec_tracker().answered(),
            skipped: self.spec_tracker().skipped(),
            skips: self.spec_skips(),
        }
    }

    /// The structural invariant: question set and score list exist exactly
    /// while running, a running session has a channel, the tally is below the
    /// threshold, and an idle manager keeps no round state.
    pub closed spec fn wf_base(self) -> bool {
        &&& self.running == (self.question_set is Some)
        &&& self.running == (self.scores is Some)
        &&& self.running ==> self.channel is Some
        &&& match self.question_set {
            Some(qs) => qs.wf(),
            None => true,
        }
        &&& match self.scores {
            Some(sc) => sc.wf(),
            None => true,
        }
        &&& self.skips < SKIP_THRESHOLD
        &&& !self.running ==> {
            &&& self.vote_tracker.answered() == Set::<u64>::empty()
            &&& self.vote_tracker.skipped() == Set::<u64>::empty()
            &&& self.skips == 0
        }
    }

    /// A running session always has a live question; stopping restores this
    /// from `wf_base` alone.
    pub closed spec fn live(self) -> bool {
        self.running ==> self.question_set.unwrap().has_current()
    }

    /// The manager's full invariant.
    pub open spec fn wf(self) -> bool {
        self.wf_base() && self.live()
    }

    /// A well-formed manager realizes a sane abstract state.
    pub proof fn lemma_model_wf(self)
        requires
            self.wf(),
        ensures
            self.model().wf(),
    {
        if !self.running {
            assert(self.model() =~= GameState::idle(self.model().channel));
        }
    }

    /// Generates a new trivia manager.  Channel and running are unset by
    /// default, and no message is queued.
    pub fn new() -> (r: TriviaManager)
        ensures
            r.wf(),
            r.model() == GameState::idle(None),
            r.spec_qset() is None,
            r.spec_scores() is None,
            r.outbox_views() == Seq::<Seq<char>>::empty(),
    {
        let r = TriviaManager {
            running: false,
            question_set: None,
            channel: None,
            scores: None,
            skips: 0,
            vote_tracker: VoteTracker::new(),
            outbox: Vec::new(),
        };
        proof {
            assert(r.model() =~= GameState::idle(None));
            assert(r.outbox_views() =~= Seq::<Seq<char>>::empty());
        }
        r
    }

    /// Queues a message for the bound channel.
    fn say(&mut self, message: String)
        ensures
            final(self).outbox@ == old(self).outbox@.push(message),
            final(self).outbox_views() == old(self).outbox_views().push(message@),
            final(self).running == old(self).running,
            final(self).question_set == old(self).question_set,
            final(self).channel == old(self).channel,
            final(self).scores == old(self).scores,
            final(self).skips == old(self).skips,
            final(self).vote_tracker == old(self).vote_tracker,
            final(self).model() == old(self).model(),
    {
        self.outbox.push(message);
        proof {
            lemma_views_push(old(self).outbox@, self.outbox@, message);
        }
    }

    /// Queues the score listing.
    fn print_scores(&mut self)
        requires
            old(self).scores is Some,
        ensures
            final(self).outbox_views() == old(self).outbox_views().push(
                render_scores(old(self).scores.unwrap().entries()),
            ),
            final(self).running == old(self).running,
            final(self).question_set == old(self).question_set,
            final(self).channel == old(self).channel,
            final(self).scores == old(self).scores,
            final(self).skips == old(self).skips,
            final(self).vote_tracker == old(self).vote_tracker,
            final(self).model() == old(self).model(),
    {
        let text = match &self.scores {
            Some(sc) => sc.output_scores(),
            None => String::new(),
        };
        self.say(text);
    }

    /// Stops the trivia bot.  A running session queues the final score listing
    /// and a stopping notice and discards its state; an idle one only notes
    /// that nothing is running.
    pub fn stop(&mut self)
        requires
            old(self).wf_base(),
        ensures
            final(self).wf(),
            final(self).model() == old(self).model().stopped(),
            final(self).spec_qset() is None,
            final(self).spec_scores() is None,
            old(self).spec_running() ==> final(self).outbox_views() == old(self).outbox_views()
                + seq![render_scores(old(self).score_entries()), "Trivia Stopping"@],
            !old(self).spec_running() ==> final(self).outbox_views() == old(
                self,
            ).outbox_views().push("Trivia is not running"@),
    {
        if self.running {
            self.print_scores();
            self.say(String::from_str("Trivia Stopping"));
            self.running = false;
            self.question_set = None;
            self.channel = None;
            self.scores = None;
            self.skips = 0;
            self.vote_tracker.clear();
            proof {
                assert(self.model() =~= old(self).model().stopped());
                assert(self.outbox_views() =~= old(self).outbox_views() + seq![
                    render_scores(old(self).score_entries()),
                    "Trivia Stopping"@,
                ]);
            }
        } else {
            self.say(String::from_str("Trivia is not running"));
            proof {
                assert(self.model() =~= old(self).model().stopped());
            }
        }
    }

    /// Sets the channel where the triviabot will send its messages.
    pub fn set_channel(&mut self, message: &ChatMessage)
        requires
            old(self).wf(),
        ensures
            final(self).wf(),
            final(self).model() == old(self).model().channel_set(message.channel_id),
            final(self).spec_qset() == old(self).spec_qset(),
            final(self).spec_scores() == old(self).spec_scores(),
            final(self).outbox_views() == old(self).outbox_views(),
    {
        self.channel = Some(message.channel_id);
        proof {
            assert(self.model() =~= old(self).model().channel_set(message.channel_id));
        }
    }

    /// The channel the session is bound to, for routing drained messages.
    pub fn current_channel(&self) -> (r: Option<u64>)
        ensures
            r == self.spec_channel(),
    {
        self.channel
    }

    /// The live question, for operator-side logging; nothing when idle or
    /// exhausted.
    pub fn current_question(&self) -> (r: Option<&Question>)
        ensures
            r is Some <==> (self.spec_qset() is Some && self.spec_qset().unwrap().has_current()),
            r is Some ==> *r.unwrap() == self.spec_qset().unwrap().current(),
    {
        match &self.question_set {
            Some(qs) => qs.get_current_question(),
            None => None,
        }
    }

    /// Whether the message is a syntactically valid answer: a single option
    /// letter in either case.
    fn valid_letter(message: &ChatMessage) -> (r: bool)
        ensures
            r == crate::text::is_valid_letter(message.content@),
    {
        crate::text::check_valid_letter(message.content.as_str())
    }

    /// Tells whether the user has already answered this round, and marks them
    /// as having answered either way.
    fn has_answered(&mut self, user: &Participant) -> (r: bool)
        ensures
            r == old(self).vote_tracker.answered().contains(user.id),
            final(self).vote_tracker.answered() == old(self).vote_tracker.answered().insert(
                user.id,
            ),
            final(self).vote_tracker.skipped() == old(self).vote_tracker.skipped(),
            final(self).running == old(self).running,
            final(self).question_set == old(self).question_set,
            final(self).channel == old(self).channel,
            final(self).scores == old(self).scores,
            final(self).skips == old(self).skips,
            final(self).outbox@ == old(self).outbox@,
    {
        self.vote_tracker.has_answered(user.id)
    }

    /// Tells whether the user has already voted to skip this round, and marks
    /// them as having voted either way.
    fn has_skipped(&mut self, user: &Participant) -> (r: bool)
        ensures
            r == old(self).vote_tracker.skipped().contains(user.id),
            final(self).vote_tracker.skipped() == old(self).vote_tracker.skipped().insert(user.id),
            final(self).vote_tracker.answered() == old(self).vote_tracker.answered(),
            final(self).running == old(self).running,
            final(self).question_set == old(self).question_set,
            final(self).channel == old(self).channel,
            final(self).scores == old(self).scores,
            final(self).skips == old(self).skips,
            final(self).outbox@ == old(self).outbox@,
    {
        self.vote_tracker.has_skipped(user.id)
    }

    /// Checks whether the given text names the current question's answer
    /// letter, comparing case-insensitively.
    fn check_answer(&self, message: &str) -> (r: bool)
        requires
            self.wf_base(),
        ensures
            r == (match self.question_set {
                Some(qs) => qs.has_current() && message@.len() == 1 && crate::text::lower_letter(
                    message@[0],
                ) == qs.current().correct_letter(),
                None => false,
            }),
    {
        let q_letter: Option<char> = match &self.question_set {
            Some(qs) => match qs.get_current_question() {
                Some(q) => {
                    proof {
                        crate::question::lemma_letter_strings();
                        assert(qs.questions()[qs.cursor() as int].wf());
                        assert(q.answer_letter@.len() == 1);
                    }
                    Some(q.answer_letter.as_str().get_char(0))
                },
                None => None,
            },
            None => None,
        };
        match q_letter {
            Some(lc) => {
                if message.unicode_len() == 1 {
                    let mc = message.get_char(0);
                    crate::text::lower_letter_exec(mc) == crate::text::lower_letter_exec(lc)
                } else {
                    false
                }
            },
            None => false,
        }
    }

    /// Advances the cursor and clears the round state: both dedup sets and the
    /// skip tally.
    fn next_question(&mut self)
        requires
            old(self).running,
            old(self).question_set is Some,
            old(self).question_set.unwrap().wf(),
            old(self).scores is Some,
            old(self).scores.unwrap().wf(),
            old(self).channel is Some,
        ensures
            final(self).wf_base(),
            final(self).running == old(self).running,
            final(self).channel == old(self).channel,
            final(self).scores == old(self).scores,
            final(self).outbox@ == old(self).outbox@,
            final(self).skips == 0,
            final(self).vote_tracker.answered() == Set::<u64>::empty(),
            final(self).vote_tracker.skipped() == Set::<u64>::empty(),
            final(self).question_set is Some,
            final(self).question_set.unwrap().questions() == old(
                self,
            ).question_set.unwrap().questions(),
            final(self).question_set.unwrap().requested() == old(
                self,
            ).question_set.unwrap().requested(),
            final(self).question_set.unwrap().cursor() == (if old(
                self,
            ).question_set.unwrap().has_current() {
                old(self).question_set.unwrap().cursor() + 1
            } else {
                old(self).question_set.unwrap().cursor()
            }),
    {
        match &mut self.question_set {
            Some(qs) => {
                qs.next_question();
            },
            None => {},
        }
        self.vote_tracker.clear();
        self.skips = 0;
    }

    /// Queues the current question for the bound channel; once the set is
    /// exhausted, queues the out-of-questions notice and stops.
    fn ask_question(&mut self)
        requires
            old(self).running,
            old(self).wf_base(),
            old(self).skips == 0,
            old(self).vote_tracker.answered() == Set::<u64>::empty(),
            old(self).vote_tracker.skipped() == Set::<u64>::empty(),
        ensures
            final(self).wf(),
            final(self).outbox_views() == old(self).outbox_views() + ask_msgs(
                old(self).question_set.unwrap(),
                old(self).scores.unwrap().entries(),
            ),
            old(self).question_set.unwrap().has_current() ==> {
                &&& final(self).running == old(self).running
                &&& final(self).question_set == old(self).question_set
                &&& final(self).channel == old(self).channel
                &&& final(self).scores == old(self).scores
                &&& final(self).skips == old(self).skips
                &&& final(self).vote_tracker == old(self).vote_tracker
                &&& final(self).model() == old(self).model()
            },
            !old(self).question_set.unwrap().has_current() ==> final(self).model()
                == GameState::idle(None),
    {
        let announce_opt: Option<String> = match &self.question_set {
            Some(qs) => match qs.get_current_question() {
                Some(q) => Some(q.announce()),
                None => None,
            },
            None => None,
        };
        match announce_opt {
            Some(text) => {
                self.say(text);
            },
            None => {
                self.say(String::from_str("Out of questions"));
                self.stop();
                proof {
                    assert(self.outbox_views() =~= old(self).outbox_views() + ask_msgs(
                        old(self).question_set.unwrap(),
                        old(self).scores.unwrap().entries(),
                    ));
                }
            },
        }
    }

    /// Starts the trivia bot with an already materialized question set, binds
    /// the channel, and asks the first question.  A running session is left
    /// untouched but for an already-running notice; a failed fetch (no
    /// question set) leaves the manager idle with a failure notice.
    pub fn start(&mut self, optionset: &OptionSet, fetched: Option<QuestionSet>)
        requires
            old(self).wf(),
            fetched is Some ==> fetched.unwrap().wf() && fetched.unwrap().cursor() == 0,
        ensures
            final(self).wf(),
            final(self).model() == old(self).model().started(
                optionset.channel,
                (match fetched {
                    Some(qs) => Some(letters_of(qs)),
                    None => None,
                }),
            ),
            old(self).spec_running() ==> final(self).outbox_views() == old(
                self,
            ).outbox_views().push("Trivia is already running"@),
            (!old(self).spec_running() && fetched is None) ==> final(self).outbox_views() == old(
                self,
            ).outbox_views().push("Trivia failed to start"@),
            (!old(self).spec_running() && fetched is Some) ==> final(self).outbox_views() == old(
                self,
            ).outbox_views().push("Trivia Starting"@) + ask_msgs(
                fetched.unwrap(),
                Seq::<ScoreEntry>::empty(),
            ),
            old(self).spec_running() ==> {
                &&& final(self).spec_qset() == old(self).spec_qset()
                &&& final(self).spec_scores() == old(self).spec_scores()
            },
            (!old(self).spec_running() && fetched is None) ==> {
                &&& final(self).spec_qset() == old(self).spec_qset()
                &&& final(self).spec_scores() == old(self).spec_scores()
            },
            (!old(self).spec_running() && fetched is Some
                && fetched.unwrap().questions().len() > 0) ==> {
                &&& final(self).spec_qset() == fetched
                &&& final(self).spec_scores() is Some
                &&& final(self).spec_scores().unwrap().entries() == Seq::<ScoreEntry>::empty()
            },
            (!old(self).spec_running() && fetched is Some
                && fetched.unwrap().questions().len() == 0) ==> {
                &&& final(self).spec_qset() is None
                &&& final(self).spec_scores() is None
            },
    {
        if !self.running {
            match fetched {
                Some(qs) => {
                    self.running = true;
                    self.question_set = Some(qs);
                    self.channel = Some(optionset.channel);
                    self.scores = Some(Scores::new());
                    self.skips = 0;
                    self.vote_tracker.clear();
                    self.say(String::from_str("Trivia Starting"));
                    let ghost mid = *self;
                    self.ask_question();
                    proof {
                        if qs.has_current() {
                            assert(self.model() =~= old(self).model().started(
                                optionset.channel,
                                Some(letters_of(qs)),
                            ));
                        } else {
                            assert(letters_of(qs).len() == 0);
                        }
                        assert(self.outbox_views() =~= old(self).outbox_views().push(
                            "Trivia Starting"@,
                        ) + ask_msgs(qs, Seq::<ScoreEntry>::empty()));
                    }
                },
                None => {
                    self.say(String::from_str("Trivia failed to start"));
                },
            }
        } else {
            self.say(String::from_str("Trivia is already running"));
        }
    }

    /// Records a skip vote.  A repeated vote from the same identity this round
    /// is a silent no-op; the vote that reaches the threshold queues a
    /// skipping notice and advances the round; a vote below it queues the
    /// tally.  Idle sessions only get a notice that nothing runs.
    pub fn vote_skip(&mut self, message: &ChatMessage)
        requires
            old(self).wf(),
        ensures
            final(self).wf(),
            final(self).model() == old(self).model().skip_voted(message.author.id),
            !old(self).spec_running() ==> final(self).outbox_views() == old(
                self,
            ).outbox_views().push("Can't skip because trivia is not running"@),
            (old(self).spec_running() && old(self).spec_tracker().skipped().contains(
                message.author.id,
            )) ==> final(self).outbox_views() == old(self).outbox_views(),
            (old(self).spec_running() && !old(self).spec_tracker().skipped().contains(
                message.author.id,
            ) && old(self).spec_skips() + 1 >= SKIP_THRESHOLD) ==> final(self).outbox_views()
                == old(self).outbox_views().push("Skipping question."@) + advance_msgs(
                old(self).spec_qset().unwrap(),
                old(self).score_entries(),
            ),
            (old(self).spec_running() && !old(self).spec_tracker().skipped().contains(
                message.author.id,
            ) && old(self).spec_skips() + 1 < SKIP_THRESHOLD) ==> final(self).outbox_views() == old(
                self,
            ).outbox_views().push(
                skip_tally_msg(message.author.name@, (old(self).spec_skips() + 1) as u32),
            ),
            (!old(self).spec_running() || old(self).spec_tracker().skipped().contains(
                message.author.id,
            ) || old(self).spec_skips() + 1 < SKIP_THRESHOLD) ==> {
                &&& final(self).spec_qset() == old(self).spec_qset()
                &&& final(self).spec_scores() == old(self).spec_scores()
            },
            (old(self).spec_running() && !old(self).spec_tracker().skipped().contains(
                message.author.id,
            ) && old(self).spec_skips() + 1 >= SKIP_THRESHOLD && old(self).model().cursor + 1 < old(
                self,
            ).model().letters.len()) ==> {
                &&& final(self).spec_qset() is Some
                &&& final(self).spec_qset().unwrap().questions() == old(
                    self,
                ).spec_qset().unwrap().questions()
                &&& final(self).spec_qset().unwrap().requested() == old(
                    self,
                ).spec_qset().unwrap().requested()
                &&& final(self).spec_scores() == old(self).spec_scores()
            },
            (old(self).spec_running() && !old(self).spec_tracker().skipped().contains(
                message.author.id,
            ) && old(self).spec_skips() + 1 >= SKIP_THRESHOLD && old(self).model().cursor + 1 >= old(
                self,
            ).model().letters.len()) ==> {
                &&& final(self).spec_qset() is None
                &&& final(self).spec_scores() is None
            },
    {
        if self.running {
            let already = self.has_skipped(&message.author);
            if already {
                proof {
                    assert(self.vote_tracker.skipped() =~= old(self).vote_tracker.skipped());
                    assert(self.model() =~= old(self).model().skip_voted(message.author.id));
                }
                return ;
            }
            self.skips = self.skips + 1;
            if self.skips >= SKIP_THRESHOLD {
                self.say(String::from_str("Skipping question."));
                self.next_question();
                self.ask_question();
                proof {
                    assert(self.model() =~= old(self).model().skip_voted(message.author.id));
                    assert(self.outbox_views() =~= old(self).outbox_views().push(
                        "Skipping question."@,
                    ) + advance_msgs(old(self).spec_qset().unwrap(), old(self).score_entries()));
                }
            } else {
                let mut text = message.author.name.clone();
                text.append(" voted to skip. **Votes Needed: ");
                text.append(crate::text::u32_to_string(self.skips).as_str());
                text.append("/3**");
                self.say(text);
                proof {
                    assert(self.model() =~= old(self).model().skip_voted(message.author.id));
                }
            }
        } else {
            self.say(String::from_str("Can't skip because trivia is not running"));
            proof {
                assert(self.model() =~= old(self).model().skip_voted(message.author.id));
            }
        }
    }

    /// Method which runs whenever a new message is received.  While a session
    /// runs, a single-letter message marks its author as having answered; the
    /// round's first correct answer queues a congratulation, credits one
    /// point, and advances the round.  Wrong or repeated guesses are silent.
    pub fn on_message(&mut self, message: ChatMessage)
        requires
            old(self).wf(),
        ensures
            final(self).wf(),
            final(self).model() == old(self).model().answered_msg(
                message.author.id,
                message.content@,
            ),
            wins_round(old(self).model(), message.author.id, message.content@) ==> final(self).outbox_views() == old(self).outbox_views().push(congrats_msg(message.author.name@))
                + advance_msgs(
                old(self).spec_qset().unwrap(),
                bumped(old(self).score_entries(), message.author, 1),
            ),
            !wins_round(old(self).model(), message.author.id, message.content@) ==> final(self).outbox_views() == old(self).outbox_views(),
            !wins_round(old(self).model(), message.author.id, message.content@) ==> {
                &&& final(self).spec_qset() == old(self).spec_qset()
                &&& final(self).spec_scores() == old(self).spec_scores()
            },
            (wins_round(old(self).model(), message.author.id, message.content@) && old(
                self,
            ).model().cursor + 1 < old(self).model().letters.len()) ==> {
                &&& final(self).spec_qset() is Some
                &&& final(self).spec_qset().unwrap().questions() == old(
                    self,
                ).spec_qset().unwrap().questions()
                &&& final(self).spec_qset().unwrap().requested() == old(
                    self,
                ).spec_qset().unwrap().requested()
                &&& final(self).spec_scores() is Some
                &&& final(self).score_entries() == bumped(
                    old(self).score_entries(),
                    message.author,
                    1,
                )
            },
            (wins_round(old(self).model(), message.author.id, message.content@) && old(
                self,
            ).model().cursor + 1 >= old(self).model().letters.len()) ==> {
                &&& final(self).spec_qset() is None
                &&& final(self).spec_scores() is None
            },
    {
        if self.running && TriviaManager::valid_letter(&message) {
            let correct = self.check_answer(message.content.as_str());
            let has_answered = self.has_answered(&message.author);
            proof {
                let qs = old(self).question_set.unwrap();
                assert(letters_of(qs)[qs.cursor() as int] == qs.current().correct_letter());
            }
            if correct && !has_answered {
                let mut text = message.author.name.clone();
                text.append(" got the correct answer");
                self.say(text);
                match &mut self.scores {
                    Some(sc) => {
                        sc.increase_score(message.author, 1);
                    },
                    None => {},
                }
                self.next_question();
                self.ask_question();
                proof {
                    assert(self.model() =~= old(self).model().answered_msg(
                        message.author.id,
                        message.content@,
                    ));
                    assert(self.outbox_views() =~= old(self).outbox_views().push(
                        congrats_msg(message.author.name@),
                    ) + advance_msgs(
                        old(self).spec_qset().unwrap(),
                        bumped(old(self).score_entries(), message.author, 1),
                    ));
                }
            } else {
                proof {
                    assert(self.model() =~= old(self).model().answered_msg(
                        message.author.id,
                        message.content@,
                    ));
                }
            }
        } else {
            proof {
                assert(self.model() =~= old(self).model().answered_msg(
                    message.author.id,
                    message.content@,
                ));
            }
        }
    }

    /// Hands the queued outbound messages over and leaves the queue empty.
    pub fn take_outbox(&mut self) -> (r: Vec<String>)
        ensures
            views_of(r@) == old(self).outbox_views(),
            final(self).outbox_views() == Seq::<Seq<char>>::empty(),
            final(self).model() == old(self).model(),
            final(self).spec_qset() == old(self).spec_qset(),
            final(self).spec_scores() == old(self).spec_scores(),
            final(self).wf() == old(self).wf(),
    {
        let mut taken: Vec<String> = Vec::new();
        core::mem::swap(&mut self.outbox, &mut taken);
        proof {
            assert(self.outbox_views() =~= Seq::<Seq<char>>::empty());
            assert(self.model() =~= old(self).model());
        }
        taken
    }
}

} // verus!
