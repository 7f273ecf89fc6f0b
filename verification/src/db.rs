//! Normalizing raw feed entries into a question set.
//!
//! Fetching and wire-format decoding happen outside the library; this module
//! takes the parsed entries as plain values and builds the questions.
use vstd::prelude::*;

verus! {

use crate::question::{decode_of, decode_ok};
use crate::question::Question;
use crate::questionset::QuestionSet;

/// One raw item of the question feed, already parsed out of its wire format.
pub struct FeedEntry {
    pub category: String,
    pub difficulty: String,
    pub question: String,
    pub correct_answer: String,
    pub incorrect_answers: Vec<String>,
}

/// A well-formed feed entry: at least three incorrect answers, and every text
/// acceptable to entity decoding.
pub open spec fn entry_ok(e: FeedEntry) -> bool {
    &&& e.incorrect_answers@.len() >= 3
    &&& decode_ok(e.question@)
    &&& decode_ok(e.correct_answer@)
    &&& forall|j: int|
        0 <= j < e.incorrect_answers@.len() ==> #[trigger] decode_ok(e.incorrect_answers@[j]@)
}

/// Builds the session's question set from the feed's raw entries: each entry
/// becomes one shuffled, lettered question.  A set is returned exactly when
/// every entry is well formed: none malformed (fewer than three incorrect
/// answers), none failing entity decoding.
pub fn build_question_set(entries: Vec<FeedEntry>, number_of_questions: u32) -> (r: Option<
    QuestionSet,
>)
    ensures
        r is Some <==> (forall|i: int| 0 <= i < entries@.len() ==> #[trigger] entry_ok(
            entries@[i],
        )),
        r is Some ==> {
            let qs = r.unwrap();
            &&& qs.wf()
            &&& qs.cursor() == 0
            &&& qs.requested() == number_of_questions
            &&& qs.questions().len() == entries@.len()
            &&& forall|i: int|
                0 <= i < entries@.len() ==> {
                    &&& (#[trigger] qs.questions()[i]).prompt@ == decode_of(entries@[i].question@)
                    &&& qs.questions()[i].answer@ == decode_of(entries@[i].correct_answer@)
                    &&& qs.questions()[i].category == entries@[i].category
                    &&& qs.questions()[i].difficulty == entries@[i].difficulty
                    &&& qs.questions()[i].options@.len() == entries@[i].incorrect_answers@.len()
                        + 1
                }
        },
{
    let ghost all = entries@;
    let mut rest = entries;
    let mut questions: Vec<Question> = Vec::new();
    while rest.len() > 0
        invariant
            all == entries@,
            questions@.len() + rest@.len() == all.len(),
            rest@ == all.skip(questions@.len() as int),
            forall|i: int| 0 <= i < questions@.len() ==> #[trigger] entry_ok(all[i]),
            forall|i: int|
                0 <= i < questions@.len() ==> {
                    &&& (#[trigger] questions@[i]).wf()
                    &&& questions@[i].prompt@ == decode_of(all[i].question@)
                    &&& questions@[i].answer@ == decode_of(all[i].correct_answer@)
                    &&& questions@[i].category == all[i].category
                    &&& questions@[i].difficulty == all[i].difficulty
                    &&& questions@[i].options@.len() == all[i].incorrect_answers@.len() + 1
                },
        decreases rest@.len(),
    {
        let ghost k = questions@.len() as int;
        proof {
            assert(rest@[0] == all[k]);
        }
        let entry = rest.remove(0);
        proof {
            assert(entry == all[k]);
        }
        if entry.incorrect_answers.len() < 3 {
            proof {
                assert(!entry_ok(all[k]));
            }
            return None;
        }
        let q = match Question::new(
            entry.question,
            entry.correct_answer,
            entry.incorrect_answers,
            entry.category,
            entry.difficulty,
            false,
        ) {
            Some(q) => q,
            None => {
                proof {
                    assert(!entry_ok(all[k]));
                }
                return None;
            },
        };
        questions.push(q);
        proof {
            assert(rest@ =~= all.skip(questions@.len() as int));
        }
    }
    Some(QuestionSet::new(questions, number_of_questions))
}

} // verus!
