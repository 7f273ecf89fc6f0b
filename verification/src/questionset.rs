//! An ordered, cursor-addressed sequence of questions.
use vstd::prelude::*;

verus! {

use crate::question::Question;

/// The correct letters of the stored questions, lower case, in asking order.
pub open spec fn letters_of(qs: QuestionSet) -> Seq<char> {
    qs.questions().map_values(|q: Question| q.correct_letter())
}

/// A round's worth of questions and a cursor over them.  A cursor at the
/// length means the set is exhausted; the cursor never rewinds.
pub struct QuestionSet {
    questions: Vec<Question>,
    number_of_questions: u32,
    current_question_number: usize,
}

impl QuestionSet {
    /// The stored questions.
    pub closed spec fn questions(self) -> Seq<Question> {
        self.questions@
    }

    /// The cursor: the position of the live question.
    pub closed spec fn cursor(self) -> nat {
        self.current_question_number as nat
    }

    /// The count the set was requested with.
    pub closed spec fn requested(self) -> u32 {
        self.number_of_questions
    }

    /// Well-formedness: the cursor never passes the end, and every stored
    /// question is well formed.
    pub open spec fn wf(self) -> bool {
        &&& self.cursor() <= self.questions().len()
        &&& forall|i: int| 0 <= i < self.questions().len() ==> #[trigger] self.questions()[i].wf()
    }

    /// Whether a question is live: the cursor has not passed the end.
    pub open spec fn has_current(self) -> bool {
        self.cursor() < self.questions().len()
    }

    /// The live question.
    pub open spec fn current(self) -> Question
        recommends
            self.has_current(),
    {
        self.questions()[self.cursor() as int]
    }

    /// Makes a set whose cursor is at the first question.
    pub fn new(questions: Vec<Question>, number_of_questions: u32) -> (r: QuestionSet)
        ensures
            r.questions() == questions@,
            r.cursor() == 0,
            r.requested() == number_of_questions,
    {
        QuestionSet { questions, number_of_questions, current_question_number: 0 }
    }

    /// The live question, or nothing once the set is exhausted; defined for
    /// every cursor value and never reads out of range.
    pub fn get_current_question(&self) -> (r: Option<&Question>)
        ensures
            r is Some <==> self.has_current(),
            r is Some ==> *r.unwrap() == self.current(),
    {
        if self.current_question_number < self.questions.len() {
            Some(&self.questions[self.current_question_number])
        } else {
            None
        }
    }

    /// Moves the cursor to the next question; a no-op once the set is
    /// exhausted.
    pub fn next_question(&mut self)
        ensures
            final(self).questions() == old(self).questions(),
            final(self).requested() == old(self).requested(),
            final(self).cursor() == if old(self).has_current() {
                old(self).cursor() + 1
            } else {
                old(self).cursor()
            },
    {
        if self.current_question_number < self.questions.len() {
            self.current_question_number = self.current_question_number + 1;
        }
    }
}

} // verus!
