//! A quiz item with a shuffled, lettered option set.
//!
//! Construction decodes HTML entities in the feed-supplied texts, shuffles the
//! four candidate answers, and records which letter the correct answer landed
//! on.  The decode and the shuffle are outside calls; everything around them is
//! verified.
use vstd::prelude::*;

use rand::seq::SliceRandom;

verus! {

use crate::text::lower_letter;
use crate::text::views_of;

/// What `htmlescape::decode_html` returns on success: a function of the input text alone.
pub uninterp spec fn decode_of(s: Seq<char>) -> Seq<char>;

/// Whether `htmlescape::decode_html` accepts the text: a function of the input
/// text alone, since the decoder is a pure state machine over its characters.
pub uninterp spec fn decode_ok(s: Seq<char>) -> bool;

/// Text without an ampersand, which entity decoding passes through unchanged.
pub open spec fn amp_free(s: Seq<char>) -> bool {
    forall|i: int| 0 <= i < s.len() ==> s[i] != '&'
}

/// The views of a sequence of strings after entity decoding.
pub open spec fn decoded_views(v: Seq<String>) -> Seq<Seq<char>> {
    v.map_values(|s: String| decode_of(s@))
}

#[verifier::external_type_specification]
#[verifier::external_body]
pub struct ExDecodeErr(htmlescape::DecodeErr);

/// Relies on htmlescape::decode_html: whether it accepts and what it returns
/// depend on the input text alone, and text without an ampersand decodes to
/// itself.
#[verifier::external_body]
fn decode_entities(s: &str) -> (r: Result<String, htmlescape::DecodeErr>)
    ensures
        r is Ok <==> decode_ok(s@),
        r is Ok ==> r.unwrap()@ == decode_of(s@),
        amp_free(s@) ==> (r is Ok && r.unwrap()@ == s@),
{
    htmlescape::decode_html(s)
}

#[verifier::external_type_specification]
#[verifier::external_body]
pub struct ExThreadRng(rand::rngs::ThreadRng);

/// Relies on rand::rng for a handle to the thread-local generator.  Its first
/// use on a thread aborts if the system's randomness source fails; nothing
/// about the handle is promised here.
#[verifier::external_body]
fn fresh_rng() -> rand::rngs::ThreadRng {
    rand::rng()
}

/// Relies on rand's SliceRandom::shuffle: the slice afterwards is a
/// permutation of the slice before, whatever the generator produced.
#[verifier::external_body]
fn shuffle_strings(v: &mut Vec<String>, rng: &mut rand::rngs::ThreadRng)
    ensures
        final(v)@.len() == old(v)@.len(),
        views_of(final(v)@).to_multiset() == views_of(old(v)@).to_multiset(),
{
    v.shuffle(rng)
}

/// The letter assigned to an option position; positions past the fourth fall
/// back to the first letter.
pub open spec fn letter_of_index(i: int) -> Seq<char> {
    if i == 1 {
        "B"@
    } else if i == 2 {
        "C"@
    } else if i == 3 {
        "D"@
    } else {
        "A"@
    }
}

fn letter_string(i: usize) -> (r: String)
    ensures
        r@ == letter_of_index(i as int),
{
    if i == 1 {
        String::from_str("B")
    } else if i == 2 {
        String::from_str("C")
    } else if i == 3 {
        String::from_str("D")
    } else {
        String::from_str("A")
    }
}

/// Facts about the four letter strings.
pub proof fn lemma_letter_strings()
    ensures
        "A"@ =~= seq!['A'],
        "B"@ =~= seq!['B'],
        "C"@ =~= seq!['C'],
        "D"@ =~= seq!['D'],
{
    reveal_strlit("A");
    reveal_strlit("B");
    reveal_strlit("C");
    reveal_strlit("D");
}

/// The index the construction scan settles on: the last position holding the
/// answer, or the first position when no position holds it.
pub open spec fn last_match(opts: Seq<Seq<char>>, ans: Seq<char>) -> int
    decreases opts.len(),
{
    if opts.len() == 0 {
        0
    } else if opts.last() == ans {
        opts.len() - 1
    } else {
        last_match(opts.drop_last(), ans)
    }
}

/// When the answer occurs among the options, the scan lands on a position
/// holding it.
pub proof fn lemma_last_match_found(opts: Seq<Seq<char>>, ans: Seq<char>)
    requires
        opts.contains(ans),
    ensures
        0 <= last_match(opts, ans) < opts.len(),
        opts[last_match(opts, ans)] == ans,
    decreases opts.len(),
{
    if opts.last() == ans {
    } else {
        let i = choose|i: int| 0 <= i < opts.len() && opts[i] == ans;
        assert(opts.drop_last()[i] == ans);
        assert(opts.drop_last().contains(ans));
        lemma_last_match_found(opts.drop_last(), ans);
    }
}

/// The rendered list of the four lettered options.
pub open spec fn render_options(opts: Seq<Seq<char>>) -> Seq<char>
    recommends
        opts.len() >= 4,
{
    "\nA. "@ + opts[0] + "\nB. "@ + opts[1] + "\nC. "@ + opts[2] + "\nD. "@ + opts[3] + "\n"@
}

fn render_options_exec(opts: &Vec<String>) -> (r: String)
    requires
        opts@.len() >= 4,
    ensures
        r@ == render_options(views_of(opts@)),
{
    let mut s = String::from_str("\nA. ");
    s.append(opts[0].as_str());
    s.append("\nB. ");
    s.append(opts[1].as_str());
    s.append("\nC. ");
    s.append(opts[2].as_str());
    s.append("\nD. ");
    s.append(opts[3].as_str());
    s.append("\n");
    s
}

/// An immutable quiz item.  `options` keeps the shuffled order; the answer
/// letter names the option position holding the correct answer.
pub struct Question {
    pub prompt: String,
    pub answer: String,
    pub answer_letter: String,
    pub answer_prompt: String,
    pub options: Vec<String>,
    pub category: String,
    pub difficulty: String,
    pub answered: bool,
}

impl Question {
    /// Well-formedness: at least four options, the answer among them, and the
    /// letter and the rendered list derived from the options.
    pub open spec fn wf(self) -> bool {
        &&& self.options@.len() >= 4
        &&& views_of(self.options@).contains(self.answer@)
        &&& self.answer_letter@ == letter_of_index(
            last_match(views_of(self.options@), self.answer@),
        )
        &&& self.answer_prompt@ == render_options(views_of(self.options@))
    }

    /// The letter a correct submission must match, in lower case.
    pub open spec fn correct_letter(self) -> char
        recommends
            self.wf(),
    {
        lower_letter(self.answer_letter@[0])
    }

    /// The operator-visible rendering of the item.
    pub open spec fn describe_text(self) -> Seq<char> {
        "\tCat: "@ + self.category@ + ",\n\tDifficulty: "@ + self.difficulty@ + ",\n\tQuestion: "@
            + self.prompt@ + ",\n\tAnswer: "@ + self.answer@ + "\n\n"@
    }

    /// The channel-visible announcement: the prompt and the lettered options.
    pub open spec fn announce_text(self) -> Seq<char> {
        "```Question: "@ + self.prompt@ + "\n"@ + self.answer_prompt@ + "```"@
    }

    /// Builds the item from texts whose entities are already decoded and whose
    /// order is already shuffled: scans for the answer's (last) position, maps
    /// it to a letter, and renders the option list.
    pub fn from_shuffled(
        prompt: String,
        answer: String,
        options: Vec<String>,
        category: String,
        difficulty: String,
        answered: bool,
    ) -> (q: Question)
        requires
            options@.len() >= 4,
            views_of(options@).contains(answer@),
        ensures
            q.prompt == prompt,
            q.answer == answer,
            q.options == options,
            q.category == category,
            q.difficulty == difficulty,
            q.answered == answered,
            q.answer_letter@ == letter_of_index(last_match(views_of(options@), answer@)),
            q.answer_prompt@ == render_options(views_of(options@)),
            q.wf(),
    {
        let n = options.len();
        let mut index: usize = 0;
        let mut i: usize = 0;
        while i < n
            invariant
                n == options@.len(),
                i <= n,
                index <= i,
                index < n,
                n >= 4,
                index == last_match(views_of(options@).take(i as int), answer@),
            decreases n - i,
        {
            proof {
                let vs = views_of(options@);
                assert(vs.take(i as int + 1).drop_last() =~= vs.take(i as int));
                assert(vs.take(i as int + 1).last() == vs[i as int]);
            }
            if options[i].eq(&answer) {
                index = i;
            }
            i += 1;
        }
        proof {
            assert(views_of(options@).take(n as int) =~= views_of(options@));
        }
        let answer_letter = letter_string(index);
        let answer_prompt = render_options_exec(&options);
        Question { prompt, answer, answer_letter, answer_prompt, options, category, difficulty, answered }
    }

    /// Builds an item from the feed-supplied texts: decodes HTML entities in
    /// every text, shuffles the correct answer in among the incorrect ones,
    /// and letters the result.  Returns a question exactly when every text
    /// decodes; in particular, texts without an ampersand always do.
    pub fn new(
        prompt: String,
        answer: String,
        incorrect_answers: Vec<String>,
        category: String,
        difficulty: String,
        answered: bool,
    ) -> (r: Option<Question>)
        requires
            incorrect_answers@.len() >= 3,
        ensures
            r is Some <==> (decode_ok(prompt@) && decode_ok(answer@) && (forall|i: int|
                0 <= i < incorrect_answers@.len() ==> #[trigger] decode_ok(
                    incorrect_answers@[i]@,
                ))),
            (amp_free(prompt@) && amp_free(answer@) && (forall|i: int|
                0 <= i < incorrect_answers@.len() ==> amp_free(
                    #[trigger] incorrect_answers@[i]@,
                ))) ==> r is Some,
            r is Some ==> {
                let q = r.unwrap();
                &&& q.wf()
                &&& q.prompt@ == decode_of(prompt@)
                &&& q.answer@ == decode_of(answer@)
                &&& q.category == category
                &&& q.difficulty == difficulty
                &&& q.answered == answered
                &&& q.options@.len() == incorrect_answers@.len() + 1
                &&& views_of(q.options@).to_multiset() == decoded_views(
                    incorrect_answers@,
                ).push(decode_of(answer@)).to_multiset()
            },
    {
        let prompt_d = match decode_entities(prompt.as_str()) {
            Ok(s) => s,
            Err(_) => {
                return None;
            },
        };
        let answer_d = match decode_entities(answer.as_str()) {
            Ok(s) => s,
            Err(_) => {
                return None;
            },
        };
        let mut answers = match decode_html_vector(incorrect_answers) {
            Some(v) => v,
            None => {
                return None;
            },
        };
        answers.push(answer_d.clone());
        proof {
            broadcast use vstd::seq_lib::group_to_multiset_ensures;

            assert(views_of(answers@) =~= decoded_views(incorrect_answers@).push(
                decode_of(answer@),
            ));
            assert(views_of(answers@).last() == decode_of(answer@));
            assert(views_of(answers@).contains(decode_of(answer@)));
        }
        let ghost pre_shuffle = views_of(answers@);
        let mut rng = fresh_rng();
        shuffle_strings(&mut answers, &mut rng);
        proof {
            broadcast use vstd::seq_lib::group_to_multiset_ensures;

            assert(pre_shuffle.to_multiset().count(decode_of(answer@)) > 0);
            assert(views_of(answers@).contains(decode_of(answer@)));
        }
        let q = Question::from_shuffled(prompt_d, answer_d, answers, category, difficulty, answered);
        Some(q)
    }

    /// The operator-visible rendering of the item.
    pub fn describe(&self) -> (r: String)
        ensures
            r@ == self.describe_text(),
    {
        let mut s = String::from_str("\tCat: ");
        s.append(self.category.as_str());
        s.append(",\n\tDifficulty: ");
        s.append(self.difficulty.as_str());
        s.append(",\n\tQuestion: ");
        s.append(self.prompt.as_str());
        s.append(",\n\tAnswer: ");
        s.append(self.answer.as_str());
        s.append("\n\n");
        s
    }

    /// The channel-visible announcement of the item.
    pub fn announce(&self) -> (r: String)
        ensures
            r@ == self.announce_text(),
    {
        let mut s = String::from_str("```Question: ");
        s.append(self.prompt.as_str());
        s.append("\n");
        s.append(self.answer_prompt.as_str());
        s.append("```");
        s
    }
}

/// When there are exactly four options, the option at the letter's position is
/// the correct answer.
pub proof fn lemma_correct_option(q: Question)
    requires
        q.wf(),
        q.options@.len() == 4,
    ensures
        ({
            let i = last_match(views_of(q.options@), q.answer@);
            &&& 0 <= i < 4
            &&& q.answer_letter@ == letter_of_index(i)
            &&& q.options@[i]@ == q.answer@
        }),
{
    lemma_last_match_found(views_of(q.options@), q.answer@);
}

/// Decodes the HTML entities of every string; nothing when one fails.
fn decode_html_vector(answers: Vec<String>) -> (r: Option<Vec<String>>)
    ensures
        r is Some <==> (forall|i: int|
            0 <= i < answers@.len() ==> #[trigger] decode_ok(answers@[i]@)),
        (forall|i: int| 0 <= i < answers@.len() ==> amp_free(#[trigger] answers@[i]@)) ==> r
            is Some,
        r is Some ==> views_of(r.unwrap()@) == decoded_views(answers@),
{
    let n = answers.len();
    let mut out: Vec<String> = Vec::new();
    let mut i: usize = 0;
    while i < n
        invariant
            n == answers@.len(),
            i <= n,
            out@.len() == i,
            forall|j: int| 0 <= j < i ==> out@[j]@ == decode_of(answers@[j]@),
            forall|j: int| 0 <= j < i ==> #[trigger] decode_ok(answers@[j]@),
        decreases n - i,
    {
        match decode_entities(answers[i].as_str()) {
            Ok(s) => {
                out.push(s);
            },
            Err(_) => {
                return None;
            },
        }
        i += 1;
    }
    proof {
        assert(views_of(out@) =~= decoded_views(answers@));
    }
    Some(out)
}

} // verus!
