//! The options a game is started with.
use vstd::prelude::*;

verus! {

use crate::text::{dec_val, is_numeric_token, views_of};

/// How many questions a game asks when the start command names no count.
pub const DEFAULT_QUESTION_COUNT: u32 = 10;

/// How the start command reads its tokens, scanned left to right: the first
/// numeric token is the question count, and the first token not taken as the
/// count is the difficulty.
pub open spec fn scan_args(views: Seq<Seq<char>>) -> (Option<int>, Option<Seq<char>>)
    decreases views.len(),
{
    if views.len() == 0 {
        (None, None)
    } else {
        let prior = scan_args(views.drop_last());
        let t = views.last();
        if prior.0 is None && is_numeric_token(t) {
            (Some(dec_val(t)), prior.1)
        } else if prior.1 is None {
            (prior.0, Some(t))
        } else {
            prior
        }
    }
}

/// The shape of the requested game: how many questions, how hard, from which
/// category, and into which channel.
pub struct OptionSet {
    pub number_of_questions: u32,
    pub difficulty: String,
    pub category: String,
    pub channel: u64,
}

impl OptionSet {
    /// The options the start command falls back to when it names nothing:
    /// ten questions of medium difficulty, any category.
    pub fn with_defaults(channel: u64) -> (r: OptionSet)
        ensures
            r.number_of_questions == DEFAULT_QUESTION_COUNT,
            r.difficulty@ == "medium"@,
            r.category@ == ""@,
            r.channel == channel,
    {
        OptionSet {
            number_of_questions: DEFAULT_QUESTION_COUNT,
            difficulty: String::from_str("medium"),
            category: String::from_str(""),
            channel,
        }
    }

    /// Reads the start command's tokens: the first numeric token is the
    /// question count, the first other token the difficulty, and anything
    /// missing or malformed falls back to the defaults.
    pub fn from_args(args: &Vec<String>, channel: u64) -> (r: OptionSet)
        ensures
            r.channel == channel,
            r.category@ == ""@,
            r.number_of_questions == (match scan_args(views_of(args@)).0 {
                Some(v) => v,
                None => DEFAULT_QUESTION_COUNT as int,
            }),
            r.difficulty@ == (match scan_args(views_of(args@)).1 {
                Some(d) => d,
                None => "medium"@,
            }),
    {
        let n = args.len();
        let mut number: Option<u32> = None;
        let mut difficulty: Option<String> = None;
        let mut i: usize = 0;
        while i < n
            invariant
                n == args@.len(),
                i <= n,
                number is Some <==> scan_args(views_of(args@).take(i as int)).0 is Some,
                number is Some ==> number.unwrap() == scan_args(
                    views_of(args@).take(i as int),
                ).0.unwrap(),
                difficulty is Some <==> scan_args(views_of(args@).take(i as int)).1 is Some,
                difficulty is Some ==> difficulty.unwrap()@ == scan_args(
                    views_of(args@).take(i as int),
                ).1.unwrap(),
            decreases n - i,
        {
            proof {
                assert(views_of(args@).take(i as int + 1).drop_last() =~= views_of(args@).take(
                    i as int,
                ));
                assert(views_of(args@).take(i as int + 1).last() == args@[i as int]@);
            }
            let p = crate::text::parse_u32(args[i].as_str());
            if number.is_none() && p.is_some() {
                number = p;
            } else if difficulty.is_none() {
                difficulty = Some(args[i].clone());
            }
            i += 1;
        }
        proof {
            assert(views_of(args@).take(n as int) =~= views_of(args@));
        }
        let number_of_questions = match number {
            Some(v) => v,
            None => DEFAULT_QUESTION_COUNT,
        };
        let difficulty = match difficulty {
            Some(d) => d,
            None => String::from_str("medium"),
        };
        OptionSet { number_of_questions, difficulty, category: String::from_str(""), channel }
    }
}

} // verus!
