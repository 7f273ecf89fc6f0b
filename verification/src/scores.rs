//! Per-participant cumulative point totals for one session.
use vstd::prelude::*;

verus! {

use crate::chat::Participant;
use crate::text::dec_digits;

/// One participant's row: identity, last seen name, and total.
pub struct ScoreEntry {
    pub user_id: u64,
    pub user_name: String,
    pub score: u32,
}

/// Whether some row belongs to the identity.
pub open spec fn has_user(s: Seq<ScoreEntry>, id: u64) -> bool {
    exists|i: int| 0 <= i < s.len() && s[i].user_id == id
}

/// The position of the identity's row.
pub open spec fn idx_of(s: Seq<ScoreEntry>, id: u64) -> int {
    choose|i: int| 0 <= i < s.len() && s[i].user_id == id
}

/// One row per identity.
pub open spec fn unique_ids(s: Seq<ScoreEntry>) -> bool {
    forall|i: int, j: int| 0 <= i < j < s.len() ==> s[i].user_id != s[j].user_id
}

/// The identity's total in the rows; zero for one never seen.
pub open spec fn score_at(s: Seq<ScoreEntry>, id: u64) -> u32 {
    if has_user(s, id) {
        s[idx_of(s, id)].score
    } else {
        0
    }
}

/// The totals as a map over the identities seen so far.
pub open spec fn map_of(s: Seq<ScoreEntry>) -> Map<u64, u32> {
    Map::new(|id: u64| has_user(s, id), |id: u64| score_at(s, id))
}

/// A total raised by some points, capped at the type's ceiling.
pub open spec fn bump(score: u32, points: u32) -> u32 {
    if score + points <= u32::MAX {
        (score + points) as u32
    } else {
        u32::MAX
    }
}

/// The rows after one participant's total is raised: the row is updated in
/// place, or appended for a participant never seen.
pub open spec fn bumped(s: Seq<ScoreEntry>, user: Participant, points: u32) -> Seq<ScoreEntry> {
    if has_user(s, user.id) {
        s.update(
            idx_of(s, user.id),
            ScoreEntry {
                user_id: user.id,
                user_name: user.name,
                score: bump(score_at(s, user.id), points),
            },
        )
    } else {
        s.push(ScoreEntry { user_id: user.id, user_name: user.name, score: bump(0, points) })
    }
}

/// One rendered row of the score listing.
pub open spec fn score_row(e: ScoreEntry) -> Seq<char> {
    dec_digits(e.user_id as nat) + " - "@ + e.user_name@ + " - "@ + dec_digits(e.score as nat)
        + "\n"@
}

/// The rendered rows of the listing, in the order the rows stand.
pub open spec fn score_rows(s: Seq<ScoreEntry>) -> Seq<char>
    decreases s.len(),
{
    if s.len() == 0 {
        Seq::empty()
    } else {
        score_rows(s.drop_last()) + score_row(s.last())
    }
}

/// The whole listing: a heading, then one row per participant.
pub open spec fn render_scores(s: Seq<ScoreEntry>) -> Seq<char> {
    "Scores:\n"@ + score_rows(s)
}

/// The score list: one row per participant seen so far.
pub struct Scores {
    score_list: Vec<ScoreEntry>,
}

impl Scores {
    /// The rows, in insertion order.
    pub closed spec fn entries(self) -> Seq<ScoreEntry> {
        self.score_list@
    }

    /// Well-formedness: one row per identity.
    pub open spec fn wf(self) -> bool {
        unique_ids(self.entries())
    }

    /// The identity's total; zero for one never seen.
    pub open spec fn spec_score_of(self, id: u64) -> u32 {
        score_at(self.entries(), id)
    }

    /// The totals as a map.
    pub open spec fn as_map(self) -> Map<u64, u32> {
        map_of(self.entries())
    }

    /// Makes an empty score list.
    pub fn new() -> (r: Scores)
        ensures
            r.entries() == Seq::<ScoreEntry>::empty(),
            r.wf(),
            r.as_map() == Map::<u64, u32>::empty(),
    {
        let r = Scores { score_list: Vec::new() };
        proof {
            assert(r.as_map() =~= Map::<u64, u32>::empty());
        }
        r
    }

    /// The participant's total as a number; zero for one never seen.
    pub fn get_score(&self, user: &Participant) -> (r: u32)
        requires
            self.wf(),
        ensures
            r == self.spec_score_of(user.id),
    {
        let n = self.score_list.len();
        let mut i: usize = 0;
        while i < n
            invariant
                n == self.entries().len(),
                i <= n,
                self.wf(),
                forall|j: int| 0 <= j < i ==> self.entries()[j].user_id != user.id,
            decreases n - i,
        {
            if self.score_list[i].user_id == user.id {
                proof {
                    lemma_unique_idx(self.entries(), user.id, i as int);
                }
                return self.score_list[i].score;
            }
            i += 1;
        }
        0
    }

    /// Raises the participant's total by the given points, capped at the
    /// type's ceiling; a participant never seen starts from zero.  The row
    /// keeps the participant's latest name.
    pub fn increase_score(&mut self, user: Participant, points: u32)
        requires
            old(self).wf(),
        ensures
            final(self).wf(),
            final(self).entries() == bumped(old(self).entries(), user, points),
            final(self).as_map() == old(self).as_map().insert(
                user.id,
                bump(old(self).spec_score_of(user.id), points),
            ),
    {
        let ghost olds = self.entries();
        let n = self.score_list.len();
        let mut i: usize = 0;
        while i < n
            invariant
                n == self.entries().len(),
                i <= n,
                unique_ids(olds),
                olds == old(self).entries(),
                self.entries() == olds,
                forall|j: int| 0 <= j < i ==> self.entries()[j].user_id != user.id,
            decreases n - i,
        {
            if self.score_list[i].user_id == user.id {
                proof {
                    lemma_unique_idx(olds, user.id, i as int);
                }
                let old_score = self.score_list[i].score;
                let new_score = if old_score <= u32::MAX - points {
                    old_score + points
                } else {
                    u32::MAX
                };
                self.score_list[i] = ScoreEntry {
                    user_id: user.id,
                    user_name: user.name,
                    score: new_score,
                };
                proof {
                    lemma_update_map(olds, self.entries(), user.id, i as int, new_score);
                }
                return ;
            }
            i += 1;
        }
        let new_score = if points <= u32::MAX {
            points
        } else {
            u32::MAX
        };
        self.score_list.push(ScoreEntry {
            user_id: user.id,
            user_name: user.name,
            score: new_score,
        });
        proof {
            lemma_push_map(olds, self.entries(), user.id, new_score);
        }
    }

    /// Renders the listing: a heading, then one "id - name - score" row per
    /// participant, in insertion order.
    pub fn output_scores(&self) -> (r: String)
        ensures
            r@ == render_scores(self.entries()),
    {
        let n = self.score_list.len();
        let mut out = String::from_str("Scores:\n");
        let mut i: usize = 0;
        while i < n
            invariant
                n == self.entries().len(),
                i <= n,
                out@ == "Scores:\n"@ + score_rows(self.entries().take(i as int)),
            decreases n - i,
        {
            proof {
                let s = self.entries();
                assert(s.take(i as int + 1).drop_last() =~= s.take(i as int));
                assert(s.take(i as int + 1).last() == s[i as int]);
            }
            let e = &self.score_list[i];
            out.append(crate::text::u64_to_string(e.user_id).as_str());
            out.append(" - ");
            out.append(e.user_name.as_str());
            out.append(" - ");
            out.append(crate::text::u32_to_string(e.score).as_str());
            out.append("\n");
            i += 1;
        }
        proof {
            assert(self.entries().take(n as int) =~= self.entries());
        }
        out
    }
}

/// With one row per identity, a position holding the identity is the position
/// the specification picks.
proof fn lemma_unique_idx(s: Seq<ScoreEntry>, id: u64, i: int)
    requires
        unique_ids(s),
        0 <= i < s.len(),
        s[i].user_id == id,
    ensures
        has_user(s, id),
        idx_of(s, id) == i,
        score_at(s, id) == s[i].score,
{
    assert(has_user(s, id));
    let k = idx_of(s, id);
    if k != i {
        assert(s[k].user_id == s[i].user_id);
        assert(false);
    }
}

/// Updating the identity's row in place inserts the new total into the map.
proof fn lemma_update_map(olds: Seq<ScoreEntry>, news: Seq<ScoreEntry>, id: u64, i: int, sc: u32)
    requires
        unique_ids(olds),
        0 <= i < olds.len(),
        olds[i].user_id == id,
        news.len() == olds.len(),
        news[i].user_id == id,
        news[i].score == sc,
        forall|j: int| 0 <= j < olds.len() && j != i ==> news[j] == olds[j],
    ensures
        unique_ids(news),
        map_of(news) == map_of(olds).insert(id, sc),
{
    assert forall|a: int, b: int| 0 <= a < b < news.len() implies news[a].user_id
        != news[b].user_id by {
        assert(news[a].user_id == olds[a].user_id);
        assert(news[b].user_id == olds[b].user_id);
    }
    assert forall|x: u64| #[trigger] has_user(news, x) implies has_user(olds, x) by {
        let k = choose|k: int| 0 <= k < news.len() && news[k].user_id == x;
        assert(olds[k].user_id == x);
    }
    assert forall|x: u64| #[trigger] has_user(olds, x) implies has_user(news, x) by {
        let k = choose|k: int| 0 <= k < olds.len() && olds[k].user_id == x;
        assert(news[k].user_id == x);
    }
    assert forall|x: u64| has_user(news, x) implies #[trigger] score_at(news, x) == (if x == id {
        sc
    } else {
        score_at(olds, x)
    }) by {
        let k = idx_of(news, x);
        assert(0 <= k < news.len() && news[k].user_id == x);
        lemma_unique_idx(olds, x, k);
        if x == id {
            lemma_unique_idx(olds, id, i);
            if k != i {
                assert(news[k].user_id == olds[k].user_id);
                assert(false);
            }
        } else {
            assert(k != i);
        }
    }
    assert(map_of(news) =~= map_of(olds).insert(id, sc));
}

/// Appending a fresh identity's row inserts its total into the map.
proof fn lemma_push_map(olds: Seq<ScoreEntry>, news: Seq<ScoreEntry>, id: u64, sc: u32)
    requires
        unique_ids(olds),
        !has_user(olds, id),
        news.len() == olds.len() + 1,
        news.last().user_id == id,
        news.last().score == sc,
        forall|j: int| 0 <= j < olds.len() ==> news[j] == olds[j],
    ensures
        unique_ids(news),
        map_of(news) == map_of(olds).insert(id, sc),
{
    assert forall|a: int, b: int| 0 <= a < b < news.len() implies news[a].user_id
        != news[b].user_id by {
        if b == news.len() - 1 {
            if news[a].user_id == id {
                assert(olds[a].user_id == id);
                assert(has_user(olds, id));
            }
        } else {
            assert(news[a].user_id == olds[a].user_id);
            assert(news[b].user_id == olds[b].user_id);
        }
    }
    assert forall|x: u64| #[trigger] has_user(news, x) implies (has_user(olds, x) || x == id) by {
        let k = choose|k: int| 0 <= k < news.len() && news[k].user_id == x;
        if k < olds.len() {
            assert(olds[k].user_id == x);
        }
    }
    assert forall|x: u64| #[trigger] has_user(olds, x) implies has_user(news, x) by {
        let k = choose|k: int| 0 <= k < olds.len() && olds[k].user_id == x;
        assert(news[k].user_id == x);
    }
    assert(has_user(news, id)) by {
        assert(news[news.len() - 1].user_id == id);
    }
    assert forall|x: u64| has_user(news, x) implies #[trigger] score_at(news, x) == (if x == id {
        sc
    } else {
        score_at(olds, x)
    }) by {
        let k = idx_of(news, x);
        assert(0 <= k < news.len() && news[k].user_id == x);
        if x == id {
            if k != news.len() - 1 {
                assert(olds[k].user_id == id);
                assert(has_user(olds, id));
            }
        } else {
            assert(k != news.len() - 1);
            lemma_unique_idx(olds, x, k);
        }
    }
    assert(map_of(news) =~= map_of(olds).insert(id, sc));
}

} // verus!
