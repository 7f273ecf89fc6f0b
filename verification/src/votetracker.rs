//! Per-round dedup sets: who has answered, who has voted to skip.
use vstd::prelude::*;

verus! {

/// The identities a sequence holds, as a set.
pub open spec fn set_of(s: Seq<u64>) -> Set<u64> {
    Set::new(|x: u64| s.contains(x))
}

fn contains_id(v: &Vec<u64>, user: u64) -> (r: bool)
    ensures
        r == v@.contains(user),
{
    let n = v.len();
    let mut i: usize = 0;
    while i < n
        invariant
            n == v@.len(),
            i <= n,
            forall|j: int| 0 <= j < i ==> v@[j] != user,
        decreases n - i,
    {
        if v[i] == user {
            return true;
        }
        i += 1;
    }
    false
}

/// Appending an identity inserts it into the set a sequence holds.
proof fn lemma_push_set(olds: Seq<u64>, news: Seq<u64>, user: u64)
    requires
        news == olds.push(user),
    ensures
        set_of(news) == set_of(olds).insert(user),
{
    assert forall|x: u64| #[trigger] news.contains(x) implies (olds.contains(x) || x == user) by {
        let k = choose|k: int| 0 <= k < news.len() && news[k] == x;
        if k < olds.len() {
            assert(olds[k] == x);
        }
    }
    assert forall|x: u64| #[trigger] olds.contains(x) implies news.contains(x) by {
        let k = choose|k: int| 0 <= k < olds.len() && olds[k] == x;
        assert(news[k] == x);
    }
    assert(news.contains(user)) by {
        assert(news[news.len() - 1] == user);
    }
    assert(set_of(news) =~= set_of(olds).insert(user));
}

/// The two dedup sets of one round.  Both are cleared together exactly when
/// the round advances.
pub struct VoteTracker {
    answered: Vec<u64>,
    skipped: Vec<u64>,
}

impl VoteTracker {
    /// Who has answered this round.
    pub closed spec fn answered(self) -> Set<u64> {
        set_of(self.answered@)
    }

    /// Who has voted to skip this round.
    pub closed spec fn skipped(self) -> Set<u64> {
        set_of(self.skipped@)
    }

    /// Makes a tracker with both sets empty.
    pub fn new() -> (r: VoteTracker)
        ensures
            r.answered() == Set::<u64>::empty(),
            r.skipped() == Set::<u64>::empty(),
    {
        let r = VoteTracker { answered: Vec::new(), skipped: Vec::new() };
        proof {
            assert(r.answered() =~= Set::<u64>::empty());
            assert(r.skipped() =~= Set::<u64>::empty());
        }
        r
    }

    /// Tells whether the participant has already answered this round, and
    /// marks them as having answered either way.
    pub fn has_answered(&mut self, user: u64) -> (r: bool)
        ensures
            r == old(self).answered().contains(user),
            final(self).answered() == old(self).answered().insert(user),
            final(self).skipped() == old(self).skipped(),
    {
        let seen = contains_id(&self.answered, user);
        if !seen {
            self.answered.push(user);
            proof {
                lemma_push_set(old(self).answered@, self.answered@, user);
            }
        } else {
            proof {
                assert(final(self).answered() =~= old(self).answered().insert(user));
            }
        }
        seen
    }

    /// Tells whether the participant has already voted to skip this round, and
    /// marks them as having voted either way.
    pub fn has_skipped(&mut self, user: u64) -> (r: bool)
        ensures
            r == old(self).skipped().contains(user),
            final(self).skipped() == old(self).skipped().insert(user),
            final(self).answered() == old(self).answered(),
    {
        let seen = contains_id(&self.skipped, user);
        if !seen {
            self.skipped.push(user);
            proof {
                lemma_push_set(old(self).skipped@, self.skipped@, user);
            }
        } else {
            proof {
                assert(final(self).skipped() =~= old(self).skipped().insert(user));
            }
        }
        seen
    }

    /// Empties both sets, as the round-advance transition requires.
    pub fn clear(&mut self)
        ensures
            final(self).answered() == Set::<u64>::empty(),
            final(self).skipped() == Set::<u64>::empty(),
    {
        self.answered.clear();
        self.skipped.clear();
        proof {
            assert(final(self).answered() =~= Set::<u64>::empty());
            assert(final(self).skipped() =~= Set::<u64>::empty());
        }
    }
}

} // verus!
