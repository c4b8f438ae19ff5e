//! The shared ledger of one load batch: a mapping from resource identifier
//! to the outcome of its fetch, with one entry per requested identifier.

use vstd::prelude::*;
use crate::outcome::Error;
use crate::outcome::LoadOutcome;

verus! {

/// Counts the terminal outcomes among the first `n` elements of `s`.
pub open spec fn count_terminal_upto(s: Seq<LoadOutcome>, n: int) -> nat
    decreases n,
{
    if n <= 0 {
        0
    } else {
        count_terminal_upto(s, n - 1) + (if s[n - 1].is_terminal() {
            1nat
        } else {
            0nat
        })
    }
}

/// The count of terminal outcomes never exceeds the number counted over.
pub proof fn lemma_count_terminal_le(s: Seq<LoadOutcome>, n: int)
    requires
        0 <= n,
    ensures
        count_terminal_upto(s, n) <= n,
    decreases n,
{
    if n > 0 {
        lemma_count_terminal_le(s, n - 1);
    }
}

/// The count reaches `n` exactly when every counted outcome is terminal.
pub proof fn lemma_count_terminal_full(s: Seq<LoadOutcome>, n: int)
    requires
        0 <= n,
    ensures
        count_terminal_upto(s, n) == n <==> (forall|i: int| 0 <= i < n ==> s[i].is_terminal()),
    decreases n,
{
    if n > 0 {
        lemma_count_terminal_full(s, n - 1);
        lemma_count_terminal_le(s, n - 1);
    }
}

/// Two sequences that agree on their first `n` elements count alike.
pub proof fn lemma_count_terminal_agree(s1: Seq<LoadOutcome>, s2: Seq<LoadOutcome>, n: int)
    requires
        0 <= n,
        forall|i: int| 0 <= i < n ==> s1[i] == s2[i],
    ensures
        count_terminal_upto(s1, n) == count_terminal_upto(s2, n),
    decreases n,
{
    if n > 0 {
        lemma_count_terminal_agree(s1, s2, n - 1);
    }
}

/// Overwriting one pending outcome with a terminal one raises the count by one;
/// any other point update that keeps the element's terminality keeps the count.
pub proof fn lemma_count_terminal_update(s: Seq<LoadOutcome>, k: int, v: LoadOutcome, n: int)
    requires
        0 <= k < s.len(),
        0 <= n <= s.len(),
    ensures
        k < n && !s[k].is_terminal() && v.is_terminal() ==> count_terminal_upto(
            s.update(k, v),
            n,
        ) == count_terminal_upto(s, n) + 1,
        k < n && s[k].is_terminal() == v.is_terminal() ==> count_terminal_upto(s.update(k, v), n)
            == count_terminal_upto(s, n),
        n <= k ==> count_terminal_upto(s.update(k, v), n) == count_terminal_upto(s, n),
    decreases n,
{
    if n > 0 {
        lemma_count_terminal_update(s, k, v, n - 1);
    }
}

/// The ledger: one entry per requested resource identifier, each holding the
/// current outcome of that resource's fetch. Seeded once at batch start; after
/// seeding the key set never changes, and each entry is overwritten at most
/// once, from `Pending` to a terminal outcome.
pub struct ResultMap {
    entries: Vec<(String, LoadOutcome)>,
}

impl ResultMap {
    /// The requested identifiers, in seeding order.
    pub closed spec fn ids(&self) -> Seq<Seq<char>> {
        self.entries@.map_values(|e: (String, LoadOutcome)| e.0@)
    }

    /// The outcomes, positionally aligned with `ids`.
    pub closed spec fn outcomes(&self) -> Seq<LoadOutcome> {
        self.entries@.map_values(|e: (String, LoadOutcome)| e.1)
    }

    /// The fixed denominator of the progress ratio: how many entries were seeded.
    pub open spec fn total(&self) -> nat {
        self.ids().len()
    }

    /// Well-formed: one entry per identifier, outcomes aligned with identifiers.
    pub open spec fn wf(&self) -> bool {
        &&& self.outcomes().len() == self.ids().len()
        &&& forall|i: int, j: int|
            0 <= i < j < self.ids().len() ==> self.ids()[i] != self.ids()[j]
    }

    pub open spec fn contains_id(&self, id: Seq<char>) -> bool {
        self.ids().contains(id)
    }

    /// The position of `id` among the seeded identifiers.
    pub open spec fn index_of(&self, id: Seq<char>) -> int {
        choose|i: int| 0 <= i < self.ids().len() && self.ids()[i] == id
    }

    /// The outcome currently recorded for `id`.
    pub open spec fn outcome_of(&self, id: Seq<char>) -> LoadOutcome {
        self.outcomes()[self.index_of(id)]
    }

    /// Every entry has reached a terminal outcome.
    pub open spec fn all_resolved(&self) -> bool {
        forall|i: int| 0 <= i < self.outcomes().len() ==> self.outcomes()[i].is_terminal()
    }

    /// The numerator of the progress ratio: how many entries are terminal.
    pub open spec fn resolved_count(&self) -> nat {
        count_terminal_upto(self.outcomes(), self.outcomes().len() as int)
    }

    /// In a well-formed ledger the position of a contained identifier is unique.
    pub proof fn lemma_index_of(&self, id: Seq<char>)
        requires
            self.wf(),
            self.contains_id(id),
        ensures
            0 <= self.index_of(id) < self.total(),
            self.ids()[self.index_of(id)] == id,
            forall|j: int| 0 <= j < self.total() && self.ids()[j] == id ==> j == self.index_of(id),
    {
        let w = choose|i: int| 0 <= i < self.ids().len() && self.ids()[i] == id;
        assert(0 <= w < self.ids().len() && self.ids()[w] == id);
    }

    pub(crate) fn new() -> (m: ResultMap)
        ensures
            m.wf(),
            m.ids() == Seq::<Seq<char>>::empty(),
            m.outcomes() == Seq::<LoadOutcome>::empty(),
    {
        let m = ResultMap { entries: Vec::new() };
        proof {
            assert(m.ids() =~= Seq::<Seq<char>>::empty());
            assert(m.outcomes() =~= Seq::<LoadOutcome>::empty());
        }
        m
    }

    /// The number of seeded entries.
    pub fn len(&self) -> (n: usize)
        ensures
            n == self.total(),
    {
        self.entries.len()
    }

    fn position_of(&self, path: &String) -> (r: Option<usize>)
        ensures
            match r {
                Some(i) => 0 <= i < self.ids().len() && self.ids()[i as int] == path@,
                None => !self.contains_id(path@),
            },
    {
        let n = self.entries.len();
        let mut i: usize = 0;
        while i < n
            invariant
                0 <= i <= n,
                n == self.ids().len(),
                forall|j: int| 0 <= j < i ==> self.ids()[j] != path@,
            decreases n - i,
        {
            if self.entries[i].0 == *path {
                return Some(i);
            }
            i = i + 1;
        }
        proof {
            assert(forall|j: int|
                0 <= j < self.ids().len() ==> self.ids()[j] != path@);
        }
        None
    }

    /// Seeds one `Pending` entry for `path`; a second request for an already
    /// seeded identifier leaves the ledger unchanged, so keys stay unique.
    pub(crate) fn seed(&mut self, path: &String)
        requires
            old(self).wf(),
        ensures
            final(self).wf(),
            old(self).contains_id(path@) ==> final(self).ids() == old(self).ids()
                && final(self).outcomes() == old(self).outcomes(),
            !old(self).contains_id(path@) ==> final(self).ids() == old(self).ids().push(path@)
                && final(self).outcomes() == old(self).outcomes().push(LoadOutcome::Pending),
    {
        if self.position_of(path).is_none() {
            self.entries.push((path.clone(), LoadOutcome::Pending));
            proof {
                assert(self.ids() =~= old(self).ids().push(path@));
                assert(self.outcomes() =~= old(self).outcomes().push(LoadOutcome::Pending));
                assert forall|i: int, j: int|
                    0 <= i < j < self.ids().len() implies self.ids()[i] != self.ids()[j] by {
                    if j == self.ids().len() - 1 {
                        if self.ids()[i] == path@ {
                            assert(old(self).ids().contains(path@)) by {
                                assert(old(self).ids()[i] == path@);
                            }
                        }
                    }
                }
            }
        }
    }

    /// Records the terminal `outcome` for `path`. The write happens only when
    /// the entry exists and is still `Pending`: a terminal entry is never
    /// overwritten, and an identifier that was never seeded is never added.
    pub(crate) fn resolve(&mut self, path: &String, outcome: LoadOutcome)
        requires
            old(self).wf(),
            outcome.is_terminal(),
        ensures
            final(self).wf(),
            final(self).ids() == old(self).ids(),
            forall|i: int|
                0 <= i < old(self).outcomes().len() && old(self).ids()[i] != path@
                    ==> final(self).outcomes()[i] == old(self).outcomes()[i],
            forall|i: int|
                0 <= i < old(self).outcomes().len() && old(self).ids()[i] == path@
                    ==> final(self).outcomes()[i] == (if old(self).outcomes()[i] is Pending {
                    outcome
                } else {
                    old(self).outcomes()[i]
                }),
            old(self).contains_id(path@) && old(self).outcome_of(path@) is Pending
                ==> final(self).resolved_count() == old(self).resolved_count() + 1,
            !(old(self).contains_id(path@) && old(self).outcome_of(path@) is Pending)
                ==> final(self).outcomes() == old(self).outcomes(),
            final(self).resolved_count() >= old(self).resolved_count(),
    {
        let ghost pre = *self;
        match self.position_of(path) {
            None => {},
            Some(i) => {
                proof {
                    pre.lemma_index_of(path@);
                    assert(pre.contains_id(path@)) by {
                        assert(pre.ids()[i as int] == path@);
                    }
                    assert(pre.index_of(path@) == i as int);
                }
                let write = match &self.entries[i].1 {
                    LoadOutcome::Pending => true,
                    _ => false,
                };
                if write {
                    let id_copy = self.entries[i].0.clone();
                    self.entries.set(i, (id_copy, outcome));
                    proof {
                        assert(self.ids() =~= pre.ids());
                        assert(self.outcomes() =~= pre.outcomes().update(i as int, outcome));
                        lemma_count_terminal_update(
                            pre.outcomes(),
                            i as int,
                            outcome,
                            pre.outcomes().len() as int,
                        );
                        lemma_count_terminal_agree(
                            self.outcomes(),
                            pre.outcomes().update(i as int, outcome),
                            pre.outcomes().len() as int,
                        );
                    }
                } else {
                    proof {
                        assert(self.outcomes() =~= pre.outcomes());
                        assert(!(pre.outcome_of(path@) is Pending));
                    }
                }
            }
        }
    }

    /// How many entries are terminal right now.
    pub fn count_resolved(&self) -> (n: usize)
        ensures
            n == self.resolved_count(),
    {
        let len = self.entries.len();
        let mut n: usize = 0;
        let mut i: usize = 0;
        while i < len
            invariant
                0 <= i <= len,
                len == self.outcomes().len(),
                n == count_terminal_upto(self.outcomes(), i as int),
                n <= i,
            decreases len - i,
        {
            let terminal = match &self.entries[i].1 {
                LoadOutcome::Pending => false,
                _ => true,
            };
            if terminal {
                n = n + 1;
            }
            i = i + 1;
        }
        n
    }

    /// Looks up the bytes recorded for `path`.
    ///
    /// Returns `Error::NotLoaded` when `path` was never requested or its fetch
    /// has not resolved yet, `Error::LoadFailed` when the fetch terminated in
    /// failure, and otherwise a reference to the exact bytes that were fetched.
    pub fn get<'a>(&'a self, path: &String) -> (r: Result<&'a Vec<u8>, Error>)
        requires
            self.wf(),
        ensures
            r is Ok <==> self.contains_id(path@) && self.outcome_of(path@) is Success,
            r matches Ok(bytes) ==> self.outcome_of(path@) == LoadOutcome::Success(*bytes),
            r matches Err(e) ==> match e {
                Error::NotLoaded => !self.contains_id(path@) || self.outcome_of(path@) is Pending,
                Error::LoadFailed => self.contains_id(path@) && self.outcome_of(
                    path@,
                ) is Failure,
                Error::Image(_) => false,
            },
    {
        match self.position_of(path) {
            None => Err(Error::NotLoaded),
            Some(i) => {
                proof {
                    assert(self.contains_id(path@)) by {
                        assert(self.ids()[i as int] == path@);
                    }
                    self.lemma_index_of(path@);
                    assert(self.index_of(path@) == i as int);
                }
                match &self.entries[i].1 {
                    LoadOutcome::Pending => Err(Error::NotLoaded),
                    LoadOutcome::Failure(_) => Err(Error::LoadFailed),
                    LoadOutcome::Success(bytes) => Ok(bytes),
                }
            }
        }
    }
}

} // verus!
