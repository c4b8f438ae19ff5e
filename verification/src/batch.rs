//! One load batch: the shared ledger together with the completion poller's
//! state machine.
//!
//! The poller has two states, `Polling` and `Done`. Each tick inspects the
//! ledger, reports progress, and moves to `Done` exactly when every entry is
//! terminal. The batch is consumed by `finish`, which hands the fully
//! resolved ledger out by ownership, so the completion step happens at most
//! once per batch.

use vstd::prelude::*;
use crate::outcome::FetchError;
use crate::outcome::LoadOutcome;
use crate::result_map::ResultMap;
use crate::result_map::lemma_count_terminal_full;
use crate::result_map::lemma_count_terminal_le;

verus! {

/// The completion poller's state.
pub enum PollState {
    Polling,
    Done,
}

/// The progress sampled by one poll tick: `resolved` of `total` entries have
/// reached a terminal outcome. The ratio `resolved / total` is the fraction
/// reported to a progress observer; it always lies in [0, 1].
pub struct Progress {
    pub resolved: usize,
    pub total: usize,
}

/// One invocation of the loader over a fixed set of resource identifiers.
pub struct LoadBatch {
    map: ResultMap,
    state: PollState,
}

impl LoadBatch {
    /// The batch's ledger.
    pub closed spec fn ledger(&self) -> ResultMap {
        self.map
    }

    /// Whether the poller has reached its terminal `Done` state.
    pub closed spec fn done(&self) -> bool {
        self.state is Done
    }

    /// Well-formed: the ledger's keys are unique, and the poller reaches
    /// `Done` only over a fully resolved ledger.
    pub open spec fn wf(&self) -> bool {
        &&& self.ledger().wf()
        &&& self.done() ==> self.ledger().all_resolved()
    }

    /// Wraps a freshly seeded ledger; the poller starts out `Polling`.
    pub(crate) fn from_map(map: ResultMap) -> (b: LoadBatch)
        requires
            map.wf(),
        ensures
            b.wf(),
            !b.done(),
            b.ledger() == map,
    {
        LoadBatch { map, state: PollState::Polling }
    }

    /// Records the result one fetch came back with: bytes on success, the
    /// platform error on failure. Either way the entry for `path` becomes
    /// terminal — a failed fetch never stalls the batch.
    ///
    /// The write is guarded: an entry that is already terminal stays exactly
    /// as it is (write-once), and an identifier outside the seeded key set is
    /// ignored, so the key set fixed at batch start never changes.
    pub fn resolve(&mut self, path: &String, result: Result<Vec<u8>, FetchError>)
        requires
            old(self).wf(),
        ensures
            final(self).wf(),
            final(self).done() == old(self).done(),
            final(self).ledger().ids() == old(self).ledger().ids(),
            forall|i: int|
                0 <= i < old(self).ledger().outcomes().len() && old(self).ledger().ids()[i]
                    != path@ ==> final(self).ledger().outcomes()[i] == old(
                    self,
                ).ledger().outcomes()[i],
            forall|i: int|
                0 <= i < old(self).ledger().outcomes().len() && old(self).ledger().ids()[i]
                    == path@ ==> final(self).ledger().outcomes()[i] == (if old(
                    self,
                ).ledger().outcomes()[i] is Pending {
                    outcome_of_result(result)
                } else {
                    old(self).ledger().outcomes()[i]
                }),
            old(self).ledger().contains_id(path@) && old(self).ledger().outcome_of(
                path@,
            ) is Pending ==> final(self).ledger().resolved_count() == old(
                self,
            ).ledger().resolved_count() + 1,
            !(old(self).ledger().contains_id(path@) && old(self).ledger().outcome_of(
                path@,
            ) is Pending) ==> final(self).ledger().outcomes() == old(self).ledger().outcomes(),
            final(self).ledger().resolved_count() >= old(self).ledger().resolved_count(),
    {
        let outcome = match result {
            Ok(bytes) => LoadOutcome::Success(bytes),
            Err(e) => LoadOutcome::Failure(e),
        };
        self.map.resolve(path, outcome);
    }

    /// One poll tick: samples the ledger and reports progress. The ledger
    /// itself is never written by the poller. The poller moves to `Done`
    /// exactly when every entry is terminal; a batch with no entries is
    /// vacuously resolved and completes on its first tick.
    ///
    /// The tick reads the ledger through the batch's own exclusive borrow, so
    /// unlike a poller sampling a ledger shared by reference counting it can
    /// never fail to acquire it — there is no contended read to mistake for
    /// completion.
    pub fn tick(&mut self) -> (p: Progress)
        requires
            old(self).wf(),
            !old(self).done(),
        ensures
            final(self).wf(),
            final(self).ledger() == old(self).ledger(),
            p.resolved == old(self).ledger().resolved_count(),
            p.total == old(self).ledger().total(),
            p.resolved <= p.total,
            final(self).done() <==> old(self).ledger().all_resolved(),
    {
        let resolved = self.map.count_resolved();
        let total = self.map.len();
        proof {
            lemma_count_terminal_le(
                self.map.outcomes(),
                self.map.outcomes().len() as int,
            );
            lemma_count_terminal_full(
                self.map.outcomes(),
                self.map.outcomes().len() as int,
            );
        }
        if resolved == total {
            self.state = PollState::Done;
        }
        Progress { resolved, total }
    }

    /// Whether the batch has completed.
    pub fn is_done(&self) -> (b: bool)
        ensures
            b == self.done(),
    {
        match self.state {
            PollState::Done => true,
            PollState::Polling => false,
        }
    }

    /// Hands the fully resolved ledger to the caller. Consuming the batch
    /// here is what makes the completion step fire at most once.
    pub fn finish(self) -> (m: ResultMap)
        requires
            self.wf(),
            self.done(),
        ensures
            m == self.ledger(),
            m.wf(),
            m.all_resolved(),
    {
        self.map
    }
}

/// The terminal outcome a fetch result is recorded as.
pub open spec fn outcome_of_result(result: Result<Vec<u8>, FetchError>) -> LoadOutcome {
    match result {
        Ok(bytes) => LoadOutcome::Success(bytes),
        Err(e) => LoadOutcome::Failure(e),
    }
}

/// Law: the progress ratio never exceeds one — the resolved count is bounded
/// by the total seeded at batch start.
pub proof fn lemma_progress_bounded(m: ResultMap)
    requires
        m.wf(),
    ensures
        m.resolved_count() <= m.total(),
{
    lemma_count_terminal_le(m.outcomes(), m.outcomes().len() as int);
}

/// Law: once every requested identifier carries a terminal outcome, the
/// ledger is fully resolved, so the next poll tick moves the batch to `Done`.
pub proof fn lemma_done_after_all_resolved(m: ResultMap)
    requires
        m.wf(),
        forall|id: Seq<char>| m.contains_id(id) ==> m.outcome_of(id).is_terminal(),
    ensures
        m.all_resolved(),
{
    assert forall|i: int| 0 <= i < m.outcomes().len() implies m.outcomes()[i].is_terminal() by {
        let id = m.ids()[i];
        assert(m.contains_id(id)) by {
            assert(m.ids()[i] == id);
        }
        m.lemma_index_of(id);
        assert(m.index_of(id) == i);
        assert(m.outcome_of(id) == m.outcomes()[i]);
    }
}

} // verus!
