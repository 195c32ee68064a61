//! The staking change log of one subnet: changes wait until every earlier
//! configuration number has had its turn, and are then applied in order.

use crate::staking::{
    apply_all, apply_one, distinct_validators, has_distinct_validators, outcome_of, set_model, ChangeModel, ChangeOutcome,
    EntryModel, StakingChange, StakingChangeRequest, ValidatorSetEntry,
};
use std::collections::HashMap;
use vstd::prelude::*;

verus! {

broadcast use vstd::std_specs::hash::group_hash_axioms;

/// What an `enqueue` did with a request.
#[derive(Clone, Copy, Debug, PartialEq, Eq, Structural)]
pub enum EnqueueOutcome {
    /// The number has had its turn already: the request is dropped.
    Stale,
    /// The request now waits for its turn.
    Buffered,
    /// The same change already waits under this number.
    AlreadyPending,
}

/// A different change already waits under this configuration number.
#[derive(Clone, Copy, Debug, PartialEq, Eq, Structural)]
pub struct DuplicateConfigurationNumber {
    pub configuration_number: u64,
}

/// A change that had its turn, and what became of it.
#[derive(Clone, Debug, PartialEq, Eq)]
pub struct AppliedChange {
    pub request: StakingChangeRequest,
    pub outcome: ChangeOutcome,
}

/// What a `drain_applicable` did: the changes that had their turn, in
/// order, and the frontier after them.
#[derive(Clone, Debug, PartialEq, Eq)]
pub struct DrainReport {
    pub applied: Vec<AppliedChange>,
    pub frontier: u64,
}

/// The staking change log of one subnet.
#[derive(Clone, Debug)]
pub struct StakingChangeLog {
    /// The last configuration number that had its turn; 0 before the first.
    pub applied_frontier: u64,
    /// The changes that wait, by configuration number.
    pub pending: HashMap<u64, StakingChange>,
    /// The validators' records after the changes that had their turn.
    pub validator_set: Vec<ValidatorSetEntry>,
}

/// What a staking change log is, as a mathematical value.
pub struct LogModel {
    pub frontier: u64,
    pub pending: Map<u64, ChangeModel>,
    pub validators: Seq<EntryModel>,
}

/// The changes that wait, each as a mathematical value.
pub open spec fn pending_model(pending: Map<u64, StakingChange>) -> Map<u64, ChangeModel> {
    Map::new(|n: u64| pending.contains_key(n), |n: u64| pending[n]@)
}

impl View for StakingChangeLog {
    type V = LogModel;

    open spec fn view(&self) -> LogModel {
        LogModel {
            frontier: self.applied_frontier,
            pending: pending_model(self.pending@),
            validators: set_model(self.validator_set@),
        }
    }
}

/// Every change that waits has a number past the frontier, and no validator
/// has two records.
pub open spec fn log_well_formed(log: LogModel) -> bool {
    &&& forall|n: u64| #[trigger] log.pending.contains_key(n) ==> n > log.frontier
    &&& distinct_validators(log.validators)
}

/// The log after a request was handed to it. A number that had its turn, or
/// under which a change already waits, leaves the log as it was.
pub open spec fn log_after_enqueue(log: LogModel, number: u64, change: ChangeModel) -> LogModel {
    if number > log.frontier && !log.pending.contains_key(number) {
        LogModel { pending: log.pending.insert(number, change), ..log }
    } else {
        log
    }
}

/// What `enqueue` answers to a request.
pub open spec fn enqueue_answer(log: LogModel, number: u64, change: ChangeModel) -> Result<
    EnqueueOutcome,
    DuplicateConfigurationNumber,
> {
    if number <= log.frontier {
        Ok(EnqueueOutcome::Stale)
    } else if !log.pending.contains_key(number) {
        Ok(EnqueueOutcome::Buffered)
    } else if log.pending[number] == change {
        Ok(EnqueueOutcome::AlreadyPending)
    } else {
        Err(DuplicateConfigurationNumber { configuration_number: number })
    }
}

/// Changes wait under each of the `count` numbers that follow the frontier.
pub open spec fn run_waits(pending: Map<u64, ChangeModel>, frontier: u64, count: nat) -> bool {
    &&& frontier + count <= u64::MAX
    &&& forall|n: u64| frontier < n <= frontier + count ==> #[trigger] pending.contains_key(n)
}

/// The changes under the `count` numbers that follow the frontier, in the
/// order of their numbers.
pub open spec fn run_changes(pending: Map<u64, ChangeModel>, frontier: u64, count: nat) -> Seq<
    ChangeModel,
> {
    Seq::new(count, |i: int| pending[(frontier + 1 + i) as u64])
}

/// The changes that still wait once the numbers up to `frontier` had their turn.
pub open spec fn pending_past(pending: Map<u64, ChangeModel>, frontier: u64) -> Map<
    u64,
    ChangeModel,
> {
    Map::new(|n: u64| pending.contains_key(n) && n > frontier, |n: u64| pending[n])
}

impl StakingChangeLog {
    /// See `log_well_formed`.
    pub open spec fn wf(&self) -> bool {
        log_well_formed(self@)
    }

    /// A log in which no change has had its turn and none waits.
    pub fn new() -> (log: StakingChangeLog)
        ensures
            log.wf(),
            log@.frontier == 0,
            log@.pending == Map::<u64, ChangeModel>::empty(),
            log@.validators == Seq::<EntryModel>::empty(),
    {
        let log = StakingChangeLog {
            applied_frontier: 0,
            pending: HashMap::new(),
            validator_set: Vec::new(),
        };
        proof {
            assert(log@.pending =~= Map::<u64, ChangeModel>::empty());
            assert(log@.validators =~= Seq::<EntryModel>::empty());
        }
        log
    }

    /// The log as it stood when its state was last stored: the frontier and
    /// the validators' records, with no change waiting. Records in which a
    /// validator occurs twice are refused.
    pub fn restore(applied_frontier: u64, validator_set: Vec<ValidatorSetEntry>) -> (log: Option<
        StakingChangeLog,
    >)
        ensures
            log is Some == distinct_validators(set_model(validator_set@)),
            log matches Some(restored) ==> restored.wf() && restored@.frontier == applied_frontier
                && restored@.pending == Map::<u64, ChangeModel>::empty()
                && restored.validator_set == validator_set,
    {
        if !has_distinct_validators(&validator_set) {
            return None;
        }
        let restored = StakingChangeLog {
            applied_frontier,
            pending: HashMap::new(),
            validator_set,
        };
        proof {
            assert(restored@.pending =~= Map::<u64, ChangeModel>::empty());
        }
        Some(restored)
    }

    /// Hands a request to the log. One whose number had its turn is dropped.
    /// Otherwise it waits under its number, unless a change waits there
    /// already: the same change is then dropped, a different one is an error.
    /// No change gets its turn here.
    pub fn enqueue(&mut self, request: StakingChangeRequest) -> (answer: Result<
        EnqueueOutcome,
        DuplicateConfigurationNumber,
    >)
        requires
            old(self).wf(),
        ensures
            final(self).wf(),
            answer == enqueue_answer(
                old(self)@,
                request.configuration_number,
                request.change@,
            ),
            final(self)@ == log_after_enqueue(
                old(self)@,
                request.configuration_number,
                request.change@,
            ),
    {
        let number: u64 = request.configuration_number;
        if number <= self.applied_frontier {
            return Ok(EnqueueOutcome::Stale);
        }
        match self.pending.get(&number) {
            Some(waiting) => {
                if waiting.same_as(&request.change) {
                    Ok(EnqueueOutcome::AlreadyPending)
                } else {
                    Err(DuplicateConfigurationNumber { configuration_number: number })
                }
            },
            None => {
                self.pending.insert(number, request.change);
                proof {
                    assert(final(self)@.pending =~= old(self)@.pending.insert(
                        number,
                        request.change@,
                    ));
                }
                Ok(EnqueueOutcome::Buffered)
            },
        }
    }

    /// Gives their turn to the changes that wait under the numbers that
    /// follow the frontier without a gap, in the order of their numbers, and
    /// moves the frontier past them. A change uses up its number whatever
    /// becomes of it. Changes past the first gap go on waiting.
    pub fn drain_applicable(&mut self) -> (report: DrainReport)
        requires
            old(self).wf(),
        ensures
            final(self).wf(),
            run_waits(old(self)@.pending, old(self)@.frontier, report.applied@.len()),
            !run_waits(old(self)@.pending, old(self)@.frontier, report.applied@.len() + 1),
            report.frontier == old(self)@.frontier + report.applied@.len(),
            final(self)@.frontier == report.frontier,
            forall|i: int|
                0 <= i < report.applied@.len() ==> old(self)@.frontier < (
                #[trigger] report.applied@[i]).request.configuration_number <= report.frontier,
            final(self)@.pending == pending_past(old(self)@.pending, report.frontier),
            final(self)@.validators == apply_all(
                old(self)@.validators,
                run_changes(old(self)@.pending, old(self)@.frontier, report.applied@.len()),
            ),
            forall|i: int|
                0 <= i < report.applied@.len() ==> {
                    let turn = #[trigger] report.applied@[i];
                    &&& turn.request.configuration_number == old(self)@.frontier + 1 + i
                    &&& turn.request.change@ == old(self)@.pending[(old(self)@.frontier + 1
                        + i) as u64]
                    &&& turn.outcome == outcome_of(
                        apply_all(
                            old(self)@.validators,
                            run_changes(old(self)@.pending, old(self)@.frontier, i as nat),
                        ),
                        turn.request.change@,
                    )
                },
    {
        let ghost start = self@;
        let mut applied: Vec<AppliedChange> = Vec::new();
        let mut more: bool = true;
        proof {
            assert(self@.pending =~= pending_past(start.pending, self.applied_frontier));
            assert(run_changes(start.pending, start.frontier, 0) =~= Seq::<ChangeModel>::empty());
        }
        while more
            invariant
                self.wf(),
                log_well_formed(start),
                start.frontier + applied@.len() == self.applied_frontier,
                run_waits(start.pending, start.frontier, applied@.len()),
                !more ==> !run_waits(start.pending, start.frontier, applied@.len() + 1),
                self@.pending == pending_past(start.pending, self.applied_frontier),
                self@.validators == apply_all(
                    start.validators,
                    run_changes(start.pending, start.frontier, applied@.len()),
                ),
                forall|i: int|
                    0 <= i < applied@.len() ==> {
                        let turn = #[trigger] applied@[i];
                        &&& turn.request.configuration_number == start.frontier + 1 + i
                        &&& turn.request.change@ == start.pending[(start.frontier + 1 + i) as u64]
                        &&& turn.outcome == outcome_of(
                            apply_all(
                                start.validators,
                                run_changes(start.pending, start.frontier, i as nat),
                            ),
                            turn.request.change@,
                        )
                    },
            decreases u64::MAX - self.applied_frontier + (if more { 1int } else { 0int }),
        {
            let ghost count = applied@.len();
            let ghost before = self@;
            let ghost waiting = self.pending@;
            if self.applied_frontier == u64::MAX {
                more = false;
            } else {
                let next: u64 = self.applied_frontier + 1;
                match self.pending.remove(&next) {
                    None => {
                        proof {
                            assert(self@.pending =~= before.pending);
                            assert(!before.pending.contains_key(next));
                            assert(!start.pending.contains_key(next));
                        }
                        more = false;
                    },
                    Some(change) => {
                        proof {
                            assert(before.pending.contains_key(next));
                            assert(start.pending.contains_key(next));
                            assert(waiting[next] == change);
                            assert(before.pending[next] == change@);
                            assert(pending_past(start.pending, before.frontier)[next]
                                == start.pending[next]);
                            assert(start.pending[next] == change@);
                            assert(self.pending@ == waiting.remove(next));
                            assert forall|n: u64|
                                self@.pending.contains_key(n) == pending_past(
                                    start.pending,
                                    next,
                                ).contains_key(n) by {
                                assert(before.pending.contains_key(n) == waiting.contains_key(n));
                            }
                            assert forall|n: u64| self@.pending.contains_key(n) implies self@.pending[n]
                                == pending_past(start.pending, next)[n] by {
                                assert(before.pending[n] == waiting[n]@);
                            }
                            assert(self@.pending =~= pending_past(start.pending, next));
                            let longer = run_changes(start.pending, start.frontier, count + 1);
                            assert(longer.drop_last() =~= run_changes(
                                start.pending,
                                start.frontier,
                                count,
                            ));
                            assert(longer.last() == change@);
                        }
                        let outcome = apply_one(&mut self.validator_set, &change);
                        self.applied_frontier = next;
                        applied.push(
                            AppliedChange {
                                request: StakingChangeRequest {
                                    configuration_number: next,
                                    change,
                                },
                                outcome,
                            },
                        );
                    },
                }
            }
        }
        DrainReport { applied, frontier: self.applied_frontier }
    }

    /// A copy of the validators' records as they stand.
    pub fn snapshot(&self) -> (copy: Vec<ValidatorSetEntry>)
        ensures
            set_model(copy@) == self@.validators,
    {
        let mut copy: Vec<ValidatorSetEntry> = Vec::new();
        let mut i: usize = 0;
        while i < self.validator_set.len()
            invariant
                i <= self.validator_set.len(),
                copy@.len() == i,
                forall|j: int| 0 <= j < i ==> copy@[j]@ == self.validator_set@[j]@,
            decreases self.validator_set.len() - i,
        {
            copy.push(self.validator_set[i].duplicate());
            i += 1;
        }
        proof {
            assert(set_model(copy@) =~= self@.validators);
        }
        copy
    }
}

/// A request whose number had its turn leaves the log as it was, whatever
/// it carries.
pub proof fn lemma_enqueue_after_turn_changes_nothing(
    log: LogModel,
    number: u64,
    change: ChangeModel,
)
    requires
        number <= log.frontier,
    ensures
        log_after_enqueue(log, number, change) == log,
        enqueue_answer(log, number, change) == Ok::<
            EnqueueOutcome,
            DuplicateConfigurationNumber,
        >(EnqueueOutcome::Stale),
{
}

/// A second request under a number that waits leaves the log as it was: the
/// same change is dropped, a different one is an error.
pub proof fn lemma_enqueue_again(log: LogModel, number: u64, first: ChangeModel, second: ChangeModel)
    requires
        number > log.frontier,
        !log.pending.contains_key(number),
    ensures
        log_after_enqueue(log_after_enqueue(log, number, first), number, second)
            == log_after_enqueue(log, number, first),
        second == first ==> enqueue_answer(log_after_enqueue(log, number, first), number, second)
            == Ok::<EnqueueOutcome, DuplicateConfigurationNumber>(EnqueueOutcome::AlreadyPending),
        second != first ==> enqueue_answer(log_after_enqueue(log, number, first), number, second)
            == Err::<EnqueueOutcome, DuplicateConfigurationNumber>(
            DuplicateConfigurationNumber { configuration_number: number },
        ),
{
}

/// Requests under different numbers may arrive in either order: the log
/// that results is the same.
pub proof fn lemma_enqueue_order_is_immaterial(
    log: LogModel,
    number: u64,
    change: ChangeModel,
    other_number: u64,
    other_change: ChangeModel,
)
    requires
        number != other_number,
    ensures
        log_after_enqueue(log_after_enqueue(log, number, change), other_number, other_change)
            == log_after_enqueue(
            log_after_enqueue(log, other_number, other_change),
            number,
            change,
        ),
{
    let one = log_after_enqueue(log_after_enqueue(log, number, change), other_number, other_change);
    let two = log_after_enqueue(log_after_enqueue(log, other_number, other_change), number, change);
    assert(one.pending =~= two.pending);
}

/// Only one count of numbers after the frontier is a run that the next
/// number does not prolong: what a drain applies is fixed by what waits.
pub proof fn lemma_longest_run_is_unique(
    pending: Map<u64, ChangeModel>,
    frontier: u64,
    count: nat,
    other: nat,
)
    requires
        run_waits(pending, frontier, count),
        !run_waits(pending, frontier, count + 1),
        run_waits(pending, frontier, other),
        !run_waits(pending, frontier, other + 1),
    ensures
        count == other,
{
}

/// The log after a run of requests was handed to it, first to last.
pub open spec fn log_after_requests(log: LogModel, requests: Seq<(u64, ChangeModel)>) -> LogModel
    decreases requests.len(),
{
    if requests.len() == 0 {
        log
    } else {
        log_after_enqueue(
            log_after_requests(log, requests.drop_last()),
            requests.last().0,
            requests.last().1,
        )
    }
}

/// Requests with numbers past the frontier, each number once and none of
/// them waiting yet, end up waiting under their numbers whatever the order
/// in which they arrive: what waits afterwards is what waited before and,
/// under each request's number, its change. Frontier and validators stay.
pub proof fn lemma_arrival_order_is_immaterial(log: LogModel, requests: Seq<(u64, ChangeModel)>)
    requires
        forall|i: int|
            0 <= i < requests.len() ==> (#[trigger] requests[i]).0 > log.frontier
                && !log.pending.contains_key(requests[i].0),
        forall|i: int, j: int|
            0 <= i < requests.len() && 0 <= j < requests.len() && i != j ==> (
            #[trigger] requests[i]).0 != (#[trigger] requests[j]).0,
    ensures
        log_after_requests(log, requests).frontier == log.frontier,
        log_after_requests(log, requests).validators == log.validators,
        forall|n: u64|
            #[trigger] log_after_requests(log, requests).pending.contains_key(n) <==> (
            log.pending.contains_key(n) || exists|i: int|
                0 <= i < requests.len() && (#[trigger] requests[i]).0 == n),
        forall|i: int|
            0 <= i < requests.len() ==> log_after_requests(log, requests).pending[(
            #[trigger] requests[i]).0] == requests[i].1,
        forall|n: u64|
            log.pending.contains_key(n) ==> #[trigger] log_after_requests(log, requests).pending[n]
                == log.pending[n],
    decreases requests.len(),
{
    if requests.len() > 0 {
        let earlier = requests.drop_last();
        let last = requests.last();
        assert forall|i: int| 0 <= i < earlier.len() implies (#[trigger] earlier[i]).0
            > log.frontier && !log.pending.contains_key(earlier[i].0) by {
            assert(earlier[i] == requests[i]);
        }
        assert forall|i: int, j: int|
            0 <= i < earlier.len() && 0 <= j < earlier.len() && i != j implies (
        #[trigger] earlier[i]).0 != (#[trigger] earlier[j]).0 by {
            assert(earlier[i] == requests[i]);
            assert(earlier[j] == requests[j]);
        }
        lemma_arrival_order_is_immaterial(log, earlier);
        let before = log_after_requests(log, earlier);
        let after = log_after_requests(log, requests);
        let place = requests.len() - 1;
        assert(requests[place] == last);
        assert(!before.pending.contains_key(last.0)) by {
            if before.pending.contains_key(last.0) {
                let i = choose|i: int| 0 <= i < earlier.len() && (#[trigger] earlier[i]).0 == last.0;
                assert(earlier[i] == requests[i]);
            }
        }
        assert(after.pending == before.pending.insert(last.0, last.1));
        assert forall|n: u64| #[trigger] after.pending.contains_key(n) <==> (
        log.pending.contains_key(n) || exists|i: int|
            0 <= i < requests.len() && (#[trigger] requests[i]).0 == n) by {
            if after.pending.contains_key(n) {
                if n != last.0 {
                    assert(before.pending.contains_key(n));
                    if !log.pending.contains_key(n) {
                        let i = choose|i: int|
                            0 <= i < earlier.len() && (#[trigger] earlier[i]).0 == n;
                        assert(requests[i].0 == n);
                    }
                }
            }
            if exists|i: int| 0 <= i < requests.len() && (#[trigger] requests[i]).0 == n {
                let i = choose|i: int| 0 <= i < requests.len() && (#[trigger] requests[i]).0 == n;
                if i < place {
                    assert(earlier[i].0 == n);
                    assert(before.pending.contains_key(n));
                }
            }
            if log.pending.contains_key(n) {
                assert(before.pending.contains_key(n));
            }
        }
        assert forall|i: int| 0 <= i < requests.len() implies after.pending[(
        #[trigger] requests[i]).0] == requests[i].1 by {
            if i < place {
                assert(earlier[i] == requests[i]);
            }
        }
        assert forall|n: u64| log.pending.contains_key(n) implies #[trigger] after.pending[n]
            == log.pending[n] by {
            assert(before.pending[n] == log.pending[n]);
            assert(n != last.0);
        }
    }
}

} // verus!
