//! The accounting model of one termination pass.
//!
//! A pass walks the fixed list of target names; for each name the process
//! table is either enumerated (and every matching identifier signaled, each
//! attempt recorded) or the enumeration fails. `summarize` turns the recorded
//! outcomes into the operation's result: the count of accepted signals, or a
//! systemic failure when not one name could be enumerated.

use vstd::prelude::*;

verus! {

/// The recorded result of one signal attempt: which process identifier was
/// targeted, and whether the OS accepted the termination signal.
pub struct SignalAttempt {
    pub pid: i32,
    pub delivered: bool,
}

/// What one target name contributed to a pass: either the process table was
/// read and every matching identifier got a recorded signal attempt, or the
/// table could not be read for that name.
pub enum NameOutcome {
    Enumerated(Vec<SignalAttempt>),
    EnumerationFailed,
}

/// The one systemic failure: no target name's enumeration succeeded, so
/// "nothing found" cannot be told apart from "nothing visible".
pub enum StopError {
    EnumerationUnavailable,
}

/// A completed pass: the total count of accepted signals, beside the
/// per-name record it was computed from.
pub struct TerminationReport {
    pub signaled: usize,
    pub outcomes: Vec<NameOutcome>,
}

/// How many of the recorded attempts were accepted by the OS.
pub open spec fn delivered_in(attempts: Seq<SignalAttempt>) -> nat
    decreases attempts.len(),
{
    if attempts.len() == 0 {
        0
    } else {
        delivered_in(attempts.drop_last()) + if attempts.last().delivered {
            1nat
        } else {
            0nat
        }
    }
}

/// One name's contribution to the total: a name whose enumeration failed
/// contributes zero.
pub open spec fn name_tally(outcome: NameOutcome) -> nat {
    match outcome {
        NameOutcome::Enumerated(attempts) => delivered_in(attempts@),
        NameOutcome::EnumerationFailed => 0,
    }
}

/// The total over a pass: the sum of every name's contribution.
pub open spec fn total_tally(outcomes: Seq<NameOutcome>) -> nat
    decreases outcomes.len(),
{
    if outcomes.len() == 0 {
        0
    } else {
        total_tally(outcomes.drop_last()) + name_tally(outcomes.last())
    }
}

/// How many identifiers were discovered across the pass, delivered or not.
pub open spec fn discovered_in(outcomes: Seq<NameOutcome>) -> nat
    decreases outcomes.len(),
{
    if outcomes.len() == 0 {
        0
    } else {
        discovered_in(outcomes.drop_last()) + match outcomes.last() {
            NameOutcome::Enumerated(attempts) => attempts@.len(),
            NameOutcome::EnumerationFailed => 0nat,
        }
    }
}

/// Whether every name's enumeration failed.
pub open spec fn all_enumeration_failed(outcomes: Seq<NameOutcome>) -> bool {
    forall|i: int| 0 <= i < outcomes.len() ==> outcomes[i] is EnumerationFailed
}

/// A pass is a systemic failure when it tried at least one name and not one
/// enumeration succeeded.
pub open spec fn systemic_failure(outcomes: Seq<NameOutcome>) -> bool {
    outcomes.len() > 0 && all_enumeration_failed(outcomes)
}

/// A mathematical count squeezed into a machine word: exact whenever it fits.
pub open spec fn capped(n: nat) -> nat {
    if n > usize::MAX as nat {
        usize::MAX as nat
    } else {
        n
    }
}

/// A pass in which every name's enumeration succeeded but no process matched
/// tallies zero and is no systemic failure. In particular a pass run right
/// after every matching process has exited counts nothing twice and raises no
/// error merely because matches are now absent.
pub proof fn lemma_no_matches_tallies_zero(outcomes: Seq<NameOutcome>)
    requires
        forall|i: int| 0 <= i < outcomes.len() ==> ((#[trigger] outcomes[i]) matches
            NameOutcome::Enumerated(attempts) && attempts@.len() == 0),
    ensures
        total_tally(outcomes) == 0,
        !systemic_failure(outcomes),
    decreases outcomes.len(),
{
    if outcomes.len() > 0 {
        assert(outcomes[outcomes.len() - 1] matches NameOutcome::Enumerated(attempts)
            && attempts@.len() == 0);
        assert(forall|i: int| 0 <= i < outcomes.drop_last().len()
            ==> #[trigger] outcomes.drop_last()[i] == outcomes[i]);
        lemma_no_matches_tallies_zero(outcomes.drop_last());
        assert(!(outcomes[0] is EnumerationFailed));
    }
}

/// The tally is additive across names: what a pass counts over two stretches
/// of names in turn is the sum of what it counts over each, so the total does
/// not depend on how the delivered identifiers are distributed across names.
pub proof fn lemma_tally_additive(left: Seq<NameOutcome>, right: Seq<NameOutcome>)
    ensures
        total_tally(left + right) == total_tally(left) + total_tally(right),
    decreases right.len(),
{
    if right.len() == 0 {
        assert(left + right =~= left);
    } else {
        assert((left + right).drop_last() =~= left + right.drop_last());
        assert((left + right).last() == right.last());
        lemma_tally_additive(left, right.drop_last());
    }
}

/// One refused delivery is independent of the rest: marking one attempt as
/// not delivered lowers the count by exactly that attempt's own contribution,
/// and every other attempt's contribution is kept.
pub proof fn lemma_failure_is_independent(attempts: Seq<SignalAttempt>, i: int)
    requires
        0 <= i < attempts.len(),
    ensures
        delivered_in(attempts.update(i, SignalAttempt { pid: attempts[i].pid, delivered: false }))
            == delivered_in(attempts) - (if attempts[i].delivered { 1int } else { 0int }),
    decreases attempts.len(),
{
    let updated = attempts.update(i, SignalAttempt { pid: attempts[i].pid, delivered: false });
    if i == attempts.len() - 1 {
        assert(updated.drop_last() =~= attempts.drop_last());
    } else {
        assert(updated.drop_last() =~= attempts.drop_last().update(
            i,
            SignalAttempt { pid: attempts[i].pid, delivered: false },
        ));
        assert(updated.last() == attempts.last());
        lemma_failure_is_independent(attempts.drop_last(), i);
    }
}

/// No name's outcome ever changes another name's contribution: replacing one
/// name's outcome changes the total by exactly the difference between the new
/// and the old contribution of that one name.
pub proof fn lemma_names_are_independent(outcomes: Seq<NameOutcome>, i: int, new: NameOutcome)
    requires
        0 <= i < outcomes.len(),
    ensures
        total_tally(outcomes.update(i, new))
            == total_tally(outcomes) - name_tally(outcomes[i]) + name_tally(new),
    decreases outcomes.len(),
{
    let updated = outcomes.update(i, new);
    if i == outcomes.len() - 1 {
        assert(updated.drop_last() =~= outcomes.drop_last());
    } else {
        assert(updated.drop_last() =~= outcomes.drop_last().update(i, new));
        assert(updated.last() == outcomes.last());
        lemma_names_are_independent(outcomes.drop_last(), i, new);
    }
}

/// The tally over one name is exactly the number of delivered attempts:
/// each delivered attempt is counted once, and refused attempts are not
/// counted at all.
pub proof fn lemma_tally_counts_each_delivered_once(attempts: Seq<SignalAttempt>)
    ensures
        delivered_in(attempts) == attempts.filter(|a: SignalAttempt| a.delivered).len(),
    decreases attempts.len(),
{
    reveal(Seq::filter);
    if attempts.len() > 0 {
        lemma_tally_counts_each_delivered_once(attempts.drop_last());
    }
}

/// Each recorded attempt contributes at most once, so the count never
/// exceeds the number of attempts.
pub proof fn lemma_delivered_at_most_len(attempts: Seq<SignalAttempt>)
    ensures
        delivered_in(attempts) <= attempts.len(),
    decreases attempts.len(),
{
    if attempts.len() > 0 {
        lemma_delivered_at_most_len(attempts.drop_last());
    }
}

/// The tally never exceeds the number of identifiers discovered in the pass.
pub proof fn lemma_tally_at_most_discovered(outcomes: Seq<NameOutcome>)
    ensures
        total_tally(outcomes) <= discovered_in(outcomes),
    decreases outcomes.len(),
{
    if outcomes.len() > 0 {
        lemma_tally_at_most_discovered(outcomes.drop_last());
        match outcomes.last() {
            NameOutcome::Enumerated(attempts) => {
                lemma_delivered_at_most_len(attempts@);
            },
            NameOutcome::EnumerationFailed => {},
        }
    }
}

/// Count the accepted signals among one name's recorded attempts.
fn count_delivered(attempts: &Vec<SignalAttempt>) -> (c: usize)
    ensures
        c as nat == delivered_in(attempts@),
        c <= attempts@.len(),
{
    let mut c: usize = 0;
    let mut i: usize = 0;
    while i < attempts.len()
        invariant
            i <= attempts@.len(),
            c <= i,
            c as nat == delivered_in(attempts@.take(i as int)),
        decreases attempts@.len() - i,
    {
        proof {
            assert(attempts@.take(i + 1).drop_last() =~= attempts@.take(i as int));
            assert(attempts@.take(i + 1).last() == attempts@[i as int]);
        }
        if attempts[i].delivered {
            c = c + 1;
        }
        i = i + 1;
    }
    proof {
        assert(attempts@.take(attempts@.len() as int) =~= attempts@);
    }
    c
}

/// Turn the recorded outcomes of one pass into the operation's result.
///
/// When at least one name was tried and not one enumeration succeeded, the
/// pass is a systemic failure. Otherwise the result carries the count of
/// accepted signals, exact unless it exceeds what a machine word holds.
pub fn summarize(outcomes: Vec<NameOutcome>) -> (r: Result<TerminationReport, StopError>)
    ensures
        systemic_failure(outcomes@) ==> (r matches Err(e) && e is EnumerationUnavailable),
        !systemic_failure(outcomes@) ==> (r matches Ok(rep)
            && rep.outcomes@ == outcomes@
            && rep.signaled as nat == capped(total_tally(outcomes@))),
{
    let mut signaled: usize = 0;
    let mut any_enumerated = false;
    let mut i: usize = 0;
    while i < outcomes.len()
        invariant
            i <= outcomes@.len(),
            signaled as nat == capped(total_tally(outcomes@.take(i as int))),
            any_enumerated == !all_enumeration_failed(outcomes@.take(i as int)),
        decreases outcomes@.len() - i,
    {
        proof {
            assert(outcomes@.take(i + 1).drop_last() =~= outcomes@.take(i as int));
            assert(outcomes@.take(i + 1).last() == outcomes@[i as int]);
        }
        match &outcomes[i] {
            NameOutcome::Enumerated(attempts) => {
                any_enumerated = true;
                let c = count_delivered(attempts);
                signaled = if signaled <= usize::MAX - c {
                    signaled + c
                } else {
                    usize::MAX
                };
                proof {
                    assert(!(outcomes@.take(i + 1)[i as int] is EnumerationFailed));
                }
            },
            NameOutcome::EnumerationFailed => {
                proof {
                    assert(all_enumeration_failed(outcomes@.take(i + 1))
                        == all_enumeration_failed(outcomes@.take(i as int))) by {
                        if all_enumeration_failed(outcomes@.take(i as int)) {
                            assert forall|k: int| 0 <= k < outcomes@.take(i + 1).len()
                                implies #[trigger] outcomes@.take(i + 1)[k] is EnumerationFailed by {
                                if k < i {
                                    assert(outcomes@.take(i as int)[k] is EnumerationFailed);
                                }
                            }
                        } else {
                            let w = choose|k: int|
                                0 <= k < outcomes@.take(i as int).len()
                                    && !(outcomes@.take(i as int)[k] is EnumerationFailed);
                            assert(!(outcomes@.take(i + 1)[w] is EnumerationFailed));
                        }
                    }
                }
            },
        }
        i = i + 1;
    }
    proof {
        assert(outcomes@.take(outcomes@.len() as int) =~= outcomes@);
    }
    if !any_enumerated && outcomes.len() > 0 {
        Err(StopError::EnumerationUnavailable)
    } else {
        Ok(TerminationReport { signaled, outcomes })
    }
}

} // verus!
