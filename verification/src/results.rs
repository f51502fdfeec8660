//! Result aggregation: per-transaction outcomes are counted, failure
//! messages are collected in order, and the achieved throughput is
//! computed once the run is over.

use vstd::prelude::*;

verus! {

/// What became of one dispatched transaction.
#[derive(Debug, Clone)]
pub enum TransactionOutcome {
    Success,
    Failure(String),
}

/// How many of the outcomes are successes.
pub open spec fn spec_success_count(s: Seq<TransactionOutcome>) -> nat
    decreases s.len(),
{
    if s.len() == 0 {
        0
    } else {
        spec_success_count(s.drop_last()) + (if s.last() is Success {
            1nat
        } else {
            0nat
        })
    }
}

/// How many of the outcomes are failures.
pub open spec fn spec_failure_count(s: Seq<TransactionOutcome>) -> nat
    decreases s.len(),
{
    if s.len() == 0 {
        0
    } else {
        spec_failure_count(s.drop_last()) + (if s.last() is Failure {
            1nat
        } else {
            0nat
        })
    }
}

/// The failure messages of the outcomes, in order.
pub open spec fn spec_failure_messages(s: Seq<TransactionOutcome>) -> Seq<Seq<char>>
    decreases s.len(),
{
    if s.len() == 0 {
        Seq::empty()
    } else {
        spec_failure_messages(s.drop_last()) + (match s.last() {
            TransactionOutcome::Failure(m) => seq![m@],
            TransactionOutcome::Success => Seq::empty(),
        })
    }
}

/// Every outcome is either a success or a failure, so the two counts
/// partition the outcomes: they always sum to the total.
pub proof fn lemma_outcome_partition(s: Seq<TransactionOutcome>)
    ensures
        spec_success_count(s) + spec_failure_count(s) == s.len(),
    decreases s.len(),
{
    if s.len() > 0 {
        lemma_outcome_partition(s.drop_last());
    }
}

/// There is one collected message per failure, so when every outcome is a
/// success there are no failures and no error messages at all.
pub proof fn lemma_all_success_clean(s: Seq<TransactionOutcome>)
    requires
        forall|i: int| 0 <= i < s.len() ==> s[i] is Success,
    ensures
        spec_success_count(s) == s.len(),
        spec_failure_count(s) == 0,
        spec_failure_messages(s) =~= Seq::<Seq<char>>::empty(),
    decreases s.len(),
{
    if s.len() > 0 {
        lemma_all_success_clean(s.drop_last());
    }
}

/// The collected messages are exactly one per failure.
pub proof fn lemma_one_message_per_failure(s: Seq<TransactionOutcome>)
    ensures
        spec_failure_messages(s).len() == spec_failure_count(s),
    decreases s.len(),
{
    if s.len() > 0 {
        lemma_one_message_per_failure(s.drop_last());
    }
}

/// Achieved throughput in hundredths of a transaction per second:
/// `successes / elapsed seconds`, computed over milliseconds and clamped
/// into `u64`; zero when no time elapsed.
pub open spec fn spec_tps_hundredths(successes: nat, elapsed_millis: nat) -> nat {
    if elapsed_millis == 0 {
        0
    } else if successes * 100_000 / elapsed_millis > u64::MAX {
        u64::MAX as nat
    } else {
        successes * 100_000 / elapsed_millis
    }
}

/// The accumulated report of one run.
#[derive(Debug, Clone)]
pub struct TestResults {
    /// Transactions whose dispatch was classified a success.
    pub successful: usize,
    /// Transactions whose dispatch was classified a failure.
    pub failed: usize,
    /// One message per failure, in the order the failures were recorded.
    pub errors: Vec<String>,
    /// Start of the measurement window, in milliseconds.
    pub start_millis: u64,
    /// End of the measurement window, in milliseconds.
    pub end_millis: u64,
    /// Achieved throughput, in hundredths of a transaction per second.
    pub actual_tps_hundredths: u64,
}

impl Default for TestResults {
    /// A fresh report: nothing recorded yet.
    fn default() -> (r: TestResults)
        ensures
            r.successful == 0,
            r.failed == 0,
            r.errors@ =~= Seq::<String>::empty(),
            r.start_millis == 0,
            r.end_millis == 0,
            r.actual_tps_hundredths == 0,
    {
        TestResults {
            successful: 0,
            failed: 0,
            errors: Vec::new(),
            start_millis: 0,
            end_millis: 0,
            actual_tps_hundredths: 0,
        }
    }
}

impl TestResults {
    /// The views of the collected error messages, in order.
    pub open spec fn error_views(self) -> Seq<Seq<char>> {
        self.errors@.map_values(|m: String| m@)
    }

    /// Record one outcome: a success bumps `successful`, a failure bumps
    /// `failed` and appends its message; nothing else changes.
    pub fn record(&mut self, outcome: TransactionOutcome)
        requires
            old(self).successful < usize::MAX,
            old(self).failed < usize::MAX,
        ensures
            outcome is Success ==> final(self).successful == old(self).successful + 1
                && final(self).failed == old(self).failed
                && final(self).errors@ =~= old(self).errors@,
            outcome is Success ==> final(self).error_views() =~= old(self).error_views(),
            outcome matches TransactionOutcome::Failure(m) ==> final(self).successful == old(
                self,
            ).successful && final(self).failed == old(self).failed + 1 && final(self).errors@
                =~= old(self).errors@.push(m) && final(self).error_views() =~= old(
                self,
            ).error_views().push(m@),
            final(self).start_millis == old(self).start_millis,
            final(self).end_millis == old(self).end_millis,
            final(self).actual_tps_hundredths == old(self).actual_tps_hundredths,
    {
        match outcome {
            TransactionOutcome::Success => {
                self.successful = self.successful + 1;
            },
            TransactionOutcome::Failure(m) => {
                self.failed = self.failed + 1;
                let ghost mv = m@;
                self.errors.push(m);
                proof {
                    assert(self.error_views() =~= old(self).error_views().push(mv));
                }
            },
        }
    }

    /// Record a whole batch of outcomes in order: successes and failures
    /// are counted, and the failure messages are appended in order.
    pub fn record_all(&mut self, outcomes: Vec<TransactionOutcome>)
        requires
            old(self).successful + outcomes@.len() < usize::MAX,
            old(self).failed + outcomes@.len() < usize::MAX,
        ensures
            final(self).successful == old(self).successful + spec_success_count(outcomes@),
            final(self).failed == old(self).failed + spec_failure_count(outcomes@),
            final(self).error_views() =~= old(self).error_views() + spec_failure_messages(
                outcomes@,
            ),
            final(self).start_millis == old(self).start_millis,
            final(self).end_millis == old(self).end_millis,
            final(self).actual_tps_hundredths == old(self).actual_tps_hundredths,
    {
        let ghost all = outcomes@;
        let mut outcomes = outcomes;
        let mut i: usize = 0;
        while i < outcomes.len()
            invariant
                outcomes@ =~= all,
                i <= all.len(),
                old(self).successful + all.len() < usize::MAX,
                old(self).failed + all.len() < usize::MAX,
                self.successful == old(self).successful + spec_success_count(
                    all.subrange(0, i as int),
                ),
                self.failed == old(self).failed + spec_failure_count(all.subrange(0, i as int)),
                self.error_views() =~= old(self).error_views() + spec_failure_messages(
                    all.subrange(0, i as int),
                ),
                self.start_millis == old(self).start_millis,
                self.end_millis == old(self).end_millis,
                self.actual_tps_hundredths == old(self).actual_tps_hundredths,
            decreases all.len() - i,
        {
            proof {
                lemma_outcome_partition(all.subrange(0, i as int));
                assert(spec_success_count(all.subrange(0, i as int)) <= i);
                assert(spec_failure_count(all.subrange(0, i as int)) <= i);
                assert(all.subrange(0, i as int + 1).drop_last() =~= all.subrange(0, i as int));
                assert(all.subrange(0, i as int + 1).last() == all[i as int]);
            }
            let outcome = match &outcomes[i] {
                TransactionOutcome::Success => TransactionOutcome::Success,
                TransactionOutcome::Failure(m) => TransactionOutcome::Failure(m.clone()),
            };
            self.record(outcome);
            i = i + 1;
        }
        proof {
            assert(all.subrange(0, all.len() as int) =~= all);
        }
    }

    /// Close the measurement window and compute the achieved throughput
    /// from the recorded success count; counts and messages are untouched.
    pub fn finalize(&mut self, start_millis: u64, end_millis: u64)
        ensures
            final(self).successful == old(self).successful,
            final(self).failed == old(self).failed,
            final(self).errors@ =~= old(self).errors@,
            final(self).start_millis == start_millis,
            final(self).end_millis == end_millis,
            final(self).actual_tps_hundredths == spec_tps_hundredths(
                old(self).successful as nat,
                if end_millis > start_millis {
                    (end_millis - start_millis) as nat
                } else {
                    0
                },
            ),
    {
        self.start_millis = start_millis;
        self.end_millis = end_millis;
        if end_millis <= start_millis {
            self.actual_tps_hundredths = 0;
        } else {
            let elapsed: u64 = end_millis - start_millis;
            let scaled: u128 = (self.successful as u128) * 100_000u128 / (elapsed as u128);
            if scaled > u64::MAX as u128 {
                self.actual_tps_hundredths = u64::MAX;
            } else {
                self.actual_tps_hundredths = scaled as u64;
            }
        }
    }
}

} // verus!
