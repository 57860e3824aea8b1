//! Batch reporting: aggregate the per-candidate outcomes of a run into the
//! final counts the run reports.
//!
//! The counts are defined over the multiset of outcomes, so they do not
//! depend on the order in which candidates finished: any interleaving of
//! independent per-file pipelines, sequential or concurrent, reports the
//! same summary.

use vstd::prelude::*;
use vstd::multiset::Multiset;
use crate::archiver::FailKind;
use crate::archiver::Outcome;

verus! {

broadcast use vstd::multiset::group_multiset_axioms;

/// The final counts of one run.
#[derive(Clone, Copy, PartialEq, Eq, Structural, Debug)]
pub struct Summary {
    pub total: usize,
    pub compressed: usize,
    pub skipped: usize,
    pub failed: usize,
    pub delete_warnings: usize,
}

/// Mathematical image of a `Summary`, over the multiset of outcomes.
pub struct SummaryV {
    pub total: nat,
    pub compressed: nat,
    pub skipped: nat,
    pub failed: nat,
    pub delete_warnings: nat,
}

impl View for Summary {
    type V = SummaryV;

    open spec fn view(&self) -> SummaryV {
        SummaryV {
            total: self.total as nat,
            compressed: self.compressed as nat,
            skipped: self.skipped as nat,
            failed: self.failed as nat,
            delete_warnings: self.delete_warnings as nat,
        }
    }
}

/// The counts a sequence of outcomes aggregates to. Every count is drawn
/// from the multiset of outcomes, so the summary is blind to order.
pub open spec fn summary_of(os: Seq<Outcome>) -> SummaryV {
    let m = os.to_multiset();
    SummaryV {
        total: os.len(),
        compressed: m.count(Outcome::Compressed { delete_failed: false }) + m.count(
            Outcome::Compressed { delete_failed: true },
        ),
        skipped: m.count(Outcome::SkippedInUse),
        failed: m.count(Outcome::Failed { kind: FailKind::SourceRead }) + m.count(
            Outcome::Failed { kind: FailKind::Archive },
        ),
        delete_warnings: m.count(Outcome::Compressed { delete_failed: true }),
    }
}

/// Aggregate the outcomes of a run.
pub fn summarize(outcomes: &Vec<Outcome>) -> (r: Summary)
    ensures
        r@ == summary_of(outcomes@),
{
    broadcast use vstd::seq_lib::group_to_multiset_ensures;

    let mut compressed: usize = 0;
    let mut skipped: usize = 0;
    let mut failed: usize = 0;
    let mut delete_warnings: usize = 0;
    let mut i: usize = 0;
    proof {
        assert(outcomes@.take(0) =~= Seq::<Outcome>::empty());
        assert(Seq::<Outcome>::empty().to_multiset() =~= Multiset::<Outcome>::empty());
    }
    while i < outcomes.len()
        invariant
            0 <= i <= outcomes@.len(),
            compressed as nat == summary_of(outcomes@.take(i as int)).compressed,
            skipped as nat == summary_of(outcomes@.take(i as int)).skipped,
            failed as nat == summary_of(outcomes@.take(i as int)).failed,
            delete_warnings as nat == summary_of(outcomes@.take(i as int)).delete_warnings,
            compressed + skipped + failed == i,
            delete_warnings <= compressed,
        decreases outcomes@.len() - i,
    {
        proof {
            let pre = outcomes@.take(i as int);
            let x = outcomes@[i as int];
            assert(outcomes@.take(i + 1) =~= pre.push(x));
            pre.to_multiset_ensures();
            assert(pre.push(x).to_multiset() =~= pre.to_multiset().insert(x));
        }
        match outcomes[i] {
            Outcome::Compressed { delete_failed } => {
                compressed += 1;
                if delete_failed {
                    delete_warnings += 1;
                }
            },
            Outcome::SkippedInUse => {
                skipped += 1;
            },
            Outcome::Failed { .. } => {
                failed += 1;
            },
        }
        i += 1;
    }
    proof {
        assert(outcomes@.take(outcomes@.len() as int) =~= outcomes@);
    }
    Summary { total: i, compressed, skipped, failed, delete_warnings }
}

/// Concurrency safety of reporting: two runs whose outcomes are the same
/// up to order, as any interleaving of the same independent per-file
/// pipelines is, aggregate to the same counts.
pub proof fn lemma_summary_order_blind(a: Seq<Outcome>, b: Seq<Outcome>)
    requires
        a.to_multiset() == b.to_multiset(),
    ensures
        summary_of(a) == summary_of(b),
{
    broadcast use vstd::seq_lib::group_to_multiset_ensures;

    assert(a.len() == a.to_multiset().len());
    assert(b.len() == b.to_multiset().len());
}

} // verus!
