//! The ranker: the jobs that use the most memory, the greatest first.

use vstd::prelude::*;
use vstd::seq_lib::{to_multiset_insert, to_multiset_len};
use crate::record::{JobRecord, JobRecordView};

verus! {

/// Whether no record of `records` uses more memory now than one before it.
pub open spec fn is_descending(records: Seq<JobRecordView>) -> bool {
    forall|i: int, j: int|
        0 <= i <= j < records.len() ==> (#[trigger] records[i]).current_bytes >= (
        #[trigger] records[j]).current_bytes
}

/// Whether `top` and `rest` together hold the records of `records`, each as
/// often as it occurs there, and no record of `rest` uses more memory now than
/// one of `top`.
pub open spec fn is_top_of(
    top: Seq<JobRecordView>,
    rest: Seq<JobRecordView>,
    records: Seq<JobRecordView>,
) -> bool {
    &&& (top + rest).to_multiset() == records.to_multiset()
    &&& forall|i: int, j: int|
        0 <= i < top.len() && 0 <= j < rest.len() ==> (#[trigger] top[i]).current_bytes >= (
        #[trigger] rest[j]).current_bytes
}

/// Whether `report` is a report of the `top_n` greatest of `records`: as many
/// records as were asked for, or all where there are fewer; the greatest
/// first; and none left out that uses more than one that is in. Which of
/// several records with the same usage comes first, or is left out, is open.
pub open spec fn is_ranking_of(
    report: Seq<JobRecordView>,
    records: Seq<JobRecordView>,
    top_n: nat,
) -> bool {
    &&& report.len() == if top_n <= records.len() {
        top_n
    } else {
        records.len()
    }
    &&& is_descending(report)
    &&& exists|rest: Seq<JobRecordView>| #[trigger] is_top_of(report, rest, records)
}

/// The records of `records`, each as often as it occurs there, the greatest
/// current usage first. In which order records with the same usage come is
/// open.
pub fn sort_descending(records: Vec<JobRecord>) -> (sorted: Vec<JobRecord>)
    ensures
        sorted.deep_view().to_multiset() == records.deep_view().to_multiset(),
        sorted.len() == records.len(),
        is_descending(sorted.deep_view()),
{
    let ghost all = records.deep_view();
    let mut rest = records;
    let mut sorted: Vec<JobRecord> = Vec::new();
    while rest.len() > 0
        invariant
            (sorted.deep_view() + rest.deep_view()).to_multiset() == all.to_multiset(),
            is_descending(sorted.deep_view()),
        decreases rest.len(),
    {
        let ghost placed = sorted.deep_view();
        let ghost waiting = rest.deep_view();
        let record = rest.remove(0);
        let usage = record.current_bytes.bits();
        let mut k: usize = 0;
        while k < sorted.len() && sorted[k].current_bytes.bits() >= usage
            invariant
                k <= sorted.len(),
                placed == sorted.deep_view(),
                forall|i: int| 0 <= i < k ==> (#[trigger] placed[i]).current_bytes >= usage,
            decreases sorted.len() - k,
        {
            k = k + 1;
        }
        sorted.insert(k, record);
        proof {
            let added = placed.insert(k as int, record@);
            assert(sorted.deep_view() =~= added);
            assert(rest.deep_view() =~= waiting.remove(0));
            let others = placed + waiting.remove(0);
            assert(placed + waiting =~= others.insert(placed.len() as int, record@));
            assert(added + waiting.remove(0) =~= others.insert(k as int, record@));
            to_multiset_insert(others, placed.len() as int, record@);
            to_multiset_insert(others, k as int, record@);
            assert forall|i: int, j: int| 0 <= i <= j < added.len() implies (
            #[trigger] added[i]).current_bytes >= (#[trigger] added[j]).current_bytes by {
                if j > k {
                    assert(added[j] == placed[j - 1]);
                }
                if i > k {
                    assert(added[i] == placed[i - 1]);
                }
            }
        }
    }
    proof {
        to_multiset_len(sorted.deep_view());
        to_multiset_len(all);
    }
    sorted
}

/// The `top_n` records of `records` that use the most memory now, the
/// greatest first; all of them where there are fewer, none where `top_n` is 0.
pub fn rank(records: Vec<JobRecord>, top_n: usize) -> (report: Vec<JobRecord>)
    ensures
        is_ranking_of(report.deep_view(), records.deep_view(), top_n as nat),
        top_n == 0 ==> report.len() == 0,
{
    let mut report = sort_descending(records);
    let ghost sorted = report.deep_view();
    report.truncate(top_n);
    proof {
        let kept = report.deep_view();
        let rest = sorted.skip(kept.len() as int);
        assert(kept =~= sorted.take(kept.len() as int));
        assert(kept + rest =~= sorted);
        assert(is_top_of(kept, rest, records.deep_view()));
    }
    report
}

} // verus!
