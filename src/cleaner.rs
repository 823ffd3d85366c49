//! The cleaner's decisions: which items are deleted, what each deletion reports, and how
//! the reports are applied back to the item list. The deletions themselves are the
//! caller's.
use vstd::prelude::*;
use crate::models::{CleanableItem, ItemView, items_view, saturated};

verus! {

/// What one deletion reports: the path, whether it was removed, and the bytes freed (0
/// when the deletion failed).
#[derive(Clone, Debug)]
pub struct CleanResult {
    pub path: String,
    pub success: bool,
    pub size: u64,
}

/// The model of a [`CleanResult`].
pub ghost struct ResultView {
    pub path: Seq<char>,
    pub success: bool,
    pub size: u64,
}

impl View for CleanResult {
    type V = ResultView;

    open spec fn view(&self) -> ResultView {
        ResultView { path: self.path@, success: self.success, size: self.size }
    }
}

/// The models of a sequence of results.
pub open spec fn results_view(results: Seq<CleanResult>) -> Seq<ResultView> {
    results.map_values(|r: CleanResult| r@)
}

/// One deletion to perform: the `index`-th of `total` selected items.
#[derive(Clone, Debug)]
pub struct CleanJob {
    pub index: usize,
    pub total: usize,
    pub path: String,
    pub size: u64,
}

/// A progress report of the cleaner: `done` of `total` deletions finished, and the path
/// of the one that has just started, if any.
#[derive(Clone, Debug)]
pub struct CleanProgress {
    pub done: usize,
    pub total: usize,
    pub item: Option<String>,
}

/// The selected items, in list order.
pub open spec fn selected_of(items: Seq<ItemView>) -> Seq<ItemView>
    decreases items.len(),
{
    if items.len() == 0 {
        Seq::empty()
    } else {
        let prev = selected_of(items.drop_last());
        if items.last().selected {
            prev.push(items.last())
        } else {
            prev
        }
    }
}

/// The jobs that cleaning `items` runs: one per selected item, numbered in list order.
pub open spec fn jobs_match(jobs: Seq<CleanJob>, items: Seq<ItemView>) -> bool {
    let sel = selected_of(items);
    &&& jobs.len() == sel.len()
    &&& forall|i: int| #![trigger jobs[i]] 0 <= i < jobs.len() ==> {
        &&& jobs[i].index == i
        &&& jobs[i].total == sel.len()
        &&& jobs[i].path@ == sel[i].path
        &&& jobs[i].size == sel[i].size
    }
}

/// The bytes that the results report freed.
pub open spec fn freed_bytes(results: Seq<ResultView>) -> int
    decreases results.len(),
{
    if results.len() == 0 {
        0
    } else {
        freed_bytes(results.drop_last()) + results.last().size
    }
}

/// Some result reports `path` removed.
pub open spec fn removed(results: Seq<ResultView>, path: Seq<char>) -> bool {
    exists|j: int| 0 <= j < results.len() && (#[trigger] results[j]).path == path && results[j].success
}

/// The items that stay after cleaning: those that no result reports removed, in order.
pub open spec fn remaining_after(items: Seq<ItemView>, results: Seq<ResultView>) -> Seq<ItemView>
    decreases items.len(),
{
    if items.len() == 0 {
        Seq::empty()
    } else {
        let prev = remaining_after(items.drop_last(), results);
        if removed(results, items.last().path) {
            prev
        } else {
            prev.push(items.last())
        }
    }
}

/// After reconciliation an item stays exactly when no result reports its path removed.
pub proof fn lemma_remaining_after_contains(items: Seq<ItemView>, results: Seq<ResultView>)
    ensures
        forall|x: ItemView| remaining_after(items, results).contains(x) <==> (items.contains(x) && !removed(
            results,
            x.path,
        )),
    decreases items.len(),
{
    if items.len() > 0 {
        let prev = items.drop_last();
        lemma_remaining_after_contains(prev, results);
        let r = remaining_after(items, results);
        let rp = remaining_after(prev, results);
        assert forall|x: ItemView| r.contains(x) <==> (items.contains(x) && !removed(results, x.path)) by {
            if r.contains(x) {
                let k = choose|k: int| 0 <= k < r.len() && r[k] == x;
                if k < rp.len() {
                    assert(rp[k] == x);
                    assert(rp.contains(x));
                    assert(prev.contains(x));
                    let m = choose|m: int| 0 <= m < prev.len() && prev[m] == x;
                    assert(prev[m] == items[m]);
                } else {
                    assert(items[items.len() - 1] == x);
                }
            }
            if items.contains(x) && !removed(results, x.path) {
                let m = choose|m: int| 0 <= m < items.len() && items[m] == x;
                if m < prev.len() {
                    assert(prev[m] == items[m]);
                    assert(prev.contains(x));
                    assert(rp.contains(x));
                    let k = choose|k: int| 0 <= k < rp.len() && rp[k] == x;
                    if !removed(results, items.last().path) {
                        assert(r[k] == x);
                    }
                } else {
                    assert(r[r.len() - 1] == x);
                }
            }
        }
    }
}

/// The number of selected items.
pub fn count_selected(items: &Vec<CleanableItem>) -> (r: usize)
    ensures
        r == selected_of(items_view(items@)).len(),
{
    let ghost iv = items_view(items@);
    let mut n: usize = 0;
    let mut i: usize = 0;
    while i < items.len()
        invariant
            i <= items@.len(),
            iv == items_view(items@),
            n == selected_of(iv.subrange(0, i as int)).len(),
            n <= i,
        decreases items.len() - i,
    {
        assert(iv.subrange(0, i + 1).drop_last() =~= iv.subrange(0, i as int));
        if items[i].selected {
            n = n + 1;
        }
        i = i + 1;
    }
    assert(iv.subrange(0, items@.len() as int) =~= iv);
    n
}

/// The deletions that cleaning `items` runs: one per selected item, in list order, each
/// knowing its position and the number of selected items.
pub fn clean_jobs(items: &Vec<CleanableItem>) -> (r: Vec<CleanJob>)
    ensures
        jobs_match(r@, items_view(items@)),
{
    let ghost iv = items_view(items@);
    let total = count_selected(items);
    let mut r: Vec<CleanJob> = Vec::new();
    let mut i: usize = 0;
    while i < items.len()
        invariant
            i <= items@.len(),
            iv == items_view(items@),
            total == selected_of(iv).len(),
            r@.len() == selected_of(iv.subrange(0, i as int)).len(),
            forall|k: int| #![trigger r@[k]] 0 <= k < r@.len() ==> {
                &&& r@[k].index == k
                &&& r@[k].total == total
                &&& r@[k].path@ == selected_of(iv.subrange(0, i as int))[k].path
                &&& r@[k].size == selected_of(iv.subrange(0, i as int))[k].size
            },
            selected_of(iv.subrange(0, i as int)).len() <= selected_of(iv).len(),
        decreases items.len() - i,
    {
        let ghost prev = selected_of(iv.subrange(0, i as int));
        assert(iv.subrange(0, i + 1).drop_last() =~= iv.subrange(0, i as int));
        assert(iv.subrange(0, i + 1).last() == iv[i as int]);
        proof {
            lemma_selected_prefix_len(iv, i as int + 1);
        }
        if items[i].selected {
            let job = CleanJob { index: r.len(), total, path: items[i].path.clone(), size: items[i].size };
            r.push(job);
        }
        i = i + 1;
    }
    assert(iv.subrange(0, items@.len() as int) =~= iv);
    r
}

proof fn lemma_selected_prefix_len(items: Seq<ItemView>, n: int)
    requires
        0 <= n <= items.len(),
    ensures
        selected_of(items.subrange(0, n)).len() <= selected_of(items).len(),
    decreases items.len() - n,
{
    if n < items.len() {
        lemma_selected_prefix_len(items, n + 1);
        assert(items.subrange(0, n + 1).drop_last() =~= items.subrange(0, n));
    } else {
        assert(items.subrange(0, n) =~= items);
    }
}

/// What a deletion reports: the job's path, and its size when it succeeded, else 0.
pub fn clean_result(job: &CleanJob, success: bool) -> (r: CleanResult)
    ensures
        r@ == (ResultView { path: job.path@, success, size: if success { job.size } else { 0 } }),
{
    CleanResult { path: job.path.clone(), success, size: if success { job.size } else { 0 } }
}

impl CleanJob {
    /// The report that this deletion has started.
    pub fn started(&self) -> (r: CleanProgress)
        ensures
            r.done == self.index,
            r.total == self.total,
            r.item matches Some(p) && p@ == self.path@,
    {
        CleanProgress { done: self.index, total: self.total, item: Some(self.path.clone()) }
    }

    /// The report that this deletion has finished.
    pub fn finished(&self) -> (r: CleanProgress)
        requires
            self.index < self.total,
        ensures
            r.done == self.index + 1,
            r.total == self.total,
            r.item is None,
    {
        CleanProgress { done: self.index + 1, total: self.total, item: None }
    }
}

/// The bytes freed by a clean-up: the sum of the reported sizes (`u64::MAX` when that
/// does not fit).
pub fn cleaned_size(results: &Vec<CleanResult>) -> (r: u64)
    ensures
        r == saturated(freed_bytes(results_view(results@))),
{
    let ghost rv = results_view(results@);
    let mut total: u64 = 0;
    let mut i: usize = 0;
    while i < results.len()
        invariant
            i <= results@.len(),
            rv == results_view(results@),
            total == saturated(freed_bytes(rv.subrange(0, i as int))),
            freed_bytes(rv.subrange(0, i as int)) >= 0,
        decreases results.len() - i,
    {
        assert(rv.subrange(0, i + 1).drop_last() =~= rv.subrange(0, i as int));
        assert(rv.subrange(0, i + 1).last() == results@[i as int]@);
        total = total.saturating_add(results[i].size);
        i = i + 1;
    }
    assert(rv.subrange(0, results@.len() as int) =~= rv);
    total
}

/// Whether some result reports `path` removed.
fn reported_removed(results: &Vec<CleanResult>, path: &String) -> (r: bool)
    ensures
        r == removed(results_view(results@), path@),
{
    let mut j: usize = 0;
    while j < results.len()
        invariant
            j <= results@.len(),
            forall|k: int| 0 <= k < j ==> !(results@[k].path@ == path@ && results@[k].success),
        decreases results.len() - j,
    {
        if results[j].success && results[j].path == *path {
            assert(results_view(results@)[j as int] == results@[j as int]@);
            return true;
        }
        j = j + 1;
    }
    assert forall|k: int| 0 <= k < results_view(results@).len() implies !((#[trigger] results_view(results@)[k]).path == path@
        && results_view(results@)[k].success) by {
        assert(results_view(results@)[k] == results@[k]@);
    }
    false
}

/// The items that stay after cleaning: every item whose path no result reports removed,
/// in the same order.
pub fn remove_cleaned(items: &Vec<CleanableItem>, results: &Vec<CleanResult>) -> (r: Vec<CleanableItem>)
    ensures
        items_view(r@) == remaining_after(items_view(items@), results_view(results@)),
{
    let ghost iv = items_view(items@);
    let ghost rv = results_view(results@);
    let mut r: Vec<CleanableItem> = Vec::new();
    let mut i: usize = 0;
    while i < items.len()
        invariant
            i <= items@.len(),
            iv == items_view(items@),
            rv == results_view(results@),
            items_view(r@) == remaining_after(iv.subrange(0, i as int), rv),
        decreases items.len() - i,
    {
        assert(iv.subrange(0, i + 1).drop_last() =~= iv.subrange(0, i as int));
        assert(iv.subrange(0, i + 1).last() == items@[i as int]@);
        if !reported_removed(results, &items[i].path) {
            let item = items[i].duplicate();
            r.push(item);
            assert(items_view(r@) =~= remaining_after(iv.subrange(0, i as int), rv).push(item@));
        }
        i = i + 1;
    }
    assert(iv.subrange(0, items@.len() as int) =~= iv);
    r
}

} // verus!
