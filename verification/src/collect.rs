//! Collecting a batch: one fetch for each requested id, completing in any
//! order, and a list in the order of the request at the end.
//!
//! Each request is tagged with its position, counted from 1, before it is
//! handed out. A completion comes back under its tag and is set aside. Once all
//! have come back, what was set aside is sorted by tag. Nothing is handed on
//! before that, and one failed fetch fails the whole batch.
//!
//! The fetches themselves belong to the program around this library.

use vstd::prelude::*;
use vstd::set_lib::{lemma_int_range, lemma_subset_equality, set_int_range};
use crate::record::Post;

verus! {

/// One fetch that failed: the id that could not be had.
#[derive(Clone, Debug, PartialEq, Eq)]
pub struct FetchFailure {
    pub id: u32,
}

/// Why a batch gave no list.
#[derive(Clone, Debug, PartialEq, Eq)]
pub enum CollectError {
    /// Some fetches failed: their ids, in the order of the request.
    PartialFailure(Vec<u32>),
    /// Not every fetch has completed yet.
    Incomplete,
}

/// A `CollectError` as contracts see it.
pub enum CollectFault {
    PartialFailure(Seq<u32>),
    Incomplete,
}

impl View for CollectError {
    type V = CollectFault;

    open spec fn view(&self) -> CollectFault {
        match self {
            CollectError::PartialFailure(ids) => CollectFault::PartialFailure(ids@),
            CollectError::Incomplete => CollectFault::Incomplete,
        }
    }
}

/// What a batch gives, as contracts see it.
pub open spec fn outcome_view(outcome: Result<Vec<(usize, Post)>, CollectError>) -> Result<
    Seq<(usize, Post)>,
    CollectFault,
> {
    match outcome {
        Ok(list) => Ok(list@),
        Err(error) => Err(error@),
    }
}

/// The requests of a batch: each id under its position, counted from 1.
pub open spec fn tagged(ids: Seq<u32>) -> Seq<(usize, u32)> {
    Seq::new(ids.len(), |i: int| ((i + 1) as usize, ids[i]))
}

/// Whether a record has come back under this position.
pub open spec fn has_position(arrived: Seq<(usize, Post)>, pos: int) -> bool {
    exists|k: int| 0 <= k < arrived.len() && (#[trigger] arrived[k]).0 == pos
}

/// Whether a completion under this position has come back, with a record or
/// with a failure.
pub open spec fn seen(arrived: Seq<(usize, Post)>, failed: Seq<usize>, pos: int) -> bool {
    has_position(arrived, pos) || (exists|k: int|
        0 <= k < failed.len() && #[trigger] failed[k] == pos)
}

/// No position occurs twice among the records.
pub open spec fn distinct_positions(arrived: Seq<(usize, Post)>) -> bool {
    forall|j: int, k: int|
        0 <= j < arrived.len() && 0 <= k < arrived.len() && j != k ==> (#[trigger] arrived[j]).0
            != (#[trigger] arrived[k]).0
}

/// What has come back belongs to a batch of `n` requests: each position lies in
/// `1..=n`, and none has come back twice.
pub open spec fn orderly(n: nat, arrived: Seq<(usize, Post)>, failed: Seq<usize>) -> bool {
    &&& forall|k: int| 0 <= k < arrived.len() ==> 1 <= (#[trigger] arrived[k]).0 <= n
    &&& forall|k: int| 0 <= k < failed.len() ==> 1 <= #[trigger] failed[k] <= n
    &&& distinct_positions(arrived)
    &&& failed.no_duplicates()
    &&& forall|j: int, k: int|
        0 <= j < arrived.len() && 0 <= k < failed.len() ==> (#[trigger] arrived[j]).0
            != #[trigger] failed[k]
}

/// Each position of `1..=len` occurs among the records, and exactly once: the
/// records of a batch of which every fetch came back with a record.
pub open spec fn complete(arrived: Seq<(usize, Post)>) -> bool {
    &&& distinct_positions(arrived)
    &&& forall|k: int| 0 <= k < arrived.len() ==> 1 <= (#[trigger] arrived[k]).0 <= arrived.len()
    &&& forall|pos: int| 1 <= pos <= arrived.len() ==> #[trigger] has_position(arrived, pos)
}

/// Where the record of a position stands among those that came back.
pub open spec fn arrival_of(arrived: Seq<(usize, Post)>, pos: int) -> int {
    choose|k: int| 0 <= k < arrived.len() && (#[trigger] arrived[k]).0 == pos
}

/// The records in the order of the request, whatever the order in which they
/// came back: at index `i` stands the record of position `i + 1`.
pub open spec fn in_request_order(arrived: Seq<(usize, Post)>) -> Seq<(usize, Post)> {
    Seq::new(arrived.len(), |i: int| arrived[arrival_of(arrived, i + 1)])
}

/// The ids whose position is among the failed ones, in the order of the
/// request.
pub open spec fn failed_ids(ids: Seq<u32>, failed: Seq<usize>) -> Seq<u32>
    decreases ids.len(),
{
    if ids.len() == 0 {
        Seq::empty()
    } else if failed.contains(ids.len() as usize) {
        failed_ids(ids.drop_last(), failed).push(ids.last())
    } else {
        failed_ids(ids.drop_last(), failed)
    }
}

/// What a batch gives once asked: nothing before every fetch has come back;
/// then the failed ids, if any fetch failed; else the records in the order of
/// the request.
pub open spec fn outcome(ids: Seq<u32>, arrived: Seq<(usize, Post)>, failed: Seq<usize>) -> Result<
    Seq<(usize, Post)>,
    CollectFault,
> {
    if arrived.len() + failed.len() != ids.len() {
        Err(CollectFault::Incomplete)
    } else if failed.len() > 0 {
        Err(CollectFault::PartialFailure(failed_ids(ids, failed)))
    } else {
        Ok(in_request_order(arrived))
    }
}

/// The records strictly ascend by position.
pub open spec fn ascending(list: Seq<(usize, Post)>) -> bool {
    forall|i: int, j: int|
        0 <= i < j < list.len() ==> (#[trigger] list[i]).0 < (#[trigger] list[j]).0
}

/// The positions of the list are `1, 2, ..` without gap.
pub open spec fn ranked(list: Seq<(usize, Post)>) -> bool {
    forall|i: int| 0 <= i < list.len() ==> (#[trigger] list[i]).0 == i + 1
}

/// A batch in flight.
#[derive(Debug)]
pub struct Batch {
    ids: Vec<u32>,
    items: Vec<(usize, Post)>,
    failed: Vec<usize>,
}

impl Batch {
    /// The requested ids, in the order of the request.
    pub closed spec fn ids(&self) -> Seq<u32> {
        self.ids@
    }

    /// The records that have come back, each under its position, in the order
    /// in which they came.
    pub closed spec fn arrived(&self) -> Seq<(usize, Post)> {
        self.items@
    }

    /// The positions of the fetches that failed, in the order in which they
    /// came back.
    pub closed spec fn failed(&self) -> Seq<usize> {
        self.failed@
    }

    /// What has come back belongs to this batch.
    pub open spec fn wf(&self) -> bool {
        orderly(self.ids().len(), self.arrived(), self.failed())
    }

    /// Starts a batch for the ids. Nothing has come back yet.
    pub fn new(ids: Vec<u32>) -> (batch: Batch)
        ensures
            batch.wf(),
            batch.ids() == ids@,
            batch.arrived() == Seq::<(usize, Post)>::empty(),
            batch.failed() == Seq::<usize>::empty(),
    {
        Batch { ids, items: Vec::new(), failed: Vec::new() }
    }

    /// Starts a batch for the first `max_items` of the ids, or for all of them
    /// where they are no more than that.
    pub fn with_limit(ids: Vec<u32>, max_items: usize) -> (batch: Batch)
        ensures
            batch.wf(),
            batch.ids() == if ids@.len() <= max_items {
                ids@
            } else {
                ids@.take(max_items as int)
            },
            batch.arrived() == Seq::<(usize, Post)>::empty(),
            batch.failed() == Seq::<usize>::empty(),
    {
        let mut ids = ids;
        ids.truncate(max_items);
        assert(ids@.len() > max_items ==> ids@.take(max_items as int) == ids@.subrange(
            0,
            max_items as int,
        ));
        Batch::new(ids)
    }

    /// The requests to hand out: each id under its position. A batch of no ids
    /// has no request, so that nothing is fetched for it.
    pub fn requests(&self) -> (requests: Vec<(usize, u32)>)
        ensures
            requests@ == tagged(self.ids()),
    {
        let mut requests: Vec<(usize, u32)> = Vec::new();
        let mut i: usize = 0;
        while i < self.ids.len()
            invariant
                i <= self.ids@.len(),
                requests@ == tagged(self.ids@).take(i as int),
            decreases self.ids@.len() - i,
        {
            requests.push((i + 1, self.ids[i]));
            assert(requests@ =~= tagged(self.ids@).take(i + 1));
            i = i + 1;
        }
        assert(requests@ =~= tagged(self.ids@));
        requests
    }

    /// How many fetches may run at a time: as many as the batch has requests.
    pub fn concurrency(&self) -> (bound: usize)
        ensures
            bound == self.ids().len(),
    {
        self.ids.len()
    }

    /// Whether a completion under this position has come back already.
    pub fn has_seen(&self, pos: usize) -> (found: bool)
        ensures
            found == seen(self.arrived(), self.failed(), pos as int),
    {
        let mut k: usize = 0;
        while k < self.items.len()
            invariant
                k <= self.items@.len(),
                forall|j: int| 0 <= j < k ==> (#[trigger] self.items@[j]).0 != pos,
            decreases self.items@.len() - k,
        {
            if self.items[k].0 == pos {
                return true;
            }
            k = k + 1;
        }
        let mut k: usize = 0;
        while k < self.failed.len()
            invariant
                k <= self.failed@.len(),
                forall|j: int| 0 <= j < self.items@.len() ==> (#[trigger] self.items@[j]).0 != pos,
                forall|j: int| 0 <= j < k ==> #[trigger] self.failed@[j] != pos,
            decreases self.failed@.len() - k,
        {
            if self.failed[k] == pos {
                return true;
            }
            k = k + 1;
        }
        false
    }

    /// Takes one completion: the record, or the failure, of the fetch that was
    /// handed out under `pos`. A completion under a position that the batch did
    /// not hand out, or that has come back before, is refused and changes
    /// nothing. Of a failure the batch keeps the position: the id that failed
    /// is the one that was requested under it.
    pub fn accept(&mut self, pos: usize, fetched: Result<Post, FetchFailure>) -> (accepted: bool)
        requires
            old(self).wf(),
        ensures
            final(self).wf(),
            final(self).ids() == old(self).ids(),
            accepted == (1 <= pos <= old(self).ids().len() && !seen(
                old(self).arrived(),
                old(self).failed(),
                pos as int,
            )),
            final(self).arrived() == match fetched {
                Ok(post) if accepted => old(self).arrived().push((pos, post)),
                _ => old(self).arrived(),
            },
            final(self).failed() == match fetched {
                Err(_) if accepted => old(self).failed().push(pos),
                _ => old(self).failed(),
            },
    {
        if pos < 1 || pos > self.ids.len() || self.has_seen(pos) {
            return false;
        }
        match fetched {
            Ok(post) => {
                self.items.push((pos, post));
            },
            Err(_) => {
                self.failed.push(pos);
            },
        }
        true
    }

    /// Whether every fetch has come back.
    pub fn is_complete(&self) -> (done: bool)
        ensures
            done == (self.arrived().len() + self.failed().len() == self.ids().len()),
    {
        self.items.len() as u128 + self.failed.len() as u128 == self.ids.len() as u128
    }

    /// The ids of the fetches that failed, in the order of the request.
    fn failures(&self) -> (ids: Vec<u32>)
        ensures
            ids@ == failed_ids(self.ids(), self.failed()),
    {
        let mut ids: Vec<u32> = Vec::new();
        let mut i: usize = 0;
        while i < self.ids.len()
            invariant
                i <= self.ids@.len(),
                ids@ == failed_ids(self.ids@.take(i as int), self.failed@),
            decreases self.ids@.len() - i,
        {
            let mut found = false;
            let mut k: usize = 0;
            while k < self.failed.len()
                invariant
                    k <= self.failed@.len(),
                    i < self.ids.len(),
                    found == exists|j: int| 0 <= j < k && self.failed@[j] == i + 1,
                decreases self.failed@.len() - k,
            {
                if self.failed[k] == i + 1 {
                    found = true;
                }
                k = k + 1;
            }
            proof {
                assert(self.ids@.take(i + 1).drop_last() =~= self.ids@.take(i as int));
                assert(found == self.failed@.contains((i + 1) as usize));
            }
            if found {
                ids.push(self.ids[i]);
            }
            i = i + 1;
        }
        assert(self.ids@.take(i as int) =~= self.ids@);
        ids
    }

    /// Ends the batch. Gives the records in the order of the request, if every
    /// fetch has come back with a record; the failed ids, if every fetch has
    /// come back and some failed; and nothing but `Incomplete` before that.
    pub fn finish(self) -> (result: Result<Vec<(usize, Post)>, CollectError>)
        requires
            self.wf(),
        ensures
            outcome_view(result) == outcome(self.ids(), self.arrived(), self.failed()),
            result matches Ok(list) ==> list@.len() == self.ids().len() && ranked(list@) && complete(
                self.arrived(),
            ),
    {
        if !self.is_complete() {
            return Err(CollectError::Incomplete);
        }
        if self.failed.len() > 0 {
            return Err(CollectError::PartialFailure(self.failures()));
        }
        let ghost arrived = self.items@;
        let list = sort_by_position(self.items);
        proof {
            lemma_ascending_is_ranked(list@, list@.len() as int);
            lemma_ranked_permutation(arrived, list@);
        }
        Ok(list)
    }
}

/// Sorts records by position: an insertion sort, which keeps records of one
/// position in the order in which they stood.
fn sort_by_position(items: Vec<(usize, Post)>) -> (sorted: Vec<(usize, Post)>)
    requires
        distinct_positions(items@),
    ensures
        sorted@.len() == items@.len(),
        ascending(sorted@),
        forall|i: int| 0 <= i < sorted@.len() ==> items@.contains(#[trigger] sorted@[i]),
        forall|k: int| 0 <= k < items@.len() ==> sorted@.contains(#[trigger] items@[k]),
{
    let ghost all = items@;
    let mut rest = items;
    let mut sorted: Vec<(usize, Post)> = Vec::new();
    while rest.len() > 0
        invariant
            distinct_positions(all),
            rest@.len() <= all.len(),
            rest@ == all.take(rest@.len() as int),
            sorted@.len() + rest@.len() == all.len(),
            ascending(sorted@),
            forall|i: int|
                0 <= i < sorted@.len() ==> exists|k: int|
                    rest@.len() <= k < all.len() && all[k] == #[trigger] sorted@[i],
            forall|k: int| rest@.len() <= k < all.len() ==> sorted@.contains(#[trigger] all[k]),
        decreases rest@.len(),
    {
        let ghost before = sorted@;
        let ghost at = rest@.len() - 1;
        let item = rest.pop().unwrap();
        assert(item == all[at]);
        let mut j: usize = 0;
        while j < sorted.len() && sorted[j].0 < item.0
            invariant
                j <= sorted@.len(),
                sorted@ == before,
                forall|m: int| 0 <= m < j ==> (#[trigger] sorted@[m]).0 < item.0,
            decreases sorted@.len() - j,
        {
            j = j + 1;
        }
        sorted.insert(j, item);
        proof {
            assert forall|m: int| j <= m < before.len() implies item.0 < (#[trigger] before[m]).0 by {
                let k = choose|k: int| at < k < all.len() && all[k] == before[m];
                assert(all[k].0 != all[at].0);
                if m > j {
                    assert(before[j as int].0 < before[m].0);
                }
            }
            assert forall|a: int, b: int| 0 <= a < b < sorted@.len() implies (
            #[trigger] sorted@[a]).0 < (#[trigger] sorted@[b]).0 by {
                if a < j && b > j {
                    assert(sorted@[a] == before[a]);
                    assert(sorted@[b] == before[b - 1]);
                } else if a < j && b == j {
                    assert(sorted@[a] == before[a]);
                } else if a < j {
                    assert(sorted@[a] == before[a]);
                    assert(sorted@[b] == before[b]);
                } else if a == j {
                    assert(sorted@[b] == before[b - 1]);
                } else {
                    assert(sorted@[a] == before[a - 1]);
                    assert(sorted@[b] == before[b - 1]);
                }
            }
            assert forall|i: int| 0 <= i < sorted@.len() implies exists|k: int|
                at <= k < all.len() && all[k] == #[trigger] sorted@[i] by {
                if i < j {
                    assert(sorted@[i] == before[i]);
                    let k = choose|k: int| at < k < all.len() && all[k] == before[i];
                    assert(all[k] == sorted@[i]);
                } else if i == j {
                    assert(all[at] == sorted@[i]);
                } else {
                    assert(sorted@[i] == before[i - 1]);
                    let k = choose|k: int| at < k < all.len() && all[k] == before[i - 1];
                    assert(all[k] == sorted@[i]);
                }
            }
            assert forall|k: int| at <= k < all.len() implies sorted@.contains(
                #[trigger] all[k],
            ) by {
                if k == at {
                    assert(sorted@[j as int] == all[k]);
                } else {
                    let i = choose|i: int| 0 <= i < before.len() && before[i] == all[k];
                    if i < j {
                        assert(sorted@[i] == all[k]);
                    } else {
                        assert(sorted@[i + 1] == all[k]);
                    }
                }
            }
            assert(rest@ =~= all.take(rest@.len() as int));
        }
    }
    proof {
        assert forall|i: int| 0 <= i < sorted@.len() implies all.contains(
            #[trigger] sorted@[i],
        ) by {
            let k = choose|k: int| 0 <= k < all.len() && all[k] == sorted@[i];
            assert(all[k] == sorted@[i]);
        }
    }
    sorted
}

/// In a list that strictly ascends, the position at index `i` is at least
/// `first + i`, and at most `last - (len - 1 - i)`.
proof fn lemma_ascending_bounds(list: Seq<(usize, Post)>, i: int)
    requires
        ascending(list),
        0 <= i < list.len(),
    ensures
        list[i].0 >= list[0].0 + i,
        list[i].0 <= list.last().0 - (list.len() - 1 - i),
{
    lemma_ascending_from(list, i);
    lemma_ascending_to(list, i);
}

proof fn lemma_ascending_from(list: Seq<(usize, Post)>, i: int)
    requires
        ascending(list),
        0 <= i < list.len(),
    ensures
        list[i].0 >= list[0].0 + i,
    decreases i,
{
    if i > 0 {
        lemma_ascending_from(list, i - 1);
        assert(list[i - 1].0 < list[i].0);
    }
}

proof fn lemma_ascending_to(list: Seq<(usize, Post)>, i: int)
    requires
        ascending(list),
        0 <= i < list.len(),
    ensures
        list[i].0 <= list.last().0 - (list.len() - 1 - i),
    decreases list.len() - i,
{
    if i < list.len() - 1 {
        lemma_ascending_to(list, i + 1);
        assert(list[i].0 < list[i + 1].0);
    }
}

/// A list of `n` records that strictly ascends within `1..=n` holds the
/// positions `1, 2, .., n`.
proof fn lemma_ascending_is_ranked(list: Seq<(usize, Post)>, n: int)
    requires
        ascending(list),
        list.len() == n,
        forall|i: int| 0 <= i < list.len() ==> 1 <= (#[trigger] list[i]).0 <= n,
    ensures
        ranked(list),
{
    assert forall|i: int| 0 <= i < list.len() implies (#[trigger] list[i]).0 == i + 1 by {
        lemma_ascending_bounds(list, i);
        assert(list[0].0 >= 1);
        assert(list.last().0 <= n);
    }
}

/// Records that can be laid out with the positions `1, 2, ..` are complete, and
/// that layout is their order of request.
proof fn lemma_ranked_permutation(arrived: Seq<(usize, Post)>, list: Seq<(usize, Post)>)
    requires
        distinct_positions(arrived),
        list.len() == arrived.len(),
        ranked(list),
        forall|i: int| 0 <= i < list.len() ==> arrived.contains(#[trigger] list[i]),
        forall|k: int| 0 <= k < arrived.len() ==> list.contains(#[trigger] arrived[k]),
    ensures
        complete(arrived),
        list == in_request_order(arrived),
{
    assert forall|k: int| 0 <= k < arrived.len() implies 1 <= (#[trigger] arrived[k]).0
        <= arrived.len() by {
        let i = choose|i: int| 0 <= i < list.len() && list[i] == arrived[k];
        assert(list[i].0 == i + 1);
    }
    assert forall|pos: int| 1 <= pos <= arrived.len() implies #[trigger] has_position(
        arrived,
        pos,
    ) by {
        let k = choose|k: int| 0 <= k < arrived.len() && arrived[k] == list[pos - 1];
        assert(arrived[k].0 == pos);
    }
    assert forall|i: int| 0 <= i < list.len() implies list[i] == in_request_order(arrived)[i] by {
        let k = choose|k: int| 0 <= k < arrived.len() && arrived[k] == list[i];
        assert(arrived[k].0 == i + 1);
        let c = arrival_of(arrived, i + 1);
        assert(arrived[c].0 == i + 1);
        assert(c == k);
    }
    assert(list =~= in_request_order(arrived));
}

/// What has come back after a run of completions, taken one by one in the
/// order in which they came: the records under their positions, and the
/// positions that failed. A completion that the batch refuses leaves no trace.
pub open spec fn after(n: nat, completions: Seq<(usize, Result<Post, FetchFailure>)>) -> (
    Seq<(usize, Post)>,
    Seq<usize>,
)
    decreases completions.len(),
{
    if completions.len() == 0 {
        (Seq::empty(), Seq::empty())
    } else {
        let before = after(n, completions.drop_last());
        let pos = completions.last().0;
        if 1 <= pos <= n && !seen(before.0, before.1, pos as int) {
            match completions.last().1 {
                Ok(post) => (before.0.push((pos, post)), before.1),
                Err(_) => (before.0, before.1.push(pos)),
            }
        } else {
            before
        }
    }
}

/// What a batch for the ids gives after a run of completions.
pub open spec fn collected(
    ids: Seq<u32>,
    completions: Seq<(usize, Result<Post, FetchFailure>)>,
) -> Result<Seq<(usize, Post)>, CollectFault> {
    outcome(ids, after(ids.len(), completions).0, after(ids.len(), completions).1)
}

/// Collects a batch from completions that are already at hand: starts a batch
/// for the ids, takes the completions in the order given, and ends the batch.
/// The list is in the order of the ids, whatever the order of the completions.
pub fn construct_items(
    stories: Vec<u32>,
    completions: Vec<(usize, Result<Post, FetchFailure>)>,
) -> (result: Result<Vec<(usize, Post)>, CollectError>)
    ensures
        outcome_view(result) == collected(stories@, completions@),
        result matches Ok(list) ==> list@.len() == stories@.len() && ranked(list@),
{
    let ghost n = stories@.len();
    let ghost all = completions@;
    let mut batch = Batch::new(stories);
    for completion in it: completions
        invariant
            it.seq() == all,
            batch.wf(),
            batch.ids().len() == n,
            batch.ids() == stories@,
            (batch.arrived(), batch.failed()) == after(n, all.take(it.index() as int)),
    {
        proof {
            assert(all.take(it.index() + 1).drop_last() =~= all.take(it.index() as int));
        }
        batch.accept(completion.0, completion.1);
    }
    assert(all.take(all.len() as int) =~= all);
    batch.finish()
}

/// Whether the id was requested under the position, and the fetch under the
/// position failed.
pub open spec fn failed_under(ids: Seq<u32>, failed: Seq<usize>, pos: int, id: u32) -> bool {
    1 <= pos <= ids.len() && failed.contains(pos as usize) && ids[pos - 1] == id
}

/// Whether the id was requested under one of the first `n` positions, and the
/// fetch under that position failed.
pub open spec fn failed_within(ids: Seq<u32>, failed: Seq<usize>, n: int, id: u32) -> bool {
    exists|pos: int| pos <= n && #[trigger] failed_under(ids, failed, pos, id)
}

/// Each id that is listed as failed was requested under a position that
/// failed.
proof fn lemma_failed_ids(ids: Seq<u32>, failed: Seq<usize>, n: int)
    requires
        0 <= n <= ids.len(),
    ensures
        forall|k: int|
            0 <= k < failed_ids(ids.take(n), failed).len() ==> failed_within(
                ids,
                failed,
                n,
                #[trigger] failed_ids(ids.take(n), failed)[k],
            ),
    decreases n,
{
    if n > 0 {
        lemma_failed_ids(ids, failed, n - 1);
        assert(ids.take(n).drop_last() =~= ids.take(n - 1));
        let before = failed_ids(ids.take(n - 1), failed);
        let now = failed_ids(ids.take(n), failed);
        assert forall|k: int| 0 <= k < now.len() implies failed_within(
            ids,
            failed,
            n,
            #[trigger] now[k],
        ) by {
            if k < before.len() {
                assert(failed_within(ids, failed, n - 1, before[k]));
                let pos = choose|pos: int|
                    pos <= n - 1 && #[trigger] failed_under(ids, failed, pos, before[k]);
                assert(pos <= n && failed_under(ids, failed, pos, now[k]));
            } else {
                assert(failed_under(ids, failed, n, now[k]));
            }
        }
    }
}

/// A failed position within the request lists an id.
proof fn lemma_failed_ids_some(ids: Seq<u32>, failed: Seq<usize>, pos: int)
    requires
        1 <= pos <= ids.len(),
        failed.contains(pos as usize),
    ensures
        failed_ids(ids, failed).len() > 0,
    decreases ids.len(),
{
    if pos < ids.len() {
        lemma_failed_ids_some(ids.drop_last(), failed, pos);
    }
}

/// Whether `fetch` can fail for the id.
pub open spec fn can_fail<F: Fn(u32) -> Result<Post, FetchFailure>>(fetch: F, id: u32) -> bool {
    exists|failure: FetchFailure|
        #[trigger] call_ensures(fetch, (id,), Err::<Post, FetchFailure>(failure))
}

/// Collects a batch by fetching one id after the other with `fetch`. The list
/// has the record that `fetch` gave for each id, in the order of the ids. One
/// failure fails the batch, and for no ids `fetch` is not called at all.
pub fn collect<F: Fn(u32) -> Result<Post, FetchFailure>>(ids: Vec<u32>, fetch: F) -> (result: Result<
    Vec<(usize, Post)>,
    CollectError,
>)
    requires
        forall|i: int| 0 <= i < ids@.len() ==> call_requires(fetch, (#[trigger] ids@[i],)),
    ensures
        match result {
            Ok(list) => {
                &&& list@.len() == ids@.len()
                &&& ranked(list@)
                &&& forall|i: int|
                    0 <= i < ids@.len() ==> call_ensures(
                        fetch,
                        (ids@[i],),
                        Ok::<Post, FetchFailure>((#[trigger] list@[i]).1),
                    )
            },
            Err(error) => {
                &&& error@ matches CollectFault::PartialFailure(failed)
                &&& failed.len() > 0
                &&& forall|k: int|
                    0 <= k < failed.len() ==> ids@.contains(#[trigger] failed[k]) && can_fail(
                        fetch,
                        failed[k],
                    )
            },
        },
{
    let ghost requested = ids@;
    let mut batch = Batch::new(ids);
    let requests = batch.requests();
    let mut i: usize = 0;
    while i < requests.len()
        invariant
            i <= requests@.len(),
            requests@ == tagged(requested),
            batch.wf(),
            batch.ids() == requested,
            batch.arrived().len() + batch.failed().len() == i,
            forall|i: int| 0 <= i < requested.len() ==> call_requires(fetch, (#[trigger] requested[i],)),
            forall|k: int|
                0 <= k < batch.arrived().len() ==> 1 <= (#[trigger] batch.arrived()[k]).0 <= i
                    && call_ensures(
                    fetch,
                    (requested[batch.arrived()[k].0 - 1],),
                    Ok::<Post, FetchFailure>(batch.arrived()[k].1),
                ),
            forall|k: int|
                0 <= k < batch.failed().len() ==> 1 <= (#[trigger] batch.failed()[k]) <= i
                    && can_fail(fetch, requested[batch.failed()[k] - 1]),
        decreases requests@.len() - i,
    {
        let pos = requests[i].0;
        let id = requests[i].1;
        assert(id == requested[i as int]);
        let fetched = fetch(id);
        let ghost before = (batch.arrived(), batch.failed());
        let ghost given = fetched;
        proof {
            assert(!has_position(before.0, pos as int));
        }
        let accepted = batch.accept(pos, fetched);
        assert(accepted);
        proof {
            if given is Err {
                assert(call_ensures(
                    fetch,
                    (requested[batch.failed()[batch.failed().len() - 1] - 1],),
                    Err::<Post, FetchFailure>(given->Err_0),
                ));
            }
        }
        i = i + 1;
    }
    let ghost arrived = batch.arrived();
    let ghost failed = batch.failed();
    let result = batch.finish();
    proof {
        if result is Ok {
            let list = in_request_order(arrived);
            lemma_request_order_is_ranked(arrived);
            assert forall|i: int| 0 <= i < requested.len() implies call_ensures(
                fetch,
                (requested[i],),
                Ok::<Post, FetchFailure>((#[trigger] list[i]).1),
            ) by {
                assert(arrived.contains(list[i]));
                let k = choose|k: int| 0 <= k < arrived.len() && arrived[k] == list[i];
                assert(arrived[k].0 == i + 1);
            }
        } else {
            lemma_failed_ids(requested, failed, requested.len() as int);
            assert(requested.take(requested.len() as int) =~= requested);
            let listed = failed_ids(requested, failed);
            assert forall|k: int| 0 <= k < listed.len() implies requested.contains(
                #[trigger] listed[k],
            ) && can_fail(fetch, listed[k]) by {
                assert(failed_within(requested, failed, requested.len() as int, listed[k]));
                let pos = choose|pos: int|
                    pos <= requested.len() && #[trigger] failed_under(
                        requested,
                        failed,
                        pos,
                        listed[k],
                    );
                let j = choose|j: int| 0 <= j < failed.len() && failed[j] == pos as usize;
                assert(can_fail(fetch, requested[failed[j] - 1]));
                assert(requested[pos - 1] == listed[k]);
            }
            assert(failed.contains(failed[0]));
            lemma_failed_ids_some(requested, failed, failed[0] as int);
        }
    }
    result
}

/// The order of request does not depend on the order of arrival: two batches
/// in which the same records came back under the same positions give the same
/// list.
pub proof fn lemma_order_independent(first: Seq<(usize, Post)>, second: Seq<(usize, Post)>)
    requires
        complete(first),
        distinct_positions(second),
        first.len() == second.len(),
        forall|k: int| 0 <= k < first.len() ==> second.contains(#[trigger] first[k]),
    ensures
        in_request_order(first) == in_request_order(second),
{
    assert forall|i: int| 0 <= i < first.len() implies in_request_order(first)[i]
        == in_request_order(second)[i] by {
        assert(has_position(first, i + 1));
        let a = arrival_of(first, i + 1);
        assert(first[a].0 == i + 1);
        let j = choose|j: int| 0 <= j < second.len() && second[j] == first[a];
        assert(second[j].0 == i + 1);
        let b = arrival_of(second, i + 1);
        assert(second[b].0 == i + 1);
        assert(b == j);
    }
    assert(in_request_order(first) =~= in_request_order(second));
}

/// The reverse of a complete run of arrivals is complete, and holds the same
/// records under the same positions.
proof fn lemma_reverse_is_complete(arrived: Seq<(usize, Post)>)
    requires
        complete(arrived),
    ensures
        complete(arrived.reverse()),
        forall|k: int| 0 <= k < arrived.len() ==> arrived.reverse().contains(#[trigger] arrived[k]),
{
    let reversed = arrived.reverse();
    assert forall|k: int| 0 <= k < arrived.len() implies reversed.contains(
        #[trigger] arrived[k],
    ) by {
        assert(reversed[arrived.len() - 1 - k] == arrived[k]);
    }
    assert forall|j: int, k: int|
        0 <= j < reversed.len() && 0 <= k < reversed.len() && j != k implies (
    #[trigger] reversed[j]).0 != (#[trigger] reversed[k]).0 by {
        assert(reversed[j] == arrived[arrived.len() - 1 - j]);
        assert(reversed[k] == arrived[arrived.len() - 1 - k]);
    }
    assert forall|k: int| 0 <= k < reversed.len() implies 1 <= (#[trigger] reversed[k]).0
        <= reversed.len() by {
        assert(reversed[k] == arrived[arrived.len() - 1 - k]);
    }
    assert forall|pos: int| 1 <= pos <= reversed.len() implies #[trigger] has_position(
        reversed,
        pos,
    ) by {
        assert(has_position(arrived, pos));
        let k = choose|k: int| 0 <= k < arrived.len() && (#[trigger] arrived[k]).0 == pos;
        assert(reversed[arrived.len() - 1 - k].0 == pos);
    }
}

/// Where the fetches complete in the reverse of some order, the list is the
/// same as for that order.
pub proof fn lemma_reversed_arrival(arrived: Seq<(usize, Post)>)
    requires
        complete(arrived),
    ensures
        in_request_order(arrived.reverse()) == in_request_order(arrived),
{
    lemma_reverse_is_complete(arrived);
    lemma_order_independent(arrived, arrived.reverse());
}

/// The list of a complete batch has the positions `1, 2, .., n`, each once, in
/// this order, and at each the record that came back under it.
pub proof fn lemma_request_order_is_ranked(arrived: Seq<(usize, Post)>)
    requires
        complete(arrived),
    ensures
        in_request_order(arrived).len() == arrived.len(),
        ranked(in_request_order(arrived)),
        forall|i: int|
            0 <= i < arrived.len() ==> arrived.contains(#[trigger] in_request_order(arrived)[i]),
{
    assert forall|i: int| 0 <= i < arrived.len() implies (#[trigger] in_request_order(
        arrived,
    )[i]).0 == i + 1 && arrived.contains(in_request_order(arrived)[i]) by {
        assert(has_position(arrived, i + 1));
        let a = arrival_of(arrived, i + 1);
        assert(arrived[a].0 == i + 1);
    }
}

/// Whether each record that came back is the one that the source holds for the
/// id that was requested under its position.
pub open spec fn from_source(
    ids: Seq<u32>,
    source: spec_fn(u32) -> Post,
    arrived: Seq<(usize, Post)>,
) -> bool {
    forall|k: int|
        0 <= k < arrived.len() ==> (#[trigger] arrived[k]).1 == source(ids[arrived[k].0 - 1])
}

/// What a batch gives depends on the ids and on what the source holds for them
/// alone: at index `i` stands position `i + 1` with the record of the id at
/// `i`. So two batches for the same ids against an unchanged source give equal
/// lists, in whatever order their fetches complete.
pub proof fn lemma_same_source(
    ids: Seq<u32>,
    source: spec_fn(u32) -> Post,
    first: Seq<(usize, Post)>,
    second: Seq<(usize, Post)>,
)
    requires
        complete(first),
        complete(second),
        first.len() == ids.len(),
        second.len() == ids.len(),
        from_source(ids, source, first),
        from_source(ids, source, second),
    ensures
        in_request_order(first) == Seq::new(
            ids.len(),
            |i: int| ((i + 1) as usize, source(ids[i])),
        ),
        in_request_order(first) == in_request_order(second),
{
    lemma_source_order(ids, source, first);
    lemma_source_order(ids, source, second);
}

proof fn lemma_source_order(ids: Seq<u32>, source: spec_fn(u32) -> Post, arrived: Seq<(usize, Post)>)
    requires
        complete(arrived),
        arrived.len() == ids.len(),
        from_source(ids, source, arrived),
    ensures
        in_request_order(arrived) == Seq::new(
            ids.len(),
            |i: int| ((i + 1) as usize, source(ids[i])),
        ),
{
    let expected = Seq::new(ids.len(), |i: int| ((i + 1) as usize, source(ids[i])));
    assert forall|i: int| 0 <= i < arrived.len() implies in_request_order(arrived)[i]
        == expected[i] by {
        assert(has_position(arrived, i + 1));
        let a = arrival_of(arrived, i + 1);
        assert(arrived[a].0 == i + 1);
        assert(arrived[a].1 == source(ids[arrived[a].0 - 1]));
    }
    assert(in_request_order(arrived) =~= expected);
}

/// A batch of no ids hands out no request, so that nothing is fetched for it,
/// and gives the empty list, whatever comes back.
pub proof fn lemma_empty_batch(completions: Seq<(usize, Result<Post, FetchFailure>)>)
    ensures
        tagged(Seq::<u32>::empty()) == Seq::<(usize, u32)>::empty(),
        after(0, completions) == (Seq::<(usize, Post)>::empty(), Seq::<usize>::empty()),
        collected(Seq::<u32>::empty(), completions) == Ok::<Seq<(usize, Post)>, CollectFault>(
            Seq::empty(),
        ),
    decreases completions.len(),
{
    assert(tagged(Seq::<u32>::empty()) =~= Seq::<(usize, u32)>::empty());
    if completions.len() > 0 {
        lemma_empty_batch(completions.drop_last());
    }
    assert(in_request_order(Seq::<(usize, Post)>::empty()) =~= Seq::<(usize, Post)>::empty());
}

/// One fetch that failed fails the batch: no list is given, neither before nor
/// after the other fetches have come back.
pub proof fn lemma_failure_fails_batch(
    ids: Seq<u32>,
    arrived: Seq<(usize, Post)>,
    failed: Seq<usize>,
)
    requires
        failed.len() > 0,
    ensures
        outcome(ids, arrived, failed) is Err,
        arrived.len() + failed.len() == ids.len() ==> outcome(ids, arrived, failed) == Err::<
            Seq<(usize, Post)>,
            CollectFault,
        >(CollectFault::PartialFailure(failed_ids(ids, failed))),
{
}

/// The positions under which something has come back: those of the records,
/// and then those of the failures.
pub open spec fn positions(arrived: Seq<(usize, Post)>, failed: Seq<usize>) -> Seq<int> {
    Seq::new(
        arrived.len() + failed.len(),
        |k: int|
            if k < arrived.len() {
                arrived[k].0 as int
            } else {
                failed[k - arrived.len()] as int
            },
    )
}

/// Once as many completions have come back as the batch has requests, each
/// request has its completion: the positions that came back are all of
/// `1..=n`, each once.
pub proof fn lemma_all_back(n: nat, arrived: Seq<(usize, Post)>, failed: Seq<usize>)
    requires
        orderly(n, arrived, failed),
        arrived.len() + failed.len() == n,
    ensures
        forall|pos: int| 1 <= pos <= n ==> #[trigger] seen(arrived, failed, pos),
        positions(arrived, failed).no_duplicates(),
        positions(arrived, failed).to_set() == set_int_range(1, n as int + 1),
        failed.len() == 0 ==> complete(arrived),
{
    let all = positions(arrived, failed);
    assert(all.no_duplicates()) by {
        assert forall|i: int, j: int| 0 <= i < all.len() && 0 <= j < all.len() && i != j implies all[i]
            != all[j] by {
            if i < arrived.len() && j < arrived.len() {
                assert(arrived[i].0 != arrived[j].0);
            } else if i < arrived.len() {
                assert(arrived[i].0 != failed[j - arrived.len()]);
            } else if j < arrived.len() {
                assert(arrived[j].0 != failed[i - arrived.len()]);
            } else {
                assert(failed[i - arrived.len()] != failed[j - arrived.len()]);
            }
        }
    }
    all.unique_seq_to_set();
    lemma_int_range(1, n as int + 1);
    assert(all.to_set().subset_of(set_int_range(1, n as int + 1))) by {
        assert forall|pos: int| all.to_set().contains(pos) implies set_int_range(1, n as int + 1).contains(
            pos,
        ) by {
            let k = choose|k: int| 0 <= k < all.len() && all[k] == pos;
            if k < arrived.len() {
                assert(1 <= arrived[k].0 <= n);
            } else {
                assert(1 <= failed[k - arrived.len()] <= n);
            }
        }
    }
    vstd::seq_lib::seq_to_set_is_finite(all);
    lemma_subset_equality(all.to_set(), set_int_range(1, n as int + 1));
    assert forall|pos: int| 1 <= pos <= n implies #[trigger] seen(arrived, failed, pos) by {
        assert(set_int_range(1, n as int + 1).contains(pos));
        assert(all.to_set().contains(pos));
        let k = choose|k: int| 0 <= k < all.len() && all[k] == pos;
        if k < arrived.len() {
            assert(arrived[k].0 == pos);
            assert(has_position(arrived, pos));
        } else {
            assert(failed[k - arrived.len()] == pos);
        }
    }
    if failed.len() == 0 {
        assert forall|pos: int| 1 <= pos <= arrived.len() implies #[trigger] has_position(
            arrived,
            pos,
        ) by {
            assert(seen(arrived, failed, pos));
        }
    }
}

/// Whatever comes back, and in whatever order, what a batch keeps of it
/// belongs to the batch: positions of `1..=n`, none twice.
pub proof fn lemma_after_is_orderly(
    n: nat,
    completions: Seq<(usize, Result<Post, FetchFailure>)>,
)
    ensures
        orderly(n, after(n, completions).0, after(n, completions).1),
    decreases completions.len(),
{
    if completions.len() > 0 {
        lemma_after_is_orderly(n, completions.drop_last());
        let before = after(n, completions.drop_last());
        let now = after(n, completions);
        let pos = completions.last().0;
        if 1 <= pos <= n && !seen(before.0, before.1, pos as int) {
            assert(!has_position(before.0, pos as int));
            assert forall|k: int| 0 <= k < before.0.len() implies (#[trigger] before.0[k]).0
                != pos by {
                if before.0[k].0 == pos {
                    assert(has_position(before.0, pos as int));
                }
            }
            assert forall|k: int| 0 <= k < before.1.len() implies #[trigger] before.1[k] != pos by {
                if before.1[k] == pos {
                    assert(seen(before.0, before.1, pos as int));
                }
            }
        }
    }
}

/// A list that a batch gives has as many records as ids were requested, under
/// the positions `1, 2, .., n`: no gap and none twice, whatever the order in
/// which the fetches completed.
pub proof fn lemma_collected_is_ranked(
    ids: Seq<u32>,
    completions: Seq<(usize, Result<Post, FetchFailure>)>,
)
    ensures
        collected(ids, completions) matches Ok(list) ==> list.len() == ids.len() && ranked(list)
            && complete(after(ids.len(), completions).0),
{
    let state = after(ids.len(), completions);
    lemma_after_is_orderly(ids.len(), completions);
    if collected(ids, completions) is Ok {
        lemma_all_back(ids.len(), state.0, state.1);
        lemma_request_order_is_ranked(state.0);
    }
}

/// The completions of a batch in which each fetch came back with a record, in
/// the order in which the records came.
pub open spec fn all_fetched(arrived: Seq<(usize, Post)>) -> Seq<
    (usize, Result<Post, FetchFailure>),
> {
    Seq::new(arrived.len(), |k: int| (arrived[k].0, Ok::<Post, FetchFailure>(arrived[k].1)))
}

proof fn lemma_fetched_so_far(n: nat, arrived: Seq<(usize, Post)>, k: int)
    requires
        complete(arrived),
        arrived.len() == n,
        0 <= k <= arrived.len(),
    ensures
        after(n, all_fetched(arrived).take(k)) == (arrived.take(k), Seq::<usize>::empty()),
    decreases k,
{
    let completions = all_fetched(arrived).take(k);
    if k > 0 {
        lemma_fetched_so_far(n, arrived, k - 1);
        assert(completions.drop_last() =~= all_fetched(arrived).take(k - 1));
        let before = arrived.take(k - 1);
        let pos = arrived[k - 1].0;
        assert(completions.last() == (pos, Ok::<Post, FetchFailure>(arrived[k - 1].1)));
        assert(!has_position(before, pos as int)) by {
            if has_position(before, pos as int) {
                let j = choose|j: int| 0 <= j < before.len() && (#[trigger] before[j]).0 == pos;
                assert(arrived[j].0 == arrived[k - 1].0);
            }
        }
        assert(before.push((pos, arrived[k - 1].1)) =~= arrived.take(k));
    } else {
        assert(arrived.take(0) =~= Seq::<(usize, Post)>::empty());
    }
}

/// Success is owed: where each fetch of a batch completes once, and with a
/// record, the batch gives the records in the order of the request.
pub proof fn lemma_success_is_owed(ids: Seq<u32>, arrived: Seq<(usize, Post)>)
    requires
        complete(arrived),
        arrived.len() == ids.len(),
    ensures
        collected(ids, all_fetched(arrived)) == Ok::<Seq<(usize, Post)>, CollectFault>(
            in_request_order(arrived),
        ),
{
    lemma_fetched_so_far(ids.len(), arrived, arrived.len() as int);
    assert(all_fetched(arrived).take(arrived.len() as int) =~= all_fetched(arrived));
    assert(arrived.take(arrived.len() as int) =~= arrived);
}

/// What a batch gives does not depend on the order in which its fetches
/// complete: two runs of completions that bring the same records under the
/// same positions give the same list.
pub proof fn lemma_completion_order(
    ids: Seq<u32>,
    first: Seq<(usize, Post)>,
    second: Seq<(usize, Post)>,
)
    requires
        complete(first),
        complete(second),
        first.len() == ids.len(),
        second.len() == ids.len(),
        forall|k: int| 0 <= k < first.len() ==> second.contains(#[trigger] first[k]),
    ensures
        collected(ids, all_fetched(first)) == collected(ids, all_fetched(second)),
        collected(ids, all_fetched(first)) == Ok::<Seq<(usize, Post)>, CollectFault>(
            in_request_order(first),
        ),
{
    lemma_success_is_owed(ids, first);
    lemma_success_is_owed(ids, second);
    lemma_order_independent(first, second);
}

/// Where the fetches complete in the reverse of some order, the batch gives
/// the same list as for that order.
pub proof fn lemma_reversed_completions(ids: Seq<u32>, arrived: Seq<(usize, Post)>)
    requires
        complete(arrived),
        arrived.len() == ids.len(),
    ensures
        all_fetched(arrived).reverse() == all_fetched(arrived.reverse()),
        collected(ids, all_fetched(arrived).reverse()) == collected(ids, all_fetched(arrived)),
{
    assert(all_fetched(arrived).reverse() =~= all_fetched(arrived.reverse()));
    lemma_reverse_is_complete(arrived);
    lemma_completion_order(ids, arrived, arrived.reverse());
}

} // verus!
