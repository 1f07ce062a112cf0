//! What holds of a whole import.
//!
//! An import is run here against a world: a host whose pages do not change
//! while it is asked, and a store that executes every batch. [`run`] lets the
//! import's own [`ImportModel::step`] decide, one request after the other.
//! The laws below are stated of that run.

use crate::import::{
    batch_end, batches_of, deletions, fresh_count, hashes_of, stale_hashes,
    threshold_error, upserts, ActionModel, Counts, EventModel, ImportModel, Phase, StoreOp,
    BATCH_SIZE, MAX_CONSECUTIVE_FAILURES, MAX_PAGES,
};
use crate::mirror::{
    apply_all, at_row, holds, is_live, lemma_row_is_unique, lemma_soft_delete,
    lemma_upsert, live_rows, row_of, well_formed, Record,
};
use crate::model::HistoryItem;
use vstd::prelude::*;

verus! {

/// What an import meets: the host's answer to each page number, the store's
/// table, and the store's clock.
pub struct World {
    pub listing: spec_fn(int) -> Result<Seq<HistoryItem>, Seq<char>>,
    pub table: Seq<Record>,
    pub now: nat,
}

/// How a run ends, with the table it leaves; or that it has not ended within
/// the steps it was given.
pub enum Outcome {
    Done(Counts, Seq<Record>),
    Failed(Seq<char>, Seq<Record>),
    Unfinished,
}

/// The world performs a request: it answers a query with its live hashes, a
/// page request with the listing's answer, and executes a batch.
pub open spec fn react(world: World, action: ActionModel) -> (World, EventModel) {
    match action {
        ActionModel::LoadHashes => (world, EventModel::Rows(live_rows(world.table))),
        ActionModel::Fetch(page) => (
            world,
            match (world.listing)(page) {
                Ok(items) => EventModel::Page(items),
                Err(cause) => EventModel::FetchFailed(cause),
            },
        ),
        ActionModel::Write(ops) => (
            World { table: apply_all(world.table, ops, world.now), ..world },
            EventModel::BatchDone,
        ),
        _ => (world, EventModel::BatchDone),
    }
}

/// The import in `state`, which has just asked for `action`, runs against the
/// world for at most `fuel` requests.
pub open spec fn run(state: ImportModel, action: ActionModel, world: World, fuel: nat) -> Outcome
    decreases fuel,
{
    match action {
        ActionModel::Finish(counts) => Outcome::Done(counts, world.table),
        ActionModel::Fail(cause) => Outcome::Failed(cause, world.table),
        _ => if fuel == 0 {
            Outcome::Unfinished
        } else {
            let (next_world, event) = react(world, action);
            let (next_state, next_action) = state.step(event);
            run(next_state, next_action, next_world, (fuel - 1) as nat)
        },
    }
}

/// A whole import against the world, from its first request on.
pub open spec fn import(world: World, fuel: nat) -> Outcome {
    run(ImportModel::initial(), ActionModel::LoadHashes, world, fuel)
}

/// The entries that an import meets from `page` on, in their order, and the
/// error in which the page loop ends, if it does. `failures` counts the page
/// requests that have just failed in a row; `met` says whether any entry was
/// met before.
pub open spec fn crawl(
    listing: spec_fn(int) -> Result<Seq<HistoryItem>, Seq<char>>,
    page: int,
    failures: nat,
    met: bool,
) -> (Seq<HistoryItem>, Option<Seq<char>>)
    decreases MAX_PAGES + 1 - page,
{
    if page > MAX_PAGES {
        (Seq::empty(), None)
    } else {
        match listing(page) {
            Ok(items) => if items.len() == 0 {
                (Seq::empty(), None)
            } else {
                let rest = crawl(listing, page + 1, 0, true);
                (items + rest.0, rest.1)
            },
            Err(cause) => if failures + 1 >= MAX_CONSECUTIVE_FAILURES {
                if met {
                    (Seq::empty(), None)
                } else {
                    (Seq::empty(), Some(threshold_error(cause)))
                }
            } else {
                crawl(listing, page + 1, failures + 1, met)
            },
        }
    }
}

/// The entries that a whole import meets.
pub open spec fn shown(listing: spec_fn(int) -> Result<Seq<HistoryItem>, Seq<char>>) -> Seq<
    HistoryItem,
> {
    crawl(listing, 1, 0, false).0
}

/// What a list of batches does to the table.
pub open spec fn apply_batches(table: Seq<Record>, batches: Seq<Seq<StoreOp>>, now: nat) -> Seq<
    Record,
>
    decreases batches.len(),
{
    if batches.len() == 0 {
        table
    } else {
        apply_batches(apply_all(table, batches[0], now), batches.drop_first(), now)
    }
}

/// The sets and counts of an import after it has met `items` more.
pub open spec fn absorbed(state: ImportModel, items: Seq<HistoryItem>) -> ImportModel {
    ImportModel {
        known: state.known.union(hashes_of(items).to_set()),
        seen: state.seen.union(hashes_of(items).to_set()),
        added: state.added + fresh_count(state.known, hashes_of(items)),
        skipped: (state.skipped + items.len() - fresh_count(state.known, hashes_of(items))) as nat,
        ..state
    }
}

/// How an import ends once it has left the page loop: where the host showed
/// anything, every live hash that it did not show is marked deleted.
pub open spec fn conclude(state: ImportModel, table: Seq<Record>, now: nat) -> Outcome {
    if state.seen.is_empty() {
        Outcome::Done(state.counts(), table)
    } else {
        let stale = stale_hashes(live_rows(table), state.seen);
        Outcome::Done(
            Counts { added: state.added, skipped: state.skipped, deleted: stale.len() },
            apply_all(table, deletions(stale), now),
        )
    }
}

/// How an import ends that is about to ask for `page`.
pub open spec fn resume(state: ImportModel, world: World, page: int) -> Outcome {
    let (items, verdict) = crawl(world.listing, page, state.failures, state.added + state.skipped > 0);
    match verdict {
        Some(cause) => Outcome::Failed(cause, world.table),
        None => conclude(
            absorbed(state, items),
            apply_all(world.table, upserts(items), world.now),
            world.now,
        ),
    }
}

/// How the import in `state`, which has just asked for `action`, ends.
pub open spec fn settled(state: ImportModel, action: ActionModel, world: World) -> Outcome {
    match action {
        ActionModel::Finish(counts) => Outcome::Done(counts, world.table),
        ActionModel::Fail(cause) => Outcome::Failed(cause, world.table),
        ActionModel::LoadHashes => if state.phase == Phase::Loading {
            resume(state.load(live_rows(world.table)).0, world, 1)
        } else {
            conclude(state, world.table, world.now)
        },
        ActionModel::Fetch(page) => resume(state, world, page),
        ActionModel::Write(ops) => if state.phase == Phase::Writing {
            resume(
                state,
                World {
                    table: apply_batches(apply_all(world.table, ops, world.now), state.queue, world.now),
                    ..world
                },
                state.page + 1,
            )
        } else {
            Outcome::Done(state.counts(), apply_all(world.table, ops, world.now))
        },
    }
}

/// The state and the request fit together as they do in every run.
pub open spec fn coherent(state: ImportModel, action: ActionModel) -> bool {
    match action {
        ActionModel::LoadHashes => (state.phase == Phase::Loading && state.added == 0 && state.skipped
            == 0 && state.failures == 0) || (state.phase == Phase::Auditing
            && !state.seen.is_empty()),
        ActionModel::Fetch(page) => state.phase == Phase::Fetching && page == state.page && 1 <= page
            <= MAX_PAGES,
        ActionModel::Write(ops) => (state.phase == Phase::Writing && 1 <= state.page <= MAX_PAGES
            && state.added + state.skipped > 0) || state.phase == Phase::Retiring,
        _ => true,
    }
}

/// Writes applied in two parts do what they do in one.
pub proof fn lemma_apply_all_concat(table: Seq<Record>, a: Seq<StoreOp>, b: Seq<StoreOp>, now: nat)
    ensures
        apply_all(table, a + b, now) == apply_all(apply_all(table, a, now), b, now),
    decreases b.len(),
{
    if b.len() == 0 {
        assert(a + b == a);
    } else {
        assert((a + b).drop_last() == a + b.drop_last());
        assert((a + b).last() == b.last());
        lemma_apply_all_concat(table, a, b.drop_last(), now);
    }
}

/// Cutting writes into batches does not change what they do.
pub proof fn lemma_apply_batches(table: Seq<Record>, ops: Seq<StoreOp>, now: nat)
    ensures
        apply_batches(table, batches_of(ops), now) == apply_all(table, ops, now),
    decreases ops.len(),
{
    let batches = batches_of(ops);
    if ops.len() == 0 {
        assert(batches.len() == 0);
    } else if ops.len() <= BATCH_SIZE {
        assert(batches.len() == 1);
        assert(batches[0] == ops);
        assert(batches.drop_first().len() == 0);
        assert(apply_batches(apply_all(table, ops, now), batches.drop_first(), now) == apply_all(
            table,
            ops,
            now,
        ));
    } else {
        let head = ops.take(BATCH_SIZE as int);
        let tail = ops.skip(BATCH_SIZE as int);
        assert(batches[0] == head);
        assert(batches.drop_first().len() == batches_of(tail).len());
        assert forall|k: int| 0 <= k < batches_of(tail).len() implies batches.drop_first()[k]
            == batches_of(tail)[k] by {
            assert(batches.drop_first()[k] == batches[k + 1]);
            assert(batch_end(k + 1, ops.len()) == batch_end(k, tail.len()) + BATCH_SIZE);
            assert(ops.subrange(BATCH_SIZE * (k + 1), batch_end(k + 1, ops.len())) == tail.subrange(
                BATCH_SIZE * k,
                batch_end(k, tail.len()),
            ));
        }
        assert(batches.drop_first() == batches_of(tail));
        lemma_apply_batches(apply_all(table, head, now), tail, now);
        lemma_apply_all_concat(table, head, tail, now);
        assert(head + tail == ops);
    }
}

/// An element of two lists in a row is an element of one of them.
pub proof fn lemma_contains_concat<T>(a: Seq<T>, b: Seq<T>, x: T)
    ensures
        (a + b).contains(x) <==> a.contains(x) || b.contains(x),
{
    if a.contains(x) {
        let i = choose|i: int| 0 <= i < a.len() && a[i] == x;
        assert((a + b)[i] == x);
    }
    if b.contains(x) {
        let i = choose|i: int| 0 <= i < b.len() && b[i] == x;
        assert((a + b)[a.len() + i] == x);
    }
    if (a + b).contains(x) {
        let i = choose|i: int| 0 <= i < (a + b).len() && (a + b)[i] == x;
        if i < a.len() {
            assert(a[i] == x);
        } else {
            assert(b[i - a.len()] == x);
        }
    }
}

/// The hashes of two lists in a row are the hashes of both.
pub proof fn lemma_to_set_concat<T>(a: Seq<T>, b: Seq<T>)
    ensures
        (a + b).to_set() == a.to_set().union(b.to_set()),
{
    assert forall|x: T| (a + b).to_set().contains(x) <==> a.to_set().union(b.to_set()).contains(
        x,
    ) by {
        lemma_contains_concat(a, b, x);
    }
    assert((a + b).to_set() =~= a.to_set().union(b.to_set()));
}

/// The added entries of two lists in a row: those of the first, and those of
/// the second once the first is known.
pub proof fn lemma_fresh_count_concat(known: Set<Seq<char>>, a: Seq<Seq<char>>, b: Seq<Seq<char>>)
    ensures
        fresh_count(known, a + b) == fresh_count(known, a) + fresh_count(
            known.union(a.to_set()),
            b,
        ),
    decreases b.len(),
{
    if b.len() == 0 {
        assert(a + b == a);
    } else {
        assert((a + b).drop_last() == a + b.drop_last());
        assert((a + b).last() == b.last());
        lemma_fresh_count_concat(known, a, b.drop_last());
        lemma_contains_concat(a, b.drop_last(), b.last());
    }
}

/// No more entries are added than there are.
pub proof fn lemma_fresh_count_bound(known: Set<Seq<char>>, hashes: Seq<Seq<char>>)
    ensures
        fresh_count(known, hashes) <= hashes.len(),
    decreases hashes.len(),
{
    if hashes.len() > 0 {
        lemma_fresh_count_bound(known, hashes.drop_last());
    }
}

/// Where every hash is known, nothing is added.
pub proof fn lemma_fresh_count_known(known: Set<Seq<char>>, hashes: Seq<Seq<char>>)
    requires
        forall|i: int| 0 <= i < hashes.len() ==> known.contains(hashes[i]),
    ensures
        fresh_count(known, hashes) == 0,
    decreases hashes.len(),
{
    if hashes.len() > 0 {
        lemma_fresh_count_known(known, hashes.drop_last());
    }
}

/// Once an entry was met the page loop ends in no error, and a page loop that
/// ends in an error has met no entry.
pub proof fn lemma_crawl_verdict(
    listing: spec_fn(int) -> Result<Seq<HistoryItem>, Seq<char>>,
    page: int,
    failures: nat,
    met: bool,
)
    ensures
        met ==> crawl(listing, page, failures, met).1 is None,
        crawl(listing, page, failures, met).1 is Some ==> crawl(listing, page, failures, met).0.len()
            == 0,
    decreases MAX_PAGES + 1 - page,
{
    if page <= MAX_PAGES {
        match listing(page) {
            Ok(items) => {
                if items.len() > 0 {
                    lemma_crawl_verdict(listing, page + 1, 0, true);
                }
            },
            Err(cause) => {
                if failures + 1 < MAX_CONSECUTIVE_FAILURES {
                    lemma_crawl_verdict(listing, page + 1, failures + 1, met);
                }
            },
        }
    }
}

/// Meeting two lists of entries in a row is meeting their concatenation.
pub proof fn lemma_absorbed_concat(state: ImportModel, a: Seq<HistoryItem>, b: Seq<HistoryItem>)
    ensures
        absorbed(absorbed(state, a), b) == absorbed(state, a + b),
{
    let ha = hashes_of(a);
    let hb = hashes_of(b);
    assert(hashes_of(a + b) == ha + hb);
    lemma_to_set_concat(ha, hb);
    lemma_fresh_count_concat(state.known, ha, hb);
    lemma_fresh_count_bound(state.known, ha);
    lemma_fresh_count_bound(state.known.union(ha.to_set()), hb);
    let left = absorbed(absorbed(state, a), b);
    let right = absorbed(state, a + b);
    assert(left.known == right.known);
    assert(left.seen == right.seen);
}

/// Meeting no entry changes nothing.
pub proof fn lemma_absorbed_nothing(state: ImportModel)
    ensures
        absorbed(state, Seq::empty()) == state,
{
    let none = hashes_of(Seq::<HistoryItem>::empty());
    assert(none.to_set() == Set::<Seq<char>>::empty());
    assert(state.known.union(Set::empty()) == state.known);
    assert(state.seen.union(Set::empty()) == state.seen);
}

/// One request does not change how the import ends.
pub proof fn lemma_step_keeps_outcome(state: ImportModel, action: ActionModel, world: World)
    requires
        coherent(state, action),
        !(action is Finish),
        !(action is Fail),
    ensures
        coherent(state.step(react(world, action).1).0, state.step(react(world, action).1).1),
        settled(
            state.step(react(world, action).1).0,
            state.step(react(world, action).1).1,
            react(world, action).0,
        ) == settled(state, action, world),
{
    let (next_world, event) = react(world, action);
    let (next_state, next_action) = state.step(event);
    let now = world.now;
    match action {
        ActionModel::LoadHashes => {
            if state.phase == Phase::Loading {
            } else {
                let stale = stale_hashes(live_rows(world.table), state.seen);
                if stale.len() == 0 {
                    assert(deletions(stale).len() == 0);
                }
            }
        },
        ActionModel::Fetch(page) => {
            match (world.listing)(page) {
                Ok(items) => {
                    let calm = ImportModel { failures: 0, ..state };
                    if items.len() == 0 {
                        lemma_absorbed_nothing(state);
                        assert(upserts(Seq::<HistoryItem>::empty()).len() == 0);
                    } else {
                        let rest = crawl(world.listing, page + 1, 0, true);
                        lemma_crawl_verdict(world.listing, page + 1, 0, true);
                        let batches = batches_of(upserts(items));
                        assert(batches.len() > 0);
                        lemma_fresh_count_bound(state.known, hashes_of(items));
                        lemma_apply_batches(world.table, upserts(items), now);
                        lemma_absorbed_concat(state, items, rest.0);
                        assert(upserts(items + rest.0) == upserts(items) + upserts(rest.0));
                        lemma_apply_all_concat(world.table, upserts(items), upserts(rest.0), now);
                        assert(next_state.queue == batches.drop_first());
                        assert(next_action == ActionModel::Write(batches[0]));
                        let written = apply_batches(
                            apply_all(world.table, batches[0], now),
                            next_state.queue,
                            now,
                        );
                        assert(written == apply_all(world.table, upserts(items), now));
                        let a1 = absorbed(next_state, rest.0);
                        let a2 = absorbed(state, items + rest.0);
                        assert(a1.seen == a2.seen && a1.added == a2.added && a1.skipped
                            == a2.skipped && a1.deleted == a2.deleted) by {
                            assert(absorbed(absorbed(state, items), rest.0) == a2);
                        }
                        assert(next_state.added + next_state.skipped > 0);
                    }
                },
                Err(cause) => {
                    if state.failures + 1 >= MAX_CONSECUTIVE_FAILURES {
                        lemma_absorbed_nothing(state);
                        assert(upserts(Seq::<HistoryItem>::empty()).len() == 0);
                    } else {
                        if page + 1 > MAX_PAGES {
                            let shaken = ImportModel {
                                failures: state.failures + 1,
                                page: page + 1,
                                ..state
                            };
                            lemma_absorbed_nothing(state);
                            assert(upserts(Seq::<HistoryItem>::empty()).len() == 0);
                        }
                    }
                },
            }
        },
        ActionModel::Write(ops) => {
            if state.phase == Phase::Writing {
                if state.queue.len() > 0 {
                } else {
                    if state.page + 1 > MAX_PAGES {
                        lemma_absorbed_nothing(state);
                        assert(upserts(Seq::<HistoryItem>::empty()).len() == 0);
                    }
                }
            }
        },
        _ => {},
    }
}

/// A run that ends within its steps ends as [`settled`] says.
pub proof fn lemma_run_settles(state: ImportModel, action: ActionModel, world: World, fuel: nat)
    requires
        coherent(state, action),
    ensures
        run(state, action, world, fuel) is Unfinished || run(state, action, world, fuel) == settled(
            state,
            action,
            world,
        ),
    decreases fuel,
{
    if action is Finish || action is Fail {
    } else if fuel > 0 {
        lemma_step_keeps_outcome(state, action, world);
        let (next_world, event) = react(world, action);
        let (next_state, next_action) = state.step(event);
        lemma_run_settles(next_state, next_action, next_world, (fuel - 1) as nat);
    }
}

/// How many pages the import may still ask for; nothing once it has left the
/// page loop.
pub open spec fn pages_left(state: ImportModel, action: ActionModel) -> nat {
    match action {
        ActionModel::LoadHashes => if state.phase == Phase::Loading {
            (MAX_PAGES + 2) as nat
        } else {
            0
        },
        ActionModel::Fetch(page) => (MAX_PAGES + 1 - page) as nat,
        ActionModel::Write(_) => if state.phase == Phase::Writing {
            (MAX_PAGES + 1 - state.page) as nat
        } else {
            0
        },
        _ => 0,
    }
}

/// How far the import is from its next page, or from its end once it has left
/// the page loop.
pub open spec fn stage(state: ImportModel, action: ActionModel) -> nat {
    match action {
        ActionModel::LoadHashes => 2,
        ActionModel::Fetch(_) => 2,
        ActionModel::Write(_) => 1,
        _ => 0,
    }
}

/// Every run ends: from any state that a run can be in, some number of
/// requests is enough.
pub proof fn lemma_run_ends(state: ImportModel, action: ActionModel, world: World)
    requires
        coherent(state, action),
    ensures
        exists|fuel: nat| !(#[trigger] run(state, action, world, fuel) is Unfinished),
    decreases pages_left(state, action), stage(state, action), state.queue.len(),
{
    if action is Finish || action is Fail {
        assert(!(run(state, action, world, 0) is Unfinished));
    } else {
        lemma_step_keeps_outcome(state, action, world);
        let (next_world, event) = react(world, action);
        let (next_state, next_action) = state.step(event);
        lemma_run_ends(next_state, next_action, next_world);
        let fuel = choose|fuel: nat|
            !(#[trigger] run(next_state, next_action, next_world, fuel) is Unfinished);
        assert(run(state, action, world, fuel + 1) == run(
            next_state,
            next_action,
            next_world,
            fuel,
        ));
    }
}

/// Every import ends, in an error or with its counts: some number of requests
/// is enough for it, whatever the host answers and whatever the store holds.
pub proof fn law_import_ends(world: World)
    ensures
        exists|fuel: nat| !(#[trigger] import(world, fuel) is Unfinished),
{
    lemma_run_ends(ImportModel::initial(), ActionModel::LoadHashes, world);
    let fuel = choose|fuel: nat|
        !(#[trigger] run(ImportModel::initial(), ActionModel::LoadHashes, world, fuel)
            is Unfinished);
    assert(!(import(world, fuel) is Unfinished));
}

/// However many requests an import is given, it ends in one way: two runs
/// that both end within their requests end alike.
pub proof fn law_import_ends_in_one_way(world: World, fuel: nat, more_fuel: nat)
    requires
        !(import(world, fuel) is Unfinished),
        !(import(world, more_fuel) is Unfinished),
    ensures
        import(world, fuel) == import(world, more_fuel),
{
    lemma_run_settles(ImportModel::initial(), ActionModel::LoadHashes, world, fuel);
    lemma_run_settles(ImportModel::initial(), ActionModel::LoadHashes, world, more_fuel);
}

/// The query for the live hashes returns each live hash once.
pub proof fn lemma_live_rows(table: Seq<Record>)
    requires
        well_formed(table),
    ensures
        live_rows(table).no_duplicates(),
        forall|h: Seq<char>| live_rows(table).contains(h) <==> is_live(table, h),
    decreases table.len(),
{
    if table.len() == 0 {
        assert forall|h: Seq<char>| !is_live(table, h) by {
            if holds(table, h) {
                assert(at_row(table, h, row_of(table, h)));
            }
        }
    } else {
        let front = table.drop_last();
        let end = table.last();
        assert forall|i: int, j: int| 0 <= i < j < front.len() implies (#[trigger] front[i]).item.hash
            != (#[trigger] front[j]).item.hash by {
            assert(table[i].item.hash != table[j].item.hash);
        }
        assert forall|i: int| 0 <= i < front.len() implies ((#[trigger] front[i]).deleted
            <==> front[i].deleted_at is Some) by {
            assert(front[i] == table[i]);
        }
        lemma_live_rows(front);
        let last_row = table.len() - 1;
        assert forall|h: Seq<char>| is_live(table, h) <==> (is_live(front, h) || (h == end.item.hash
            && !end.deleted)) by {
            if holds(front, h) {
                let i = row_of(front, h);
                assert(at_row(front, h, i));
                assert(at_row(table, h, i));
                lemma_row_is_unique(table, h, i);
                assert(table[i].item.hash != table[last_row].item.hash);
            }
            if h == end.item.hash {
                assert(at_row(table, h, last_row));
                lemma_row_is_unique(table, h, last_row);
                if holds(front, h) {
                    let i = row_of(front, h);
                    assert(at_row(front, h, i));
                    assert(table[i].item.hash != table[last_row].item.hash);
                }
            }
            if holds(table, h) {
                let i = row_of(table, h);
                assert(at_row(table, h, i));
                if i < last_row {
                    assert(at_row(front, h, i));
                    lemma_row_is_unique(front, h, i);
                }
            }
        }
        if !end.deleted {
            let rows = live_rows(front);
            assert(!rows.contains(end.item.hash)) by {
                if holds(front, end.item.hash) {
                    let i = row_of(front, end.item.hash);
                    assert(at_row(front, end.item.hash, i));
                    assert(table[i].item.hash != table[last_row].item.hash);
                }
                assert(!is_live(front, end.item.hash));
            }
            assert forall|h: Seq<char>| rows.push(end.item.hash).contains(h) <==> (rows.contains(h)
                || h == end.item.hash) by {
                if rows.contains(h) {
                    let i = choose|i: int| 0 <= i < rows.len() && rows[i] == h;
                    assert(rows.push(end.item.hash)[i] == h);
                }
                if h == end.item.hash {
                    assert(rows.push(end.item.hash)[rows.len() as int] == h);
                }
            }
            assert forall|i: int, j: int|
                0 <= i < rows.len() + 1 && 0 <= j < rows.len() + 1 && i != j implies rows.push(
                end.item.hash,
            )[i] != rows.push(end.item.hash)[j] by {
                if i < rows.len() && j < rows.len() {
                } else if i < rows.len() {
                    assert(rows.contains(rows[i]));
                } else {
                    assert(rows.contains(rows[j]));
                }
            }
        }
    }
}

/// A hash is stale exactly if the store lists it and the host did not show
/// it; a store that lists no hash twice has no hash marked twice.
pub proof fn lemma_stale(local: Seq<Seq<char>>, seen: Set<Seq<char>>)
    ensures
        forall|h: Seq<char>|
            stale_hashes(local, seen).contains(h) <==> local.contains(h) && !seen.contains(h),
        local.no_duplicates() ==> stale_hashes(local, seen).no_duplicates(),
        stale_hashes(local, seen).len() <= local.len(),
    decreases local.len(),
{
    if local.len() > 0 {
        let front = local.drop_last();
        let end = local.last();
        lemma_stale(front, seen);
        let before = stale_hashes(front, seen);
        let all = stale_hashes(local, seen);
        assert forall|h: Seq<char>| local.contains(h) <==> (front.contains(h) || h == end) by {
            lemma_contains_concat(front, seq![end], h);
            assert(front + seq![end] == local);
            if h == end {
                assert(seq![end][0] == h);
            }
        }
        if !seen.contains(end) {
            assert forall|h: Seq<char>| all.contains(h) <==> (before.contains(h) || h == end) by {
                lemma_contains_concat(before, seq![end], h);
                assert(before + seq![end] == all);
                if h == end {
                    assert(seq![end][0] == h);
                }
            }
        }
        if local.no_duplicates() {
            assert forall|i: int, j: int| 0 <= i < front.len() && 0 <= j < front.len() && i
                != j implies front[i] != front[j] by {
                assert(local[i] != local[j]);
            }
            assert(!front.contains(end)) by {
                if front.contains(end) {
                    let i = choose|i: int| 0 <= i < front.len() && front[i] == end;
                    assert(local[i] != local[local.len() - 1]);
                }
            }
            if !seen.contains(end) {
                assert forall|i: int, j: int| 0 <= i < all.len() && 0 <= j < all.len() && i
                    != j implies all[i] != all[j] by {
                    if i < before.len() && j < before.len() {
                    } else if i < before.len() {
                        assert(before.contains(before[i]));
                    } else {
                        assert(before.contains(before[j]));
                    }
                }
            }
        }
    }
}

/// After the upserts of a list of entries the table is well formed, every
/// hash of the list is live, and every other hash is as it was.
pub proof fn lemma_upserts_make_live(table: Seq<Record>, items: Seq<HistoryItem>, now: nat)
    requires
        well_formed(table),
    ensures
        well_formed(apply_all(table, upserts(items), now)),
        forall|h: Seq<char>|
            hashes_of(items).contains(h) ==> is_live(apply_all(table, upserts(items), now), h),
        forall|h: Seq<char>|
            !hashes_of(items).contains(h) ==> (is_live(apply_all(table, upserts(items), now), h)
                <==> is_live(table, h)),
        forall|h: Seq<char>|
            !hashes_of(items).contains(h) ==> (holds(apply_all(table, upserts(items), now), h)
                <==> holds(table, h)),
    decreases items.len(),
{
    if items.len() > 0 {
        let front = items.drop_last();
        let end = items.last();
        lemma_upserts_make_live(table, front, now);
        assert(upserts(items).drop_last() == upserts(front));
        assert(upserts(items).last() == StoreOp::Upsert(end));
        let middle = apply_all(table, upserts(front), now);
        lemma_upsert(middle, end);
        assert forall|h: Seq<char>| hashes_of(items).contains(h) <==> (hashes_of(front).contains(h)
            || h == end.hash) by {
            lemma_contains_concat(hashes_of(front), seq![end.hash], h);
            assert(hashes_of(front) + seq![end.hash] == hashes_of(items));
            if h == end.hash {
                assert(seq![end.hash][0] == h);
            }
        }
    } else {
        assert(upserts(items).len() == 0);
    }
}

/// After the soft deletes of a list of hashes the table is well formed, no
/// hash of the list is live, and every other hash is as it was.
pub proof fn lemma_deletions_retire(table: Seq<Record>, hashes: Seq<Seq<char>>, now: nat)
    requires
        well_formed(table),
    ensures
        well_formed(apply_all(table, deletions(hashes), now)),
        forall|h: Seq<char>| hashes.contains(h) ==> !is_live(apply_all(table, deletions(hashes), now), h),
        forall|h: Seq<char>|
            !hashes.contains(h) ==> (is_live(apply_all(table, deletions(hashes), now), h) <==> is_live(
                table,
                h,
            )),
        forall|h: Seq<char>|
            holds(apply_all(table, deletions(hashes), now), h) <==> holds(table, h),
    decreases hashes.len(),
{
    if hashes.len() > 0 {
        let front = hashes.drop_last();
        let end = hashes.last();
        lemma_deletions_retire(table, front, now);
        assert(deletions(hashes).drop_last() == deletions(front));
        assert(deletions(hashes).last() == StoreOp::SoftDelete(end));
        let middle = apply_all(table, deletions(front), now);
        lemma_soft_delete(middle, end, now);
        assert forall|h: Seq<char>| hashes.contains(h) <==> (front.contains(h) || h == end) by {
            lemma_contains_concat(front, seq![end], h);
            assert(front + seq![end] == hashes);
            if h == end {
                assert(seq![end][0] == h);
            }
        }
    } else {
        assert(deletions(hashes).len() == 0);
    }
}

/// What a finished import leaves: the counts are those of the entries it met,
/// every hash it met is live, and of the other hashes those that were live
/// are marked deleted, unless the host showed nothing at all. No record is
/// lost, and none appears but for the hashes that were met.
pub proof fn lemma_import_outcome(world: World, fuel: nat)
    requires
        well_formed(world.table),
        import(world, fuel) is Done,
    ensures
        ({
            let items = shown(world.listing);
            let hashes = hashes_of(items);
            let counts = import(world, fuel)->Done_0;
            let after = import(world, fuel)->Done_1;
            let fresh = fresh_count(live_rows(world.table).to_set(), hashes);
            &&& well_formed(after)
            &&& counts.added == fresh
            &&& counts.added + counts.skipped == items.len()
            &&& forall|h: Seq<char>| hashes.contains(h) ==> is_live(after, h)
            &&& forall|h: Seq<char>|
                !hashes.contains(h) ==> (is_live(after, h) <==> is_live(world.table, h)
                    && items.len() == 0)
            &&& forall|h: Seq<char>| holds(world.table, h) ==> holds(after, h)
            &&& forall|h: Seq<char>| holds(after, h) ==> holds(world.table, h) || hashes.contains(h)
        }),
{
    let start = ImportModel::initial();
    lemma_run_settles(start, ActionModel::LoadHashes, world, fuel);
    let loaded = start.load(live_rows(world.table)).0;
    let items = shown(world.listing);
    let hashes = hashes_of(items);
    let now = world.now;
    assert(crawl(world.listing, 1, loaded.failures, loaded.added + loaded.skipped > 0).0 == items);
    let state = absorbed(loaded, items);
    let middle = apply_all(world.table, upserts(items), now);
    assert(import(world, fuel) == conclude(state, middle, now));
    lemma_fresh_count_bound(loaded.known, hashes);
    lemma_upserts_make_live(world.table, items, now);
    assert(state.seen == hashes.to_set()) by {
        assert(Set::<Seq<char>>::empty().union(hashes.to_set()) == hashes.to_set());
    }
    assert forall|h: Seq<char>| holds(world.table, h) implies holds(middle, h) by {
        lemma_upserts_keep_records(world.table, items, now, h);
    }
    if state.seen.is_empty() {
        assert(items.len() == 0) by {
            if items.len() > 0 {
                assert(hashes[0] == items[0].hash);
                assert(hashes.to_set().contains(hashes[0]));
            }
        }
        assert(upserts(items).len() == 0);
    } else {
        assert(items.len() > 0) by {
            if items.len() == 0 {
                assert(hashes.to_set() =~= Set::<Seq<char>>::empty());
            }
        }
        let stale = stale_hashes(live_rows(middle), state.seen);
        lemma_live_rows(middle);
        lemma_stale(live_rows(middle), state.seen);
        lemma_deletions_retire(middle, stale, now);
        let after = apply_all(middle, deletions(stale), now);
        assert(import(world, fuel)->Done_1 == after);
        assert forall|h: Seq<char>| hashes.contains(h) implies is_live(after, h) by {
            assert(state.seen.contains(h));
            assert(!stale.contains(h));
            assert(is_live(middle, h));
        }
        assert forall|h: Seq<char>| !hashes.contains(h) implies !is_live(after, h) by {
            if is_live(middle, h) {
                assert(live_rows(middle).contains(h));
                assert(!state.seen.contains(h));
                assert(stale.contains(h));
            } else {
                if !stale.contains(h) {
                    assert(is_live(after, h) <==> is_live(middle, h));
                }
            }
        }
        assert forall|h: Seq<char>| holds(world.table, h) implies holds(after, h) by {
            assert(holds(middle, h));
        }
    }
}

/// Upserts remove no record.
pub proof fn lemma_upserts_keep_records(
    table: Seq<Record>,
    items: Seq<HistoryItem>,
    now: nat,
    hash: Seq<char>,
)
    requires
        well_formed(table),
        holds(table, hash),
    ensures
        holds(apply_all(table, upserts(items), now), hash),
    decreases items.len(),
{
    if items.len() > 0 {
        let front = items.drop_last();
        let end = items.last();
        lemma_upserts_keep_records(table, front, now, hash);
        lemma_upserts_make_live(table, front, now);
        assert(upserts(items).drop_last() == upserts(front));
        assert(upserts(items).last() == StoreOp::Upsert(end));
        let middle = apply_all(table, upserts(front), now);
        lemma_upsert(middle, end);
    } else {
        assert(upserts(items).len() == 0);
    }
}

/// An import stores nothing but what it met: every record that the table
/// holds afterwards was there before or has the hash of an entry that the host
/// showed, and every record that was there before is still there.
pub proof fn law_import_adds_only_what_it_met(world: World, fuel: nat, hash: Seq<char>)
    requires
        well_formed(world.table),
        import(world, fuel) is Done,
    ensures
        holds(import(world, fuel)->Done_1, hash) <==> holds(world.table, hash) || hashes_of(
            shown(world.listing),
        ).contains(hash),
{
    lemma_import_outcome(world, fuel);
    let after = import(world, fuel)->Done_1;
    if hashes_of(shown(world.listing)).contains(hash) {
        assert(is_live(after, hash));
    }
}

/// A second import against an unchanged listing adds nothing, and skips as
/// many entries as the first import added and skipped together.
pub proof fn law_second_import_adds_nothing(world: World, fuel: nat, later: nat, more_fuel: nat)
    requires
        well_formed(world.table),
        import(world, fuel) is Done,
        import(
            World { listing: world.listing, table: import(world, fuel)->Done_1, now: later },
            more_fuel,
        ) is Done,
    ensures
        ({
            let first = import(world, fuel)->Done_0;
            let second = import(
                World { listing: world.listing, table: import(world, fuel)->Done_1, now: later },
                more_fuel,
            )->Done_0;
            second.added == 0 && second.skipped == first.added + first.skipped
        }),
{
    let again = World { listing: world.listing, table: import(world, fuel)->Done_1, now: later };
    lemma_import_outcome(world, fuel);
    lemma_import_outcome(again, more_fuel);
    let hashes = hashes_of(shown(world.listing));
    lemma_live_rows(again.table);
    assert forall|i: int| 0 <= i < hashes.len() implies live_rows(again.table).to_set().contains(
        hashes[i],
    ) by {
        assert(hashes.contains(hashes[i]));
    }
    lemma_fresh_count_known(live_rows(again.table).to_set(), hashes);
}

/// An import restores what the host shows again: a record whose hash is among
/// the entries met is not marked deleted afterwards and has no deletion
/// timestamp, whatever it was before.
pub proof fn law_import_restores(world: World, fuel: nat, hash: Seq<char>)
    requires
        well_formed(world.table),
        import(world, fuel) is Done,
        hashes_of(shown(world.listing)).contains(hash),
    ensures
        ({
            let after = import(world, fuel)->Done_1;
            &&& holds(after, hash)
            &&& !after[row_of(after, hash)].deleted
            &&& after[row_of(after, hash)].deleted_at is None
        }),
{
    lemma_import_outcome(world, fuel);
    let after = import(world, fuel)->Done_1;
    assert(is_live(after, hash));
    assert(at_row(after, hash, row_of(after, hash)));
}

/// An import that met any entry marks deleted exactly the live records that
/// the host did not show: each of them is deleted afterwards, nothing else
/// changes its state, and the count of deleted records is their number.
pub proof fn law_import_retires_stale(world: World, fuel: nat)
    requires
        well_formed(world.table),
        import(world, fuel) is Done,
        shown(world.listing).len() > 0,
    ensures
        ({
            let hashes = hashes_of(shown(world.listing));
            let counts = import(world, fuel)->Done_0;
            let after = import(world, fuel)->Done_1;
            let stale = Set::new(|h: Seq<char>| is_live(world.table, h) && !hashes.contains(h));
            &&& stale.finite()
            &&& counts.deleted == stale.len()
            &&& forall|h: Seq<char>|
                stale.contains(h) ==> holds(after, h) && after[row_of(after, h)].deleted
            &&& forall|h: Seq<char>| is_live(after, h) <==> hashes.contains(h)
        }),
{
    let start = ImportModel::initial();
    lemma_run_settles(start, ActionModel::LoadHashes, world, fuel);
    lemma_import_outcome(world, fuel);
    let loaded = start.load(live_rows(world.table)).0;
    let items = shown(world.listing);
    let hashes = hashes_of(items);
    let now = world.now;
    let state = absorbed(loaded, items);
    let middle = apply_all(world.table, upserts(items), now);
    assert(import(world, fuel) == conclude(state, middle, now));
    assert(state.seen == hashes.to_set()) by {
        assert(Set::<Seq<char>>::empty().union(hashes.to_set()) == hashes.to_set());
    }
    assert(hashes[0] == items[0].hash);
    assert(hashes.to_set().contains(hashes[0]));
    assert(!state.seen.is_empty());
    lemma_upserts_make_live(world.table, items, now);
    let listed = stale_hashes(live_rows(middle), state.seen);
    lemma_live_rows(middle);
    lemma_stale(live_rows(middle), state.seen);
    lemma_deletions_retire(middle, listed, now);
    let stale = Set::new(|h: Seq<char>| is_live(world.table, h) && !hashes.contains(h));
    assert(listed.to_set() =~= stale);
    listed.unique_seq_to_set();
    vstd::seq_lib::seq_to_set_is_finite(listed);
    let after = import(world, fuel)->Done_1;
    assert forall|h: Seq<char>| stale.contains(h) implies holds(after, h) && after[row_of(
        after,
        h,
    )].deleted by {
        assert(listed.contains(h));
        assert(is_live(middle, h));
        assert(holds(after, h));
        assert(!is_live(after, h));
    }
}

/// The audit marks each stale hash once: where the store lists no hash twice,
/// the batch of soft deletes holds one statement for each listed hash that the
/// host did not show, none twice, and the count of deleted records is the
/// length of that batch.
pub proof fn law_audit_marks_each_once(state: ImportModel, local: Seq<Seq<char>>)
    requires
        local.no_duplicates(),
    ensures
        ({
            let stale = stale_hashes(local, state.seen);
            &&& stale.no_duplicates()
            &&& forall|h: Seq<char>| stale.contains(h) <==> local.contains(h) && !state.seen.contains(h)
            &&& state.audit(local).0.deleted == stale.len()
            &&& stale.len() > 0 ==> state.audit(local).1 == ActionModel::Write(deletions(stale))
            &&& stale.len() == 0 ==> state.audit(local).1 is Finish
        }),
{
    lemma_stale(local, state.seen);
}

/// Where the first pages fail up to the limit, the import fails with the
/// cause of the last failure and leaves the table as it was.
pub proof fn law_failures_from_the_start_fail(
    world: World,
    fuel: nat,
    first: Seq<char>,
    second: Seq<char>,
    third: Seq<char>,
)
    requires
        (world.listing)(1) == Err::<Seq<HistoryItem>, Seq<char>>(first),
        (world.listing)(2) == Err::<Seq<HistoryItem>, Seq<char>>(second),
        (world.listing)(3) == Err::<Seq<HistoryItem>, Seq<char>>(third),
        fuel >= 4,
    ensures
        import(world, fuel) == Outcome::Failed(threshold_error(third), world.table),
{
    let s0 = ImportModel::initial();
    let (w1, e1) = react(world, ActionModel::LoadHashes);
    let (s1, a1) = s0.step(e1);
    assert(a1 == ActionModel::Fetch(1));
    let (w2, e2) = react(w1, a1);
    let (s2, a2) = s1.step(e2);
    assert(a2 == ActionModel::Fetch(2));
    let (w3, e3) = react(w2, a2);
    let (s3, a3) = s2.step(e3);
    assert(a3 == ActionModel::Fetch(3));
    let (w4, e4) = react(w3, a3);
    let (s4, a4) = s3.step(e4);
    assert(a4 == ActionModel::Fail(threshold_error(third)));
    assert(w4.table == world.table);
    assert(run(s4, a4, w4, (fuel - 4) as nat) == Outcome::Failed(threshold_error(third), world.table));
    assert(run(s3, a3, w3, (fuel - 3) as nat) == run(s4, a4, w4, (fuel - 4) as nat));
    assert(run(s2, a2, w2, (fuel - 2) as nat) == run(s3, a3, w3, (fuel - 3) as nat));
    assert(run(s1, a1, w1, (fuel - 1) as nat) == run(s2, a2, w2, (fuel - 2) as nat));
    assert(run(s0, ActionModel::LoadHashes, world, fuel) == run(s1, a1, w1, (fuel - 1) as nat));
}

/// Where a page fails that brings the failures in a row to the limit, after
/// entries were met, the import does not fail: it ends with the counts of
/// added and skipped entries that it had before that page.
pub proof fn law_failures_after_progress_end_well(state: ImportModel, world: World, fuel: nat)
    requires
        coherent(state, ActionModel::Fetch(state.page)),
        state.added + state.skipped > 0,
        state.failures + 1 >= MAX_CONSECUTIVE_FAILURES,
        (world.listing)(state.page) is Err,
    ensures
        match run(state, ActionModel::Fetch(state.page), world, fuel) {
            Outcome::Done(counts, _) => counts.added == state.added && counts.skipped
                == state.skipped,
            Outcome::Failed(_, _) => false,
            Outcome::Unfinished => true,
        },
{
    lemma_run_settles(state, ActionModel::Fetch(state.page), world, fuel);
    lemma_absorbed_nothing(state);
}

/// The shape of the batches: as many as the statements need at
/// [`crate::import::BATCH_SIZE`] each, none empty, all but the last one full,
/// and together the statements in their order.
pub proof fn law_batches_shape<T>(s: Seq<T>)
    ensures
        batches_of(s).len() * BATCH_SIZE >= s.len(),
        batches_of(s).len() * BATCH_SIZE < s.len() + BATCH_SIZE,
        forall|k: int|
            0 <= k < batches_of(s).len() ==> 0 < (#[trigger] batches_of(s)[k]).len() <= BATCH_SIZE,
        forall|k: int|
            0 <= k < batches_of(s).len() - 1 ==> (#[trigger] batches_of(s)[k]).len() == BATCH_SIZE,
        forall|i: int| 0 <= i < s.len() ==> batches_of(s)[i / BATCH_SIZE as int][i % BATCH_SIZE as int] == s[i],
{
    assert forall|k: int| 0 <= k < batches_of(s).len() implies 0 < (#[trigger] batches_of(
        s,
    )[k]).len() <= BATCH_SIZE by {
        assert(batches_of(s)[k] == s.subrange(BATCH_SIZE * k, batch_end(k, s.len())));
    }
    assert forall|k: int| 0 <= k < batches_of(s).len() - 1 implies (#[trigger] batches_of(
        s,
    )[k]).len() == BATCH_SIZE by {
        assert(batches_of(s)[k] == s.subrange(BATCH_SIZE * k, batch_end(k, s.len())));
    }
    assert forall|i: int| 0 <= i < s.len() implies batches_of(s)[i / BATCH_SIZE as int][i % BATCH_SIZE as int] == s[i] by {
        let k = i / BATCH_SIZE as int;
        assert(batches_of(s)[k] == s.subrange(BATCH_SIZE * k, batch_end(k, s.len())));
    }
}

} // verus!
