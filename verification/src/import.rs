//! The full import: the decisions that bring the metadata store into
//! agreement with the image host's upload history.
//!
//! The import talks to two remote services, so it is written as a machine
//! that never performs a request itself. [`ImportRun::step`] takes the outcome
//! of the last request and answers with the next request to perform. The
//! caller owns the loop: it performs the request and hands the outcome back.
//!
//! What the machine does is fixed by [`ImportModel::step`], a function on
//! mathematical values. There a batch is a list of [`StoreOp`]s; the machine
//! hands out the SQL text that [`render`] gives each of them.

use crate::model::{item_views, HistoryItem, Row, SmmsUploadItem, SyncStats};
use crate::rows::{hash_column, hashes_of_rows};
use crate::statements::{
    import_upsert_sql, import_upsert_text, live_hashes_sql, soft_delete_by_hash_sql,
    soft_delete_by_hash_text, LIVE_HASHES_SQL,
};
use crate::text::{decimal, decimal_u64, views};
use vstd::hash_set::StringHashSet;
use vstd::prelude::*;
use vstd::string::*;

verus! {

/// The last page that an import asks for.
pub const MAX_PAGES: i32 = 100;

/// The number of page requests that may fail in a row before the import stops
/// asking.
pub const MAX_CONSECUTIVE_FAILURES: u32 = 3;

/// The largest number of statements that go to the store in one request.
pub const BATCH_SIZE: usize = 50;

/// What the import is waiting for.
#[derive(Debug, Clone, Copy, PartialEq, Eq, Structural)]
pub enum Phase {
    /// The hashes that the store holds, before the first page.
    Loading,
    /// One page of the upload history.
    Fetching,
    /// The outcome of one batch of the current page.
    Writing,
    /// The hashes that the store holds, after the last page.
    Auditing,
    /// The outcome of the batch that marks stale pictures deleted.
    Retiring,
    /// Nothing: the import has ended with its counts.
    Finished,
    /// Nothing: the import has ended with an error.
    Failed,
}

/// One write that the import asks of the store.
pub enum StoreOp {
    /// Insert the entry, or overwrite the picture that has its hash, and mark
    /// it as not deleted.
    Upsert(HistoryItem),
    /// Mark the picture with this hash deleted.
    SoftDelete(Seq<char>),
}

/// The three counts of an import as mathematical values.
pub struct Counts {
    pub added: nat,
    pub skipped: nat,
    pub deleted: nat,
}

/// The SQL statement that stands for a write.
pub open spec fn render(op: StoreOp) -> Seq<char> {
    match op {
        StoreOp::Upsert(item) => import_upsert_text(item),
        StoreOp::SoftDelete(hash) => soft_delete_by_hash_text(hash),
    }
}

/// The SQL statements of a list of writes.
pub open spec fn render_all(ops: Seq<StoreOp>) -> Seq<Seq<char>> {
    Seq::new(ops.len(), |i: int| render(ops[i]))
}

/// The hashes of a list of history entries.
pub open spec fn hashes_of(items: Seq<HistoryItem>) -> Seq<Seq<char>> {
    Seq::new(items.len(), |i: int| items[i].hash)
}

/// One upsert for each history entry.
pub open spec fn upserts(items: Seq<HistoryItem>) -> Seq<StoreOp> {
    Seq::new(items.len(), |i: int| StoreOp::Upsert(items[i]))
}

/// One soft delete for each hash.
pub open spec fn deletions(hashes: Seq<Seq<char>>) -> Seq<StoreOp> {
    Seq::new(hashes.len(), |i: int| StoreOp::SoftDelete(hashes[i]))
}

/// How many entries of a page count as added: those whose hash is neither
/// known nor met earlier in the page.
pub open spec fn fresh_count(known: Set<Seq<char>>, hashes: Seq<Seq<char>>) -> nat
    decreases hashes.len(),
{
    if hashes.len() == 0 {
        0
    } else if known.contains(hashes.last()) || hashes.drop_last().contains(hashes.last()) {
        fresh_count(known, hashes.drop_last())
    } else {
        fresh_count(known, hashes.drop_last()) + 1
    }
}

/// The hashes of `local`, in their order, that the host did not show.
pub open spec fn stale_hashes(local: Seq<Seq<char>>, seen: Set<Seq<char>>) -> Seq<Seq<char>>
    decreases local.len(),
{
    if local.len() == 0 {
        Seq::empty()
    } else if seen.contains(local.last()) {
        stale_hashes(local.drop_last(), seen)
    } else {
        stale_hashes(local.drop_last(), seen).push(local.last())
    }
}

/// The number of batches that `n` statements make.
pub open spec fn batch_count(n: nat) -> nat {
    ((n + BATCH_SIZE - 1) / BATCH_SIZE as int) as nat
}

/// Where batch `k` of `n` statements ends.
pub open spec fn batch_end(k: int, n: nat) -> int {
    if BATCH_SIZE * k + BATCH_SIZE <= n {
        BATCH_SIZE * k + BATCH_SIZE
    } else {
        n as int
    }
}

/// The statements cut into batches of [`BATCH_SIZE`], in their order; only the
/// last batch may be shorter.
pub open spec fn batches_of<T>(s: Seq<T>) -> Seq<Seq<T>> {
    Seq::new(batch_count(s.len()), |k: int| s.subrange(BATCH_SIZE * k, batch_end(k, s.len())))
}

/// The error of an import that met nothing but failing pages.
pub open spec fn threshold_error(cause: Seq<char>) -> Seq<char> {
    "连续 "@ + decimal(MAX_CONSECUTIVE_FAILURES as int) + " 次获取失败: "@ + cause
}

/// The error of an import that was handed an outcome it had not asked for.
pub const OUT_OF_TURN: &'static str = "import received an outcome that answers no pending request";

/// The outcome of a request, as the import sees it.
pub enum EventModel {
    /// The hashes that the store lists as live, in the order of its rows.
    Rows(Seq<Seq<char>>),
    /// The store could not answer the query, with its diagnostic.
    QueryFailed(Seq<char>),
    /// The entries of the page that was asked for.
    Page(Seq<HistoryItem>),
    /// The page could not be fetched, with the cause.
    FetchFailed(Seq<char>),
    /// The store has executed the batch.
    BatchDone,
    /// The store has refused the batch, with its diagnostic.
    BatchFailed(Seq<char>),
}

/// The next thing to do, as the import decides it.
pub enum ActionModel {
    /// Ask the store for the hashes of its live pictures.
    LoadHashes,
    /// Ask the host for this page.
    Fetch(int),
    /// Have the store execute these writes as one transaction.
    Write(Seq<StoreOp>),
    /// End with these counts.
    Finish(Counts),
    /// End with this error.
    Fail(Seq<char>),
}

/// The state of an import as a mathematical value.
pub struct ImportModel {
    pub phase: Phase,
    /// The hashes taken as present in the store: those it held at the start
    /// and those added since.
    pub known: Set<Seq<char>>,
    /// The hashes that the host has shown in this run.
    pub seen: Set<Seq<char>>,
    pub added: nat,
    pub skipped: nat,
    pub deleted: nat,
    /// The page that is asked for next, or that is being written.
    pub page: int,
    /// The number of page requests that have failed in a row.
    pub failures: nat,
    /// The batches of the current page that are still to be sent.
    pub queue: Seq<Seq<StoreOp>>,
}

impl ImportModel {
    /// The state in which every import starts, together with the request for
    /// the hashes that the store holds.
    pub open spec fn initial() -> ImportModel {
        ImportModel {
            phase: Phase::Loading,
            known: Set::empty(),
            seen: Set::empty(),
            added: 0,
            skipped: 0,
            deleted: 0,
            page: 1,
            failures: 0,
            queue: Seq::empty(),
        }
    }

    /// The three counts of the state.
    pub open spec fn counts(self) -> Counts {
        Counts { added: self.added, skipped: self.skipped, deleted: self.deleted }
    }

    /// Ends the import with an error.
    pub open spec fn fail(self, message: Seq<char>) -> (ImportModel, ActionModel) {
        (ImportModel { phase: Phase::Failed, queue: Seq::empty(), ..self }, ActionModel::Fail(message))
    }

    /// Leaves the page loop. Where the host has shown no hash at all there is
    /// nothing to compare against, and the import ends; otherwise it asks for
    /// the store's hashes once more.
    pub open spec fn leave_loop(self) -> (ImportModel, ActionModel) {
        if self.seen.is_empty() {
            (ImportModel { phase: Phase::Finished, ..self }, ActionModel::Finish(self.counts()))
        } else {
            (ImportModel { phase: Phase::Auditing, ..self }, ActionModel::LoadHashes)
        }
    }

    /// Moves on to the page after the current one, or leaves the loop where
    /// that page lies beyond [`MAX_PAGES`].
    pub open spec fn advance(self) -> (ImportModel, ActionModel) {
        let next = ImportModel { page: self.page + 1, ..self };
        if next.page > MAX_PAGES {
            next.leave_loop()
        } else {
            (ImportModel { phase: Phase::Fetching, ..next }, ActionModel::Fetch(next.page))
        }
    }

    /// The store's hashes have arrived: they are what is known, and the first
    /// page is asked for.
    pub open spec fn load(self, hashes: Seq<Seq<char>>) -> (ImportModel, ActionModel) {
        (
            ImportModel { phase: Phase::Fetching, known: hashes.to_set(), page: 1, ..self },
            ActionModel::Fetch(1),
        )
    }

    /// A page has arrived. An empty page ends the history. Otherwise every
    /// entry is counted as added or skipped, its hash is recorded, and one
    /// upsert for each entry is queued in batches, the first of which is sent.
    pub open spec fn absorb(self, items: Seq<HistoryItem>) -> (ImportModel, ActionModel) {
        let calm = ImportModel { failures: 0, ..self };
        if items.len() == 0 {
            calm.leave_loop()
        } else {
            let hashes = hashes_of(items);
            let fresh = fresh_count(self.known, hashes);
            let batches = batches_of(upserts(items));
            (
                ImportModel {
                    phase: Phase::Writing,
                    known: self.known.union(hashes.to_set()),
                    seen: self.seen.union(hashes.to_set()),
                    added: self.added + fresh,
                    skipped: (self.skipped + hashes.len() - fresh) as nat,
                    queue: batches.drop_first(),
                    ..calm
                },
                ActionModel::Write(batches[0]),
            )
        }
    }

    /// A page request has failed. At the limit of failures in a row the loop
    /// ends: in an error where no entry was met so far, otherwise as if the
    /// history had ended. Below the limit the failed page is passed over.
    pub open spec fn stumble(self, cause: Seq<char>) -> (ImportModel, ActionModel) {
        if self.failures + 1 >= MAX_CONSECUTIVE_FAILURES {
            if self.added + self.skipped > 0 {
                self.leave_loop()
            } else {
                self.fail(threshold_error(cause))
            }
        } else {
            ImportModel { failures: self.failures + 1, ..self }.advance()
        }
    }

    /// A batch of the current page was written: the next one is sent, or the
    /// next page is asked for.
    pub open spec fn flushed(self) -> (ImportModel, ActionModel) {
        if self.queue.len() > 0 {
            (ImportModel { queue: self.queue.drop_first(), ..self }, ActionModel::Write(self.queue[0]))
        } else {
            self.advance()
        }
    }

    /// The store's hashes have arrived after the last page: each one that the
    /// host did not show is marked deleted, all in one batch.
    pub open spec fn audit(self, local: Seq<Seq<char>>) -> (ImportModel, ActionModel) {
        let stale = stale_hashes(local, self.seen);
        let counted = ImportModel { deleted: stale.len(), ..self };
        if stale.len() == 0 {
            (ImportModel { phase: Phase::Finished, ..counted }, ActionModel::Finish(counted.counts()))
        } else {
            (ImportModel { phase: Phase::Retiring, ..counted }, ActionModel::Write(deletions(stale)))
        }
    }

    /// The import's reaction to the outcome of its last request. An error of
    /// the store ends the import with that error; an outcome that the current
    /// phase does not wait for ends it with [`OUT_OF_TURN`].
    pub open spec fn step(self, event: EventModel) -> (ImportModel, ActionModel) {
        match (self.phase, event) {
            (Phase::Loading, EventModel::Rows(hashes)) => self.load(hashes),
            (Phase::Loading, EventModel::QueryFailed(cause)) => self.fail(cause),
            (Phase::Fetching, EventModel::Page(items)) => self.absorb(items),
            (Phase::Fetching, EventModel::FetchFailed(cause)) => self.stumble(cause),
            (Phase::Writing, EventModel::BatchDone) => self.flushed(),
            (Phase::Writing, EventModel::BatchFailed(cause)) => self.fail(cause),
            (Phase::Auditing, EventModel::Rows(hashes)) => self.audit(hashes),
            (Phase::Auditing, EventModel::QueryFailed(cause)) => self.fail(cause),
            (Phase::Retiring, EventModel::BatchDone) => (
                ImportModel { phase: Phase::Finished, ..self },
                ActionModel::Finish(self.counts()),
            ),
            (Phase::Retiring, EventModel::BatchFailed(cause)) => self.fail(cause),
            _ => self.fail(OUT_OF_TURN@),
        }
    }
}

/// The outcome of the request that the import asked for last.
pub enum ImportEvent {
    /// The rows that the query for the store's hashes returned.
    Rows(Vec<Row>),
    /// The query for the store's hashes failed, with the store's diagnostic.
    QueryFailed(String),
    /// One page of the upload history; an empty page is its end.
    Page(Vec<SmmsUploadItem>),
    /// The request for a page failed, with its cause.
    FetchFailed(String),
    /// The store has executed the batch.
    BatchDone,
    /// The store has refused the batch, with its diagnostic.
    BatchFailed(String),
}

impl View for ImportEvent {
    type V = EventModel;

    open spec fn view(&self) -> EventModel {
        match *self {
            ImportEvent::Rows(rows) => EventModel::Rows(hash_column(rows@)),
            ImportEvent::QueryFailed(cause) => EventModel::QueryFailed(cause@),
            ImportEvent::Page(items) => EventModel::Page(item_views(items@)),
            ImportEvent::FetchFailed(cause) => EventModel::FetchFailed(cause@),
            ImportEvent::BatchDone => EventModel::BatchDone,
            ImportEvent::BatchFailed(cause) => EventModel::BatchFailed(cause@),
        }
    }
}

/// The request that the import asks its caller to perform next, or its end.
#[derive(Debug, Clone, PartialEq, Eq)]
pub enum ImportAction {
    /// Run this query and report its rows.
    Query(String),
    /// Fetch this page of the upload history, counted from 1.
    FetchPage(i32),
    /// Send these statements to the store as one transaction.
    ExecuteBatch(Vec<String>),
    /// The import has ended with these counts.
    Done(SyncStats),
    /// The import has ended with this error.
    Abort(String),
}

impl ImportAction {
    /// The action is the decision `model`, with each write as its SQL text.
    pub open spec fn renders(&self, model: ActionModel) -> bool {
        match (*self, model) {
            (ImportAction::Query(sql), ActionModel::LoadHashes) => sql@ == LIVE_HASHES_SQL@,
            (ImportAction::FetchPage(page), ActionModel::Fetch(number)) => page as int == number,
            (ImportAction::ExecuteBatch(statements), ActionModel::Write(ops)) => views(statements@)
                == render_all(ops),
            (ImportAction::Done(stats), ActionModel::Finish(counts)) => stats.added as nat
                == counts.added && stats.skipped as nat == counts.skipped && stats.deleted as nat
                == counts.deleted,
            (ImportAction::Abort(message), ActionModel::Fail(text)) => message@ == text,
            _ => false,
        }
    }
}

/// The statement batches in `texts` are the write batches in `planned`.
pub open spec fn renders_batches(texts: Seq<Vec<String>>, planned: Seq<Seq<StoreOp>>) -> bool {
    &&& texts.len() == planned.len()
    &&& forall|k: int| 0 <= k < texts.len() ==> views(#[trigger] texts[k]@) == render_all(planned[k])
}

/// One import in progress. [`ImportRun::start`] makes it and says what to ask
/// first; after that every outcome goes to [`ImportRun::step`], until the
/// action is [`ImportAction::Done`] or [`ImportAction::Abort`].
pub struct ImportRun {
    phase: Phase,
    known: StringHashSet,
    seen: StringHashSet,
    added: usize,
    skipped: usize,
    deleted: usize,
    page: i32,
    failures: u32,
    queue: Vec<Vec<String>>,
    planned: Ghost<Seq<Seq<StoreOp>>>,
}

impl View for ImportRun {
    type V = ImportModel;

    closed spec fn view(&self) -> ImportModel {
        ImportModel {
            phase: self.phase,
            known: self.known@,
            seen: self.seen@,
            added: self.added as nat,
            skipped: self.skipped as nat,
            deleted: self.deleted as nat,
            page: self.page as int,
            failures: self.failures as nat,
            queue: self.planned@,
        }
    }
}

/// Builds the upsert statements of a page and cuts them into batches.
fn build_batches(items: &Vec<SmmsUploadItem>) -> (r: Vec<Vec<String>>)
    ensures
        renders_batches(r@, batches_of(upserts(item_views(items@)))),
{
    let ghost ops = upserts(item_views(items@));
    let mut full: Vec<Vec<String>> = Vec::new();
    let mut current: Vec<String> = Vec::new();
    let mut i: usize = 0;
    while i < items.len()
        invariant
            i <= items.len(),
            ops == upserts(item_views(items@)),
            full.len() == i / BATCH_SIZE,
            current.len() == i % BATCH_SIZE,
            forall|k: int, j: int|
                0 <= k < full.len() && 0 <= j < BATCH_SIZE ==> (#[trigger] full[k][j])@ == render(
                    ops[BATCH_SIZE * k + j],
                ),
            forall|k: int| 0 <= k < full.len() ==> (#[trigger] full[k]).len() == BATCH_SIZE,
            forall|j: int|
                0 <= j < current.len() ==> (#[trigger] current[j])@ == render(
                    ops[BATCH_SIZE * (i / BATCH_SIZE) + j],
                ),
        decreases items.len() - i,
    {
        let statement = import_upsert_sql(&items[i]);
        assert(statement@ == render(ops[i as int]));
        current.push(statement);
        if current.len() >= BATCH_SIZE {
            full.push(current);
            current = Vec::new();
        }
        i = i + 1;
    }
    if current.len() > 0 {
        full.push(current);
    }
    proof {
        let planned = batches_of(ops);
        assert(full.len() == planned.len());
        assert forall|k: int| 0 <= k < full.len() implies views(#[trigger] full@[k]@) == render_all(
            planned[k],
        ) by {
            assert(planned[k] == ops.subrange(BATCH_SIZE * k, batch_end(k, ops.len())));
            assert(views(full@[k]@).len() == render_all(planned[k]).len());
            assert forall|j: int| 0 <= j < full@[k]@.len() implies views(full@[k]@)[j]
                == render_all(planned[k])[j] by {
                assert(planned[k][j] == ops[BATCH_SIZE * k + j]);
            }
        }
    }
    full
}

impl ImportRun {
    /// What holds of every import between two steps: the counts fit their
    /// sets, the page lies in its range, and the queued statements are the
    /// planned writes.
    pub closed spec fn wf(&self) -> bool {
        &&& self.known@.finite()
        &&& self.seen@.finite()
        &&& self.added <= self.known@.len()
        &&& 1 <= self.page <= MAX_PAGES + 1
        &&& (self.phase == Phase::Fetching || self.phase == Phase::Writing ==> self.page
            <= MAX_PAGES)
        &&& self.failures < MAX_CONSECUTIVE_FAILURES
        &&& (self.phase == Phase::Loading ==> self.added == 0 && self.skipped == 0)
        &&& (self.seen@.is_empty() <==> self.added + self.skipped == 0)
        &&& renders_batches(self.queue@, self.planned@)
    }

    /// Starts an import: the machine in its first state, and the query for
    /// the hashes that the store holds.
    pub fn start() -> (r: (ImportRun, ImportAction))
        ensures
            r.0.wf(),
            r.0@ == ImportModel::initial(),
            r.1.renders(ActionModel::LoadHashes),
    {
        let run = ImportRun {
            phase: Phase::Loading,
            known: StringHashSet::new(),
            seen: StringHashSet::new(),
            added: 0,
            skipped: 0,
            deleted: 0,
            page: 1,
            failures: 0,
            queue: Vec::new(),
            planned: Ghost(Seq::empty()),
        };
        (run, ImportAction::Query(live_hashes_sql()))
    }

    /// What the import is waiting for.
    pub fn phase(&self) -> (r: Phase)
        ensures
            r == self@.phase,
    {
        self.phase
    }

    /// The counts so far.
    pub fn stats(&self) -> (r: SyncStats)
        ensures
            r.added == self@.added,
            r.skipped == self@.skipped,
            r.deleted == self@.deleted,
    {
        SyncStats { added: self.added, skipped: self.skipped, deleted: self.deleted }
    }

    fn fail(&mut self, message: String) -> (action: ImportAction)
        requires
            old(self).wf(),
        ensures
            final(self).wf(),
            final(self)@ == old(self)@.fail(message@).0,
            action.renders(old(self)@.fail(message@).1),
    {
        self.phase = Phase::Failed;
        self.queue = Vec::new();
        self.planned = Ghost(Seq::empty());
        ImportAction::Abort(message)
    }

    fn leave_loop(&mut self) -> (action: ImportAction)
        requires
            old(self).wf(),
        ensures
            final(self).wf(),
            final(self)@ == old(self)@.leave_loop().0,
            action.renders(old(self)@.leave_loop().1),
    {
        if self.seen.is_empty() {
            self.phase = Phase::Finished;
            ImportAction::Done(self.stats())
        } else {
            self.phase = Phase::Auditing;
            ImportAction::Query(live_hashes_sql())
        }
    }

    fn advance(&mut self) -> (action: ImportAction)
        requires
            old(self).wf(),
            old(self).page <= MAX_PAGES,
        ensures
            final(self).wf(),
            final(self)@ == old(self)@.advance().0,
            action.renders(old(self)@.advance().1),
    {
        if self.page >= MAX_PAGES {
            self.phase = Phase::Auditing;
            self.page = self.page + 1;
            self.leave_loop()
        } else {
            self.page = self.page + 1;
            self.phase = Phase::Fetching;
            ImportAction::FetchPage(self.page)
        }
    }

    fn load(&mut self, rows: &Vec<Row>) -> (action: ImportAction)
        requires
            old(self).wf(),
            old(self).phase == Phase::Loading,
        ensures
            final(self).wf(),
            final(self)@ == old(self)@.load(hash_column(rows@)).0,
            action.renders(old(self)@.load(hash_column(rows@)).1),
    {
        let hashes = hashes_of_rows(rows);
        let ghost all = views(hashes@);
        let mut known = StringHashSet::new();
        let mut i: usize = 0;
        assert(all.take(0).to_set() == Set::<Seq<char>>::empty());
        while i < hashes.len()
            invariant
                i <= hashes.len(),
                all == views(hashes@),
                known@ == all.take(i as int).to_set(),
                known@.finite(),
            decreases hashes.len() - i,
        {
            proof {
                assert(all.take(i + 1) == all.take(i as int).push(all[i as int]));
                all.take(i as int).lemma_push_to_set_commute(all[i as int]);
            }
            known.insert(hashes[i].clone());
            i = i + 1;
        }
        assert(all.take(hashes.len() as int) == all);
        self.known = known;
        self.page = 1;
        self.phase = Phase::Fetching;
        ImportAction::FetchPage(1)
    }

    /// Counts the entries of a page and records their hashes.
    fn tally(&mut self, items: &Vec<SmmsUploadItem>)
        requires
            old(self).wf(),
            old(self).phase == Phase::Fetching,
            old(self).skipped + items.len() <= usize::MAX,
        ensures
            final(self).wf(),
            final(self)@ == (ImportModel {
                known: old(self)@.known.union(hashes_of(item_views(items@)).to_set()),
                seen: old(self)@.seen.union(hashes_of(item_views(items@)).to_set()),
                added: old(self)@.added + fresh_count(
                    old(self)@.known,
                    hashes_of(item_views(items@)),
                ),
                skipped: (old(self)@.skipped + items.len() - fresh_count(
                    old(self)@.known,
                    hashes_of(item_views(items@)),
                )) as nat,
                ..old(self)@
            }),
            fresh_count(old(self)@.known, hashes_of(item_views(items@))) <= items.len(),
    {
        let ghost hashes = hashes_of(item_views(items@));
        let ghost known0 = self.known@;
        let ghost seen0 = self.seen@;
        let ghost added0 = self.added;
        let ghost skipped0 = self.skipped;
        let mut i: usize = 0;
        assert(hashes.take(0).to_set() == Set::<Seq<char>>::empty());
        assert(known0.union(Set::empty()) == known0);
        assert(seen0.union(Set::empty()) == seen0);
        while i < items.len()
            invariant
                i <= items.len(),
                old(self).wf(),
                old(self).phase == Phase::Fetching,
                hashes == hashes_of(item_views(items@)),
                known0.finite(),
                seen0.finite(),
                self.known@ == known0.union(hashes.take(i as int).to_set()),
                self.seen@ == seen0.union(hashes.take(i as int).to_set()),
                self.known@.finite(),
                self.seen@.finite(),
                fresh_count(known0, hashes.take(i as int)) <= i,
                self.added == added0 + fresh_count(known0, hashes.take(i as int)),
                self.skipped == skipped0 + i - fresh_count(known0, hashes.take(i as int)),
                self.added <= self.known@.len(),
                skipped0 + items.len() <= usize::MAX,
                self.phase == old(self).phase,
                self.deleted == old(self).deleted,
                self.page == old(self).page,
                self.failures == old(self).failures,
                self.queue == old(self).queue,
                self.planned == old(self).planned,
                (self.seen@.is_empty() <==> self.added + self.skipped == 0),
            decreases items.len() - i,
        {
            let ghost before = hashes.take(i as int);
            let ghost hash = hashes[i as int];
            proof {
                assert(hashes.take(i + 1) == before.push(hash));
                assert(hashes.take(i + 1).drop_last() == before);
                before.lemma_push_to_set_commute(hash);
                assert(known0.union(before.push(hash).to_set()) == known0.union(
                    before.to_set(),
                ).insert(hash));
                assert(seen0.union(before.push(hash).to_set()) == seen0.union(
                    before.to_set(),
                ).insert(hash));
                assert(self.known@.contains(hash) <==> known0.contains(hash) || before.contains(
                    hash,
                ));
            }
            self.seen.insert(items[i].hash.clone());
            if self.known.contains(items[i].hash.as_str()) {
                self.skipped = self.skipped + 1;
            } else {
                self.known.insert(items[i].hash.clone());
                let size = self.known.len();
                assert(self.added < size);
                self.added = self.added + 1;
            }
            assert(self.seen@.contains(hash));
            i = i + 1;
        }
        assert(hashes.take(items.len() as int) == hashes);
    }

    fn absorb(&mut self, items: Vec<SmmsUploadItem>) -> (action: ImportAction)
        requires
            old(self).wf(),
            old(self).phase == Phase::Fetching,
            old(self).skipped + items.len() <= usize::MAX,
        ensures
            final(self).wf(),
            final(self)@ == old(self)@.absorb(item_views(items@)).0,
            action.renders(old(self)@.absorb(item_views(items@)).1),
    {
        self.failures = 0;
        if items.len() == 0 {
            return self.leave_loop();
        }
        self.tally(&items);
        let mut batches = build_batches(&items);
        let ghost planned = batches_of(upserts(item_views(items@)));
        assert(planned.len() > 0);
        let ghost texts = batches@;
        let first = batches.remove(0);
        self.queue = batches;
        self.planned = Ghost(planned.drop_first());
        self.phase = Phase::Writing;
        assert(renders_batches(self.queue@, self.planned@)) by {
            assert forall|k: int| 0 <= k < self.queue@.len() implies views(
                #[trigger] self.queue@[k]@,
            ) == render_all(self.planned@[k]) by {
                assert(self.queue@[k] == texts[k + 1]);
            }
        }
        ImportAction::ExecuteBatch(first)
    }

    fn stumble(&mut self, cause: String) -> (action: ImportAction)
        requires
            old(self).wf(),
            old(self).phase == Phase::Fetching,
        ensures
            final(self).wf(),
            final(self)@ == old(self)@.stumble(cause@).0,
            action.renders(old(self)@.stumble(cause@).1),
    {
        if self.failures + 1 >= MAX_CONSECUTIVE_FAILURES {
            if self.added > 0 || self.skipped > 0 {
                self.leave_loop()
            } else {
                let limit = decimal_u64(MAX_CONSECUTIVE_FAILURES as u64);
                let mut message = String::from_str("连续 ");
                message.append(limit.as_str());
                message.append(" 次获取失败: ");
                message.append(cause.as_str());
                self.fail(message)
            }
        } else {
            self.failures = self.failures + 1;
            self.advance()
        }
    }

    fn flushed(&mut self) -> (action: ImportAction)
        requires
            old(self).wf(),
            old(self).phase == Phase::Writing,
        ensures
            final(self).wf(),
            final(self)@ == old(self)@.flushed().0,
            action.renders(old(self)@.flushed().1),
    {
        if self.queue.len() > 0 {
            let ghost texts = self.queue@;
            let ghost planned = self.planned@;
            let next = self.queue.remove(0);
            self.planned = Ghost(planned.drop_first());
            assert(renders_batches(self.queue@, self.planned@)) by {
                assert forall|k: int| 0 <= k < self.queue@.len() implies views(
                    #[trigger] self.queue@[k]@,
                ) == render_all(self.planned@[k]) by {
                    assert(self.queue@[k] == texts[k + 1]);
                }
            }
            assert(views(texts[0]@) == render_all(planned[0]));
            ImportAction::ExecuteBatch(next)
        } else {
            self.advance()
        }
    }

    fn audit(&mut self, rows: &Vec<Row>) -> (action: ImportAction)
        requires
            old(self).wf(),
            old(self).phase == Phase::Auditing,
        ensures
            final(self).wf(),
            final(self)@ == old(self)@.audit(hash_column(rows@)).0,
            action.renders(old(self)@.audit(hash_column(rows@)).1),
    {
        let hashes = hashes_of_rows(rows);
        let ghost local = views(hashes@);
        let mut statements: Vec<String> = Vec::new();
        let mut i: usize = 0;
        assert(views(statements@) == render_all(deletions(stale_hashes(local.take(0), self.seen@))));
        while i < hashes.len()
            invariant
                i <= hashes.len(),
                local == views(hashes@),
                statements.len() == stale_hashes(local.take(i as int), self.seen@).len(),
                statements.len() <= i,
                views(statements@) == render_all(
                    deletions(stale_hashes(local.take(i as int), self.seen@)),
                ),
            decreases hashes.len() - i,
        {
            assert(local.take(i + 1).drop_last() == local.take(i as int));
            if !self.seen.contains(hashes[i].as_str()) {
                let ghost before = views(statements@);
                let statement = soft_delete_by_hash_sql(hashes[i].as_str());
                statements.push(statement);
                assert(views(statements@) == before.push(statement@));
                assert(views(statements@) == render_all(
                    deletions(stale_hashes(local.take(i + 1), self.seen@)),
                ));
            }
            i = i + 1;
        }
        assert(local.take(hashes.len() as int) == local);
        self.deleted = statements.len();
        if statements.len() == 0 {
            self.phase = Phase::Finished;
            ImportAction::Done(self.stats())
        } else {
            self.phase = Phase::Retiring;
            ImportAction::ExecuteBatch(statements)
        }
    }

    /// Takes the outcome of the request that the import asked for last and
    /// decides what to do next.
    ///
    /// The counts are kept in `usize`: a page may only be handed in while the
    /// number of skipped entries and the page's length together fit in one.
    pub fn step(&mut self, event: ImportEvent) -> (action: ImportAction)
        requires
            old(self).wf(),
            event matches ImportEvent::Page(items) ==> old(self)@.skipped + items.len()
                <= usize::MAX,
        ensures
            final(self).wf(),
            final(self)@ == old(self)@.step(event@).0,
            action.renders(old(self)@.step(event@).1),
    {
        match (self.phase, event) {
            (Phase::Loading, ImportEvent::Rows(rows)) => self.load(&rows),
            (Phase::Loading, ImportEvent::QueryFailed(cause)) => self.fail(cause),
            (Phase::Fetching, ImportEvent::Page(items)) => self.absorb(items),
            (Phase::Fetching, ImportEvent::FetchFailed(cause)) => self.stumble(cause),
            (Phase::Writing, ImportEvent::BatchDone) => self.flushed(),
            (Phase::Writing, ImportEvent::BatchFailed(cause)) => self.fail(cause),
            (Phase::Auditing, ImportEvent::Rows(rows)) => self.audit(&rows),
            (Phase::Auditing, ImportEvent::QueryFailed(cause)) => self.fail(cause),
            (Phase::Retiring, ImportEvent::BatchDone) => {
                self.phase = Phase::Finished;
                ImportAction::Done(self.stats())
            },
            (Phase::Retiring, ImportEvent::BatchFailed(cause)) => self.fail(cause),
            _ => self.fail(String::from_str(OUT_OF_TURN)),
        }
    }
}

} // verus!
