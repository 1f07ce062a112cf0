//! A model of the picture table, and what the import's writes do to it.
//!
//! The store itself is remote and takes SQL text. This module says what the
//! two kinds of statement that the import sends are meant to do: a table is a
//! list of records with pairwise different hashes, an upsert overwrites the
//! record with its hash or appends one, and a soft delete sets the deletion
//! flag and its timestamp.

use crate::import::StoreOp;
use crate::model::HistoryItem;
use vstd::prelude::*;

verus! {

/// One picture of the table, as far as the import touches it.
pub struct Record {
    /// What the host reported last; its hash is the record's key.
    pub item: HistoryItem,
    /// The creation time that the host reported when the record was inserted.
    pub first_seen: Seq<char>,
    pub deleted: bool,
    /// The store's clock at the soft delete.
    pub deleted_at: Option<nat>,
}

/// A table: no hash occurs twice, and a record carries a deletion timestamp
/// exactly if it is marked deleted.
pub open spec fn well_formed(table: Seq<Record>) -> bool {
    &&& forall|i: int, j: int|
        0 <= i < j < table.len() ==> (#[trigger] table[i]).item.hash != (#[trigger] table[j]).item.hash
    &&& forall|i: int|
        0 <= i < table.len() ==> ((#[trigger] table[i]).deleted <==> table[i].deleted_at is Some)
}

/// The table has a record with this hash at row `i`.
pub open spec fn at_row(table: Seq<Record>, hash: Seq<char>, i: int) -> bool {
    0 <= i < table.len() && table[i].item.hash == hash
}

/// The table has a record with this hash.
pub open spec fn holds(table: Seq<Record>, hash: Seq<char>) -> bool {
    exists|i: int| at_row(table, hash, i)
}

/// The row of the record with this hash.
pub open spec fn row_of(table: Seq<Record>, hash: Seq<char>) -> int {
    choose|i: int| at_row(table, hash, i)
}

/// The table has a record with this hash that is not marked deleted.
pub open spec fn is_live(table: Seq<Record>, hash: Seq<char>) -> bool {
    holds(table, hash) && !table[row_of(table, hash)].deleted
}

/// Inserts the entry, or overwrites the record that has its hash. Either way
/// the record is not marked deleted afterwards; an overwritten record keeps
/// its first creation time.
pub open spec fn upsert(table: Seq<Record>, item: HistoryItem) -> Seq<Record> {
    if holds(table, item.hash) {
        let i = row_of(table, item.hash);
        table.update(
            i,
            Record { item, first_seen: table[i].first_seen, deleted: false, deleted_at: None },
        )
    } else {
        table.push(Record { item, first_seen: item.created_at, deleted: false, deleted_at: None })
    }
}

/// Marks the record with this hash deleted at the time `now`; a table without
/// such a record stays as it is.
pub open spec fn soft_delete(table: Seq<Record>, hash: Seq<char>, now: nat) -> Seq<Record> {
    if holds(table, hash) {
        let i = row_of(table, hash);
        table.update(i, Record { deleted: true, deleted_at: Some(now), ..table[i] })
    } else {
        table
    }
}

/// What one write does to the table.
pub open spec fn apply(table: Seq<Record>, op: StoreOp, now: nat) -> Seq<Record> {
    match op {
        StoreOp::Upsert(item) => upsert(table, item),
        StoreOp::SoftDelete(hash) => soft_delete(table, hash, now),
    }
}

/// What a list of writes does to the table, one after the other.
pub open spec fn apply_all(table: Seq<Record>, ops: Seq<StoreOp>, now: nat) -> Seq<Record>
    decreases ops.len(),
{
    if ops.len() == 0 {
        table
    } else {
        apply(apply_all(table, ops.drop_last(), now), ops.last(), now)
    }
}

/// The hashes of the records that are not marked deleted, in table order:
/// what the query for the live hashes returns.
pub open spec fn live_rows(table: Seq<Record>) -> Seq<Seq<char>>
    decreases table.len(),
{
    if table.len() == 0 {
        Seq::empty()
    } else if table.last().deleted {
        live_rows(table.drop_last())
    } else {
        live_rows(table.drop_last()).push(table.last().item.hash)
    }
}

/// In a well-formed table the row of a hash is the only row with that hash.
pub proof fn lemma_row_is_unique(table: Seq<Record>, hash: Seq<char>, i: int)
    requires
        well_formed(table),
        at_row(table, hash, i),
    ensures
        holds(table, hash),
        row_of(table, hash) == i,
{
}

/// An upsert keeps a table well formed, keeps its other records, and leaves
/// the record of the entry's hash live.
pub proof fn lemma_upsert(table: Seq<Record>, item: HistoryItem)
    requires
        well_formed(table),
    ensures
        well_formed(upsert(table, item)),
        is_live(upsert(table, item), item.hash),
        forall|h: Seq<char>| h != item.hash ==> (holds(upsert(table, item), h) <==> holds(table, h)),
        forall|h: Seq<char>|
            h != item.hash ==> (is_live(upsert(table, item), h) <==> is_live(table, h)),
{
    let after = upsert(table, item);
    let at: int = if holds(table, item.hash) {
        row_of(table, item.hash)
    } else {
        table.len() as int
    };
    if !holds(table, item.hash) {
        assert forall|i: int| 0 <= i < table.len() implies table[i].item.hash != item.hash by {
            if table[i].item.hash == item.hash {
                assert(at_row(table, item.hash, i));
            }
        }
    }
    lemma_row_is_unique(after, item.hash, at);
    assert forall|h: Seq<char>| h != item.hash implies ((holds(after, h) <==> holds(table, h)) && (
    is_live(after, h) <==> is_live(table, h))) by {
        if holds(table, h) {
            let i = row_of(table, h);
            lemma_row_is_unique(after, h, i);
        }
        if holds(after, h) {
            let i = row_of(after, h);
            lemma_row_is_unique(table, h, i);
        }
    }
}

/// A soft delete keeps a table well formed, keeps its records, and takes the
/// record of the hash, if there is one, out of the live ones.
pub proof fn lemma_soft_delete(table: Seq<Record>, hash: Seq<char>, now: nat)
    requires
        well_formed(table),
    ensures
        well_formed(soft_delete(table, hash, now)),
        !is_live(soft_delete(table, hash, now), hash),
        forall|h: Seq<char>| holds(soft_delete(table, hash, now), h) <==> holds(table, h),
        forall|h: Seq<char>|
            h != hash ==> (is_live(soft_delete(table, hash, now), h) <==> is_live(table, h)),
{
    let after = soft_delete(table, hash, now);
    if holds(table, hash) {
        lemma_row_is_unique(after, hash, row_of(table, hash));
        assert forall|h: Seq<char>|
            (holds(after, h) <==> holds(table, h)) && (h != hash ==> (is_live(after, h) <==> is_live(
                table,
                h,
            ))) by {
            if holds(table, h) {
                let i = row_of(table, h);
                lemma_row_is_unique(after, h, i);
            }
            if holds(after, h) {
                let i = row_of(after, h);
                lemma_row_is_unique(table, h, i);
            }
        }
    }
}

/// Whatever the import writes, the table stays well formed: after any list of
/// writes no hash occurs twice, and a record carries a deletion timestamp
/// exactly if it is marked deleted. So a run that stops between two batches
/// leaves a well-formed table behind.
pub proof fn law_writes_keep_the_table_well_formed(table: Seq<Record>, ops: Seq<StoreOp>, now: nat)
    requires
        well_formed(table),
    ensures
        well_formed(apply_all(table, ops, now)),
    decreases ops.len(),
{
    if ops.len() > 0 {
        law_writes_keep_the_table_well_formed(table, ops.drop_last(), now);
        let before = apply_all(table, ops.drop_last(), now);
        match ops.last() {
            StoreOp::Upsert(item) => lemma_upsert(before, item),
            StoreOp::SoftDelete(hash) => lemma_soft_delete(before, hash, now),
        }
    }
}

/// Two entries with one hash leave one record: after both upserts exactly one
/// row has that hash, and it holds what the later entry reported.
pub proof fn law_one_record_per_hash(table: Seq<Record>, first: HistoryItem, second: HistoryItem)
    requires
        well_formed(table),
        first.hash == second.hash,
    ensures
        ({
            let after = upsert(upsert(table, first), second);
            let row = row_of(after, second.hash);
            &&& well_formed(after)
            &&& at_row(after, second.hash, row)
            &&& after[row].item == second
            &&& forall|i: int| at_row(after, second.hash, i) ==> i == row
        }),
{
    let middle = upsert(table, first);
    lemma_upsert(table, first);
    let after = upsert(middle, second);
    lemma_upsert(middle, second);
    let at = row_of(middle, second.hash);
    lemma_row_is_unique(after, second.hash, at);
    assert forall|i: int| at_row(after, second.hash, i) implies i == at by {
        lemma_row_is_unique(after, second.hash, i);
    }
}

/// An upsert of a hash that the table holds overwrites its record in place:
/// the record stays in its row and keeps its first creation time, and holds
/// what the entry reports, from which its file type follows. An upsert of a
/// hash that the table does not hold appends a record with the entry's own
/// creation time.
pub proof fn law_upsert_keeps_identity(table: Seq<Record>, item: HistoryItem)
    requires
        well_formed(table),
    ensures
        ({
            let after = upsert(table, item);
            let row = row_of(after, item.hash);
            &&& at_row(after, item.hash, row)
            &&& after[row].item == item
            &&& holds(table, item.hash) ==> row == row_of(table, item.hash) && after[row].first_seen
                == table[row].first_seen && after.len() == table.len()
            &&& !holds(table, item.hash) ==> row == table.len() && after[row].first_seen
                == item.created_at
            &&& forall|i: int| 0 <= i < table.len() && i != row ==> after[i] == table[i]
        }),
{
    lemma_upsert(table, item);
    let after = upsert(table, item);
    let at: int = if holds(table, item.hash) {
        row_of(table, item.hash)
    } else {
        table.len() as int
    };
    if holds(table, item.hash) {
        assert(at_row(table, item.hash, at));
    }
    assert(at_row(after, item.hash, at));
    lemma_row_is_unique(after, item.hash, at);
}

/// An upsert undoes a soft delete: whatever the record of the entry's hash
/// was before, afterwards it is not marked deleted and has no deletion
/// timestamp.
pub proof fn law_upsert_restores(table: Seq<Record>, item: HistoryItem)
    requires
        well_formed(table),
    ensures
        holds(upsert(table, item), item.hash),
        !upsert(table, item)[row_of(upsert(table, item), item.hash)].deleted,
        upsert(table, item)[row_of(upsert(table, item), item.hash)].deleted_at is None,
{
    lemma_upsert(table, item);
}

} // verus!
