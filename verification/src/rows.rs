//! Reading the loosely typed rows that the metadata store returns.

use crate::model::{Field, FieldValue, Row};
use crate::text::views;
use vstd::prelude::*;
use vstd::string::*;

verus! {

/// The value of the first field called `key`, if there is one.
pub open spec fn find_field(fields: Seq<Field>, key: Seq<char>) -> Option<FieldValue>
    decreases fields.len(),
{
    if fields.len() == 0 {
        None
    } else if fields[0].name@ == key {
        Some(fields[0].value)
    } else {
        find_field(fields.drop_first(), key)
    }
}

impl Row {
    /// The whole number under `key`; none where the field is missing or holds
    /// something else.
    pub open spec fn int_of(&self, key: Seq<char>) -> Option<i64> {
        match find_field(self.fields@, key) {
            Some(FieldValue::Int(n)) => Some(n),
            _ => None,
        }
    }

    /// The text under `key`; none where the field is missing or holds
    /// something else.
    pub open spec fn text_of(&self, key: Seq<char>) -> Option<Seq<char>> {
        match find_field(self.fields@, key) {
            Some(FieldValue::Text(s)) => Some(s@),
            _ => None,
        }
    }

    /// Finds the first field called `key`.
    fn field(&self, key: &str) -> (r: Option<&FieldValue>)
        ensures
            match r {
                Some(v) => find_field(self.fields@, key@) == Some(*v),
                None => find_field(self.fields@, key@) is None,
            },
    {
        let wanted = String::from_str(key);
        let mut i: usize = 0;
        assert(self.fields@.skip(0) == self.fields@);
        while i < self.fields.len()
            invariant
                i <= self.fields.len(),
                wanted@ == key@,
                find_field(self.fields@, key@) == find_field(self.fields@.skip(i as int), key@),
            decreases self.fields.len() - i,
        {
            assert(self.fields@.skip(i as int).drop_first() == self.fields@.skip(i + 1));
            if self.fields[i].name == wanted {
                return Some(&self.fields[i].value);
            }
            i = i + 1;
        }
        None
    }

    /// Reads the whole number under `key`.
    pub fn get_int(&self, key: &str) -> (r: Option<i64>)
        ensures
            r == self.int_of(key@),
    {
        match self.field(key) {
            Some(FieldValue::Int(n)) => Some(*n),
            _ => None,
        }
    }

    /// Reads the text under `key`.
    pub fn get_text(&self, key: &str) -> (r: Option<String>)
        ensures
            match r {
                Some(s) => self.text_of(key@) == Some(s@),
                None => self.text_of(key@) is None,
            },
    {
        match self.field(key) {
            Some(FieldValue::Text(s)) => Some(s.clone()),
            _ => None,
        }
    }
}

/// The texts under `key` of a list of rows, in their order; a row without
/// one is passed over.
pub open spec fn text_column(rows: Seq<Row>, key: Seq<char>) -> Seq<Seq<char>>
    decreases rows.len(),
{
    if rows.len() == 0 {
        Seq::empty()
    } else {
        match rows.last().text_of(key) {
            Some(h) => text_column(rows.drop_last(), key).push(h),
            None => text_column(rows.drop_last(), key),
        }
    }
}

/// The `file_hash` texts of a list of rows.
pub open spec fn hash_column(rows: Seq<Row>) -> Seq<Seq<char>> {
    text_column(rows, "file_hash"@)
}

/// The whole number under `key` in the first row; 0 where there is no row or
/// the first row has no such number.
pub open spec fn leading_int(rows: Seq<Row>, key: Seq<char>) -> i64 {
    if rows.len() > 0 && rows[0].int_of(key) is Some {
        rows[0].int_of(key)->0
    } else {
        0
    }
}

/// Collects the texts under `key` of a list of rows.
pub fn collect_text(rows: &Vec<Row>, key: &str) -> (r: Vec<String>)
    ensures
        views(r@) == text_column(rows@, key@),
{
    let mut out: Vec<String> = Vec::new();
    let mut i: usize = 0;
    assert(views(out@) == Seq::<Seq<char>>::empty());
    while i < rows.len()
        invariant
            i <= rows.len(),
            views(out@) == text_column(rows@.take(i as int), key@),
        decreases rows.len() - i,
    {
        assert(rows@.take(i + 1).drop_last() == rows@.take(i as int));
        let ghost before = views(out@);
        match rows[i].get_text(key) {
            Some(h) => {
                out.push(h);
                assert(views(out@) == before.push(h@));
            },
            None => {},
        }
        i = i + 1;
    }
    assert(rows@.take(rows.len() as int) == rows@);
    out
}

/// Collects the `file_hash` texts of a list of rows.
pub fn hashes_of_rows(rows: &Vec<Row>) -> (r: Vec<String>)
    ensures
        views(r@) == hash_column(rows@),
{
    collect_text(rows, "file_hash")
}

/// Reads the whole number under `key` in the first row, or 0.
pub fn first_int(rows: &Vec<Row>, key: &str) -> (r: i64)
    ensures
        r == leading_int(rows@, key@),
{
    if rows.len() > 0 {
        match rows[0].get_int(key) {
            Some(n) => n,
            None => 0,
        }
    } else {
        0
    }
}

} // verus!
