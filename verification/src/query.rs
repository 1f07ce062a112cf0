//! Picture queries: the SQL text for a set of filters, and the strict reading
//! of the rows that come back.

use crate::model::{PictureQueryParams, Row, SmmsPicture};
use crate::rows::{collect_text, first_int, leading_int, text_column};
use crate::text::{decimal, decimal_i64, decimal_usize, escape_sql, escaped, quote_sql, quoted, views};
use vstd::prelude::*;
use vstd::string::*;

verus! {

/// The filter on the deletion flag: only live pictures, only deleted ones, or
/// all of them.
pub open spec fn deleted_filter(include_deleted: Option<bool>) -> Seq<char> {
    match include_deleted {
        Some(false) => " AND is_deleted = 0"@,
        Some(true) => " AND is_deleted = 1"@,
        None => Seq::empty(),
    }
}

/// The filter on the file type; none for a missing or empty one.
pub open spec fn type_filter(file_type: Option<String>) -> Seq<char> {
    match file_type {
        Some(t) => if t@.len() > 0 {
            " AND file_type = "@ + quoted(t@)
        } else {
            Seq::empty()
        },
        None => Seq::empty(),
    }
}

/// The filter on the favorite flag.
pub open spec fn favorite_filter(is_favorite: Option<bool>) -> Seq<char> {
    match is_favorite {
        Some(true) => " AND is_favorite = 1"@,
        Some(false) => " AND is_favorite = 0"@,
        None => Seq::empty(),
    }
}

/// The filter that asks for `needle` somewhere in `column`; none for a missing
/// or empty needle.
pub open spec fn like_filter(column: Seq<char>, needle: Option<String>) -> Seq<char> {
    match needle {
        Some(n) => if n@.len() > 0 {
            " AND "@ + column + " LIKE '%"@ + escaped(n@) + "%'"@
        } else {
            Seq::empty()
        },
        None => Seq::empty(),
    }
}

/// All the filters of a query, in the order in which they are written.
pub open spec fn filters(params: PictureQueryParams) -> Seq<char> {
    deleted_filter(params.include_deleted) + type_filter(params.file_type) + favorite_filter(
        params.is_favorite,
    ) + like_filter("filename"@, params.filename) + like_filter("store_name"@, params.store_name)
        + like_filter("remark"@, params.remark)
}

/// The order of the result; newest first for a missing or unknown key.
pub open spec fn order_clause(order_by: Option<String>) -> Seq<char> {
    let key = match order_by {
        Some(k) => k@,
        None => "created_at_desc"@,
    };
    if key == "created_at_asc"@ {
        "created_at ASC"@
    } else if key == "created_at_desc"@ {
        "created_at DESC"@
    } else if key == "updated_at_asc"@ {
        "updated_at ASC"@
    } else if key == "updated_at_desc"@ {
        "updated_at DESC"@
    } else if key == "size_asc"@ {
        "size ASC"@
    } else if key == "size_desc"@ {
        "size DESC"@
    } else {
        "created_at DESC"@
    }
}

/// A clause made of a keyword and a number; none for a missing number.
pub open spec fn window_clause(keyword: Seq<char>, amount: Option<i64>) -> Seq<char> {
    match amount {
        Some(n) => keyword + decimal(n as int),
        None => Seq::empty(),
    }
}

/// The statement that counts the pictures that pass the filters.
pub open spec fn count_text(params: PictureQueryParams) -> Seq<char> {
    "SELECT COUNT(*) as count FROM smms_pictures WHERE 1=1"@ + filters(params)
}

/// The statement that selects the pictures that pass the filters, in the
/// order and window asked for.
pub open spec fn select_text(params: PictureQueryParams) -> Seq<char> {
    "SELECT * FROM smms_pictures WHERE 1=1"@ + filters(params) + " ORDER BY "@ + order_clause(
        params.order_by,
    ) + window_clause(" LIMIT "@, params.limit) + window_clause(" OFFSET "@, params.offset)
}

fn append_like(out: &mut String, column: &str, needle: &Option<String>)
    ensures
        final(out)@ == old(out)@ + like_filter(column@, *needle),
{
    match needle {
        Some(n) => {
            if !n.as_str().is_empty() {
                let body = escape_sql(n.as_str());
                let ghost start = out@;
                out.append(" AND ");
                out.append(column);
                out.append(" LIKE '%");
                out.append(body.as_str());
                out.append("%'");
                assert(out@ == start + (" AND "@ + column@ + " LIKE '%"@ + escaped(n@) + "%'"@));
            } else {
                assert(out@ + Seq::<char>::empty() == out@);
            }
        },
        None => {
            assert(out@ + Seq::<char>::empty() == out@);
        },
    }
}

fn append_deleted(out: &mut String, include_deleted: Option<bool>)
    ensures
        final(out)@ == old(out)@ + deleted_filter(include_deleted),
{
    match include_deleted {
        Some(false) => out.append(" AND is_deleted = 0"),
        Some(true) => out.append(" AND is_deleted = 1"),
        None => {
            assert(out@ + Seq::<char>::empty() == out@);
        },
    }
}

fn append_type(out: &mut String, file_type: &Option<String>)
    ensures
        final(out)@ == old(out)@ + type_filter(*file_type),
{
    match file_type {
        Some(t) => {
            if !t.as_str().is_empty() {
                let literal = quote_sql(t.as_str());
                let ghost start = out@;
                out.append(" AND file_type = ");
                out.append(literal.as_str());
                assert(out@ == start + (" AND file_type = "@ + quoted(t@)));
            } else {
                assert(out@ + Seq::<char>::empty() == out@);
            }
        },
        None => {
            assert(out@ + Seq::<char>::empty() == out@);
        },
    }
}

fn append_favorite(out: &mut String, is_favorite: Option<bool>)
    ensures
        final(out)@ == old(out)@ + favorite_filter(is_favorite),
{
    match is_favorite {
        Some(true) => out.append(" AND is_favorite = 1"),
        Some(false) => out.append(" AND is_favorite = 0"),
        None => {
            assert(out@ + Seq::<char>::empty() == out@);
        },
    }
}

fn append_filters(out: &mut String, params: &PictureQueryParams)
    ensures
        final(out)@ == old(out)@ + filters(*params),
{
    let ghost start = out@;
    let ghost a = deleted_filter(params.include_deleted);
    let ghost b = type_filter(params.file_type);
    let ghost c = favorite_filter(params.is_favorite);
    let ghost d = like_filter("filename"@, params.filename);
    let ghost e = like_filter("store_name"@, params.store_name);
    let ghost f = like_filter("remark"@, params.remark);
    append_deleted(out, params.include_deleted);
    append_type(out, &params.file_type);
    assert(out@ == start + (a + b));
    append_favorite(out, params.is_favorite);
    assert(out@ == start + (a + b + c));
    append_like(out, "filename", &params.filename);
    assert(out@ == start + (a + b + c + d));
    append_like(out, "store_name", &params.store_name);
    assert(out@ == start + (a + b + c + d + e));
    append_like(out, "remark", &params.remark);
    assert(out@ == start + (a + b + c + d + e + f));
}

fn is_key(key: &String, name: &str) -> (r: bool)
    ensures
        r == (key@ == name@),
{
    let other = String::from_str(name);
    *key == other
}

fn order_of(order_by: &Option<String>) -> (r: &'static str)
    ensures
        r@ == order_clause(*order_by),
{
    let key = match order_by {
        Some(k) => k.clone(),
        None => String::from_str("created_at_desc"),
    };
    if is_key(&key, "created_at_asc") {
        "created_at ASC"
    } else if is_key(&key, "created_at_desc") {
        "created_at DESC"
    } else if is_key(&key, "updated_at_asc") {
        "updated_at ASC"
    } else if is_key(&key, "updated_at_desc") {
        "updated_at DESC"
    } else if is_key(&key, "size_asc") {
        "size ASC"
    } else if is_key(&key, "size_desc") {
        "size DESC"
    } else {
        "created_at DESC"
    }
}

fn append_window(out: &mut String, keyword: &str, amount: Option<i64>)
    ensures
        final(out)@ == old(out)@ + window_clause(keyword@, amount),
{
    match amount {
        Some(n) => {
            let number = decimal_i64(n);
            let ghost start = out@;
            out.append(keyword);
            out.append(number.as_str());
            assert(out@ == start + (keyword@ + decimal(n as int)));
        },
        None => {
            assert(out@ + Seq::<char>::empty() == out@);
        },
    }
}

/// Builds the statement that counts the pictures that pass the filters.
pub fn count_sql(params: &PictureQueryParams) -> (r: String)
    ensures
        r@ == count_text(*params),
{
    let mut out = String::from_str("SELECT COUNT(*) as count FROM smms_pictures WHERE 1=1");
    append_filters(&mut out, params);
    out
}

/// Builds the statement that selects the pictures that pass the filters.
pub fn select_sql(params: &PictureQueryParams) -> (r: String)
    ensures
        r@ == select_text(*params),
{
    let mut out = String::from_str("SELECT * FROM smms_pictures WHERE 1=1");
    append_filters(&mut out, params);
    out.append(" ORDER BY ");
    out.append(order_of(&params.order_by));
    append_window(&mut out, " LIMIT ", params.limit);
    append_window(&mut out, " OFFSET ", params.offset);
    out
}

/// Reads the count that a count statement returned; 0 where it is missing.
pub fn count_from_rows(rows: &Vec<Row>) -> (r: i64)
    ensures
        r == leading_int(rows@, "count"@),
{
    first_int(rows, "count")
}

/// Reads the file types that the statement for them returned.
pub fn file_types_from_rows(rows: &Vec<Row>) -> (r: Vec<String>)
    ensures
        views(r@) == text_column(rows@, "file_type"@),
{
    collect_text(rows, "file_type")
}

/// The first field that a row lacks of those a picture needs, in the order in
/// which they are read; none where the row is complete. A field that holds a
/// value of the wrong type counts as lacking.
#[verifier::opaque]
pub open spec fn first_missing(row: Row) -> Option<Seq<char>> {
    if row.int_of("id"@) is None {
        Some("id"@)
    } else if row.text_of("file_hash"@) is None {
        Some("file_hash"@)
    } else if row.text_of("filename"@) is None {
        Some("filename"@)
    } else if row.text_of("store_name"@) is None {
        Some("store_name"@)
    } else if row.text_of("file_type"@) is None {
        Some("file_type"@)
    } else if row.int_of("width"@) is None {
        Some("width"@)
    } else if row.int_of("height"@) is None {
        Some("height"@)
    } else if row.int_of("size"@) is None {
        Some("size"@)
    } else if row.text_of("path"@) is None {
        Some("path"@)
    } else if row.text_of("url"@) is None {
        Some("url"@)
    } else if row.text_of("delete_url"@) is None {
        Some("delete_url"@)
    } else if row.text_of("page_url"@) is None {
        Some("page_url"@)
    } else if row.int_of("is_favorite"@) is None {
        Some("is_favorite"@)
    } else if row.int_of("is_deleted"@) is None {
        Some("is_deleted"@)
    } else if row.text_of("created_at"@) is None {
        Some("created_at"@)
    } else if row.text_of("updated_at"@) is None {
        Some("updated_at"@)
    } else {
        None
    }
}

/// The error for the row at `index` that lacks `field`.
pub open spec fn mapping_error(index: nat, field: Seq<char>) -> Seq<char> {
    "记录 "@ + decimal(index as int) + " 缺失或无效的 "@ + field + " 字段"@
}

/// The view of an optional text.
pub open spec fn optional_text(text: Option<String>) -> Option<Seq<char>> {
    match text {
        Some(t) => Some(t@),
        None => None,
    }
}

/// The picture holds exactly what the row holds. The two flags are cut down
/// to 32 bits; the deletion timestamp and the remark may be absent.
#[verifier::opaque]
pub open spec fn picture_holds(picture: SmmsPicture, row: Row) -> bool {
    &&& row.int_of("id"@) == Some(picture.id)
    &&& row.text_of("file_hash"@) == Some(picture.file_hash@)
    &&& row.text_of("filename"@) == Some(picture.filename@)
    &&& row.text_of("store_name"@) == Some(picture.store_name@)
    &&& row.text_of("file_type"@) == Some(picture.file_type@)
    &&& row.int_of("width"@) == Some(picture.width)
    &&& row.int_of("height"@) == Some(picture.height)
    &&& row.int_of("size"@) == Some(picture.size)
    &&& row.text_of("path"@) == Some(picture.path@)
    &&& row.text_of("url"@) == Some(picture.url@)
    &&& row.text_of("delete_url"@) == Some(picture.delete_url@)
    &&& row.text_of("page_url"@) == Some(picture.page_url@)
    &&& row.int_of("is_favorite"@) is Some
    &&& picture.is_favorite == row.int_of("is_favorite"@)->0 as i32
    &&& row.int_of("is_deleted"@) is Some
    &&& picture.is_deleted == row.int_of("is_deleted"@)->0 as i32
    &&& optional_text(picture.deleted_at) == row.text_of("deleted_at"@)
    &&& optional_text(picture.remark) == row.text_of("remark"@)
    &&& row.text_of("created_at"@) == Some(picture.created_at@)
    &&& row.text_of("updated_at"@) == Some(picture.updated_at@)
}

fn missing(index: usize, field: &str) -> (r: String)
    ensures
        r@ == mapping_error(index as nat, field@),
{
    let number = decimal_usize(index);
    let mut out = String::from_str("记录 ");
    out.append(number.as_str());
    out.append(" 缺失或无效的 ");
    out.append(field);
    out.append(" 字段");
    out
}

/// Reads one row as a picture. Every field but the deletion timestamp and the
/// remark is required with its type; the first one that the row lacks is
/// named in the error, together with the row's index.
pub fn map_row(row: &Row, index: usize) -> (r: Result<SmmsPicture, String>)
    ensures
        match r {
            Ok(picture) => first_missing(*row) is None && picture_holds(picture, *row),
            Err(message) => first_missing(*row) is Some && message@ == mapping_error(
                index as nat,
                first_missing(*row)->0,
            ),
        },
{
    reveal(first_missing);
    reveal(picture_holds);
    let id = match row.get_int("id") {
        Some(v) => v,
        None => return Err(missing(index, "id")),
    };
    let file_hash = match row.get_text("file_hash") {
        Some(v) => v,
        None => return Err(missing(index, "file_hash")),
    };
    let filename = match row.get_text("filename") {
        Some(v) => v,
        None => return Err(missing(index, "filename")),
    };
    let store_name = match row.get_text("store_name") {
        Some(v) => v,
        None => return Err(missing(index, "store_name")),
    };
    let file_type = match row.get_text("file_type") {
        Some(v) => v,
        None => return Err(missing(index, "file_type")),
    };
    let width = match row.get_int("width") {
        Some(v) => v,
        None => return Err(missing(index, "width")),
    };
    let height = match row.get_int("height") {
        Some(v) => v,
        None => return Err(missing(index, "height")),
    };
    let size = match row.get_int("size") {
        Some(v) => v,
        None => return Err(missing(index, "size")),
    };
    let path = match row.get_text("path") {
        Some(v) => v,
        None => return Err(missing(index, "path")),
    };
    let url = match row.get_text("url") {
        Some(v) => v,
        None => return Err(missing(index, "url")),
    };
    let delete_url = match row.get_text("delete_url") {
        Some(v) => v,
        None => return Err(missing(index, "delete_url")),
    };
    let page_url = match row.get_text("page_url") {
        Some(v) => v,
        None => return Err(missing(index, "page_url")),
    };
    let favorite = match row.get_int("is_favorite") {
        Some(v) => v,
        None => return Err(missing(index, "is_favorite")),
    };
    let deleted = match row.get_int("is_deleted") {
        Some(v) => v,
        None => return Err(missing(index, "is_deleted")),
    };
    let deleted_at = row.get_text("deleted_at");
    let remark = row.get_text("remark");
    let created_at = match row.get_text("created_at") {
        Some(v) => v,
        None => return Err(missing(index, "created_at")),
    };
    let updated_at = match row.get_text("updated_at") {
        Some(v) => v,
        None => return Err(missing(index, "updated_at")),
    };
    Ok(
        SmmsPicture {
            id,
            file_hash,
            filename,
            store_name,
            file_type,
            width,
            height,
            size,
            path,
            url,
            delete_url,
            page_url,
            is_favorite: #[verifier::truncate]
            (favorite as i32),
            is_deleted: #[verifier::truncate]
            (deleted as i32),
            deleted_at,
            remark,
            created_at,
            updated_at,
        },
    )
}

/// Reads the rows of a picture query, in their order. The first row that
/// lacks a field ends the reading with its error.
pub fn map_rows(rows: &Vec<Row>) -> (r: Result<Vec<SmmsPicture>, String>)
    ensures
        match r {
            Ok(pictures) => pictures.len() == rows.len() && (forall|i: int|
                0 <= i < rows.len() ==> first_missing(#[trigger] rows[i]) is None) && forall|i: int|
                0 <= i < rows.len() ==> picture_holds(#[trigger] pictures[i], rows[i]),
            Err(message) => exists|i: int|
                0 <= i < rows.len() && first_missing(#[trigger] rows[i]) is Some && message@
                    == mapping_error(i as nat, first_missing(rows[i])->0) && forall|j: int|
                    0 <= j < i ==> first_missing(#[trigger] rows[j]) is None,
        },
{
    let mut pictures: Vec<SmmsPicture> = Vec::new();
    let mut i: usize = 0;
    while i < rows.len()
        invariant
            i <= rows.len(),
            pictures.len() == i,
            forall|j: int| 0 <= j < i ==> first_missing(#[trigger] rows[j]) is None,
            forall|j: int| 0 <= j < i ==> picture_holds(#[trigger] pictures[j], rows[j]),
        decreases rows.len() - i,
    {
        match map_row(&rows[i], i) {
            Ok(picture) => pictures.push(picture),
            Err(message) => {
                assert(first_missing(rows[i as int]) is Some);
                return Err(message);
            },
        }
        i = i + 1;
    }
    Ok(pictures)
}

} // verus!
