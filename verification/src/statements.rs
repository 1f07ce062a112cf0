//! The SQL statements that the library sends to the metadata store.
//!
//! The store takes raw SQL text only, so every value that comes from outside
//! goes through [`quoted`] or [`decimal`] before it is written into a
//! statement; no function here writes a text value in any other way.

use crate::model::{HistoryItem, SmmsUploadData, SmmsUploadItem};
use crate::text::{
    after_last, concat2, concat3, decimal, decimal_i64, join_with, joined, lowercase, quote_sql,
    quoted, split_last, to_lower, trim_text, trimmed, views,
};
use vstd::prelude::*;
use vstd::string::*;

verus! {

/// Selects the hashes of the pictures that are not marked deleted.
pub const LIVE_HASHES_SQL: &'static str = "SELECT file_hash FROM smms_pictures WHERE is_deleted = 0";

/// Selects the file types of the pictures that are not marked deleted.
pub const FILE_TYPES_SQL: &'static str =
    "SELECT DISTINCT file_type FROM smms_pictures WHERE is_deleted = 0 ORDER BY file_type";

/// Creates the table of credentials where it is missing.
pub const CREATE_USER_TABLE_SQL: &'static str =
    "CREATE TABLE IF NOT EXISTS smms_user (\n        id INTEGER PRIMARY KEY AUTOINCREMENT,\n        username TEXT NOT NULL UNIQUE,\n        encrypted_password TEXT NOT NULL,\n        encrypted_api_token TEXT,\n        created_at DATETIME DEFAULT (datetime('now')),\n        updated_at DATETIME DEFAULT (datetime('now'))\n    )";

/// Creates the table of pictures where it is missing.
pub const CREATE_PICTURES_TABLE_SQL: &'static str =
    "CREATE TABLE IF NOT EXISTS smms_pictures (\n        id INTEGER PRIMARY KEY AUTOINCREMENT,\n        file_hash TEXT NOT NULL UNIQUE,\n        filename TEXT NOT NULL,\n        store_name TEXT NOT NULL,\n        file_type TEXT NOT NULL,\n        width INTEGER NOT NULL,\n        height INTEGER NOT NULL,\n        size INTEGER NOT NULL,\n        path TEXT NOT NULL,\n        url TEXT NOT NULL,\n        delete_url TEXT NOT NULL,\n        page_url TEXT NOT NULL,\n        is_favorite INTEGER DEFAULT 0,\n        is_deleted INTEGER DEFAULT 0,\n        deleted_at DATETIME,\n        remark TEXT,\n        created_at DATETIME NOT NULL,\n        updated_at DATETIME DEFAULT (datetime('now'))\n    )";

/// Adds the deletion flag to a table of pictures that was created without it.
pub const ADD_IS_DELETED_SQL: &'static str =
    "ALTER TABLE smms_pictures ADD COLUMN is_deleted INTEGER DEFAULT 0";

/// Adds the deletion timestamp to a table of pictures that was created without it.
pub const ADD_DELETED_AT_SQL: &'static str = "ALTER TABLE smms_pictures ADD COLUMN deleted_at DATETIME";

/// Adds the remark to a table of pictures that was created without it.
pub const ADD_REMARK_SQL: &'static str = "ALTER TABLE smms_pictures ADD COLUMN remark TEXT";

/// The index on the hash.
pub const INDEX_HASH_SQL: &'static str =
    "CREATE INDEX IF NOT EXISTS idx_smms_pictures_hash ON smms_pictures(file_hash)";

/// The index on the creation time, newest first.
pub const INDEX_CREATED_SQL: &'static str =
    "CREATE INDEX IF NOT EXISTS idx_smms_pictures_created_at ON smms_pictures(created_at DESC)";

/// The index on the time of the last write, newest first.
pub const INDEX_UPDATED_SQL: &'static str =
    "CREATE INDEX IF NOT EXISTS idx_smms_pictures_updated_at ON smms_pictures(updated_at DESC)";

/// The index on the favorite flag, over the favorites only.
pub const INDEX_FAVORITE_SQL: &'static str =
    "CREATE INDEX IF NOT EXISTS idx_smms_pictures_favorite ON smms_pictures(is_favorite) WHERE is_favorite = 1";

/// The index on the file type.
pub const INDEX_TYPE_SQL: &'static str =
    "CREATE INDEX IF NOT EXISTS idx_smms_pictures_type ON smms_pictures(file_type)";

/// The index on the file type and the creation time.
pub const INDEX_TYPE_CREATED_SQL: &'static str =
    "CREATE INDEX IF NOT EXISTS idx_smms_pictures_type_created ON smms_pictures(file_type, created_at DESC)";

/// The index on the deletion flag.
pub const INDEX_DELETED_SQL: &'static str =
    "CREATE INDEX IF NOT EXISTS idx_smms_pictures_deleted ON smms_pictures(is_deleted)";

/// Head of the full import's insert-or-update statement, up to the values.
pub const IMPORT_UPSERT_HEAD: &'static str =
    "INSERT INTO smms_pictures (file_hash, filename, store_name, file_type, width, height, size, path, url, delete_url, page_url, is_deleted, created_at, updated_at) VALUES (";

/// Tail of the full import's insert-or-update statement, after the values.
pub const IMPORT_UPSERT_TAIL: &'static str =
    ") ON CONFLICT(file_hash) DO UPDATE SET filename = excluded.filename, store_name = excluded.store_name, file_type = excluded.file_type, width = excluded.width, height = excluded.height, size = excluded.size, path = excluded.path, url = excluded.url, delete_url = excluded.delete_url, page_url = excluded.page_url, is_deleted = 0, deleted_at = NULL, updated_at = excluded.updated_at";

/// Head of the one-page sync's insert-or-update statement, up to the values.
pub const SYNC_UPSERT_HEAD: &'static str =
    "INSERT INTO smms_pictures (file_hash, filename, store_name, file_type, width, height, size, path, url, delete_url, page_url, created_at, updated_at) VALUES (";

/// Tail of the one-page sync's insert-or-update statement, after the values.
pub const SYNC_UPSERT_TAIL: &'static str =
    ") ON CONFLICT(file_hash) DO UPDATE SET filename = excluded.filename, store_name = excluded.store_name, file_type = excluded.file_type, width = excluded.width, height = excluded.height, size = excluded.size, path = excluded.path, url = excluded.url, delete_url = excluded.delete_url, page_url = excluded.page_url, updated_at = excluded.updated_at";

/// Head of the statement that records an upload, up to the values.
pub const UPLOAD_UPSERT_HEAD: &'static str =
    "INSERT INTO smms_pictures (file_hash, filename, store_name, file_type, width, height, size, path, url, delete_url, page_url, remark, created_at, updated_at) VALUES (";

/// Tail of the statement that records an upload, after the values.
pub const UPLOAD_UPSERT_TAIL: &'static str =
    ") ON CONFLICT(file_hash) DO UPDATE SET filename = excluded.filename, store_name = excluded.store_name, file_type = excluded.file_type, width = excluded.width, height = excluded.height, size = excluded.size, path = excluded.path, url = excluded.url, delete_url = excluded.delete_url, page_url = excluded.page_url, remark = excluded.remark, updated_at = excluded.updated_at";

/// The store's clock, as SQL.
pub const NOW: &'static str = "datetime('now')";

/// The file type that goes with a file name: what follows its last dot, in
/// lowercase; `unknown` where the name has no dot or ends in one.
pub open spec fn file_type(filename: Seq<char>) -> Seq<char> {
    if filename.contains('.') && after_last(filename, '.').len() > 0 {
        lowercase(after_last(filename, '.'))
    } else {
        "unknown"@
    }
}

/// Marks the picture with the given hash deleted, stamped with the store's clock.
pub open spec fn soft_delete_by_hash_text(hash: Seq<char>) -> Seq<char> {
    "UPDATE smms_pictures SET is_deleted = 1, deleted_at = datetime('now'), updated_at = datetime('now') WHERE file_hash = "@
        + quoted(hash)
}

/// The values of the full import's insert-or-update statement for one history
/// entry, in the order of its column list. The deletion flag is written as 0.
pub open spec fn import_values(item: HistoryItem) -> Seq<Seq<char>> {
    seq![
        quoted(item.hash),
        quoted(item.filename),
        quoted(item.store_name),
        quoted(file_type(item.filename)),
        decimal(item.width as int),
        decimal(item.height as int),
        decimal(item.size as int),
        quoted(item.path),
        quoted(item.url),
        quoted(item.delete_url),
        quoted(item.page_url),
        "0"@,
        quoted(item.created_at),
        NOW@,
    ]
}

/// The insert-or-update statement of the full import for one history entry. It
/// is keyed on the hash. On a conflict it overwrites what the host reported
/// and the file type that follows from the file name, sets the time of the
/// last write, and clears the deletion flag and its timestamp. The id, the
/// hash and the creation time stay, and so do the favorite flag and the
/// remark, of which the host knows nothing.
pub open spec fn import_upsert_text(item: HistoryItem) -> Seq<char> {
    IMPORT_UPSERT_HEAD@ + joined(import_values(item), ", "@) + IMPORT_UPSERT_TAIL@
}

/// The values of the one-page sync's insert-or-update statement.
pub open spec fn sync_values(item: HistoryItem) -> Seq<Seq<char>> {
    seq![
        quoted(item.hash),
        quoted(item.filename),
        quoted(item.store_name),
        quoted(file_type(item.filename)),
        decimal(item.width as int),
        decimal(item.height as int),
        decimal(item.size as int),
        quoted(item.path),
        quoted(item.url),
        quoted(item.delete_url),
        quoted(item.page_url),
        quoted(item.created_at),
        NOW@,
    ]
}

/// The insert-or-update statement of the one-page sync: as that of the full
/// import, but it does not touch the deletion flag.
pub open spec fn sync_upsert_text(item: HistoryItem) -> Seq<char> {
    SYNC_UPSERT_HEAD@ + joined(sync_values(item), ", "@) + SYNC_UPSERT_TAIL@
}

/// The SQL value of an optional remark: a string literal, or `NULL`.
pub open spec fn remark_text(remark: Option<String>) -> Seq<char> {
    match remark {
        Some(r) => quoted(r@),
        None => "NULL"@,
    }
}

/// The values of the statement that records a fresh upload.
pub open spec fn upload_values(data: SmmsUploadData, remark: Option<String>) -> Seq<Seq<char>> {
    seq![
        quoted(data.hash@),
        quoted(data.filename@),
        quoted(data.store_name@),
        quoted(file_type(data.filename@)),
        decimal(data.width as int),
        decimal(data.height as int),
        decimal(data.size as int),
        quoted(data.path@),
        quoted(data.url@),
        quoted(data.delete_url@),
        quoted(data.page_url@),
        remark_text(remark),
        NOW@,
        NOW@,
    ]
}

/// The insert-or-update statement that records a fresh upload with its remark.
pub open spec fn upload_upsert_text(data: SmmsUploadData, remark: Option<String>) -> Seq<char> {
    UPLOAD_UPSERT_HEAD@ + joined(upload_values(data, remark), ", "@) + UPLOAD_UPSERT_TAIL@
}

/// Marks the picture with the given id deleted.
pub open spec fn soft_delete_by_id_text(id: int) -> Seq<char> {
    "UPDATE smms_pictures SET is_deleted = 1, deleted_at = datetime('now'), updated_at = datetime('now') WHERE id = "@
        + decimal(id)
}

/// Selects what a delete request needs of the picture with the given id.
pub open spec fn delete_target_text(id: int) -> Seq<char> {
    "SELECT delete_url, filename FROM smms_pictures WHERE id = "@ + decimal(id)
}

/// Sets or clears the favorite flag of the picture with the given id.
pub open spec fn favorite_text(id: int, is_favorite: bool) -> Seq<char> {
    "UPDATE smms_pictures SET is_favorite = "@ + (if is_favorite {
        "1"@
    } else {
        "0"@
    }) + ", updated_at = datetime('now') WHERE id = "@ + decimal(id)
}

/// Sets the remark of the picture with the given id.
pub open spec fn update_remark_text(id: int, remark: Option<String>) -> Seq<char> {
    "UPDATE smms_pictures SET remark = "@ + remark_text(remark)
        + ", updated_at = datetime('now') WHERE id = "@ + decimal(id)
}

/// The decimal texts of a list of ids.
pub open spec fn id_texts(ids: Seq<i64>) -> Seq<Seq<char>> {
    Seq::new(ids.len(), |i: int| decimal(ids[i] as int))
}

/// Sets the remark of all the pictures with the given ids.
pub open spec fn batch_update_remark_text(ids: Seq<i64>, remark: Option<String>) -> Seq<char> {
    "UPDATE smms_pictures SET remark = "@ + remark_text(remark)
        + ", updated_at = datetime('now') WHERE id IN ("@ + joined(id_texts(ids), ","@) + ")"@
}

/// Stores the credentials of one user, or replaces them.
pub open spec fn save_user_text(
    username: Seq<char>,
    encrypted_password: Seq<char>,
    encrypted_token: Seq<char>,
) -> Seq<char> {
    "INSERT INTO smms_user (username, encrypted_password, encrypted_api_token, updated_at) VALUES ("@
        + joined(
        seq![quoted(username), quoted(encrypted_password), quoted(encrypted_token), NOW@],
        ", "@,
    )
        + ") ON CONFLICT(username) DO UPDATE SET encrypted_password = excluded.encrypted_password, encrypted_api_token = excluded.encrypted_api_token, updated_at = excluded.updated_at"@
}

/// Whether a user name was given: present, and more than white space.
pub open spec fn names_user(username: Option<String>) -> bool {
    username matches Some(u) && trimmed(u@).len() > 0
}

/// Selects the credentials of the named user, or of the first user where no
/// name was given.
pub open spec fn load_user_text(username: Option<String>) -> Seq<char> {
    if names_user(username) {
        "SELECT username, encrypted_password, encrypted_api_token FROM smms_user WHERE username = "@
            + quoted(username->0@) + " LIMIT 1"@
    } else {
        "SELECT username, encrypted_password, encrypted_api_token FROM smms_user ORDER BY id ASC LIMIT 1"@
    }
}

/// The statement that selects the live hashes.
pub fn live_hashes_sql() -> (r: String)
    ensures
        r@ == LIVE_HASHES_SQL@,
{
    String::from_str(LIVE_HASHES_SQL)
}

/// Derives the file type from a file name. It is never empty.
pub fn file_type_of(filename: &str) -> (r: String)
    ensures
        r@ == file_type(filename@),
        r@.len() > 0,
{
    let (ext, dotted) = split_last(filename, '.');
    if dotted && ext.as_str().unicode_len() > 0 {
        to_lower(ext.as_str())
    } else {
        proof {
            reveal_strlit("unknown");
        }
        String::from_str("unknown")
    }
}

/// Builds the statement that marks the picture with the given hash deleted.
pub fn soft_delete_by_hash_sql(hash: &str) -> (r: String)
    ensures
        r@ == soft_delete_by_hash_text(hash@),
{
    let literal = quote_sql(hash);
    concat2(
        "UPDATE smms_pictures SET is_deleted = 1, deleted_at = datetime('now'), updated_at = datetime('now') WHERE file_hash = ",
        literal.as_str(),
    )
}

/// The statement that selects the file types in use.
pub fn file_types_sql() -> (r: String)
    ensures
        r@ == FILE_TYPES_SQL@,
{
    String::from_str(FILE_TYPES_SQL)
}

/// Joins the values of a statement and sets them between its head and tail.
fn assemble(head: &str, values: &Vec<String>, tail: &str) -> (r: String)
    ensures
        r@ == head@ + joined(views(values@), ", "@) + tail@,
{
    let list = join_with(values, ", ");
    concat3(head, list.as_str(), tail)
}

/// Builds the insert-or-update statement of the full import for one entry.
pub fn import_upsert_sql(item: &SmmsUploadItem) -> (r: String)
    ensures
        r@ == import_upsert_text(item@),
{
    let kind = file_type_of(item.filename.as_str());
    let mut values: Vec<String> = Vec::new();
    values.push(quote_sql(item.hash.as_str()));
    values.push(quote_sql(item.filename.as_str()));
    values.push(quote_sql(item.store_name.as_str()));
    values.push(quote_sql(kind.as_str()));
    values.push(decimal_i64(item.width));
    values.push(decimal_i64(item.height));
    values.push(decimal_i64(item.size));
    values.push(quote_sql(item.path.as_str()));
    values.push(quote_sql(item.url.as_str()));
    values.push(quote_sql(item.delete_url.as_str()));
    values.push(quote_sql(item.page_url.as_str()));
    values.push(String::from_str("0"));
    values.push(quote_sql(item.created_at.as_str()));
    values.push(String::from_str(NOW));
    assert(views(values@) == import_values(item@));
    assemble(IMPORT_UPSERT_HEAD, &values, IMPORT_UPSERT_TAIL)
}

/// Builds the insert-or-update statement of the one-page sync for one entry.
pub fn sync_upsert_sql(item: &SmmsUploadItem) -> (r: String)
    ensures
        r@ == sync_upsert_text(item@),
{
    let kind = file_type_of(item.filename.as_str());
    let mut values: Vec<String> = Vec::new();
    values.push(quote_sql(item.hash.as_str()));
    values.push(quote_sql(item.filename.as_str()));
    values.push(quote_sql(item.store_name.as_str()));
    values.push(quote_sql(kind.as_str()));
    values.push(decimal_i64(item.width));
    values.push(decimal_i64(item.height));
    values.push(decimal_i64(item.size));
    values.push(quote_sql(item.path.as_str()));
    values.push(quote_sql(item.url.as_str()));
    values.push(quote_sql(item.delete_url.as_str()));
    values.push(quote_sql(item.page_url.as_str()));
    values.push(quote_sql(item.created_at.as_str()));
    values.push(String::from_str(NOW));
    assert(views(values@) == sync_values(item@));
    assemble(SYNC_UPSERT_HEAD, &values, SYNC_UPSERT_TAIL)
}

/// Formats an optional remark as an SQL value.
pub fn format_remark_sql(remark: &Option<String>) -> (r: String)
    ensures
        r@ == remark_text(*remark),
{
    match remark {
        Some(r) => quote_sql(r.as_str()),
        None => String::from_str("NULL"),
    }
}

/// Builds the statement that records a fresh upload.
pub fn upload_upsert_sql(data: &SmmsUploadData, remark: &Option<String>) -> (r: String)
    ensures
        r@ == upload_upsert_text(*data, *remark),
{
    let kind = file_type_of(data.filename.as_str());
    let mut values: Vec<String> = Vec::new();
    values.push(quote_sql(data.hash.as_str()));
    values.push(quote_sql(data.filename.as_str()));
    values.push(quote_sql(data.store_name.as_str()));
    values.push(quote_sql(kind.as_str()));
    values.push(decimal_i64(data.width));
    values.push(decimal_i64(data.height));
    values.push(decimal_i64(data.size));
    values.push(quote_sql(data.path.as_str()));
    values.push(quote_sql(data.url.as_str()));
    values.push(quote_sql(data.delete_url.as_str()));
    values.push(quote_sql(data.page_url.as_str()));
    values.push(format_remark_sql(remark));
    values.push(String::from_str(NOW));
    values.push(String::from_str(NOW));
    assert(views(values@) == upload_values(*data, *remark));
    assemble(UPLOAD_UPSERT_HEAD, &values, UPLOAD_UPSERT_TAIL)
}

/// Builds the statement that marks the picture with the given id deleted.
pub fn soft_delete_by_id_sql(id: i64) -> (r: String)
    ensures
        r@ == soft_delete_by_id_text(id as int),
{
    let number = decimal_i64(id);
    concat2(
        "UPDATE smms_pictures SET is_deleted = 1, deleted_at = datetime('now'), updated_at = datetime('now') WHERE id = ",
        number.as_str(),
    )
}

/// Builds the statement that selects what a delete request needs.
pub fn delete_target_sql(id: i64) -> (r: String)
    ensures
        r@ == delete_target_text(id as int),
{
    let number = decimal_i64(id);
    concat2("SELECT delete_url, filename FROM smms_pictures WHERE id = ", number.as_str())
}

/// Builds the statement that sets or clears the favorite flag.
pub fn favorite_sql(id: i64, is_favorite: bool) -> (r: String)
    ensures
        r@ == favorite_text(id as int, is_favorite),
{
    let number = decimal_i64(id);
    let mut out = String::from_str("UPDATE smms_pictures SET is_favorite = ");
    if is_favorite {
        out.append("1");
    } else {
        out.append("0");
    }
    out.append(", updated_at = datetime('now') WHERE id = ");
    out.append(number.as_str());
    out
}

/// Builds the statement that sets the remark of one picture.
pub fn update_remark_sql(id: i64, remark: &Option<String>) -> (r: String)
    ensures
        r@ == update_remark_text(id as int, *remark),
{
    let value = format_remark_sql(remark);
    let number = decimal_i64(id);
    let mut out = String::from_str("UPDATE smms_pictures SET remark = ");
    out.append(value.as_str());
    out.append(", updated_at = datetime('now') WHERE id = ");
    out.append(number.as_str());
    out
}

/// Builds the statement that sets the remark of several pictures at once.
pub fn batch_update_remark_sql(ids: &Vec<i64>, remark: &Option<String>) -> (r: String)
    ensures
        r@ == batch_update_remark_text(ids@, *remark),
{
    let mut numbers: Vec<String> = Vec::new();
    let mut i: usize = 0;
    while i < ids.len()
        invariant
            i <= ids.len(),
            numbers.len() == i,
            forall|j: int| 0 <= j < i ==> numbers[j]@ == decimal(ids[j] as int),
        decreases ids.len() - i,
    {
        numbers.push(decimal_i64(ids[i]));
        i = i + 1;
    }
    assert(views(numbers@) == id_texts(ids@));
    let list = join_with(&numbers, ",");
    let value = format_remark_sql(remark);
    let mut out = String::from_str("UPDATE smms_pictures SET remark = ");
    out.append(value.as_str());
    out.append(", updated_at = datetime('now') WHERE id IN (");
    out.append(list.as_str());
    out.append(")");
    out
}

/// Builds the statement that stores the credentials of one user.
pub fn save_user_sql(username: &str, encrypted_password: &str, encrypted_token: &str) -> (r:
    String)
    ensures
        r@ == save_user_text(username@, encrypted_password@, encrypted_token@),
{
    let mut values: Vec<String> = Vec::new();
    values.push(quote_sql(username));
    values.push(quote_sql(encrypted_password));
    values.push(quote_sql(encrypted_token));
    values.push(String::from_str(NOW));
    assert(views(values@) == seq![
        quoted(username@),
        quoted(encrypted_password@),
        quoted(encrypted_token@),
        NOW@,
    ]);
    assemble(
        "INSERT INTO smms_user (username, encrypted_password, encrypted_api_token, updated_at) VALUES (",
        &values,
        ") ON CONFLICT(username) DO UPDATE SET encrypted_password = excluded.encrypted_password, encrypted_api_token = excluded.encrypted_api_token, updated_at = excluded.updated_at",
    )
}

/// Builds the statement that selects the credentials to load.
pub fn load_user_sql(username: &Option<String>) -> (r: String)
    ensures
        r@ == load_user_text(*username),
{
    match username {
        Some(u) => {
            if !trim_text(u.as_str()).is_empty() {
                let literal = quote_sql(u.as_str());
                return concat3(
                    "SELECT username, encrypted_password, encrypted_api_token FROM smms_user WHERE username = ",
                    literal.as_str(),
                    " LIMIT 1",
                );
            }
        },
        None => {},
    }
    String::from_str(
        "SELECT username, encrypted_password, encrypted_api_token FROM smms_user ORDER BY id ASC LIMIT 1",
    )
}

/// The statement that creates the table of credentials.
pub fn create_user_table_sql() -> (r: String)
    ensures
        r@ == CREATE_USER_TABLE_SQL@,
{
    String::from_str(CREATE_USER_TABLE_SQL)
}

/// The statement that creates the table of pictures.
pub fn create_pictures_table_sql() -> (r: String)
    ensures
        r@ == CREATE_PICTURES_TABLE_SQL@,
{
    String::from_str(CREATE_PICTURES_TABLE_SQL)
}

/// The statements that create the indexes of the table of pictures, to be
/// sent as one batch.
pub fn pictures_index_sqls() -> (r: Vec<String>)
    ensures
        views(r@) == seq![
            INDEX_HASH_SQL@,
            INDEX_CREATED_SQL@,
            INDEX_UPDATED_SQL@,
            INDEX_FAVORITE_SQL@,
            INDEX_TYPE_SQL@,
            INDEX_TYPE_CREATED_SQL@,
            INDEX_DELETED_SQL@,
        ],
{
    let mut out: Vec<String> = Vec::new();
    out.push(String::from_str(INDEX_HASH_SQL));
    out.push(String::from_str(INDEX_CREATED_SQL));
    out.push(String::from_str(INDEX_UPDATED_SQL));
    out.push(String::from_str(INDEX_FAVORITE_SQL));
    out.push(String::from_str(INDEX_TYPE_SQL));
    out.push(String::from_str(INDEX_TYPE_CREATED_SQL));
    out.push(String::from_str(INDEX_DELETED_SQL));
    assert(views(out@) == seq![
        INDEX_HASH_SQL@,
        INDEX_CREATED_SQL@,
        INDEX_UPDATED_SQL@,
        INDEX_FAVORITE_SQL@,
        INDEX_TYPE_SQL@,
        INDEX_TYPE_CREATED_SQL@,
        INDEX_DELETED_SQL@,
    ]);
    out
}

} // verus!
