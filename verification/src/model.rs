//! The data that travels between the image host, the metadata store and the
//! caller.

use vstd::prelude::*;

verus! {

/// Where the metadata store lives and how to authenticate against it.
#[derive(Debug, Clone, PartialEq, Eq)]
pub struct D1Config {
    pub account_id: String,
    pub database_id: String,
    pub api_token: String,
}

/// One (code, message) pair of a failure that the metadata store reports.
#[derive(Debug, Clone, PartialEq, Eq)]
pub struct D1Error {
    pub code: i32,
    pub message: String,
}

/// What a column of a row holds, as far as this library reads it: a whole
/// number, a text, or anything else.
#[derive(Debug, Clone, PartialEq, Eq)]
pub enum FieldValue {
    Int(i64),
    Text(String),
    Other,
}

/// One named column of a row.
#[derive(Debug, Clone, PartialEq, Eq)]
pub struct Field {
    pub name: String,
    pub value: FieldValue,
}

/// A loosely typed row of the metadata store: named columns in the order in
/// which they were received. Where a name occurs twice the first one counts.
#[derive(Debug, Clone, PartialEq, Eq)]
pub struct Row {
    pub fields: Vec<Field>,
}

/// The result set of one statement.
#[derive(Debug, Clone, PartialEq, Eq)]
pub struct D1QueryResult {
    pub results: Vec<Row>,
    pub success: bool,
    pub meta: Option<Row>,
}

/// The answer of the metadata store to one request.
#[derive(Debug, Clone, PartialEq, Eq)]
pub struct D1Response {
    pub success: bool,
    pub errors: Vec<D1Error>,
    pub messages: Vec<String>,
    pub result: Option<Vec<D1QueryResult>>,
}

/// The token that the image host issues.
#[derive(Debug, Clone, PartialEq, Eq)]
pub struct SmmsTokenData {
    pub token: String,
}

/// The answer of the image host to a token request.
#[derive(Debug, Clone, PartialEq, Eq)]
pub struct SmmsTokenResponse {
    pub success: bool,
    pub message: String,
    pub data: Option<SmmsTokenData>,
}

/// The credentials of the image host in the clear.
#[derive(Debug, Clone, PartialEq, Eq)]
pub struct SmmsUser {
    pub username: String,
    pub password: String,
    pub token: String,
}

/// One entry of the image host's upload history.
#[derive(Debug, Clone, PartialEq, Eq)]
pub struct SmmsUploadItem {
    pub file_id: i64,
    pub width: i64,
    pub height: i64,
    pub filename: String,
    pub store_name: String,
    pub size: i64,
    pub path: String,
    pub hash: String,
    pub created_at: String,
    pub url: String,
    pub delete_url: String,
    pub page_url: String,
}

/// An upload history entry as a mathematical value.
pub struct HistoryItem {
    pub file_id: i64,
    pub width: i64,
    pub height: i64,
    pub filename: Seq<char>,
    pub store_name: Seq<char>,
    pub size: i64,
    pub path: Seq<char>,
    pub hash: Seq<char>,
    pub created_at: Seq<char>,
    pub url: Seq<char>,
    pub delete_url: Seq<char>,
    pub page_url: Seq<char>,
}

impl View for SmmsUploadItem {
    type V = HistoryItem;

    open spec fn view(&self) -> HistoryItem {
        HistoryItem {
            file_id: self.file_id,
            width: self.width,
            height: self.height,
            filename: self.filename@,
            store_name: self.store_name@,
            size: self.size,
            path: self.path@,
            hash: self.hash@,
            created_at: self.created_at@,
            url: self.url@,
            delete_url: self.delete_url@,
            page_url: self.page_url@,
        }
    }
}

/// The views of a list of history entries.
pub open spec fn item_views(items: Seq<SmmsUploadItem>) -> Seq<HistoryItem> {
    Seq::new(items.len(), |i: int| items[i]@)
}

/// The answer of the image host to a request for one page of the history.
#[derive(Debug, Clone, PartialEq, Eq)]
pub struct SmmsUploadHistoryResponse {
    pub success: bool,
    pub _code: String,
    pub message: String,
    pub data: Option<Vec<SmmsUploadItem>>,
    pub _request_id: Option<String>,
}

/// One picture as the metadata store holds it.
#[derive(Debug, Clone, PartialEq, Eq)]
pub struct SmmsPicture {
    pub id: i64,
    pub file_hash: String,
    pub filename: String,
    pub store_name: String,
    pub file_type: String,
    pub width: i64,
    pub height: i64,
    pub size: i64,
    pub path: String,
    pub url: String,
    pub delete_url: String,
    pub page_url: String,
    pub is_favorite: i32,
    pub is_deleted: i32,
    pub deleted_at: Option<String>,
    pub remark: Option<String>,
    pub created_at: String,
    pub updated_at: String,
}

/// Filters, order and window of a picture query.
#[derive(Debug, Clone, PartialEq, Eq)]
pub struct PictureQueryParams {
    pub file_type: Option<String>,
    pub is_favorite: Option<bool>,
    pub include_deleted: Option<bool>,
    pub order_by: Option<String>,
    pub filename: Option<String>,
    pub store_name: Option<String>,
    pub remark: Option<String>,
    pub limit: Option<i64>,
    pub offset: Option<i64>,
}

/// What the image host says of a file it has just stored.
#[derive(Debug, Clone, PartialEq, Eq)]
pub struct SmmsUploadData {
    pub file_id: i64,
    pub width: i64,
    pub height: i64,
    pub filename: String,
    pub store_name: String,
    pub size: i64,
    pub path: String,
    pub hash: String,
    pub url: String,
    pub delete_url: String,
    pub page_url: String,
}

/// The answer of the image host to an upload.
#[derive(Debug, Clone, PartialEq, Eq)]
pub struct SmmsUploadResponse {
    pub success: bool,
    pub code: String,
    pub message: String,
    pub data: Option<SmmsUploadData>,
    pub request_id: Option<String>,
}

/// What became of one file of an upload request.
#[derive(Debug, Clone, PartialEq, Eq)]
pub struct UploadResult {
    pub filename: String,
    pub success: bool,
    pub message: String,
    pub url: Option<String>,
    pub remark: Option<String>,
}

/// The answer of the image host to a delete request.
#[derive(Debug, Clone, PartialEq, Eq)]
pub struct SmmsDeleteResponse {
    pub success: bool,
    pub _code: String,
    pub message: String,
    pub _request_id: Option<String>,
}

/// The counts of one full import.
#[derive(Debug, Clone, Copy, PartialEq, Eq)]
pub struct SyncStats {
    pub added: usize,
    pub skipped: usize,
    pub deleted: usize,
}

/// The counts of a batch delete, with one reason for each picture that failed.
#[derive(Debug, Clone, PartialEq, Eq)]
pub struct BatchDeleteResult {
    pub success_count: usize,
    pub failed_count: usize,
    pub failed_items: Vec<String>,
}

/// One file of a download request.
#[derive(Debug, Clone, PartialEq, Eq)]
pub struct DownloadFileInfo {
    pub url: String,
    pub filename: String,
}

} // verus!
