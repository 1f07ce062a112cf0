//! The image host's side of the library: what its answers mean, and what the
//! library does about them.
//!
//! None of these functions sends a request. Each takes an answer that the
//! caller has received and says what follows from it: a value, a statement
//! for the metadata store, or the failure to report.

use crate::model::{
    item_views, BatchDeleteResult, HistoryItem, Row, SmmsDeleteResponse, SmmsTokenResponse,
    SmmsUploadHistoryResponse, SmmsUploadItem, SmmsUploadResponse, SmmsUser,
    UploadResult,
};
use crate::statements::{
    soft_delete_by_id_sql, soft_delete_by_id_text, sync_upsert_sql, sync_upsert_text,
    upload_upsert_sql, upload_upsert_text,
};
use crate::store::{labelled, labelled_text};
use crate::text::{
    after_last, concat2, concat3, contains_text, decimal, decimal_i64, decimal_usize, lowercase,
    occurs_in, split_last, to_lower, views,
};
use vstd::prelude::*;
use vstd::string::*;

verus! {

/// The failure of a request that needs a token where there is none.
pub const TOKEN_REQUIRED: &'static str = "请先登录 SM.MS 获取 token";

/// The address that deletes the file with the given hash.
pub open spec fn delete_url_text(hash: Seq<char>) -> Seq<char> {
    "https://sm.ms/api/v2/delete/"@ + hash
}

/// The host says that the file was gone before the request: its message holds
/// `already deleted`, in any mix of upper and lower case.
pub open spec fn says_already_deleted(message: Seq<char>) -> bool {
    occurs_in("already deleted"@, lowercase(message))
}

/// What an answer to a delete request means for the local record.
#[derive(Debug, Clone, Copy, PartialEq, Eq, Structural)]
pub enum DeleteVerdict {
    /// The host has deleted the file.
    Deleted,
    /// The file was gone already; the record is retired all the same.
    AlreadyGone,
    /// The host refused; the record stays.
    Refused,
}

/// The verdict that an answer to a delete request stands for.
pub open spec fn verdict_of(response: SmmsDeleteResponse) -> DeleteVerdict {
    if response.success {
        DeleteVerdict::Deleted
    } else if says_already_deleted(response.message@) {
        DeleteVerdict::AlreadyGone
    } else {
        DeleteVerdict::Refused
    }
}

/// What a delete request needs of a picture.
#[derive(Debug, Clone, PartialEq, Eq)]
pub struct DeleteTarget {
    pub delete_url: String,
    pub filename: String,
    /// What follows the last slash of the delete address.
    pub hash: String,
}

/// What to do about a picture once the host has answered a delete request.
#[derive(Debug, Clone, PartialEq, Eq)]
pub enum DeleteDecision {
    /// Send `statement` to the store; once it has succeeded, report `report`.
    Retire { statement: String, report: String },
    /// Leave the record alone and report the failure.
    Refuse(String),
}

/// What to do about a file once the host has answered its upload.
#[derive(Debug, Clone, PartialEq, Eq)]
pub enum UploadDecision {
    /// Send `statement` to the store, and report the upload with `url`.
    Record { statement: String, url: String },
    /// Report this result; nothing is stored.
    Report(UploadResult),
}

/// The page to ask for: the first one where none is named.
pub fn page_number(page: Option<i32>) -> (r: i32)
    ensures
        r == (match page {
            Some(p) => p,
            None => 1,
        }),
{
    match page {
        Some(p) => p,
        None => 1,
    }
}

/// Refuses a request that needs a token where the user has none.
pub fn require_token(user: &SmmsUser) -> (r: Result<(), String>)
    ensures
        match r {
            Ok(_) => user.token@.len() > 0,
            Err(message) => user.token@.len() == 0 && message@ == TOKEN_REQUIRED@,
        },
{
    if user.token.as_str().is_empty() {
        Err(String::from_str(TOKEN_REQUIRED))
    } else {
        Ok(())
    }
}

/// What the answer to a token request means: the token, or why there is none.
pub fn token_outcome(response: SmmsTokenResponse) -> (r: Result<String, String>)
    ensures
        match r {
            Ok(token) => response.success && response.data is Some && token@
                == response.data->0.token@,
            Err(message) => if response.success {
                response.data is None && message@ == "响应中没有 token 数据"@
            } else {
                message@ == labelled_text("获取 token 失败"@, response.message@)
            },
        },
{
    if response.success {
        match response.data {
            Some(data) => Ok(data.token),
            None => Err(String::from_str("响应中没有 token 数据")),
        }
    } else {
        Err(labelled("获取 token 失败", response.message.as_str()))
    }
}

/// What the answer to a request for a page of the history means: its entries,
/// none where the answer carries no list, or the host's message.
pub fn history_outcome(response: SmmsUploadHistoryResponse) -> (r: Result<
    Vec<SmmsUploadItem>,
    String,
>)
    ensures
        match r {
            Ok(items) => response.success && items@ == (match response.data {
                Some(list) => list@,
                None => Seq::empty(),
            }),
            Err(message) => !response.success && message@ == labelled_text(
                "获取上传历史失败"@,
                response.message@,
            ),
        },
{
    if response.success {
        match response.data {
            Some(list) => Ok(list),
            None => Ok(Vec::new()),
        }
    } else {
        Err(labelled("获取上传历史失败", response.message.as_str()))
    }
}

/// The statements of the one-page sync: one upsert for each entry.
pub open spec fn sync_texts(items: Seq<HistoryItem>) -> Seq<Seq<char>> {
    Seq::new(items.len(), |i: int| sync_upsert_text(items[i]))
}

/// The report of a one-page sync that has stored `count` entries.
pub open spec fn sync_report(count: nat) -> Seq<char> {
    if count == 0 {
        "没有新的图片需要同步"@
    } else {
        "成功同步 "@ + decimal(count as int) + " 张图片到本地数据库"@
    }
}

/// Plans the one-page sync: the statements to send as one batch, one upsert
/// for each entry of the page, and the report for the caller. An empty page
/// needs no statement.
pub fn plan_sync(items: &Vec<SmmsUploadItem>) -> (r: (Vec<String>, String))
    ensures
        views(r.0@) == sync_texts(item_views(items@)),
        r.1@ == sync_report(items.len() as nat),
{
    let mut statements: Vec<String> = Vec::new();
    let mut i: usize = 0;
    while i < items.len()
        invariant
            i <= items.len(),
            statements.len() == i,
            forall|j: int| 0 <= j < i ==> (#[trigger] statements[j])@ == sync_upsert_text(items[j]@),
        decreases items.len() - i,
    {
        statements.push(sync_upsert_sql(&items[i]));
        i = i + 1;
    }
    assert(views(statements@) == sync_texts(item_views(items@)));
    let report = if items.len() == 0 {
        String::from_str("没有新的图片需要同步")
    } else {
        let count = decimal_usize(items.len());
        concat3("成功同步 ", count.as_str(), " 张图片到本地数据库")
    };
    (statements, report)
}

/// Builds the address that deletes the file with the given hash.
pub fn delete_api_url(hash: &str) -> (r: String)
    ensures
        r@ == delete_url_text(hash@),
{
    concat2("https://sm.ms/api/v2/delete/", hash)
}

/// Reads what a delete request needs from the rows that the query for the
/// picture returned.
pub fn delete_target(rows: &Vec<Row>) -> (r: Result<DeleteTarget, String>)
    ensures
        match r {
            Ok(target) => rows.len() > 0 && rows[0].text_of("delete_url"@) == Some(
                target.delete_url@,
            ) && rows[0].text_of("filename"@) == Some(target.filename@) && target.hash@
                == after_last(target.delete_url@, '/'),
            Err(message) => if rows.len() == 0 {
                message@ == "图片不存在"@
            } else if rows[0].text_of("delete_url"@) is None {
                message@ == "delete_url 字段无效"@
            } else {
                rows[0].text_of("filename"@) is None && message@ == "filename 字段无效"@
            },
        },
{
    if rows.len() == 0 {
        return Err(String::from_str("图片不存在"));
    }
    let delete_url = match rows[0].get_text("delete_url") {
        Some(v) => v,
        None => return Err(String::from_str("delete_url 字段无效")),
    };
    let filename = match rows[0].get_text("filename") {
        Some(v) => v,
        None => return Err(String::from_str("filename 字段无效")),
    };
    let (hash, _) = split_last(delete_url.as_str(), '/');
    Ok(DeleteTarget { delete_url, filename, hash })
}

/// Reads the verdict of an answer to a delete request.
pub fn delete_verdict(response: &SmmsDeleteResponse) -> (r: DeleteVerdict)
    ensures
        r == verdict_of(*response),
{
    if response.success {
        DeleteVerdict::Deleted
    } else {
        let lowered = to_lower(response.message.as_str());
        if contains_text(lowered.as_str(), "already deleted") {
            DeleteVerdict::AlreadyGone
        } else {
            DeleteVerdict::Refused
        }
    }
}

/// The report of a single delete with the given verdict.
pub open spec fn delete_report(filename: Seq<char>, response: SmmsDeleteResponse) -> Seq<char> {
    match verdict_of(response) {
        DeleteVerdict::Deleted => "图片 "@ + filename + " 删除成功"@,
        DeleteVerdict::AlreadyGone => "图片 "@ + filename + " 已标记为删除（服务器上已不存在）"@,
        DeleteVerdict::Refused => labelled_text("删除失败"@, response.message@),
    }
}

/// Decides what to do about one picture once the host has answered its delete
/// request: retire the record where the file is gone, whether the host has
/// deleted it now or before; refuse with the host's message otherwise.
pub fn decide_delete(id: i64, filename: &str, response: &SmmsDeleteResponse) -> (r: DeleteDecision)
    ensures
        match r {
            DeleteDecision::Retire { statement, report } => verdict_of(*response)
                != DeleteVerdict::Refused && statement@ == soft_delete_by_id_text(id as int)
                && report@ == delete_report(filename@, *response),
            DeleteDecision::Refuse(message) => verdict_of(*response) == DeleteVerdict::Refused
                && message@ == delete_report(filename@, *response),
        },
{
    match delete_verdict(response) {
        DeleteVerdict::Deleted => DeleteDecision::Retire {
            statement: soft_delete_by_id_sql(id),
            report: concat3("图片 ", filename, " 删除成功"),
        },
        DeleteVerdict::AlreadyGone => DeleteDecision::Retire {
            statement: soft_delete_by_id_sql(id),
            report: concat3("图片 ", filename, " 已标记为删除（服务器上已不存在）"),
        },
        DeleteVerdict::Refused => DeleteDecision::Refuse(
            labelled("删除失败", response.message.as_str()),
        ),
    }
}

/// The reason under which a picture of a batch delete fails before its file
/// name is known: the picture's id, then the cause.
pub open spec fn reason_by_id(id: int, cause: Seq<char>) -> Seq<char> {
    "ID "@ + decimal(id) + ": "@ + cause
}

/// Builds the reason for a picture that fails before its name is known.
pub fn failure_by_id(id: i64, cause: &str) -> (r: String)
    ensures
        r@ == reason_by_id(id as int, cause@),
{
    let number = decimal_i64(id);
    let mut out = String::from_str("ID ");
    out.append(number.as_str());
    out.append(": ");
    out.append(cause);
    out
}

/// The file name under which a picture of a batch delete is reported.
pub open spec fn reported_name(row: Row) -> Seq<char> {
    match row.text_of("filename"@) {
        Some(name) => name,
        None => "未知文件"@,
    }
}

/// Reads what a delete request needs of one picture of a batch. A picture
/// without a file name goes by a placeholder; any other lack is the reason
/// for which the picture fails.
pub fn batch_target(id: i64, rows: &Vec<Row>) -> (r: Result<DeleteTarget, String>)
    ensures
        match r {
            Ok(target) => rows.len() > 0 && rows[0].text_of("delete_url"@) == Some(
                target.delete_url@,
            ) && target.filename@ == reported_name(rows[0]) && target.hash@ == after_last(
                target.delete_url@,
                '/',
            ),
            Err(reason) => if rows.len() == 0 {
                reason@ == reason_by_id(id as int, "图片不存在"@)
            } else {
                rows[0].text_of("delete_url"@) is None && reason@ == reason_by_id(
                    id as int,
                    "delete_url 字段无效"@,
                )
            },
        },
{
    if rows.len() == 0 {
        return Err(failure_by_id(id, "图片不存在"));
    }
    let delete_url = match rows[0].get_text("delete_url") {
        Some(v) => v,
        None => return Err(failure_by_id(id, "delete_url 字段无效")),
    };
    let filename = match rows[0].get_text("filename") {
        Some(v) => v,
        None => String::from_str("未知文件"),
    };
    let (hash, _) = split_last(delete_url.as_str(), '/');
    Ok(DeleteTarget { delete_url, filename, hash })
}

/// The reason under which a picture of a batch delete fails once its file
/// name is known: the name, the step that failed, and the cause.
pub open spec fn reason_by_name(filename: Seq<char>, step: Seq<char>, cause: Seq<char>) -> Seq<
    char,
> {
    filename + ": "@ + step + " - "@ + cause
}

/// Builds the reason for a picture that fails at a named step.
pub fn failure_by_name(filename: &str, step: &str, cause: &str) -> (r: String)
    ensures
        r@ == reason_by_name(filename@, step@, cause@),
{
    let mut out = String::from_str(filename);
    out.append(": ");
    out.append(step);
    out.append(" - ");
    out.append(cause);
    out
}

/// Decides what to do about one picture of a batch once the host has answered:
/// the statement that retires the record, or the reason for which the picture
/// fails, which is its name and the host's message.
pub fn decide_batch_delete(id: i64, filename: &str, response: &SmmsDeleteResponse) -> (r: Result<
    String,
    String,
>)
    ensures
        match r {
            Ok(statement) => verdict_of(*response) != DeleteVerdict::Refused && statement@
                == soft_delete_by_id_text(id as int),
            Err(reason) => verdict_of(*response) == DeleteVerdict::Refused && reason@
                == labelled_text(filename@, response.message@),
        },
{
    match delete_verdict(response) {
        DeleteVerdict::Refused => Err(labelled(filename, response.message.as_str())),
        _ => Ok(soft_delete_by_id_sql(id)),
    }
}

/// The number of pictures of a batch that did not fail.
pub open spec fn success_total(outcomes: Seq<Option<String>>) -> nat
    decreases outcomes.len(),
{
    if outcomes.len() == 0 {
        0
    } else if outcomes.last() is None {
        success_total(outcomes.drop_last()) + 1
    } else {
        success_total(outcomes.drop_last())
    }
}

/// The reasons of the pictures of a batch that failed, in their order.
pub open spec fn failure_reasons(outcomes: Seq<Option<String>>) -> Seq<Seq<char>>
    decreases outcomes.len(),
{
    if outcomes.len() == 0 {
        Seq::empty()
    } else {
        match outcomes.last() {
            Some(reason) => failure_reasons(outcomes.drop_last()).push(reason@),
            None => failure_reasons(outcomes.drop_last()),
        }
    }
}

/// Sums up a batch delete from the outcome of each picture: none for a
/// picture that was retired, the reason for one that failed. One failure does
/// not end the batch; every picture is counted on one side or the other.
pub fn summarize_deletes(outcomes: Vec<Option<String>>) -> (r: BatchDeleteResult)
    ensures
        r.success_count == success_total(outcomes@),
        views(r.failed_items@) == failure_reasons(outcomes@),
        r.failed_count == r.failed_items.len(),
        r.success_count + r.failed_count == outcomes.len(),
{
    let mut success_count: usize = 0;
    let mut failed_items: Vec<String> = Vec::new();
    let mut i: usize = 0;
    assert(views(failed_items@) == Seq::<Seq<char>>::empty());
    while i < outcomes.len()
        invariant
            i <= outcomes.len(),
            success_count == success_total(outcomes@.take(i as int)),
            views(failed_items@) == failure_reasons(outcomes@.take(i as int)),
            success_count + failed_items.len() == i,
        decreases outcomes.len() - i,
    {
        assert(outcomes@.take(i + 1).drop_last() == outcomes@.take(i as int));
        let ghost before = views(failed_items@);
        match &outcomes[i] {
            Some(reason) => {
                failed_items.push(reason.clone());
                assert(views(failed_items@) == before.push(reason@));
            },
            None => {
                success_count = success_count + 1;
            },
        }
        i = i + 1;
    }
    assert(outcomes@.take(outcomes.len() as int) == outcomes@);
    let failed_count = failed_items.len();
    BatchDeleteResult { success_count, failed_count, failed_items }
}

/// The result for a file whose upload failed before the host answered: while
/// reading it, sending it, or reading the answer.
pub fn upload_failed(filename: &str, step: &str, cause: &str, remark: &Option<String>) -> (r:
    UploadResult)
    ensures
        r.filename@ == filename@,
        !r.success,
        r.message@ == labelled_text(step@, cause@),
        r.url is None,
        r.remark == *remark,
{
    UploadResult {
        filename: String::from_str(filename),
        success: false,
        message: labelled(step, cause),
        url: None,
        remark: remark.clone(),
    }
}

/// Decides what to do about one file once the host has answered its upload:
/// record it in the store where the host has stored it, otherwise report
/// why it was not stored.
pub fn decide_upload(filename: &str, response: &SmmsUploadResponse, remark: &Option<String>) -> (r:
    UploadDecision)
    ensures
        match r {
            UploadDecision::Record { statement, url } => response.success && response.data is Some
                && statement@ == upload_upsert_text(response.data->0, *remark) && url@
                == response.data->0.url@,
            UploadDecision::Report(result) => !(response.success && response.data is Some)
                && result.filename@ == filename@ && !result.success && result.url is None
                && result.remark == *remark && result.message@ == (if response.success {
                "上传响应中没有数据"@
            } else {
                labelled_text("上传失败"@, response.message@)
            }),
        },
{
    if response.success {
        match &response.data {
            Some(data) => UploadDecision::Record {
                statement: upload_upsert_sql(data, remark),
                url: data.url.clone(),
            },
            None => UploadDecision::Report(
                UploadResult {
                    filename: String::from_str(filename),
                    success: false,
                    message: String::from_str("上传响应中没有数据"),
                    url: None,
                    remark: remark.clone(),
                },
            ),
        }
    } else {
        UploadDecision::Report(
            UploadResult {
                filename: String::from_str(filename),
                success: false,
                message: labelled("上传失败", response.message.as_str()),
                url: None,
                remark: remark.clone(),
            },
        )
    }
}

/// The result for a file that the host has stored, given what the store said
/// to its record: nothing, or its diagnostic. Either way the result carries
/// the file's address.
pub fn upload_recorded(
    filename: &str,
    url: String,
    remark: &Option<String>,
    store_failure: Option<String>,
) -> (r: UploadResult)
    ensures
        r.filename@ == filename@,
        r.success == (store_failure is None),
        r.url == Some(url),
        r.remark == *remark,
        r.message@ == (match store_failure {
            Some(cause) => labelled_text("上传成功但数据库插入失败"@, cause@),
            None => "上传成功"@,
        }),
{
    match store_failure {
        Some(cause) => UploadResult {
            filename: String::from_str(filename),
            success: false,
            message: labelled("上传成功但数据库插入失败", cause.as_str()),
            url: Some(url),
            remark: remark.clone(),
        },
        None => UploadResult {
            filename: String::from_str(filename),
            success: true,
            message: String::from_str("上传成功"),
            url: Some(url),
            remark: remark.clone(),
        },
    }
}

} // verus!
