//! The reports that the caller shows to the user, and the requests that are
//! refused before anything is sent.

use crate::statements::{batch_update_remark_sql, batch_update_remark_text};
use crate::text::{concat2, concat3, decimal, decimal_i64, decimal_usize, join_with, joined, views};
use vstd::prelude::*;
use vstd::string::*;

verus! {

/// The report of a remark that was written.
pub const REMARK_UPDATED: &'static str = "备注更新成功";

/// The report of a table that was set up.
pub const TABLE_READY: &'static str = "smms_pictures 表和索引初始化成功";

/// The report of credentials that were stored.
pub const USER_SAVED: &'static str = "SM.MS 凭证已安全保存到数据库";

/// The report of a configuration that was written.
pub const CONFIG_SAVED: &'static str = "配置保存成功";

/// The report of a configuration that was removed.
pub const CONFIG_DELETED: &'static str = "配置已完全删除";

/// The report of a favorite flag that was set or cleared.
pub open spec fn favorite_report(id: int, is_favorite: bool) -> Seq<char> {
    "图片 "@ + decimal(id) + " 已"@ + (if is_favorite {
        Seq::empty()
    } else {
        "取消"@
    }) + "收藏"@
}

/// The report of remarks that were written to `count` pictures.
pub open spec fn remarks_report(count: nat) -> Seq<char> {
    "成功更新 "@ + decimal(count as int) + " 张图片的备注"@
}

/// The report of a file that was saved.
pub open spec fn saved_report(save_path: Seq<char>) -> Seq<char> {
    "文件已保存到: "@ + save_path
}

/// The line that reports one file of an archive that failed.
pub open spec fn failed_file_line(filename: Seq<char>, cause: Seq<char>) -> Seq<char> {
    filename + ": "@ + cause
}

/// The report of an archive: an error where no file went in; otherwise how
/// many went in, and, where some failed, how many failed and why.
pub open spec fn archive_report(packed: nat, failed: Seq<Seq<char>>, save_path: Seq<char>) -> Result<
    Seq<char>,
    Seq<char>,
> {
    if packed == 0 {
        Err("所有文件下载失败:\n"@ + joined(failed, "\n"@))
    } else if failed.len() > 0 {
        Ok(
            "成功打包 "@ + decimal(packed as int) + " 个文件，"@ + decimal(failed.len() as int)
                + " 个失败\n失败文件:\n"@ + joined(failed, "\n"@),
        )
    } else {
        Ok("成功打包 "@ + decimal(packed as int) + " 个文件到: "@ + save_path)
    }
}

/// What a command returns that reports a write: the report once the store
/// has executed the write, and the store's diagnostic, as it is, where the
/// store has refused it.
pub fn after_write(report: String, failure: Option<String>) -> (r: Result<String, String>)
    ensures
        match r {
            Ok(message) => failure is None && message@ == report@,
            Err(message) => failure matches Some(cause) && message@ == cause@,
        },
{
    match failure {
        Some(cause) => Err(cause),
        None => Ok(report),
    }
}

/// Reports a favorite flag that was set or cleared.
pub fn favorite_message(id: i64, is_favorite: bool) -> (r: String)
    ensures
        r@ == favorite_report(id as int, is_favorite),
{
    let number = decimal_i64(id);
    let mut out = String::from_str("图片 ");
    out.append(number.as_str());
    out.append(" 已");
    if !is_favorite {
        out.append("取消");
    } else {
        assert(out@ + Seq::<char>::empty() == out@);
    }
    out.append("收藏");
    out
}

/// Plans the writing of one remark to several pictures: the statement to
/// send and the report to give once it has succeeded. A request that names no
/// picture is refused.
pub fn plan_batch_remark(ids: &Vec<i64>, remark: &Option<String>) -> (r: Result<
    (String, String),
    String,
>)
    ensures
        match r {
            Ok(plan) => ids.len() > 0 && plan.0@ == batch_update_remark_text(ids@, *remark)
                && plan.1@ == remarks_report(ids.len() as nat),
            Err(message) => ids.len() == 0 && message@ == "未选择要更新的图片"@,
        },
{
    if ids.len() == 0 {
        return Err(String::from_str("未选择要更新的图片"));
    }
    let statement = batch_update_remark_sql(ids, remark);
    let count = decimal_usize(ids.len());
    let report = concat3("成功更新 ", count.as_str(), " 张图片的备注");
    Ok((statement, report))
}

/// Refuses a batch delete that names no picture.
pub fn require_pictures(ids: &Vec<i64>) -> (r: Result<(), String>)
    ensures
        match r {
            Ok(_) => ids.len() > 0,
            Err(message) => ids.len() == 0 && message@ == "未选择要删除的图片"@,
        },
{
    if ids.len() == 0 {
        Err(String::from_str("未选择要删除的图片"))
    } else {
        Ok(())
    }
}

/// Refuses an archive of no files.
pub fn require_files(count: usize) -> (r: Result<(), String>)
    ensures
        match r {
            Ok(_) => count > 0,
            Err(message) => count == 0 && message@ == "没有要下载的文件"@,
        },
{
    if count == 0 {
        Err(String::from_str("没有要下载的文件"))
    } else {
        Ok(())
    }
}

/// Reports a file that was saved.
pub fn saved_message(save_path: &str) -> (r: String)
    ensures
        r@ == saved_report(save_path@),
{
    concat2("文件已保存到: ", save_path)
}

/// Builds the line that reports one file of an archive that failed.
pub fn failed_file(filename: &str, cause: &str) -> (r: String)
    ensures
        r@ == failed_file_line(filename@, cause@),
{
    concat3(filename, ": ", cause)
}

/// Sums up an archive from the number of files that went in and the lines of
/// those that failed.
pub fn archive_summary(packed: usize, failed: &Vec<String>, save_path: &str) -> (r: Result<
    String,
    String,
>)
    ensures
        match r {
            Ok(report) => archive_report(packed as nat, views(failed@), save_path@) == Ok::<
                Seq<char>,
                Seq<char>,
            >(report@),
            Err(message) => archive_report(packed as nat, views(failed@), save_path@) == Err::<
                Seq<char>,
                Seq<char>,
            >(message@),
        },
{
    if packed == 0 {
        let lines = join_with(failed, "\n");
        Err(concat2("所有文件下载失败:\n", lines.as_str()))
    } else if failed.len() > 0 {
        let lines = join_with(failed, "\n");
        let went_in = decimal_usize(packed);
        let left_out = decimal_usize(failed.len());
        let mut out = String::from_str("成功打包 ");
        out.append(went_in.as_str());
        out.append(" 个文件，");
        out.append(left_out.as_str());
        out.append(" 个失败\n失败文件:\n");
        out.append(lines.as_str());
        Ok(out)
    } else {
        let went_in = decimal_usize(packed);
        let mut out = String::from_str("成功打包 ");
        out.append(went_in.as_str());
        out.append(" 个文件到: ");
        out.append(save_path);
        Ok(out)
    }
}

} // verus!
