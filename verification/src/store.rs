//! The metadata store's side of the library: where requests go, how several
//! statements travel as one, and what an answer means.
//!
//! The store reports a logical failure as a list of (code, message) pairs;
//! [`error_summary`] folds them into one diagnostic. A failure of the
//! transport never reaches these functions: the caller reports it under a
//! label of its own with [`labelled`].

use crate::model::{D1Config, D1Error, D1Response, Row};
use crate::text::{concat2, concat3, decimal, decimal_i64, join_with, joined, views};
use vstd::prelude::*;
use vstd::string::*;

verus! {

/// The address of the query endpoint of a database.
pub open spec fn query_url_text(account_id: Seq<char>, database_id: Seq<char>) -> Seq<char> {
    "https://api.cloudflare.com/client/v4/accounts/"@ + account_id + "/d1/database/"@ + database_id
        + "/query"@
}

/// The value of the `Authorization` header for a token.
pub open spec fn bearer_text(token: Seq<char>) -> Seq<char> {
    "Bearer "@ + token
}

/// One reported failure as text: its code in brackets, then its message.
pub open spec fn error_line(error: D1Error) -> Seq<char> {
    "["@ + decimal(error.code as int) + "] "@ + error.message@
}

/// The reported failures as texts.
pub open spec fn error_lines(errors: Seq<D1Error>) -> Seq<Seq<char>> {
    Seq::new(errors.len(), |i: int| error_line(errors[i]))
}

/// All reported failures in one diagnostic.
pub open spec fn error_summary_text(errors: Seq<D1Error>) -> Seq<char> {
    joined(error_lines(errors), ", "@)
}

/// A failure under the label of the operation that met it.
pub open spec fn labelled_text(label: Seq<char>, cause: Seq<char>) -> Seq<char> {
    label + ": "@ + cause
}

/// The statements of a batch as the one text that is sent.
pub open spec fn batch_text(statements: Seq<Seq<char>>) -> Seq<char> {
    joined(statements, "; "@)
}

/// The rows of the first result set of an answer; none where it has no result
/// set.
pub open spec fn first_rows(response: D1Response) -> Seq<Row> {
    match response.result {
        Some(sets) => if sets.len() > 0 {
            sets[0].results@
        } else {
            Seq::empty()
        },
        None => Seq::empty(),
    }
}

/// The first of several result sets; none where there is no first one.
pub open spec fn leading_set<T>(sets: Option<Vec<Vec<T>>>) -> Seq<T> {
    match sets {
        Some(all) => if all.len() > 0 {
            all[0]@
        } else {
            Seq::empty()
        },
        None => Seq::empty(),
    }
}

/// Takes the first of several result sets, whatever their rows are.
pub fn first_set<T>(sets: Option<Vec<Vec<T>>>) -> (r: Vec<T>)
    ensures
        r@ == leading_set(sets),
{
    match sets {
        Some(mut all) => {
            if all.len() > 0 {
                all.remove(0)
            } else {
                Vec::new()
            }
        },
        None => Vec::new(),
    }
}

/// Builds the address of the query endpoint.
pub fn query_url(config: &D1Config) -> (r: String)
    ensures
        r@ == query_url_text(config.account_id@, config.database_id@),
{
    let mut out = String::from_str("https://api.cloudflare.com/client/v4/accounts/");
    out.append(config.account_id.as_str());
    out.append("/d1/database/");
    out.append(config.database_id.as_str());
    out.append("/query");
    out
}

/// Builds the value of the `Authorization` header.
pub fn bearer(config: &D1Config) -> (r: String)
    ensures
        r@ == bearer_text(config.api_token@),
{
    concat2("Bearer ", config.api_token.as_str())
}

/// Puts a failure under the label of the operation that met it.
pub fn labelled(label: &str, cause: &str) -> (r: String)
    ensures
        r@ == labelled_text(label@, cause@),
{
    concat3(label, ": ", cause)
}

/// Folds the reported failures into one diagnostic.
pub fn error_summary(errors: &Vec<D1Error>) -> (r: String)
    ensures
        r@ == error_summary_text(errors@),
{
    let mut lines: Vec<String> = Vec::new();
    let mut i: usize = 0;
    while i < errors.len()
        invariant
            i <= errors.len(),
            lines.len() == i,
            forall|j: int| 0 <= j < i ==> (#[trigger] lines[j])@ == error_line(errors[j]),
        decreases errors.len() - i,
    {
        let code = decimal_i64(errors[i].code as i64);
        let mut line = String::from_str("[");
        line.append(code.as_str());
        line.append("] ");
        line.append(errors[i].message.as_str());
        lines.push(line);
        i = i + 1;
    }
    assert(views(lines@) == error_lines(errors@));
    join_with(&lines, ", ")
}

/// What the answer to the connection test means.
pub fn connection_outcome(response: &D1Response) -> (r: Result<String, String>)
    ensures
        match r {
            Ok(message) => response.success && message@ == "连接成功"@,
            Err(message) => !response.success && message@ == labelled_text(
                "连接失败"@,
                error_summary_text(response.errors@),
            ),
        },
{
    if response.success {
        Ok(String::from_str("连接成功"))
    } else {
        let summary = error_summary(&response.errors);
        Err(labelled("连接失败", summary.as_str()))
    }
}

/// What the answer to a query means: the rows of its first result set, or the
/// store's diagnostic.
pub fn query_outcome(response: D1Response) -> (r: Result<Vec<Row>, String>)
    ensures
        match r {
            Ok(rows) => response.success && rows@ == first_rows(response),
            Err(message) => !response.success && message@ == labelled_text(
                "查询失败"@,
                error_summary_text(response.errors@),
            ),
        },
{
    if response.success {
        match response.result {
            Some(mut sets) => {
                if sets.len() > 0 {
                    let first = sets.remove(0);
                    Ok(first.results)
                } else {
                    Ok(Vec::new())
                }
            },
            None => Ok(Vec::new()),
        }
    } else {
        let summary = error_summary(&response.errors);
        Err(labelled("查询失败", summary.as_str()))
    }
}

/// The one text under which a batch is sent, the statements joined by the
/// statement separator; none for an empty batch, which needs no request.
pub fn batch_statement(statements: &Vec<String>) -> (r: Option<String>)
    ensures
        match r {
            Some(sql) => statements.len() > 0 && sql@ == batch_text(views(statements@)),
            None => statements.len() == 0,
        },
{
    if statements.len() == 0 {
        None
    } else {
        Some(join_with(statements, "; "))
    }
}

/// What the answer to a batch means: the store has executed all of it, or none
/// of it, with its diagnostic.
pub fn batch_outcome(response: &D1Response) -> (r: Result<(), String>)
    ensures
        match r {
            Ok(_) => response.success,
            Err(message) => !response.success && message@ == labelled_text(
                "批量执行失败"@,
                error_summary_text(response.errors@),
            ),
        },
{
    if response.success {
        Ok(())
    } else {
        let summary = error_summary(&response.errors);
        Err(labelled("批量执行失败", summary.as_str()))
    }
}

/// The configuration that was read or written last, kept so that it need not
/// be read again.
pub struct ConfigCache {
    config: Option<D1Config>,
}

impl View for ConfigCache {
    type V = Option<D1Config>;

    closed spec fn view(&self) -> Option<D1Config> {
        self.config
    }
}

impl ConfigCache {
    /// A cache that holds nothing.
    pub fn new() -> (r: ConfigCache)
        ensures
            r@ is None,
    {
        ConfigCache { config: None }
    }

    /// What the cache holds.
    pub fn get(&self) -> (r: Option<&D1Config>)
        ensures
            match r {
                Some(config) => self@ == Some(*config),
                None => self@ is None,
            },
    {
        match &self.config {
            Some(config) => Some(config),
            None => None,
        }
    }
}

/// Puts a configuration into the cache, in place of what it held.
pub fn update_d1_config_cache(cache: &mut ConfigCache, config: D1Config)
    ensures
        final(cache)@ == Some(config),
{
    cache.config = Some(config);
}

/// Empties the cache.
pub fn clear_d1_config_cache(cache: &mut ConfigCache)
    ensures
        final(cache)@ is None,
{
    cache.config = None;
}

} // verus!
