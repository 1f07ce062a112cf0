use smms_mirror::model::{D1Config, D1Error, D1QueryResult, D1Response, Field, FieldValue, Row};
use smms_mirror::store::{
    batch_outcome, batch_statement, bearer, clear_d1_config_cache, connection_outcome,
    error_summary, first_set, labelled, query_outcome, query_url, update_d1_config_cache,
    ConfigCache,
};

fn config() -> D1Config {
    D1Config {
        account_id: "acc".to_string(),
        database_id: "db".to_string(),
        api_token: "tok".to_string(),
    }
}

fn failure(errors: Vec<D1Error>) -> D1Response {
    D1Response { success: false, errors, messages: Vec::new(), result: None }
}

fn a_row(n: i64) -> Row {
    Row { fields: vec![Field { name: "n".to_string(), value: FieldValue::Int(n) }] }
}

fn two_errors() -> Vec<D1Error> {
    vec![
        D1Error { code: 7500, message: "no such table".to_string() },
        D1Error { code: -1, message: "again".to_string() },
    ]
}

#[test]
fn the_endpoint_and_the_header() {
    assert_eq!(
        query_url(&config()),
        "https://api.cloudflare.com/client/v4/accounts/acc/d1/database/db/query"
    );
    assert_eq!(bearer(&config()), "Bearer tok");
    assert_eq!(labelled("请求失败", "timed out"), "请求失败: timed out");
}

#[test]
fn reported_failures_fold_into_one_diagnostic() {
    assert_eq!(error_summary(&two_errors()), "[7500] no such table, [-1] again");
    assert_eq!(error_summary(&vec![D1Error { code: 1, message: "x".to_string() }]), "[1] x");
    assert_eq!(error_summary(&Vec::new()), "");
}

#[test]
fn the_connection_test() {
    let ok = D1Response { success: true, errors: Vec::new(), messages: Vec::new(), result: None };
    assert_eq!(connection_outcome(&ok), Ok("连接成功".to_string()));
    assert_eq!(
        connection_outcome(&failure(two_errors())),
        Err("连接失败: [7500] no such table, [-1] again".to_string())
    );
}

#[test]
fn a_query_returns_the_rows_of_the_first_result_set() {
    let response = D1Response {
        success: true,
        errors: Vec::new(),
        messages: Vec::new(),
        result: Some(vec![
            D1QueryResult { results: vec![a_row(1), a_row(2)], success: true, meta: None },
            D1QueryResult { results: vec![a_row(3)], success: true, meta: None },
        ]),
    };
    assert_eq!(query_outcome(response), Ok(vec![a_row(1), a_row(2)]));
}

#[test]
fn a_query_without_a_result_set_returns_no_rows() {
    let none = D1Response { success: true, errors: Vec::new(), messages: Vec::new(), result: None };
    assert_eq!(query_outcome(none), Ok(Vec::new()));
    let empty = D1Response {
        success: true,
        errors: Vec::new(),
        messages: Vec::new(),
        result: Some(Vec::new()),
    };
    assert_eq!(query_outcome(empty), Ok(Vec::new()));
}

#[test]
fn a_failed_query_carries_the_diagnostic() {
    let mut response = failure(two_errors());
    response.result = Some(vec![D1QueryResult { results: vec![a_row(1)], success: false, meta: None }]);
    assert_eq!(
        query_outcome(response),
        Err("查询失败: [7500] no such table, [-1] again".to_string())
    );
}

#[test]
fn a_batch_travels_as_one_text() {
    assert_eq!(
        batch_statement(&vec!["A".to_string(), "B".to_string(), "C".to_string()]),
        Some("A; B; C".to_string())
    );
    assert_eq!(batch_statement(&vec!["A".to_string()]), Some("A".to_string()));
}

#[test]
fn an_empty_batch_needs_no_request() {
    assert_eq!(batch_statement(&Vec::new()), None);
}

#[test]
fn a_batch_succeeds_or_fails_as_a_whole() {
    let ok = D1Response { success: true, errors: two_errors(), messages: Vec::new(), result: None };
    assert_eq!(batch_outcome(&ok), Ok(()));
    assert_eq!(
        batch_outcome(&failure(two_errors())),
        Err("批量执行失败: [7500] no such table, [-1] again".to_string())
    );
    assert_eq!(batch_outcome(&failure(Vec::new())), Err("批量执行失败: ".to_string()));
}

#[test]
fn the_cache_holds_what_was_put_in_last() {
    let mut cache = ConfigCache::new();
    assert_eq!(cache.get(), None);
    update_d1_config_cache(&mut cache, config());
    assert_eq!(cache.get(), Some(&config()));
    let other = D1Config { api_token: "new".to_string(), ..config() };
    update_d1_config_cache(&mut cache, other.clone());
    assert_eq!(cache.get(), Some(&other));
    clear_d1_config_cache(&mut cache);
    assert_eq!(cache.get(), None);
    clear_d1_config_cache(&mut cache);
    assert_eq!(cache.get(), None);
}

#[test]
fn the_first_result_set_of_any_rows() {
    assert_eq!(first_set(Some(vec![vec![1, 2], vec![3]])), vec![1, 2]);
    assert_eq!(first_set(Some(vec![Vec::<i32>::new(), vec![3]])), Vec::<i32>::new());
    assert_eq!(first_set(Some(Vec::<Vec<i32>>::new())), Vec::<i32>::new());
    assert_eq!(first_set(None::<Vec<Vec<i32>>>), Vec::<i32>::new());
}
