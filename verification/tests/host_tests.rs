use smms_mirror::host::{
    batch_target, decide_batch_delete, decide_delete, decide_upload, delete_api_url,
    delete_target, delete_verdict, failure_by_id, failure_by_name, history_outcome, page_number,
    plan_sync, require_token, summarize_deletes, token_outcome, upload_failed, upload_recorded,
    DeleteDecision, DeleteTarget, DeleteVerdict, UploadDecision,
};
use smms_mirror::model::{
    BatchDeleteResult, Field, FieldValue, Row, SmmsDeleteResponse, SmmsTokenData,
    SmmsTokenResponse, SmmsUploadData, SmmsUploadHistoryResponse, SmmsUploadItem,
    SmmsUploadResponse, SmmsUser, UploadResult,
};
use smms_mirror::statements::{soft_delete_by_id_sql, sync_upsert_sql, upload_upsert_sql};

fn entry(hash: &str) -> SmmsUploadItem {
    SmmsUploadItem {
        file_id: 1,
        width: 1,
        height: 2,
        filename: "f.gif".to_string(),
        store_name: "s".to_string(),
        size: 3,
        path: "/p".to_string(),
        hash: hash.to_string(),
        created_at: "c".to_string(),
        url: "u".to_string(),
        delete_url: "d".to_string(),
        page_url: "g".to_string(),
    }
}

fn answer(success: bool, message: &str) -> SmmsDeleteResponse {
    SmmsDeleteResponse {
        success,
        _code: String::new(),
        message: message.to_string(),
        _request_id: None,
    }
}

fn target_row(delete_url: Option<&str>, filename: Option<&str>) -> Row {
    let mut fields = Vec::new();
    if let Some(url) = delete_url {
        fields.push(Field {
            name: "delete_url".to_string(),
            value: FieldValue::Text(url.to_string()),
        });
    }
    if let Some(name) = filename {
        fields.push(Field {
            name: "filename".to_string(),
            value: FieldValue::Text(name.to_string()),
        });
    }
    Row { fields }
}

fn stored() -> SmmsUploadData {
    SmmsUploadData {
        file_id: 0,
        width: 4,
        height: 5,
        filename: "new.png".to_string(),
        store_name: "n".to_string(),
        size: 6,
        path: "/n".to_string(),
        hash: "nh".to_string(),
        url: "https://i/new.png".to_string(),
        delete_url: "https://sm.ms/delete/nh".to_string(),
        page_url: "pg".to_string(),
    }
}

fn upload_answer(success: bool, message: &str, data: Option<SmmsUploadData>) -> SmmsUploadResponse {
    SmmsUploadResponse {
        success,
        code: String::new(),
        message: message.to_string(),
        data,
        request_id: None,
    }
}

#[test]
fn the_first_page_is_the_default() {
    assert_eq!(page_number(None), 1);
    assert_eq!(page_number(Some(7)), 7);
    assert_eq!(page_number(Some(0)), 0);
}

#[test]
fn a_request_without_a_token_is_refused() {
    let mut user = SmmsUser {
        username: "u".to_string(),
        password: "p".to_string(),
        token: String::new(),
    };
    assert_eq!(require_token(&user), Err("请先登录 SM.MS 获取 token".to_string()));
    user.token = "t".to_string();
    assert_eq!(require_token(&user), Ok(()));
}

#[test]
fn the_token_answer() {
    let good = SmmsTokenResponse {
        success: true,
        message: "ok".to_string(),
        data: Some(SmmsTokenData { token: "T0K".to_string() }),
    };
    assert_eq!(token_outcome(good), Ok("T0K".to_string()));
    let hollow = SmmsTokenResponse { success: true, message: "ok".to_string(), data: None };
    assert_eq!(token_outcome(hollow), Err("响应中没有 token 数据".to_string()));
    let bad = SmmsTokenResponse {
        success: false,
        message: "wrong password".to_string(),
        data: Some(SmmsTokenData { token: "ignored".to_string() }),
    };
    assert_eq!(token_outcome(bad), Err("获取 token 失败: wrong password".to_string()));
}

#[test]
fn the_history_answer() {
    let page = SmmsUploadHistoryResponse {
        success: true,
        _code: String::new(),
        message: String::new(),
        data: Some(vec![entry("a"), entry("b")]),
        _request_id: None,
    };
    assert_eq!(history_outcome(page), Ok(vec![entry("a"), entry("b")]));
    let hollow = SmmsUploadHistoryResponse {
        success: true,
        _code: String::new(),
        message: String::new(),
        data: None,
        _request_id: None,
    };
    assert_eq!(history_outcome(hollow), Ok(Vec::new()));
    let bad = SmmsUploadHistoryResponse {
        success: false,
        _code: "unauthorized".to_string(),
        message: "Unauthorized.".to_string(),
        data: Some(vec![entry("a")]),
        _request_id: None,
    };
    assert_eq!(history_outcome(bad), Err("获取上传历史失败: Unauthorized.".to_string()));
}

#[test]
fn the_one_page_sync_upserts_every_entry() {
    let items = vec![entry("a"), entry("b"), entry("a")];
    let (statements, report) = plan_sync(&items);
    assert_eq!(
        statements,
        vec![sync_upsert_sql(&items[0]), sync_upsert_sql(&items[1]), sync_upsert_sql(&items[2])]
    );
    assert_eq!(report, "成功同步 3 张图片到本地数据库");
    assert!(!statements[0].contains("is_deleted"));
    assert!(statements[0].contains("file_type = excluded.file_type"));
}

#[test]
fn the_one_page_sync_of_an_empty_page() {
    let (statements, report) = plan_sync(&Vec::new());
    assert!(statements.is_empty());
    assert_eq!(report, "没有新的图片需要同步");
}

#[test]
fn the_delete_address_ends_in_the_hash() {
    assert_eq!(delete_api_url("abc123"), "https://sm.ms/api/v2/delete/abc123");
    assert_eq!(delete_api_url(""), "https://sm.ms/api/v2/delete/");
}

#[test]
fn the_delete_target_of_a_picture() {
    assert_eq!(
        delete_target(&vec![target_row(Some("https://sm.ms/delete/HASH9"), Some("a.png"))]),
        Ok(DeleteTarget {
            delete_url: "https://sm.ms/delete/HASH9".to_string(),
            filename: "a.png".to_string(),
            hash: "HASH9".to_string(),
        })
    );
    assert_eq!(
        delete_target(&vec![target_row(Some("no-slash"), Some("a.png"))]).unwrap().hash,
        "no-slash"
    );
    assert_eq!(
        delete_target(&vec![target_row(Some("ends/"), Some("a.png"))]).unwrap().hash,
        ""
    );
}

#[test]
fn the_delete_target_fails_on_a_missing_picture_or_field() {
    assert_eq!(delete_target(&Vec::new()), Err("图片不存在".to_string()));
    assert_eq!(
        delete_target(&vec![target_row(None, Some("a.png"))]),
        Err("delete_url 字段无效".to_string())
    );
    assert_eq!(
        delete_target(&vec![target_row(Some("x/y"), None)]),
        Err("filename 字段无效".to_string())
    );
    assert_eq!(delete_target(&vec![target_row(None, None)]), Err("delete_url 字段无效".to_string()));
}

#[test]
fn already_deleted_counts_as_gone() {
    assert_eq!(delete_verdict(&answer(true, "File delete success.")), DeleteVerdict::Deleted);
    assert_eq!(delete_verdict(&answer(true, "already deleted")), DeleteVerdict::Deleted);
    assert_eq!(delete_verdict(&answer(false, "File already deleted.")), DeleteVerdict::AlreadyGone);
    assert_eq!(delete_verdict(&answer(false, "FILE ALREADY DELETED")), DeleteVerdict::AlreadyGone);
    assert_eq!(delete_verdict(&answer(false, "AlReAdY DeLeTeD")), DeleteVerdict::AlreadyGone);
    assert_eq!(delete_verdict(&answer(false, "already  deleted")), DeleteVerdict::Refused);
    assert_eq!(delete_verdict(&answer(false, "Unauthorized.")), DeleteVerdict::Refused);
    assert_eq!(delete_verdict(&answer(false, "")), DeleteVerdict::Refused);
}

#[test]
fn a_single_delete_is_decided_by_the_verdict() {
    assert_eq!(
        decide_delete(5, "a.png", &answer(true, "ok")),
        DeleteDecision::Retire {
            statement: soft_delete_by_id_sql(5),
            report: "图片 a.png 删除成功".to_string(),
        }
    );
    assert_eq!(
        decide_delete(5, "a.png", &answer(false, "File already deleted.")),
        DeleteDecision::Retire {
            statement: soft_delete_by_id_sql(5),
            report: "图片 a.png 已标记为删除（服务器上已不存在）".to_string(),
        }
    );
    assert_eq!(
        decide_delete(5, "a.png", &answer(false, "Unauthorized.")),
        DeleteDecision::Refuse("删除失败: Unauthorized.".to_string())
    );
}

#[test]
fn the_target_of_one_picture_of_a_batch() {
    assert_eq!(batch_target(8, &Vec::new()), Err("ID 8: 图片不存在".to_string()));
    assert_eq!(
        batch_target(8, &vec![target_row(None, Some("a.png"))]),
        Err("ID 8: delete_url 字段无效".to_string())
    );
    assert_eq!(
        batch_target(8, &vec![target_row(Some("https://sm.ms/delete/H"), None)]),
        Ok(DeleteTarget {
            delete_url: "https://sm.ms/delete/H".to_string(),
            filename: "未知文件".to_string(),
            hash: "H".to_string(),
        })
    );
    assert_eq!(
        batch_target(8, &vec![target_row(Some("d/H2"), Some("b.png"))]).unwrap().filename,
        "b.png"
    );
}

#[test]
fn the_reasons_of_a_batch() {
    assert_eq!(failure_by_id(-2, "查询失败: boom"), "ID -2: 查询失败: boom");
    assert_eq!(
        failure_by_name("a.png", "删除请求失败", "timed out"),
        "a.png: 删除请求失败 - timed out"
    );
    assert_eq!(
        decide_batch_delete(3, "a.png", &answer(false, "Unauthorized.")),
        Err("a.png: Unauthorized.".to_string())
    );
    assert_eq!(decide_batch_delete(3, "a.png", &answer(true, "")), Ok(soft_delete_by_id_sql(3)));
    assert_eq!(
        decide_batch_delete(3, "a.png", &answer(false, "file Already Deleted")),
        Ok(soft_delete_by_id_sql(3))
    );
}

#[test]
fn a_batch_delete_counts_every_picture_once() {
    let result = summarize_deletes(vec![
        None,
        Some("ID 2: 图片不存在".to_string()),
        None,
        Some("c.png: Unauthorized.".to_string()),
        None,
    ]);
    assert_eq!(
        result,
        BatchDeleteResult {
            success_count: 3,
            failed_count: 2,
            failed_items: vec!["ID 2: 图片不存在".to_string(), "c.png: Unauthorized.".to_string()],
        }
    );
    assert_eq!(
        summarize_deletes(Vec::new()),
        BatchDeleteResult { success_count: 0, failed_count: 0, failed_items: Vec::new() }
    );
}

#[test]
fn an_upload_that_fails_before_the_answer() {
    assert_eq!(
        upload_failed("a.png", "读取文件失败", "No such file", &Some("r".to_string())),
        UploadResult {
            filename: "a.png".to_string(),
            success: false,
            message: "读取文件失败: No such file".to_string(),
            url: None,
            remark: Some("r".to_string()),
        }
    );
}

#[test]
fn an_upload_is_decided_by_the_answer() {
    let remark = Some("trip".to_string());
    assert_eq!(
        decide_upload("local.png", &upload_answer(true, "", Some(stored())), &remark),
        UploadDecision::Record {
            statement: upload_upsert_sql(&stored(), &remark),
            url: "https://i/new.png".to_string(),
        }
    );
    assert_eq!(
        decide_upload("local.png", &upload_answer(true, "", None), &remark),
        UploadDecision::Report(UploadResult {
            filename: "local.png".to_string(),
            success: false,
            message: "上传响应中没有数据".to_string(),
            url: None,
            remark: remark.clone(),
        })
    );
    assert_eq!(
        decide_upload("local.png", &upload_answer(false, "Image upload repeated limit.", Some(stored())), &None),
        UploadDecision::Report(UploadResult {
            filename: "local.png".to_string(),
            success: false,
            message: "上传失败: Image upload repeated limit.".to_string(),
            url: None,
            remark: None,
        })
    );
}

#[test]
fn a_stored_upload_reports_its_address_either_way() {
    assert_eq!(
        upload_recorded("a.png", "https://i/a.png".to_string(), &None, None),
        UploadResult {
            filename: "a.png".to_string(),
            success: true,
            message: "上传成功".to_string(),
            url: Some("https://i/a.png".to_string()),
            remark: None,
        }
    );
    assert_eq!(
        upload_recorded(
            "a.png",
            "https://i/a.png".to_string(),
            &Some("r".to_string()),
            Some("查询失败: [1] locked".to_string())
        ),
        UploadResult {
            filename: "a.png".to_string(),
            success: false,
            message: "上传成功但数据库插入失败: 查询失败: [1] locked".to_string(),
            url: Some("https://i/a.png".to_string()),
            remark: Some("r".to_string()),
        }
    );
}
