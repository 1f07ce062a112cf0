use smms_mirror::import::{ImportAction, ImportEvent, ImportRun, Phase, OUT_OF_TURN};
use smms_mirror::model::{Field, FieldValue, Row, SmmsUploadItem, SyncStats};
use smms_mirror::statements::{import_upsert_sql, soft_delete_by_hash_sql, LIVE_HASHES_SQL};

fn item(hash: &str, filename: &str) -> SmmsUploadItem {
    SmmsUploadItem {
        file_id: 0,
        width: 640,
        height: 480,
        filename: filename.to_string(),
        store_name: format!("store-{}", filename),
        size: 1024,
        path: format!("/2024/{}", filename),
        hash: hash.to_string(),
        created_at: "2024-01-02 03:04:05".to_string(),
        url: format!("https://img.example/{}", filename),
        delete_url: format!("https://sm.ms/delete/{}", hash),
        page_url: format!("https://sm.ms/image/{}", hash),
    }
}

fn hash_row(hash: &str) -> Row {
    Row {
        fields: vec![Field {
            name: "file_hash".to_string(),
            value: FieldValue::Text(hash.to_string()),
        }],
    }
}

/// A stand-in for the metadata store: hashes in table order, each with its
/// deletion flag and the file name that was written last.
struct Store {
    records: Vec<(String, bool, String)>,
    served: Vec<SmmsUploadItem>,
    batches: Vec<Vec<String>>,
    fail_batch: Option<usize>,
    queries: usize,
}

impl Store {
    fn with_live(hashes: &[&str]) -> Store {
        Store {
            records: hashes.iter().map(|h| (h.to_string(), false, String::new())).collect(),
            served: Vec::new(),
            batches: Vec::new(),
            fail_batch: None,
            queries: 0,
        }
    }

    fn live(&self) -> Vec<String> {
        self.records.iter().filter(|r| !r.1).map(|r| r.0.clone()).collect()
    }

    fn deleted(&self) -> Vec<String> {
        self.records.iter().filter(|r| r.1).map(|r| r.0.clone()).collect()
    }

    fn execute(&mut self, statement: &str) {
        if let Some(found) = self.served.iter().find(|i| import_upsert_sql(i) == statement) {
            let found = found.clone();
            match self.records.iter_mut().find(|r| r.0 == found.hash) {
                Some(record) => {
                    record.1 = false;
                    record.2 = found.filename.clone();
                }
                None => self.records.push((found.hash.clone(), false, found.filename.clone())),
            }
            return;
        }
        let target = self
            .records
            .iter()
            .position(|r| soft_delete_by_hash_sql(&r.0) == statement);
        match target {
            Some(at) => self.records[at].1 = true,
            None => panic!("the store does not know this statement: {}", statement),
        }
    }
}

struct Trace {
    actions: Vec<ImportAction>,
    pages: Vec<i32>,
    outcome: Result<SyncStats, String>,
}

fn drive(listing: &dyn Fn(i32) -> Result<Vec<SmmsUploadItem>, String>, store: &mut Store) -> Trace {
    let (mut run, mut action) = ImportRun::start();
    let mut actions = Vec::new();
    let mut pages = Vec::new();
    loop {
        actions.push(action.clone());
        let event = match action {
            ImportAction::Query(sql) => {
                assert_eq!(sql, LIVE_HASHES_SQL);
                store.queries += 1;
                ImportEvent::Rows(store.live().iter().map(|h| hash_row(h)).collect())
            }
            ImportAction::FetchPage(page) => {
                pages.push(page);
                match listing(page) {
                    Ok(items) => {
                        store.served.extend(items.iter().cloned());
                        ImportEvent::Page(items)
                    }
                    Err(cause) => ImportEvent::FetchFailed(cause),
                }
            }
            ImportAction::ExecuteBatch(statements) => {
                let number = store.batches.len();
                store.batches.push(statements.clone());
                if store.fail_batch == Some(number) {
                    ImportEvent::BatchFailed("[7500] batch refused".to_string())
                } else {
                    for statement in &statements {
                        store.execute(statement);
                    }
                    ImportEvent::BatchDone
                }
            }
            ImportAction::Done(stats) => {
                assert_eq!(run.phase(), Phase::Finished);
                assert_eq!(run.stats(), stats);
                return Trace { actions, pages, outcome: Ok(stats) };
            }
            ImportAction::Abort(message) => {
                assert_eq!(run.phase(), Phase::Failed);
                return Trace { actions, pages, outcome: Err(message) };
            }
        };
        action = run.step(event);
    }
}

fn stats(added: usize, skipped: usize, deleted: usize) -> SyncStats {
    SyncStats { added, skipped, deleted }
}

#[test]
fn two_new_items_and_one_stale_record() {
    let listing = |page: i32| match page {
        1 => Ok(vec![item("h1", "a.png"), item("h2", "b.png")]),
        _ => Ok(Vec::new()),
    };
    let mut store = Store::with_live(&["h3"]);
    let trace = drive(&listing, &mut store);
    assert_eq!(trace.outcome, Ok(stats(2, 0, 1)));
    assert_eq!(trace.pages, vec![1, 2]);
    assert_eq!(
        trace.actions,
        vec![
            ImportAction::Query(LIVE_HASHES_SQL.to_string()),
            ImportAction::FetchPage(1),
            ImportAction::ExecuteBatch(vec![
                import_upsert_sql(&item("h1", "a.png")),
                import_upsert_sql(&item("h2", "b.png")),
            ]),
            ImportAction::FetchPage(2),
            ImportAction::Query(LIVE_HASHES_SQL.to_string()),
            ImportAction::ExecuteBatch(vec![soft_delete_by_hash_sql("h3")]),
            ImportAction::Done(stats(2, 0, 1)),
        ]
    );
    assert_eq!(store.live(), vec!["h1".to_string(), "h2".to_string()]);
    assert_eq!(store.deleted(), vec!["h3".to_string()]);
}

#[test]
fn start_asks_for_the_live_hashes() {
    let (run, action) = ImportRun::start();
    assert_eq!(action, ImportAction::Query(LIVE_HASHES_SQL.to_string()));
    assert_eq!(run.phase(), Phase::Loading);
    assert_eq!(run.stats(), stats(0, 0, 0));
}

#[test]
fn one_hundred_twenty_three_statements_make_three_batches() {
    let items: Vec<SmmsUploadItem> =
        (0..123).map(|n| item(&format!("h{}", n), &format!("f{}.png", n))).collect();
    let served = items.clone();
    let listing = move |page: i32| match page {
        1 => Ok(served.clone()),
        _ => Ok(Vec::new()),
    };
    let mut store = Store::with_live(&[]);
    let trace = drive(&listing, &mut store);
    assert_eq!(trace.outcome, Ok(stats(123, 0, 0)));
    let sizes: Vec<usize> = store.batches.iter().map(|b| b.len()).collect();
    assert_eq!(sizes, vec![50, 50, 23]);
    let sent: Vec<String> = store.batches.concat();
    let expected: Vec<String> = items.iter().map(import_upsert_sql).collect();
    assert_eq!(sent, expected);
}

#[test]
fn batches_are_cut_at_fifty() {
    for (count, sizes) in [
        (1usize, vec![1usize]),
        (49, vec![49]),
        (50, vec![50]),
        (51, vec![50, 1]),
        (100, vec![50, 50]),
        (101, vec![50, 50, 1]),
    ] {
        let items: Vec<SmmsUploadItem> =
            (0..count).map(|n| item(&format!("h{}", n), "f.png")).collect();
        let listing = move |page: i32| match page {
            1 => Ok(items.clone()),
            _ => Ok(Vec::new()),
        };
        let mut store = Store::with_live(&[]);
        let trace = drive(&listing, &mut store);
        assert_eq!(trace.outcome, Ok(stats(count, 0, 0)));
        let seen: Vec<usize> = store.batches.iter().map(|b| b.len()).collect();
        assert_eq!(seen, sizes);
    }
}

#[test]
fn three_failures_at_the_start_fail_the_import() {
    let listing = |page: i32| Err(format!("timeout on page {}", page));
    let mut store = Store::with_live(&["h9"]);
    let trace = drive(&listing, &mut store);
    assert_eq!(trace.outcome, Err("连续 3 次获取失败: timeout on page 3".to_string()));
    assert_eq!(trace.pages, vec![1, 2, 3]);
    assert_eq!(store.live(), vec!["h9".to_string()]);
    assert!(store.batches.is_empty());
    assert_eq!(store.queries, 1);
}

#[test]
fn three_failures_after_progress_end_the_import_well() {
    let listing = |page: i32| match page {
        1 => Ok(vec![item("h1", "a.png")]),
        _ => Err("gateway error".to_string()),
    };
    let mut store = Store::with_live(&["h1", "h5"]);
    let trace = drive(&listing, &mut store);
    assert_eq!(trace.outcome, Ok(stats(0, 1, 1)));
    assert_eq!(trace.pages, vec![1, 2, 3, 4]);
    assert_eq!(store.deleted(), vec!["h5".to_string()]);
}

#[test]
fn a_failed_page_is_passed_over_and_a_success_resets_the_count() {
    let listing = |page: i32| match page {
        1 | 2 => Err("flaky".to_string()),
        3 => Ok(vec![item("h1", "a.png")]),
        4 | 5 => Err("flaky".to_string()),
        6 => Ok(vec![item("h2", "b.png")]),
        _ => Ok(Vec::new()),
    };
    let mut store = Store::with_live(&[]);
    let trace = drive(&listing, &mut store);
    assert_eq!(trace.outcome, Ok(stats(2, 0, 0)));
    assert_eq!(trace.pages, vec![1, 2, 3, 4, 5, 6, 7]);
}

#[test]
fn a_second_import_adds_nothing() {
    let listing = |page: i32| match page {
        1 => Ok(vec![item("h1", "a.png"), item("h2", "b.png"), item("h1", "a2.png")]),
        2 => Err("flaky".to_string()),
        3 => Ok(vec![item("h3", "c.png")]),
        _ => Ok(Vec::new()),
    };
    let mut store = Store::with_live(&["h2", "old"]);
    let first = drive(&listing, &mut store).outcome.unwrap();
    assert_eq!(first, stats(2, 2, 1));
    let second = drive(&listing, &mut store).outcome.unwrap();
    assert_eq!(second.added, 0);
    assert_eq!(second.skipped, first.added + first.skipped);
    assert_eq!(second.deleted, 0);
}

#[test]
fn one_hash_twice_leaves_one_record_with_the_later_name() {
    let listing = |page: i32| match page {
        1 => Ok(vec![item("same", "first.png"), item("same", "second.png")]),
        _ => Ok(Vec::new()),
    };
    let mut store = Store::with_live(&[]);
    let trace = drive(&listing, &mut store);
    assert_eq!(trace.outcome, Ok(stats(1, 1, 0)));
    let matching: Vec<&(String, bool, String)> =
        store.records.iter().filter(|r| r.0 == "same").collect();
    assert_eq!(matching.len(), 1);
    assert_eq!(matching[0].2, "second.png");
    assert!(!matching[0].1);
}

#[test]
fn a_deleted_record_that_is_shown_again_is_restored() {
    let listing = |page: i32| match page {
        1 => Ok(vec![item("back", "again.png")]),
        _ => Ok(Vec::new()),
    };
    let mut store = Store::with_live(&[]);
    store.records.push(("back".to_string(), true, "again.png".to_string()));
    let trace = drive(&listing, &mut store);
    assert_eq!(trace.outcome, Ok(stats(1, 0, 0)));
    assert_eq!(store.live(), vec!["back".to_string()]);
    assert!(store.deleted().is_empty());
    let statement = import_upsert_sql(&item("back", "again.png"));
    assert!(statement.contains("is_deleted = 0, deleted_at = NULL"));
    assert!(statement.contains("ON CONFLICT(file_hash) DO UPDATE SET"));
    assert!(statement.contains("file_type = excluded.file_type"));
}

#[test]
fn every_stale_record_is_marked_once() {
    let listing = |page: i32| match page {
        1 => Ok(vec![item("keep", "k.png")]),
        _ => Ok(Vec::new()),
    };
    let mut store = Store::with_live(&["s1", "keep", "s2", "s3"]);
    let trace = drive(&listing, &mut store);
    assert_eq!(trace.outcome, Ok(stats(0, 1, 3)));
    assert_eq!(
        store.batches.last().unwrap(),
        &vec![
            soft_delete_by_hash_sql("s1"),
            soft_delete_by_hash_sql("s2"),
            soft_delete_by_hash_sql("s3"),
        ]
    );
    assert_eq!(store.live(), vec!["keep".to_string()]);
}

#[test]
fn nothing_stale_sends_no_delete_batch() {
    let listing = |page: i32| match page {
        1 => Ok(vec![item("h1", "a.png")]),
        _ => Ok(Vec::new()),
    };
    let mut store = Store::with_live(&["h1"]);
    let trace = drive(&listing, &mut store);
    assert_eq!(trace.outcome, Ok(stats(0, 1, 0)));
    assert_eq!(store.batches.len(), 1);
    assert_eq!(store.queries, 2);
}

#[test]
fn an_empty_history_deletes_nothing() {
    let listing = |_page: i32| Ok(Vec::new());
    let mut store = Store::with_live(&["h1", "h2"]);
    let trace = drive(&listing, &mut store);
    assert_eq!(trace.outcome, Ok(stats(0, 0, 0)));
    assert_eq!(trace.pages, vec![1]);
    assert_eq!(store.queries, 1);
    assert_eq!(store.live(), vec!["h1".to_string(), "h2".to_string()]);
}

#[test]
fn the_import_stops_after_page_one_hundred() {
    let listing = |page: i32| Ok(vec![item(&format!("h{}", page), "p.png")]);
    let mut store = Store::with_live(&[]);
    let trace = drive(&listing, &mut store);
    assert_eq!(trace.outcome, Ok(stats(100, 0, 0)));
    assert_eq!(trace.pages, (1..=100).collect::<Vec<i32>>());
}

#[test]
fn a_failure_on_the_last_page_ends_the_loop() {
    let listing = |page: i32| {
        if page == 100 {
            Err("late failure".to_string())
        } else {
            Ok(vec![item(&format!("h{}", page), "p.png")])
        }
    };
    let mut store = Store::with_live(&[]);
    let trace = drive(&listing, &mut store);
    assert_eq!(trace.outcome, Ok(stats(99, 0, 0)));
    assert_eq!(trace.pages.last(), Some(&100));
    assert_eq!(trace.pages.len(), 100);
}

#[test]
fn a_refused_batch_ends_the_import_with_the_diagnostic() {
    let listing = |page: i32| match page {
        1 => Ok((0..60).map(|n| item(&format!("h{}", n), "f.png")).collect()),
        _ => Ok(Vec::new()),
    };
    let mut store = Store::with_live(&[]);
    store.fail_batch = Some(1);
    let trace = drive(&listing, &mut store);
    assert_eq!(trace.outcome, Err("[7500] batch refused".to_string()));
    assert_eq!(store.batches.len(), 2);
    assert_eq!(store.live().len(), 50);
}

#[test]
fn a_failed_query_ends_the_import_with_the_diagnostic() {
    let (mut run, _) = ImportRun::start();
    let action = run.step(ImportEvent::QueryFailed("查询失败: [1] no such table".to_string()));
    assert_eq!(action, ImportAction::Abort("查询失败: [1] no such table".to_string()));
    assert_eq!(run.phase(), Phase::Failed);

    let (mut run, _) = ImportRun::start();
    run.step(ImportEvent::Rows(Vec::new()));
    run.step(ImportEvent::Page(vec![item("h1", "a.png")]));
    run.step(ImportEvent::BatchDone);
    let action = run.step(ImportEvent::Page(Vec::new()));
    assert_eq!(action, ImportAction::Query(LIVE_HASHES_SQL.to_string()));
    assert_eq!(run.phase(), Phase::Auditing);
    let action = run.step(ImportEvent::QueryFailed("gone".to_string()));
    assert_eq!(action, ImportAction::Abort("gone".to_string()));
}

#[test]
fn an_outcome_out_of_turn_ends_the_import() {
    let (mut run, _) = ImportRun::start();
    let action = run.step(ImportEvent::BatchDone);
    assert_eq!(action, ImportAction::Abort(OUT_OF_TURN.to_string()));
    assert_eq!(run.phase(), Phase::Failed);
    let action = run.step(ImportEvent::Rows(Vec::new()));
    assert_eq!(action, ImportAction::Abort(OUT_OF_TURN.to_string()));

    let (mut run, _) = ImportRun::start();
    run.step(ImportEvent::Rows(Vec::new()));
    let action = run.step(ImportEvent::Rows(Vec::new()));
    assert_eq!(action, ImportAction::Abort(OUT_OF_TURN.to_string()));
}

#[test]
fn rows_without_a_hash_are_passed_over() {
    let (mut run, _) = ImportRun::start();
    let rows = vec![
        hash_row("h1"),
        Row { fields: Vec::new() },
        Row {
            fields: vec![Field { name: "file_hash".to_string(), value: FieldValue::Int(5) }],
        },
    ];
    assert_eq!(run.step(ImportEvent::Rows(rows)), ImportAction::FetchPage(1));
    run.step(ImportEvent::Page(vec![item("h1", "a.png"), item("5", "b.png")]));
    assert_eq!(run.stats(), stats(1, 1, 0));
    assert_eq!(run.phase(), Phase::Writing);
}

#[test]
fn the_retiring_batch_ends_the_import() {
    let (mut run, _) = ImportRun::start();
    run.step(ImportEvent::Rows(vec![hash_row("old")]));
    run.step(ImportEvent::Page(vec![item("h1", "a.png")]));
    run.step(ImportEvent::BatchDone);
    run.step(ImportEvent::Page(Vec::new()));
    let action = run.step(ImportEvent::Rows(vec![hash_row("old"), hash_row("h1")]));
    assert_eq!(action, ImportAction::ExecuteBatch(vec![soft_delete_by_hash_sql("old")]));
    assert_eq!(run.phase(), Phase::Retiring);
    let refused = {
        let (mut other, _) = ImportRun::start();
        other.step(ImportEvent::Rows(vec![hash_row("old")]));
        other.step(ImportEvent::Page(vec![item("h1", "a.png")]));
        other.step(ImportEvent::BatchDone);
        other.step(ImportEvent::Page(Vec::new()));
        other.step(ImportEvent::Rows(vec![hash_row("old")]));
        other.step(ImportEvent::BatchFailed("refused".to_string()))
    };
    assert_eq!(refused, ImportAction::Abort("refused".to_string()));
    assert_eq!(run.step(ImportEvent::BatchDone), ImportAction::Done(stats(1, 0, 1)));
}
