use smms_mirror::model::{Field, FieldValue, PictureQueryParams, Row, SmmsPicture};
use smms_mirror::query::{
    count_from_rows, count_sql, file_types_from_rows, map_row, map_rows, select_sql,
};
use smms_mirror::rows::{collect_text, first_int, hashes_of_rows};

fn no_filters() -> PictureQueryParams {
    PictureQueryParams {
        file_type: None,
        is_favorite: None,
        include_deleted: None,
        order_by: None,
        filename: None,
        store_name: None,
        remark: None,
        limit: None,
        offset: None,
    }
}

fn words(name: &str, value: &str) -> Field {
    Field { name: name.to_string(), value: FieldValue::Text(value.to_string()) }
}

fn whole(name: &str, value: i64) -> Field {
    Field { name: name.to_string(), value: FieldValue::Int(value) }
}

fn full_row() -> Row {
    Row {
        fields: vec![
            whole("id", 11),
            words("file_hash", "hh"),
            words("filename", "a.png"),
            words("store_name", "s.png"),
            words("file_type", "png"),
            whole("width", 10),
            whole("height", 20),
            whole("size", 30),
            words("path", "/p"),
            words("url", "u"),
            words("delete_url", "d"),
            words("page_url", "g"),
            whole("is_favorite", 1),
            whole("is_deleted", 1),
            words("deleted_at", "2024-02-02"),
            words("remark", "note"),
            words("created_at", "2024-01-01"),
            words("updated_at", "2024-01-03"),
        ],
    }
}

fn full_picture() -> SmmsPicture {
    SmmsPicture {
        id: 11,
        file_hash: "hh".to_string(),
        filename: "a.png".to_string(),
        store_name: "s.png".to_string(),
        file_type: "png".to_string(),
        width: 10,
        height: 20,
        size: 30,
        path: "/p".to_string(),
        url: "u".to_string(),
        delete_url: "d".to_string(),
        page_url: "g".to_string(),
        is_favorite: 1,
        is_deleted: 1,
        deleted_at: Some("2024-02-02".to_string()),
        remark: Some("note".to_string()),
        created_at: "2024-01-01".to_string(),
        updated_at: "2024-01-03".to_string(),
    }
}

fn without(row: &Row, name: &str) -> Row {
    Row { fields: row.fields.iter().filter(|f| f.name != name).cloned().collect() }
}

#[test]
fn queries_without_filters() {
    assert_eq!(count_sql(&no_filters()), "SELECT COUNT(*) as count FROM smms_pictures WHERE 1=1");
    assert_eq!(
        select_sql(&no_filters()),
        "SELECT * FROM smms_pictures WHERE 1=1 ORDER BY created_at DESC"
    );
}

#[test]
fn queries_with_every_filter() {
    let params = PictureQueryParams {
        file_type: Some("p'ng".to_string()),
        is_favorite: Some(true),
        include_deleted: Some(false),
        order_by: Some("size_asc".to_string()),
        filename: Some("ca't".to_string()),
        store_name: Some("st".to_string()),
        remark: Some("r%".to_string()),
        limit: Some(20),
        offset: Some(40),
    };
    let filters = " AND is_deleted = 0 AND file_type = 'p''ng' AND is_favorite = 1 \
                   AND filename LIKE '%ca''t%' AND store_name LIKE '%st%' AND remark LIKE '%r%%'";
    assert_eq!(
        count_sql(&params),
        format!("SELECT COUNT(*) as count FROM smms_pictures WHERE 1=1{}", filters)
    );
    assert_eq!(
        select_sql(&params),
        format!(
            "SELECT * FROM smms_pictures WHERE 1=1{} ORDER BY size ASC LIMIT 20 OFFSET 40",
            filters
        )
    );
}

#[test]
fn empty_filters_are_left_out() {
    let params = PictureQueryParams {
        file_type: Some(String::new()),
        is_favorite: Some(false),
        include_deleted: Some(true),
        filename: Some(String::new()),
        store_name: Some(String::new()),
        remark: Some(String::new()),
        offset: Some(-5),
        ..no_filters()
    };
    assert_eq!(
        select_sql(&params),
        "SELECT * FROM smms_pictures WHERE 1=1 AND is_deleted = 1 AND is_favorite = 0 ORDER BY created_at DESC OFFSET -5"
    );
}

#[test]
fn order_keys() {
    for (key, clause) in [
        ("created_at_asc", "created_at ASC"),
        ("created_at_desc", "created_at DESC"),
        ("updated_at_asc", "updated_at ASC"),
        ("updated_at_desc", "updated_at DESC"),
        ("size_asc", "size ASC"),
        ("size_desc", "size DESC"),
        ("anything; DROP TABLE", "created_at DESC"),
        ("", "created_at DESC"),
    ] {
        let params = PictureQueryParams { order_by: Some(key.to_string()), ..no_filters() };
        assert_eq!(
            select_sql(&params),
            format!("SELECT * FROM smms_pictures WHERE 1=1 ORDER BY {}", clause)
        );
    }
}

#[test]
fn a_complete_row_maps_to_its_picture() {
    assert_eq!(map_row(&full_row(), 0), Ok(full_picture()));
}

#[test]
fn optional_fields_default_to_absent() {
    let row = without(&without(&full_row(), "deleted_at"), "remark");
    let expected = SmmsPicture { deleted_at: None, remark: None, ..full_picture() };
    assert_eq!(map_row(&row, 3), Ok(expected));
}

#[test]
fn a_row_without_the_deletion_flag_fails() {
    assert_eq!(
        map_row(&without(&full_row(), "is_deleted"), 0),
        Err("记录 0 缺失或无效的 is_deleted 字段".to_string())
    );
    assert_eq!(
        map_rows(&vec![full_row(), without(&full_row(), "is_deleted")]),
        Err("记录 1 缺失或无效的 is_deleted 字段".to_string())
    );
    let row = without(&without(&full_row(), "created_at"), "is_deleted");
    assert_eq!(map_row(&row, 2), Err("记录 2 缺失或无效的 is_deleted 字段".to_string()));
    let row = without(&without(&full_row(), "is_favorite"), "is_deleted");
    assert_eq!(map_row(&row, 2), Err("记录 2 缺失或无效的 is_favorite 字段".to_string()));
}

#[test]
fn each_required_field_is_named_when_missing() {
    for name in [
        "id",
        "file_hash",
        "filename",
        "store_name",
        "file_type",
        "width",
        "height",
        "size",
        "path",
        "url",
        "delete_url",
        "page_url",
        "is_favorite",
        "is_deleted",
        "created_at",
        "updated_at",
    ] {
        assert_eq!(
            map_row(&without(&full_row(), name), 4),
            Err(format!("记录 4 缺失或无效的 {} 字段", name))
        );
    }
}

#[test]
fn the_first_missing_field_is_reported() {
    let row = without(&without(&full_row(), "updated_at"), "width");
    assert_eq!(map_row(&row, 12), Err("记录 12 缺失或无效的 width 字段".to_string()));
    assert_eq!(
        map_row(&Row { fields: Vec::new() }, 0),
        Err("记录 0 缺失或无效的 id 字段".to_string())
    );
}

#[test]
fn a_field_of_the_wrong_type_counts_as_missing() {
    let mut row = full_row();
    row.fields[0] = words("id", "11");
    assert_eq!(map_row(&row, 1), Err("记录 1 缺失或无效的 id 字段".to_string()));
    let mut row = full_row();
    row.fields[2] = whole("filename", 5);
    assert_eq!(map_row(&row, 1), Err("记录 1 缺失或无效的 filename 字段".to_string()));
    let mut row = full_row();
    row.fields[12] = Field { name: "is_favorite".to_string(), value: FieldValue::Other };
    assert_eq!(map_row(&row, 1), Err("记录 1 缺失或无效的 is_favorite 字段".to_string()));
    let mut row = full_row();
    row.fields[13] = words("is_deleted", "yes");
    assert_eq!(map_row(&row, 1), Err("记录 1 缺失或无效的 is_deleted 字段".to_string()));
    let mut row = full_row();
    row.fields[15] = Field { name: "remark".to_string(), value: FieldValue::Other };
    row.fields[14] = whole("deleted_at", 7);
    assert_eq!(
        map_row(&row, 1),
        Ok(SmmsPicture { remark: None, deleted_at: None, ..full_picture() })
    );
}

#[test]
fn flags_are_cut_to_32_bits() {
    let mut row = full_row();
    row.fields[12] = whole("is_favorite", (1i64 << 32) + 1);
    row.fields[13] = whole("is_deleted", -1);
    let picture = map_row(&row, 0).unwrap();
    assert_eq!(picture.is_favorite, 1);
    assert_eq!(picture.is_deleted, -1);
}

#[test]
fn the_first_field_of_a_name_counts() {
    let mut row = full_row();
    row.fields.push(whole("id", 99));
    row.fields.insert(0, words("filename", "first.png"));
    let picture = map_row(&row, 0).unwrap();
    assert_eq!(picture.id, 11);
    assert_eq!(picture.filename, "first.png");
}

#[test]
fn rows_map_in_order_until_the_first_bad_one() {
    let second = Row {
        fields: full_row()
            .fields
            .into_iter()
            .map(|f| if f.name == "id" { whole("id", 12) } else { f })
            .collect(),
    };
    assert_eq!(
        map_rows(&vec![full_row(), second.clone()]),
        Ok(vec![full_picture(), SmmsPicture { id: 12, ..full_picture() }])
    );
    assert_eq!(map_rows(&Vec::new()), Ok(Vec::new()));
    assert_eq!(
        map_rows(&vec![full_row(), without(&second, "url"), without(&full_row(), "id")]),
        Err("记录 1 缺失或无效的 url 字段".to_string())
    );
}

#[test]
fn the_count_is_read_from_the_first_row() {
    assert_eq!(count_from_rows(&vec![Row { fields: vec![whole("count", 57)] }]), 57);
    assert_eq!(
        count_from_rows(&vec![Row { fields: vec![whole("count", 3)] }, Row { fields: vec![whole("count", 9)] }]),
        3
    );
    assert_eq!(count_from_rows(&Vec::new()), 0);
    assert_eq!(count_from_rows(&vec![Row { fields: vec![words("count", "57")] }]), 0);
    assert_eq!(count_from_rows(&vec![Row { fields: vec![whole("total", 57)] }]), 0);
    assert_eq!(first_int(&vec![Row { fields: vec![whole("n", -4)] }], "n"), -4);
}

#[test]
fn text_columns_pass_over_rows_without_the_text() {
    let rows = vec![
        Row { fields: vec![words("file_type", "png")] },
        Row { fields: vec![whole("file_type", 1)] },
        Row { fields: Vec::new() },
        Row { fields: vec![words("other", "x"), words("file_type", "jpg")] },
    ];
    assert_eq!(file_types_from_rows(&rows), vec!["png".to_string(), "jpg".to_string()]);
    assert_eq!(collect_text(&rows, "other"), vec!["x".to_string()]);
    assert_eq!(hashes_of_rows(&rows), Vec::<String>::new());
    assert_eq!(rows[3].get_text("file_type"), Some("jpg".to_string()));
    assert_eq!(rows[1].get_int("file_type"), Some(1));
    assert_eq!(rows[1].get_text("file_type"), None);
}
