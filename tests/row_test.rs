use ssql::descriptor::{FieldDef, ScalarKind, TableDescriptor};
use ssql::error::SsqlError;
use ssql::row::{decode_joined, Column, MapEntry, Record, Row};
use ssql::stream::{decode_all, CursorItem, RowStream, StreamStep};
use ssql::value::SqlValue;

fn person() -> TableDescriptor {
    let mut t = TableDescriptor::new("Person");
    t.add_field(FieldDef::new("id", ScalarKind::Int, false));
    t.add_field(FieldDef::new("email", ScalarKind::Text, true));
    t
}

fn posts() -> TableDescriptor {
    let mut t = TableDescriptor::new("Posts");
    t.add_field(FieldDef::new("post", ScalarKind::Text, false));
    t
}

fn col(name: &str, value: SqlValue) -> Column {
    Column { name: name.to_string(), value }
}

fn text(s: &str) -> SqlValue {
    SqlValue::Text(s.to_string())
}

fn person_row(id: i64, email: Option<&str>) -> Row {
    Row {
        columns: vec![
            col("Person.id", SqlValue::Int(id)),
            col("Person.email", email.map(text).unwrap_or(SqlValue::Null)),
        ],
    }
}

#[test]
fn record_is_read_by_qualified_names() {
    let row = person_row(1, Some("a@x.com"));
    let rec = person().to_record(&row).unwrap();
    assert_eq!(rec, Record { values: vec![SqlValue::Int(1), text("a@x.com")] });
}

#[test]
fn map_is_keyed_by_field_names() {
    let row = person_row(1, Some("a@x.com"));
    let m = person().to_map(&row).unwrap();
    assert_eq!(
        m.entries,
        vec![
            MapEntry { key: "id".to_string(), value: SqlValue::Int(1) },
            MapEntry { key: "email".to_string(), value: text("a@x.com") },
        ]
    );
}

#[test]
fn nullable_field_takes_null() {
    let rec = person().to_record(&person_row(2, None)).unwrap();
    assert_eq!(rec.values, vec![SqlValue::Int(2), SqlValue::Null]);
}

#[test]
fn null_in_required_field_is_a_decode_error() {
    let row = Row {
        columns: vec![col("Person.id", SqlValue::Null), col("Person.email", text("x"))],
    };
    let r = person().to_record(&row);
    assert!(matches!(r, Err(SsqlError::DecodeError { ref column }) if column == "Person.id"));
}

#[test]
fn wrong_kind_is_a_decode_error() {
    let row = Row {
        columns: vec![col("Person.id", SqlValue::Int(1)), col("Person.email", SqlValue::Bool(true))],
    };
    let r = person().to_map(&row);
    assert!(matches!(r, Err(SsqlError::DecodeError { ref column }) if column == "Person.email"));
}

#[test]
fn missing_column_is_a_decode_error() {
    let row = Row { columns: vec![col("Person.email", text("x"))] };
    let r = person().to_record(&row);
    assert!(matches!(r, Err(SsqlError::DecodeError { ref column }) if column == "Person.id"));
}

#[test]
fn joined_row_gives_one_record_per_table() {
    let mut row = person_row(3, Some("c@x.com"));
    row.columns.push(col("Posts.post", text("hello")));
    let recs = decode_joined(&vec![person(), posts()], &row).unwrap();
    assert_eq!(
        recs,
        vec![
            Record { values: vec![SqlValue::Int(3), text("c@x.com")] },
            Record { values: vec![text("hello")] },
        ]
    );
}

#[test]
fn column_buffers_hold_one_buffer_per_field() {
    let rows = vec![person_row(1, Some("a")), person_row(2, None)];
    let bufs = person().to_column_buffers(&rows).unwrap();
    assert_eq!(
        bufs,
        vec![vec![SqlValue::Int(1), SqlValue::Int(2)], vec![text("a"), SqlValue::Null]]
    );
    let bad = vec![person_row(1, None), Row { columns: vec![] }];
    assert!(matches!(person().to_column_buffers(&bad), Err(SsqlError::DecodeError { .. })));
}

#[test]
fn stream_yields_rows_in_order_then_ends() {
    let fixture = vec![
        CursorItem::Metadata,
        CursorItem::Row(person_row(1, Some("a"))),
        CursorItem::Row(person_row(2, Some("b"))),
        CursorItem::Metadata,
        CursorItem::Row(person_row(3, None)),
    ];
    let mut stream = RowStream::new(vec![person()]);
    let mut yielded = Vec::new();
    let mut cursor = fixture.into_iter();
    loop {
        match stream.on_item(cursor.next()) {
            StreamStep::Item(r) => yielded.push(r.unwrap()),
            StreamStep::Skip => {}
            StreamStep::End => break,
        }
    }
    assert_eq!(yielded.len(), 3);
    assert_eq!(yielded[0][0].values[0], SqlValue::Int(1));
    assert_eq!(yielded[1][0].values[0], SqlValue::Int(2));
    assert_eq!(yielded[2][0].values, vec![SqlValue::Int(3), SqlValue::Null]);
    assert!(matches!(stream.on_item(None), StreamStep::End));
    assert!(matches!(
        stream.on_item(Some(CursorItem::Row(person_row(4, None)))),
        StreamStep::End
    ));
}

#[test]
fn decode_all_skips_metadata() {
    let fixture = vec![
        CursorItem::Row(person_row(1, Some("a"))),
        CursorItem::Metadata,
        CursorItem::Row(person_row(2, Some("b"))),
        CursorItem::Row(person_row(3, Some("c"))),
    ];
    let out = decode_all(vec![person()], fixture);
    assert_eq!(out.len(), 3);
    let ids: Vec<SqlValue> = out.into_iter().map(|r| r.unwrap().remove(0).values.remove(0)).collect();
    assert_eq!(ids, vec![SqlValue::Int(1), SqlValue::Int(2), SqlValue::Int(3)]);
}

#[test]
fn json_object_is_keyed_by_field_names() {
    let row = person_row(1, Some("a@x.com"));
    let m = person().to_json(&row).unwrap();
    let mut expected = serde_json::Map::new();
    expected.insert("id".to_string(), serde_json::Value::from(1i64));
    expected.insert("email".to_string(), serde_json::Value::String("a@x.com".to_string()));
    assert_eq!(m, expected);
    let n = person().to_json(&person_row(2, None)).unwrap();
    assert_eq!(n.get("email"), Some(&serde_json::Value::Null));
    assert_eq!(n.len(), 2);
}

#[test]
fn json_of_undecodable_row_fails() {
    let row = Row { columns: vec![col("Person.id", text("one"))] };
    assert!(matches!(person().to_json(&row), Err(SsqlError::DecodeError { .. })));
}
