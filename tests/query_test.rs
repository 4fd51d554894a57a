use ssql::descriptor::{FieldDef, Relation, ScalarKind, TableDescriptor};
use ssql::error::{CustomError, SentError, SsqlError};
use ssql::filter::ColExpr;
use ssql::query::QueryCore;
use ssql::value::SqlValue;
use ssql::JoinArg;

fn person() -> TableDescriptor {
    let mut t = TableDescriptor::new("Person");
    t.add_field(FieldDef::new("id", ScalarKind::Int, false));
    t.add_field(FieldDef::new("email", ScalarKind::Text, true));
    t.add_field(FieldDef::new("age", ScalarKind::Int, true));
    t.add_relation(Relation::new("Posts", "Posts.person_id = Person.id"));
    t.set_primary_key("id");
    t
}

fn posts() -> TableDescriptor {
    let mut t = TableDescriptor::new("Posts");
    t.add_field(FieldDef::new("id", ScalarKind::Int, false));
    t.add_field(FieldDef::new("person_id", ScalarKind::Int, false));
    t
}

fn text(s: &str) -> SqlValue {
    SqlValue::Text(s.to_string())
}

#[test]
fn filter_eq_binds_first_placeholder() {
    let p = person();
    let mut q = QueryCore::new(&p);
    q.filter(p.col("id").unwrap().eq(SqlValue::Int(5))).unwrap();
    assert_eq!(q.filters, vec![" Person.id = @p1".to_string()]);
    assert_eq!(q.params, vec![SqlValue::Int(5)]);
}

#[test]
fn filter_between_binds_two_placeholders() {
    let p = person();
    let mut q = QueryCore::new(&p);
    q.filter(p.col("age").unwrap().between(SqlValue::Int(18), SqlValue::Int(30))).unwrap();
    assert_eq!(q.filters, vec!["Person.age BETWEEN @p1 AND @p2".to_string()]);
    assert_eq!(q.params, vec![SqlValue::Int(18), SqlValue::Int(30)]);
}

#[test]
fn filter_is_in_binds_each_value() {
    let p = person();
    let mut q = QueryCore::new(&p);
    let values = vec![SqlValue::Int(1), SqlValue::Int(2), SqlValue::Int(3)];
    q.filter(p.col("id").unwrap().is_in(values)).unwrap();
    assert_eq!(q.filters, vec!["Person.id IN (@p1,@p2,@p3)".to_string()]);
    assert_eq!(q.params, vec![SqlValue::Int(1), SqlValue::Int(2), SqlValue::Int(3)]);
}

#[test]
fn filter_is_in_ref_copies_values() {
    let p = person();
    let mut q = QueryCore::new(&p);
    let values = [SqlValue::Int(3), text("4"), SqlValue::Int(5)];
    q.filter(p.col("id").unwrap().is_in_ref(&values)).unwrap();
    assert_eq!(q.filters, vec!["Person.id IN (@p1,@p2,@p3)".to_string()]);
    assert_eq!(q.params, vec![SqlValue::Int(3), text("4"), SqlValue::Int(5)]);
}

#[test]
fn or_chain_compiles_in_attachment_order() {
    let p = person();
    let mut q = QueryCore::new(&p);
    let f1 = p.col("id").unwrap().eq(SqlValue::Int(1));
    let f2 = p.col("age").unwrap().between(SqlValue::Int(18), SqlValue::Int(30));
    let f3 = p.col("email").unwrap().is_null();
    let f4 = p.col("id").unwrap().gt(SqlValue::Int(9));
    q.filter(f1.or(f2).or(f3).or(f4)).unwrap();
    assert_eq!(
        q.filters,
        vec!["(  Person.id = @p1 OR Person.age BETWEEN @p2 AND @p3 OR Person.email IS NULL OR  Person.id > @p4 )"
            .to_string()]
    );
    assert_eq!(
        q.params,
        vec![SqlValue::Int(1), SqlValue::Int(18), SqlValue::Int(30), SqlValue::Int(9)]
    );
}

#[test]
fn or_flattens_nested_alternates() {
    let p = person();
    let mut q = QueryCore::new(&p);
    let f1 = p.col("id").unwrap().eq(SqlValue::Int(1));
    let f2 = p.col("id").unwrap().eq(SqlValue::Int(2));
    let f3 = p.col("id").unwrap().eq(SqlValue::Int(3));
    q.filter(f1.or(f2.or(f3))).unwrap();
    assert_eq!(
        q.filters,
        vec!["(  Person.id = @p1 OR  Person.id = @p2 OR  Person.id = @p3 )".to_string()]
    );
}

#[test]
fn placeholders_continue_across_filters() {
    let p = person();
    let mut q = QueryCore::new(&p);
    q.filter(p.col("id").unwrap().is_in(vec![SqlValue::Int(7), SqlValue::Int(8)])).unwrap();
    q.filter(p.col("email").unwrap().contains("gmail")).unwrap();
    q.filter(p.col("age").unwrap().between(SqlValue::Int(1), SqlValue::Int(2))).unwrap();
    q.filter(p.col("id").unwrap().neq(SqlValue::Int(4))).unwrap();
    assert_eq!(
        q.filters,
        vec![
            "Person.id IN (@p1,@p2)".to_string(),
            "Person.email LIKE '%gmail%' ".to_string(),
            "Person.age BETWEEN @p3 AND @p4".to_string(),
            " Person.id <> @p5".to_string(),
        ]
    );
    assert_eq!(
        q.params,
        vec![SqlValue::Int(7), SqlValue::Int(8), SqlValue::Int(1), SqlValue::Int(2), SqlValue::Int(4)]
    );
}

#[test]
fn placeholder_numbers_past_nine() {
    let p = person();
    let mut q = QueryCore::new(&p);
    let values: Vec<SqlValue> = (1..=12).map(SqlValue::Int).collect();
    q.filter(p.col("id").unwrap().is_in(values)).unwrap();
    assert_eq!(
        q.filters,
        vec!["Person.id IN (@p1,@p2,@p3,@p4,@p5,@p6,@p7,@p8,@p9,@p10,@p11,@p12)".to_string()]
    );
    assert_eq!(q.params.len(), 12);
}

#[test]
fn comparison_operators() {
    let p = person();
    let mut q = QueryCore::new(&p);
    q.filter(p.col("id").unwrap().lt(SqlValue::Int(1))).unwrap();
    q.filter(p.col("id").unwrap().lt_eq(SqlValue::Int(2))).unwrap();
    q.filter(p.col("id").unwrap().gt_eq(SqlValue::Int(3))).unwrap();
    q.filter(p.col("email").unwrap().is_not_null()).unwrap();
    q.filter(p.col("email").unwrap().startswith("john")).unwrap();
    q.filter(p.col("email").unwrap().endswith("gmail.com")).unwrap();
    assert_eq!(
        q.filters,
        vec![
            " Person.id < @p1".to_string(),
            " Person.id <= @p2".to_string(),
            " Person.id >= @p3".to_string(),
            "Person.email IS NOT NULL".to_string(),
            "Person.email LIKE 'john%' ".to_string(),
            "Person.email LIKE '%gmail.com' ".to_string(),
        ]
    );
    assert_eq!(q.params, vec![SqlValue::Int(1), SqlValue::Int(2), SqlValue::Int(3)]);
}

#[test]
fn left_join_appends_on_clause() {
    let p = person();
    let mut q = QueryCore::new(&p);
    q.left_join(&posts()).unwrap();
    assert_eq!(q.join, " LEFT JOIN Posts ON Posts.person_id = Person.id");
    assert!(q.is_joined(&"Posts".to_string()));
}

#[test]
fn join_kinds_use_their_keywords() {
    let p = person();
    for (kind, text) in [
        (JoinArg::Right, " RIGHT JOIN Posts ON Posts.person_id = Person.id"),
        (JoinArg::Inner, " INNER JOIN Posts ON Posts.person_id = Person.id"),
        (JoinArg::Outer, " OUTER JOIN Posts ON Posts.person_id = Person.id"),
    ] {
        let mut q = QueryCore::new(&p);
        q.join(&posts(), kind).unwrap();
        assert_eq!(q.join, text);
    }
    let mut q = QueryCore::new(&p);
    q.inner_join(&posts()).unwrap();
    assert_eq!(q.join, " INNER JOIN Posts ON Posts.person_id = Person.id");
}

#[test]
fn joining_twice_fails_with_already_joined() {
    let p = person();
    let mut q = QueryCore::new(&p);
    q.left_join(&posts()).unwrap();
    let r = q.right_join(&posts());
    assert!(matches!(r, Err(SsqlError::AlreadyJoined { ref table }) if table == "Posts"));
    assert_eq!(q.tables.len(), 2);
    assert_eq!(q.join, " LEFT JOIN Posts ON Posts.person_id = Person.id");
}

#[test]
fn joining_the_root_table_fails_with_already_joined() {
    let p = person();
    let mut q = QueryCore::new(&p);
    let r = q.outer_join(&person());
    assert!(matches!(r, Err(SsqlError::AlreadyJoined { .. })));
}

#[test]
fn joining_without_relation_fails() {
    let p = person();
    let mut q = QueryCore::new(&p);
    let r = q.left_join(&TableDescriptor::new("Comments"));
    assert!(matches!(r, Err(SsqlError::UnknownRelation { ref table }) if table == "Comments"));
    assert_eq!(q.join, "");
    assert_eq!(q.tables.len(), 1);
}

#[test]
fn filter_on_unjoined_table_fails() {
    let p = person();
    let mut q = QueryCore::new(&p);
    let f = posts().col("id").unwrap().eq(SqlValue::Int(1));
    let r = q.filter(f);
    assert!(matches!(r, Err(SsqlError::TableNotJoined { ref table }) if table == "Posts"));
    assert!(q.filters.is_empty());
    assert!(q.params.is_empty());
}

#[test]
fn order_on_unjoined_table_fails() {
    let p = person();
    let mut q = QueryCore::new(&p);
    let r = q.order_by_asc(ColExpr::new("Posts", "id"));
    assert!(matches!(r, Err(SsqlError::TableNotJoined { .. })));
    assert!(q.order.is_empty());
}

#[test]
fn filter_on_joined_table_succeeds() {
    let p = person();
    let mut q = QueryCore::new(&p);
    q.left_join(&posts()).unwrap();
    q.filter(posts().col("id").unwrap().eq(SqlValue::Int(1))).unwrap();
    assert_eq!(q.filters, vec![" Posts.id = @p1".to_string()]);
}

#[test]
fn unknown_column_fails() {
    let r = person().col("name");
    assert!(matches!(r, Err(SsqlError::ColumnNotFound { ref table, ref field }) if table == "Person" && field == "name"));
}

#[test]
fn full_statement_is_assembled() {
    let p = person();
    let mut q = QueryCore::new(&p);
    q.left_join(&posts()).unwrap();
    q.filter(p.col("id").unwrap().eq(SqlValue::Int(5))).unwrap();
    q.filter(p.col("email").unwrap().is_null()).unwrap();
    q.order_by_desc(p.col("age").unwrap()).unwrap();
    q.order_by(posts().col("id").unwrap(), true).unwrap();
    assert_eq!(
        q.sql(),
        "SELECT Person.id AS \"Person.id\",Person.email AS \"Person.email\",Person.age AS \"Person.age\",Posts.id AS \"Posts.id\",Posts.person_id AS \"Posts.person_id\" FROM Person LEFT JOIN Posts ON Posts.person_id = Person.id WHERE  Person.id = @p1 AND Person.email IS NULL ORDER BY Person.age DESC, Posts.id ASC"
    );
    assert_eq!(q.parameters(), vec![SqlValue::Int(5)]);
}

#[test]
fn statement_without_filters_has_no_where() {
    let p = person();
    let q = QueryCore::new(&p);
    assert_eq!(q.where_clause(), "");
    assert_eq!(q.order_clause(), "");
    assert_eq!(
        q.sql(),
        "SELECT Person.id AS \"Person.id\",Person.email AS \"Person.email\",Person.age AS \"Person.age\" FROM Person"
    );
}

#[test]
fn raw_query_is_run_verbatim() {
    let q = QueryCore::raw_query("SELECT * FROM Person where id = @p1", vec![text("5")]);
    assert_eq!(q.sql(), "SELECT * FROM Person where id = @p1");
    assert_eq!(q.parameters(), vec![text("5")]);
}

#[test]
fn full_column_name_is_qualified() {
    assert_eq!(ColExpr::new("SCHEMA1.Person", "id").full_column_name(), "SCHEMA1.Person.id");
}

#[test]
fn descriptor_lookups() {
    let p = person();
    assert_eq!(p.table_name(), "Person");
    assert_eq!(p.field_names(), vec!["id".to_string(), "email".to_string(), "age".to_string()]);
    assert_eq!(
        p.relation_lookup(&"Posts".to_string()),
        Some("Posts.person_id = Person.id".to_string())
    );
    assert_eq!(p.relation_lookup(&"Other".to_string()), None);
    assert_eq!(p.primary_key, Some("id".to_string()));
}

#[test]
fn message_errors_keep_their_text() {
    assert_eq!(CustomError::new("bad input").message(), "bad input");
    assert_eq!(SentError::new("send failed").message(), "send failed");
}

#[test]
fn error_messages() {
    let e = SsqlError::ColumnNotFound { table: "Person".to_string(), field: "name".to_string() };
    assert_eq!(e.message(), "column name not found in Person");
    let e = SsqlError::AlreadyJoined { table: "Posts".to_string() };
    assert_eq!(e.message(), "table already joined: Posts");
    let e = SsqlError::DriverError { message: "timeout".to_string() };
    assert_eq!(e.message(), "Error occur when executing sql: timeout");
}

#[test]
fn empty_in_list_is_refused() {
    let p = person();
    let mut q = QueryCore::new(&p);
    let r = q.filter(p.col("id").unwrap().is_in(vec![]));
    assert!(matches!(r, Err(SsqlError::EmptyInList { ref column }) if column == "Person.id"));
    let alt = p.col("id").unwrap().eq(SqlValue::Int(1)).or(p.col("age").unwrap().is_in_ref(&[]));
    let r = q.filter(alt);
    assert!(matches!(r, Err(SsqlError::EmptyInList { ref column }) if column == "Person.age"));
    assert!(q.filters.is_empty());
    assert!(q.params.is_empty());
    q.filter(p.col("id").unwrap().eq(SqlValue::Int(1))).unwrap();
    assert_eq!(q.filters, vec![" Person.id = @p1".to_string()]);
}

#[test]
fn raw_query_has_no_composed_state() {
    let q = QueryCore::raw_query("SELECT 1", vec![SqlValue::Int(1)]);
    assert!(q.tables.is_empty());
    assert!(q.join.is_empty());
    assert!(q.filters.is_empty());
    assert!(q.order.is_empty());
    assert!(q.params.is_empty());
    assert!(q.relations.is_empty());
    assert!(q.main_table.is_empty());
}
