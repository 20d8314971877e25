use csvtosql::schema::{build_schema, create_table_sql, CsvHeader, SchemaError};
use csvtosql::sql_type::SqlType;

fn strings(items: &[&str]) -> Vec<String> {
    items.iter().map(|s| s.to_string()).collect()
}

#[test]
fn keywords_of_the_types() {
    assert_eq!(SqlType::String.keyword(), "TEXT");
    assert_eq!(SqlType::Integer.keyword(), "INTEGER");
    assert_eq!(SqlType::Float.keyword(), "REAL");
    assert_eq!(SqlType::IsoDateTime.keyword(), "TIMESTAMP");
    assert_eq!(SqlType::NaiveDate.keyword(), "DATE");
    assert_eq!(SqlType::Boolean.keyword(), "BOOLEAN");
}

#[test]
fn quoting_of_the_types() {
    assert!(SqlType::String.is_quoted());
    assert!(SqlType::IsoDateTime.is_quoted());
    assert!(SqlType::NaiveDate.is_quoted());
    assert!(!SqlType::Integer.is_quoted());
    assert!(!SqlType::Float.is_quoted());
    assert!(!SqlType::Boolean.is_quoted());
}

#[test]
fn header_keeps_title_and_normalises_name() {
    let h = CsvHeader::new("Sales %".to_string(), SqlType::Float);
    assert_eq!(h.title(), "Sales %");
    assert_eq!(h.normalised(), "sales_p");
    assert_eq!(h.ty(), SqlType::Float);
    assert_eq!(h.ty_str(), "REAL");
    assert!(!h.need_quotes());
}

#[test]
fn header_of_reserved_word() {
    let h = CsvHeader::new("Group".to_string(), SqlType::String);
    assert_eq!(h.title(), "Group");
    assert_eq!(h.normalised(), "group_");
    assert_eq!(h.ty_str(), "TEXT");
    assert!(h.need_quotes());
}

#[test]
fn header_ty_str_for_each_type() {
    let types = [
        (SqlType::String, "TEXT", true),
        (SqlType::Integer, "INTEGER", false),
        (SqlType::Float, "REAL", false),
        (SqlType::IsoDateTime, "TIMESTAMP", true),
        (SqlType::NaiveDate, "DATE", true),
        (SqlType::Boolean, "BOOLEAN", false),
    ];
    for (ty, kw, quotes) in types.iter() {
        let h = CsvHeader::new("c".to_string(), *ty);
        assert_eq!(h.ty_str(), *kw);
        assert_eq!(h.need_quotes(), *quotes);
    }
}

#[test]
fn with_type_changes_the_type_only() {
    let h = CsvHeader::new("User-ID".to_string(), SqlType::Integer);
    let t = h.with_type(SqlType::String);
    assert_eq!(t.title(), "User-ID");
    assert_eq!(t.normalised(), "user_id");
    assert_eq!(t.ty(), SqlType::String);
    assert_eq!(h.ty(), SqlType::Integer);
    let c = t.clone();
    assert_eq!(c.title(), "User-ID");
    assert_eq!(c.normalised(), "user_id");
    assert_eq!(c.ty(), SqlType::String);
}

#[test]
fn schema_from_header_and_sample() {
    let cols = build_schema(
        &strings(&["id", "name", "active"]),
        &strings(&["1", "Alice", "true"]),
        false,
    )
    .unwrap();
    assert_eq!(cols.len(), 3);
    assert_eq!(cols[0].normalised(), "id");
    assert_eq!(cols[0].ty(), SqlType::Integer);
    assert_eq!(cols[1].normalised(), "name");
    assert_eq!(cols[1].ty(), SqlType::String);
    assert_eq!(cols[2].normalised(), "active");
    assert_eq!(cols[2].ty(), SqlType::Boolean);
}

#[test]
fn schema_of_every_type() {
    let cols = build_schema(
        &strings(&["A", "B", "C", "D", "E", "F"]),
        &strings(&["x", "-3", "2.5", "2024-01-05T10:00:00Z", "2024-01-05", "FALSE"]),
        false,
    )
    .unwrap();
    let types: Vec<SqlType> = cols.iter().map(|c| c.ty()).collect();
    assert_eq!(
        types,
        vec![
            SqlType::String,
            SqlType::Integer,
            SqlType::Float,
            SqlType::IsoDateTime,
            SqlType::NaiveDate,
            SqlType::Boolean
        ]
    );
    let names: Vec<&str> = cols.iter().map(|c| c.normalised()).collect();
    assert_eq!(names, vec!["a", "b", "c", "d", "e", "f"]);
}

#[test]
fn schema_forced_to_text() {
    let cols = build_schema(
        &strings(&["id", "when", "ok"]),
        &strings(&["1", "2024-01-05", "true"]),
        true,
    )
    .unwrap();
    assert_eq!(cols.len(), 3);
    for c in cols.iter() {
        assert_eq!(c.ty(), SqlType::String);
    }
    assert_eq!(cols[1].title(), "when");
    assert_eq!(cols[1].normalised(), "when_");
}

#[test]
fn schema_fails_on_header_without_sample() {
    let r = build_schema(&strings(&["id", "name", "active"]), &strings(&["1", "Alice"]), false);
    assert_eq!(r.err(), Some(SchemaError::UnmatchedHeader { headers: 3, fields: 2 }));
    let r = build_schema(&strings(&["id"]), &strings(&[]), true);
    assert_eq!(r.err(), Some(SchemaError::UnmatchedHeader { headers: 1, fields: 0 }));
}

#[test]
fn schema_ignores_fields_beyond_the_headers() {
    let cols = build_schema(&strings(&["id"]), &strings(&["1", "extra"]), false).unwrap();
    assert_eq!(cols.len(), 1);
    assert_eq!(cols[0].ty(), SqlType::Integer);
}

#[test]
fn schema_of_no_headers_is_empty() {
    let cols = build_schema(&strings(&[]), &strings(&[]), false).unwrap();
    assert!(cols.is_empty());
}

#[test]
fn schema_keeps_colliding_names() {
    let cols = build_schema(&strings(&["a b", "a-b"]), &strings(&["1", "2"]), false).unwrap();
    assert_eq!(cols[0].normalised(), "a_b");
    assert_eq!(cols[1].normalised(), "a_b");
}

#[test]
fn create_table_statement() {
    let cols = build_schema(
        &strings(&["id", "name", "active"]),
        &strings(&["1", "Alice", "true"]),
        false,
    )
    .unwrap();
    assert_eq!(
        create_table_sql("t", &cols),
        "CREATE TABLE IF NOT EXISTS t (\n  id INTEGER,\n  name TEXT,\n  active BOOLEAN\n);"
    );
}

#[test]
fn create_table_statement_of_one_column() {
    let cols = vec![CsvHeader::new("When".to_string(), SqlType::IsoDateTime)];
    assert_eq!(
        create_table_sql("events", &cols),
        "CREATE TABLE IF NOT EXISTS events (\n  when_ TIMESTAMP\n);"
    );
}

#[test]
fn create_table_statement_of_each_keyword() {
    let cols = vec![
        CsvHeader::new("a".to_string(), SqlType::Float),
        CsvHeader::new("b".to_string(), SqlType::NaiveDate),
    ];
    assert_eq!(
        create_table_sql("x y", &cols),
        "CREATE TABLE IF NOT EXISTS x y (\n  a REAL,\n  b DATE\n);"
    );
}

#[test]
fn create_table_statement_without_columns() {
    let cols: Vec<CsvHeader> = Vec::new();
    assert_eq!(create_table_sql("t", &cols), "CREATE TABLE IF NOT EXISTS t \n);");
}
