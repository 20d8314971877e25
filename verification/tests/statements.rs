use csvtosql::insert::{insert_row_sql_batch, push_row, push_value};
use csvtosql::schema::{build_schema, CsvHeader};
use csvtosql::sql_type::SqlType;

fn strings(items: &[&str]) -> Vec<String> {
    items.iter().map(|s| s.to_string()).collect()
}

fn sample_columns() -> Vec<CsvHeader> {
    build_schema(&strings(&["id", "name", "active"]), &strings(&["1", "Alice", "true"]), false)
        .unwrap()
}

fn render(ty: SqlType, field: &str) -> String {
    let mut out = String::new();
    push_value(&mut out, ty, field);
    out
}

const ALL_TYPES: [SqlType; 6] = [
    SqlType::String,
    SqlType::Integer,
    SqlType::Boolean,
    SqlType::Float,
    SqlType::IsoDateTime,
    SqlType::NaiveDate,
];

#[test]
fn value_with_both_quotes_is_escaped() {
    assert_eq!(render(SqlType::String, "O'Brien \"The Boss\""), "'O''Brien \\\"The Boss\\\"'");
}

#[test]
fn escaped_value_reads_back() {
    let value = "O'Brien \"The Boss\"";
    let written = render(SqlType::String, value);
    let inner = &written[1..written.len() - 1];
    let read = inner.replace("''", "'").replace("\\\"", "\"");
    assert_eq!(read, value);
}

#[test]
fn empty_field_is_null_for_every_type() {
    for ty in ALL_TYPES.iter() {
        assert_eq!(render(*ty, ""), "NULL");
    }
}

#[test]
fn quoted_types_wrap_the_value() {
    assert_eq!(render(SqlType::String, "Alice"), "'Alice'");
    assert_eq!(render(SqlType::NaiveDate, "2024-01-05"), "'2024-01-05'");
    assert_eq!(render(SqlType::IsoDateTime, "2024-01-05T10:00:00Z"), "'2024-01-05T10:00:00Z'");
    assert_eq!(render(SqlType::String, "NULL"), "'NULL'");
    assert_eq!(render(SqlType::String, " "), "' '");
}

#[test]
fn bare_types_write_the_value_as_it_is() {
    assert_eq!(render(SqlType::Integer, "42"), "42");
    assert_eq!(render(SqlType::Float, "4.5"), "4.5");
    assert_eq!(render(SqlType::Boolean, "true"), "true");
    assert_eq!(render(SqlType::Integer, "it's"), "it's");
    assert_eq!(render(SqlType::Integer, "not a number"), "not a number");
}

#[test]
fn escaping_of_single_characters() {
    assert_eq!(render(SqlType::String, "'"), "''''");
    assert_eq!(render(SqlType::String, "\""), "'\\\"'");
    assert_eq!(render(SqlType::String, "\\"), "'\\'");
    assert_eq!(render(SqlType::String, "''"), "''''''");
    assert_eq!(render(SqlType::String, "\\\""), "'\\\\\"'");
    assert_eq!(render(SqlType::String, "é'ü"), "'é''ü'");
}

#[test]
fn escaping_is_the_two_replacements_in_order() {
    let values = ["O'Brien \"The Boss\"", "\"'\"'", "a\\\"b", "'''", "plain", "\\'"];
    for v in values.iter() {
        let expected = format!("'{}'", v.replace("\"", "\\\"").replace("'", "''"));
        assert_eq!(render(SqlType::String, v), expected);
    }
}

#[test]
fn push_value_adds_at_the_end() {
    let mut out = String::from("x = ");
    push_value(&mut out, SqlType::String, "y");
    assert_eq!(out, "x = 'y'");
}

#[test]
fn row_is_a_bracketed_list() {
    let cols = sample_columns();
    let mut out = String::new();
    push_row(&mut out, &cols, &strings(&["1", "Alice", "true"]));
    assert_eq!(out, "(1, 'Alice', true)");
}

#[test]
fn row_with_fewer_fields_than_columns() {
    let cols = sample_columns();
    let mut out = String::new();
    push_row(&mut out, &cols, &strings(&["1", "Bob"]));
    assert_eq!(out, "(1, 'Bob')");
    let mut none = String::new();
    push_row(&mut none, &cols, &strings(&[]));
    assert_eq!(none, "()");
}

#[test]
fn row_with_more_fields_than_columns() {
    let cols = sample_columns();
    let mut out = String::new();
    push_row(&mut out, &cols, &strings(&["1", "Bob", "false", "extra"]));
    assert_eq!(out, "(1, 'Bob', false)");
}

#[test]
fn insert_statement_of_two_rows() {
    let cols = sample_columns();
    let rows = vec![strings(&["1", "Alice", "true"]), strings(&["2", "", "false"])];
    let mut buffer = String::new();
    let count = insert_row_sql_batch(&mut buffer, "t", &cols, &rows);
    assert_eq!(count, 2);
    assert_eq!(
        buffer,
        "INSERT INTO t (id, name, active) VALUES (1, 'Alice', true), (2, NULL, false);"
    );
}

#[test]
fn insert_statement_replaces_the_buffer() {
    let cols = sample_columns();
    let mut buffer = String::from("left over from the batch before");
    let count = insert_row_sql_batch(&mut buffer, "t", &cols, &[strings(&["7", "x", ""])]);
    assert_eq!(count, 1);
    assert_eq!(buffer, "INSERT INTO t (id, name, active) VALUES (7, 'x', NULL);");
    let count = insert_row_sql_batch(&mut buffer, "t", &cols, &[strings(&["8", "y", "true"])]);
    assert_eq!(count, 1);
    assert_eq!(buffer, "INSERT INTO t (id, name, active) VALUES (8, 'y', true);");
}

#[test]
fn insert_statement_of_one_column() {
    let cols = vec![CsvHeader::new("Order".to_string(), SqlType::String)];
    let rows = vec![strings(&["a"]), strings(&["b'c"]), strings(&[""])];
    let mut buffer = String::new();
    let count = insert_row_sql_batch(&mut buffer, "orders", &cols, &rows);
    assert_eq!(count, 3);
    assert_eq!(buffer, "INSERT INTO orders (order_) VALUES ('a'), ('b''c'), (NULL);");
}

#[test]
fn insert_statement_without_rows() {
    let cols = sample_columns();
    let mut buffer = String::new();
    let count = insert_row_sql_batch(&mut buffer, "t", &cols, &[]);
    assert_eq!(count, 0);
    assert_eq!(buffer, "INSERT INTO t (id, name, active) VALUES ;");
}

#[test]
fn insert_statement_without_columns() {
    let cols: Vec<CsvHeader> = Vec::new();
    let mut buffer = String::new();
    let count = insert_row_sql_batch(&mut buffer, "t", &cols, &[strings(&["1"]), strings(&[])]);
    assert_eq!(count, 2);
    assert_eq!(buffer, "INSERT INTO t () VALUES (), ();");
}

#[test]
fn late_rows_are_written_as_their_column_says() {
    // the types come from the first row; later values are not checked
    let cols = sample_columns();
    let rows = vec![strings(&["one", "2", "maybe"])];
    let mut buffer = String::new();
    insert_row_sql_batch(&mut buffer, "t", &cols, &rows);
    assert_eq!(buffer, "INSERT INTO t (id, name, active) VALUES (one, '2', maybe);");
}
