use swaply_identity::column::{Column, ColumnValue, Row};
use time::Timespec;

fn column(name: &str, value: ColumnValue) -> Column {
    Column { name: name.to_string(), value }
}

#[test]
fn row_get_finds_a_column_by_its_name() {
    let row = Row {
        columns: vec![
            column("id", ColumnValue::Uuid(7)),
            column("username", ColumnValue::Text("test".to_string())),
            column("registered_at", ColumnValue::Timestamp(Timespec { sec: 1, nsec: 2 })),
            column("email", ColumnValue::Null),
        ],
    };
    assert_eq!(row.get("id"), Some(&ColumnValue::Uuid(7)));
    assert_eq!(row.get("username"), Some(&ColumnValue::Text("test".to_string())));
    assert_eq!(
        row.get("registered_at"),
        Some(&ColumnValue::Timestamp(Timespec { sec: 1, nsec: 2 }))
    );
    assert_eq!(row.get("email"), Some(&ColumnValue::Null));
}

#[test]
fn row_get_finds_nothing_under_a_name_that_is_not_there() {
    let row = Row { columns: vec![column("id", ColumnValue::Uuid(7))] };
    assert_eq!(row.get("username"), None);
    assert_eq!(row.get("i"), None);
    assert_eq!(row.get("idd"), None);
    assert_eq!(row.get("ID"), None);
    assert_eq!(row.get(""), None);
    assert_eq!(Row { columns: vec![] }.get("id"), None);
}

#[test]
fn row_get_takes_the_first_of_two_columns_of_one_name() {
    let row = Row {
        columns: vec![
            column("a", ColumnValue::Uuid(1)),
            column("b", ColumnValue::Uuid(2)),
            column("b", ColumnValue::Uuid(3)),
        ],
    };
    assert_eq!(row.get("b"), Some(&ColumnValue::Uuid(2)));
}
