use slick_dataui::db::QueryResult;
use slick_dataui::table_delegate::{ColumnSort, QueryResultsDelegate};

fn two_by_two() -> QueryResult {
    QueryResult {
        columns: vec!["id".to_string(), "name".to_string()],
        rows: vec![
            vec!["1".to_string(), "Alice".to_string()],
            vec!["2".to_string(), "Bob".to_string()],
        ],
    }
}

#[test]
fn table_delegate_test_new() {
    let delegate = QueryResultsDelegate::new(two_by_two(), None, true);

    assert_eq!(delegate.columns_count(), 2);
    assert_eq!(delegate.results.rows.len(), 2);
}

#[test]
fn test_sorting() {
    let results = QueryResult {
        columns: vec!["val".to_string()],
        rows: vec![
            vec!["B".to_string()],
            vec!["A".to_string()],
            vec!["C".to_string()],
        ],
    };
    let mut delegate = QueryResultsDelegate::new(results, None, true);

    delegate.sort_rows(0, ColumnSort::Ascending);
    assert_eq!(delegate.results.rows[0][0], "A");
    assert_eq!(delegate.results.rows[1][0], "B");
    assert_eq!(delegate.results.rows[2][0], "C");

    delegate.sort_rows(0, ColumnSort::Descending);
    assert_eq!(delegate.results.rows[0][0], "C");
    assert_eq!(delegate.results.rows[1][0], "B");
    assert_eq!(delegate.results.rows[2][0], "A");
}

#[test]
fn test_new_restores_remembered_sort() {
    let delegate = QueryResultsDelegate::new(two_by_two(), Some("name".to_string()), false);
    assert_eq!(delegate.current_sort_col, Some(1));
    assert_eq!(delegate.current_sort_order, ColumnSort::Descending);

    let delegate = QueryResultsDelegate::new(two_by_two(), Some("missing".to_string()), true);
    assert_eq!(delegate.current_sort_col, None);
    assert_eq!(delegate.current_sort_order, ColumnSort::Unsorted);
}

#[test]
fn test_sort_rewrites_query() {
    let mut delegate = QueryResultsDelegate::new(two_by_two(), None, true);
    let rewritten = delegate.perform_sort(1, ColumnSort::Ascending, Some("SELECT * FROM t"));
    assert_eq!(
        rewritten.as_deref(),
        Some("SELECT * FROM t ORDER BY \"name\" ASC")
    );
}

#[test]
fn test_second_sort_without_direction_toggles_to_desc() {
    let mut delegate = QueryResultsDelegate::new(two_by_two(), None, true);
    let first = delegate.perform_sort(1, ColumnSort::Unsorted, Some("SELECT * FROM t"));
    assert_eq!(
        first.as_deref(),
        Some("SELECT * FROM t ORDER BY \"name\" ASC")
    );
    let second = delegate.perform_sort(1, ColumnSort::Unsorted, Some("SELECT * FROM t"));
    assert_eq!(
        second.as_deref(),
        Some("SELECT * FROM t ORDER BY \"name\" DESC")
    );
}

#[test]
fn test_sort_strips_existing_order_by() {
    let mut delegate = QueryResultsDelegate::new(two_by_two(), None, true);
    let rewritten = delegate.perform_sort(
        0,
        ColumnSort::Descending,
        Some("SELECT * FROM t order by \"name\" ASC"),
    );
    assert_eq!(
        rewritten.as_deref(),
        Some("SELECT * FROM t ORDER BY \"id\" DESC")
    );
}

#[test]
fn test_sort_escapes_quotes_in_column_name() {
    let results = QueryResult {
        columns: vec!["odd\"name".to_string()],
        rows: vec![],
    };
    let mut delegate = QueryResultsDelegate::new(results, None, true);
    let rewritten = delegate.perform_sort(0, ColumnSort::Ascending, Some("SELECT 1"));
    assert_eq!(
        rewritten.as_deref(),
        Some("SELECT 1 ORDER BY \"odd\"\"name\" ASC")
    );
}

#[test]
fn test_sort_outside_columns_is_ignored() {
    let mut delegate = QueryResultsDelegate::new(two_by_two(), None, true);
    let rewritten = delegate.perform_sort(5, ColumnSort::Ascending, Some("SELECT * FROM t"));
    assert!(rewritten.is_none());
    assert_eq!(delegate.current_sort_col, None);
}

#[test]
fn test_cell_text_inside_and_outside_the_snapshot() {
    let delegate = QueryResultsDelegate::new(two_by_two(), None, true);
    assert_eq!(delegate.cell_text(0, 1), "Alice");
    assert_eq!(delegate.cell_text(1, 0), "2");
    assert_eq!(delegate.cell_text(5, 0), "");
    assert_eq!(delegate.cell_text(0, 9), "");
}

#[test]
fn test_sort_rows_without_direction_keeps_order() {
    let mut delegate = QueryResultsDelegate::new(two_by_two(), None, true);
    delegate.sort_rows(0, ColumnSort::Unsorted);
    assert_eq!(delegate.results.rows[0][0], "1");
    assert_eq!(delegate.results.rows[1][0], "2");
}
