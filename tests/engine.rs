use std::cmp::Ordering;

use fastdata::aggregate::{aggregate, to_decimal, unique_count, AggregateValue, AggregationFunction};
use fastdata::data_loader::{get_loader, loader_for_lowercase, CsvLoader, DataLoader, LoadError};
use fastdata::sort::{compare_cells, sort_rows, NumKey};
use fastdata::table::{TableData, VirtualTable};
use fastdata::tui_app::{Action, InputEvent, InputMode, Key, TuiApp};
use fastdata::view_stack::ViewStack;
use fastdata::width::{column_width, ColumnWidth};

fn strings(v: &[&str]) -> Vec<String> {
    v.iter().map(|s| s.to_string()).collect()
}

fn table(headers: &[&str], columns: &[&[&str]]) -> TableData {
    TableData::new(strings(headers), columns.iter().map(|c| strings(c)).collect())
}

fn app(headers: &[&str], columns: &[&[&str]]) -> TuiApp {
    TuiApp::new(VirtualTable::new(table(headers, columns)))
}

fn key(k: Key) -> InputEvent {
    InputEvent::Key(k)
}

fn ch(c: char) -> InputEvent {
    InputEvent::Key(Key::Char(c))
}

fn ordered(n: u64) -> Option<NumKey> {
    Some(NumKey::Ordered(n))
}

#[test]
fn count_is_row_count_even_when_empty() {
    let empty = table(&["A"], &[&[]]);
    assert_eq!(aggregate(&empty, 0, AggregationFunction::Count, &vec![]), AggregateValue::Text("0".to_string()));
    let t = table(&["A"], &[&["x", "", "zz"]]);
    let keys = vec![None, None, None];
    assert_eq!(aggregate(&t, 0, AggregationFunction::Count, &keys), AggregateValue::Text("3".to_string()));
}

#[test]
fn sum_needs_every_cell_numeric() {
    let t = table(&["N"], &[&["1", "x", "3"]]);
    assert_eq!(
        aggregate(&t, 0, AggregationFunction::Sum, &vec![ordered(1), None, ordered(3)]),
        AggregateValue::NotApplicable
    );
    let t = table(&["N"], &[&["1", "2"]]);
    assert_eq!(aggregate(&t, 0, AggregationFunction::Sum, &vec![ordered(1), ordered(2)]), AggregateValue::NumericSum);
    let empty = table(&["N"], &[&[]]);
    assert_eq!(aggregate(&empty, 0, AggregationFunction::Sum, &vec![]), AggregateValue::NotApplicable);
}

#[test]
fn unique_count_counts_distinct_cells() {
    let t = table(&["A"], &[&["b", "a", "b", "c", "a"]]);
    assert_eq!(unique_count(&t.columns[0]), 3);
    assert_eq!(
        aggregate(&t, 0, AggregationFunction::UniqueCount, &vec![None; 5]),
        AggregateValue::Text("3".to_string())
    );
}

#[test]
fn unique_count_same_after_sort() {
    let mut t = table(&["A", "B"], &[&["b", "a", "b", "c"], &["1", "2", "1", "4"]]);
    let before = unique_count(&t.columns[1]);
    sort_rows(&mut t, 0, &vec![None; 4], true);
    assert_eq!(unique_count(&t.columns[1]), before);
    assert_eq!(t.columns[0], strings(&["a", "b", "b", "c"]));
}

#[test]
fn decimal_text() {
    assert_eq!(to_decimal(0), "0");
    assert_eq!(to_decimal(1234), "1234");
    assert_eq!(to_decimal(10), "10");
}

#[test]
fn compare_numeric_and_lexicographic() {
    assert_eq!(compare_cells("9", ordered(9), "10", ordered(10)), Ordering::Less);
    assert_eq!(compare_cells("10", ordered(10), "9", ordered(9)), Ordering::Greater);
    assert_eq!(compare_cells("10", ordered(10), "abc", None), Ordering::Less);
    assert_eq!(compare_cells("10", None, "9", None), Ordering::Less);
    assert_eq!(compare_cells("NaN", Some(NumKey::NotANumber), "3", ordered(3)), Ordering::Equal);
}

#[test]
fn sort_places_nine_before_ten() {
    let mut t = table(&["N", "M"], &[&["10", "9", "abc"], &["x", "y", "z"]]);
    sort_rows(&mut t, 0, &vec![ordered(10), ordered(9), None], true);
    assert_eq!(t.columns[0], strings(&["9", "10", "abc"]));
    assert_eq!(t.columns[1], strings(&["y", "x", "z"]));
}

#[test]
fn sort_ascending_then_descending_keeps_rows() {
    let mut t = table(&["K", "V"], &[&["b", "a", "c", "a"], &["1", "2", "3", "4"]]);
    sort_rows(&mut t, 0, &vec![None; 4], true);
    assert_eq!(t.columns[0], strings(&["a", "a", "b", "c"]));
    assert_eq!(t.columns[1], strings(&["2", "4", "1", "3"]));
    sort_rows(&mut t, 0, &vec![None; 4], false);
    assert_eq!(t.columns[0], strings(&["c", "b", "a", "a"]));
    assert_eq!(t.columns[1], strings(&["3", "1", "4", "2"]));
    let mut rows: Vec<(String, String)> = (0..4).map(|i| (t.columns[0][i].clone(), t.columns[1][i].clone())).collect();
    rows.sort();
    let expected: Vec<(String, String)> = vec![("a", "2"), ("a", "4"), ("b", "1"), ("c", "3")]
        .into_iter()
        .map(|(a, b)| (a.to_string(), b.to_string()))
        .collect();
    assert_eq!(rows, expected);
}

#[test]
fn sort_twice_ascending_is_idempotent() {
    let mut t = table(&["K", "V"], &[&["3", "1", "2", "1"], &["a", "b", "c", "d"]]);
    let keys = vec![ordered(3), ordered(1), ordered(2), ordered(1)];
    sort_rows(&mut t, 0, &keys, true);
    let once = (t.columns[0].clone(), t.columns[1].clone());
    assert_eq!(once.1, strings(&["b", "d", "c", "a"]));
    let keys = vec![ordered(1), ordered(1), ordered(2), ordered(3)];
    sort_rows(&mut t, 0, &keys, true);
    assert_eq!((t.columns[0].clone(), t.columns[1].clone()), once);
}

#[test]
fn sort_key_resets_row_and_asks_caller() {
    let mut a = app(&["N"], &[&["2", "1"]]);
    a.handle_event(key(Key::Down));
    assert_eq!(a.selected_row, 1);
    assert_eq!(a.handle_event(ch('[')), Action::Sort { ascending: true });
    assert_eq!(a.handle_event(ch(']')), Action::Sort { ascending: false });
    a.sort_table(true, &vec![ordered(2), ordered(1)]);
    assert_eq!(a.selected_row, 0);
    assert_eq!(a.table.data.columns[0], strings(&["1", "2"]));
}

#[test]
fn detail_view_of_name_and_age() {
    let parent = app(&["Name", "Age"], &[&["Bob", "Alice"], &["40", "30"]]);
    let mut stack = ViewStack::new(parent);
    let mut top = stack.pop_current().unwrap();
    top.handle_event(key(Key::Down));
    top.handle_event(key(Key::Right));
    top.handle_event(ch(' '));
    top.handle_event(ch(' '));
    top.handle_event(key(Key::Enter));
    assert_eq!(top.handle_event(key(Key::Enter)), Action::OpenDetail);
    stack.push(top);
    stack.push_detail();
    let detail = stack.pop_current().unwrap();
    assert_eq!(detail.table.data.headers, strings(&["Field", "Value"]));
    assert_eq!(detail.table.data.columns[0], strings(&["Name", "Age"]));
    assert_eq!(detail.table.data.columns[1], strings(&["Alice", "30"]));
    assert_eq!(detail.selected_row, 0);
    assert!(detail.selected_aggregations.is_empty());
    let back = stack.pop_current().unwrap();
    assert!(stack.is_empty());
    assert_eq!(back.selected_row, 1);
    assert_eq!(back.selected_column, 1);
    assert!(back.is_aggregation_selected(1, AggregationFunction::Count));
    assert_eq!(back.mode, InputMode::Normal);
}

#[test]
fn toggle_aggregation_twice_removes_column() {
    let mut a = app(&["A", "B"], &[&["1"], &["2"]]);
    a.handle_event(ch(' '));
    assert_eq!(a.mode, InputMode::PopupOpen { cursor: 0 });
    a.handle_event(key(Key::Down));
    a.handle_event(ch(' '));
    assert!(a.is_aggregation_selected(0, AggregationFunction::UniqueCount));
    assert_eq!(a.panel_columns(), vec![0]);
    assert_eq!(a.panel_functions(), vec![AggregationFunction::UniqueCount]);
    a.handle_event(ch(' '));
    assert!(!a.selected_aggregations.contains_key(&0));
    assert!(a.panel_columns().is_empty());
    a.handle_event(ch('q'));
    assert_eq!(a.mode, InputMode::Normal);
}

#[test]
fn popup_cursor_wraps() {
    let mut a = app(&["A"], &[&["1"]]);
    a.handle_event(ch(' '));
    a.handle_event(key(Key::Up));
    assert_eq!(a.mode, InputMode::PopupOpen { cursor: 2 });
    a.handle_event(key(Key::Down));
    assert_eq!(a.mode, InputMode::PopupOpen { cursor: 0 });
    a.handle_event(ch(' '));
    a.handle_event(key(Key::Enter));
    assert_eq!(a.mode, InputMode::Normal);
    assert!(a.is_aggregation_selected(0, AggregationFunction::Count));
}

#[test]
fn panel_lists_functions_in_fixed_order() {
    let mut a = app(&["A", "B"], &[&["1"], &["2"]]);
    a.toggle_aggregation(AggregationFunction::Sum);
    a.handle_event(key(Key::Right));
    a.toggle_aggregation(AggregationFunction::Count);
    assert_eq!(a.panel_functions(), vec![AggregationFunction::Count, AggregationFunction::Sum]);
    assert_eq!(a.panel_columns(), vec![0, 1]);
}

#[test]
fn moves_clamp_at_edges() {
    let mut a = app(&["A", "B"], &[&["1", "2"], &["3", "4"]]);
    a.handle_event(key(Key::Up));
    a.handle_event(key(Key::Left));
    assert_eq!((a.selected_row, a.selected_column), (0, 0));
    for _ in 0..5 {
        a.handle_event(key(Key::Down));
        a.handle_event(key(Key::Right));
    }
    assert_eq!((a.selected_row, a.selected_column), (1, 1));
}

#[test]
fn viewport_follows_selected_column() {
    let mut a = app(&["A", "B", "C", "D"], &[&["1"], &["2"], &["3"], &["4"]]);
    a.set_table_area_width(34);
    for _ in 0..3 {
        a.handle_event(key(Key::Right));
    }
    // Columns of width 15 and one separator: column 3 spans [48, 63); window 32.
    assert_eq!(a.horizontal_offset, 31);
    a.handle_event(key(Key::Left));
    a.handle_event(key(Key::Left));
    // Column 1 starts at 16.
    assert_eq!(a.horizontal_offset, 16);
    a.handle_event(key(Key::Left));
    assert_eq!(a.horizontal_offset, 0);
}

#[test]
fn chord_prefix_then_other_key_changes_nothing() {
    let mut a = app(&["A"], &[&["1"]]);
    a.toggle_aggregation(AggregationFunction::Count);
    a.handle_event(ch('g'));
    assert_eq!(a.mode, InputMode::ChordPending);
    assert_eq!(a.handle_event(ch('x')), Action::Continue);
    assert_eq!(a.mode, InputMode::Normal);
    assert!(a.is_aggregation_selected(0, AggregationFunction::Count));
    assert_eq!(a.column_widths, vec![ColumnWidth::Fixed(15)]);
    a.handle_event(ch('g'));
    a.handle_event(InputEvent::NoKey);
    assert_eq!(a.mode, InputMode::Normal);
    assert!(a.is_aggregation_selected(0, AggregationFunction::Count));
}

#[test]
fn chord_commands() {
    let mut a = app(&["A", "B"], &[&["1"], &["2"]]);
    a.toggle_aggregation(AggregationFunction::Sum);
    a.handle_event(ch('g'));
    a.handle_event(ch('-'));
    assert!(a.selected_aggregations.is_empty());
    a.handle_event(ch('_'));
    assert_eq!(a.column_widths, vec![ColumnWidth::Content, ColumnWidth::Fixed(15)]);
    a.handle_event(ch('g'));
    a.handle_event(ch('_'));
    assert_eq!(a.column_widths, vec![ColumnWidth::Fixed(15), ColumnWidth::Content]);
    assert_eq!(a.mode, InputMode::Normal);
}

#[test]
fn quit_key_asks_to_close() {
    let mut a = app(&["A"], &[&["1"]]);
    assert_eq!(a.handle_event(ch('q')), Action::Quit);
    let mut empty = app(&["A"], &[&[]]);
    assert_eq!(empty.handle_event(key(Key::Enter)), Action::Continue);
}

#[test]
fn column_widths_by_policy() {
    let col = strings(&["abc", "héllo wörld"]);
    assert_eq!(column_width(ColumnWidth::Content, &col), 13);
    assert_eq!(column_width(ColumnWidth::Content, &vec![]), 12);
    assert_eq!(column_width(ColumnWidth::Fixed(15), &col), 15);
    assert_eq!(ColumnWidth::Content.toggle(), ColumnWidth::Fixed(15));
    assert_eq!(ColumnWidth::Fixed(7).toggle(), ColumnWidth::Content);
}

#[test]
fn loader_by_format_in_any_case() {
    assert!(get_loader("csv").is_ok());
    assert!(get_loader("CSV").is_ok());
    assert!(loader_for_lowercase("csv", "CsV").is_ok());
    assert!(loader_for_lowercase("CSV", "CSV").is_err());
    match get_loader("xlsx") {
        Err(e) => {
            assert_eq!(e, LoadError::UnsupportedFormat("xlsx".to_string()));
            assert_eq!(e.message(), "File format 'xlsx' is not supported");
        }
        Ok(_) => panic!("xlsx accepted"),
    }
}

#[test]
fn records_become_columns() {
    let t = CsvLoader
        .table_from_records(strings(&["a", "b"]), vec![strings(&["1", "2"]), strings(&["3", "4"])])
        .unwrap();
    assert_eq!(t.headers, strings(&["a", "b"]));
    assert_eq!(t.columns, vec![strings(&["1", "3"]), strings(&["2", "4"])]);
    let err = CsvLoader.table_from_records(strings(&["a", "b"]), vec![strings(&["1", "2"]), strings(&["3"])]);
    assert_eq!(err.unwrap_err(), LoadError::UnequalLengths { record: 1 });
}

#[test]
fn unequal_lengths_message_names_record() {
    assert_eq!(
        LoadError::UnequalLengths { record: 12 }.message(),
        "record 12 has a number of fields other than the header's"
    );
}

#[test]
fn detail_view_of_table_without_columns() {
    let mut stack = ViewStack::new(app(&[], &[]));
    let mut top = stack.pop_current().unwrap();
    assert_eq!(top.handle_event(key(Key::Enter)), Action::OpenDetail);
    stack.push(top);
    stack.push_detail();
    let detail = stack.pop_current().unwrap();
    assert_eq!(detail.table.data.headers, strings(&["Field", "Value"]));
    assert_eq!(detail.table.data.columns, vec![Vec::<String>::new(), Vec::new()]);
    assert_eq!(detail.column_widths, vec![ColumnWidth::Fixed(15), ColumnWidth::Fixed(15)]);
    assert_eq!(detail.selected_row, 0);
}

#[test]
fn panel_cell_placeholder_when_not_requested() {
    let mut a = app(&["N"], &[&["1", "2", "2"]]);
    let keys = vec![ordered(1), ordered(2), ordered(2)];
    assert_eq!(a.panel_cell(0, AggregationFunction::Count, &keys), AggregateValue::NotApplicable);
    a.toggle_aggregation(AggregationFunction::UniqueCount);
    a.toggle_aggregation(AggregationFunction::Sum);
    assert_eq!(a.panel_cell(0, AggregationFunction::UniqueCount, &keys), AggregateValue::Text("2".to_string()));
    assert_eq!(a.panel_cell(0, AggregationFunction::Sum, &keys), AggregateValue::NumericSum);
    assert_eq!(a.panel_cell(0, AggregationFunction::Count, &keys), AggregateValue::NotApplicable);
}

#[test]
fn first_visible_column_follows_offset() {
    let mut a = app(&["A", "B", "C", "D"], &[&["1"], &["2"], &["3"], &["4"]]);
    a.set_table_area_width(34);
    assert_eq!(a.first_visible_column(), 0);
    for _ in 0..3 {
        a.handle_event(key(Key::Right));
    }
    // Offset 31: columns start at 0, 16, 32, 48.
    assert_eq!(a.first_visible_column(), 2);
}

#[test]
fn descending_sort_reverses_ties() {
    let mut t = table(&["K", "V"], &[&["1", "1", "2"], &["x", "y", "z"]]);
    sort_rows(&mut t, 0, &vec![ordered(1), ordered(1), ordered(2)], false);
    assert_eq!(t.columns[0], strings(&["2", "1", "1"]));
    assert_eq!(t.columns[1], strings(&["z", "y", "x"]));
}

#[test]
fn highlights_and_panel_visibility() {
    let mut a = app(&["A", "B"], &[&["1", "2"], &["3", "4"]]);
    assert!(!a.shows_panel());
    a.handle_event(key(Key::Down));
    a.handle_event(key(Key::Right));
    assert!(a.is_header_highlighted(1));
    assert!(!a.is_header_highlighted(0));
    assert!(a.is_cell_highlighted(1, 1));
    assert!(!a.is_cell_highlighted(0, 1));
    a.toggle_aggregation(AggregationFunction::Count);
    assert!(a.shows_panel());
}
