use table_rs::filter::{bool_matches, text_matches, FilterOperator, FilterType, NumberReading};
use table_rs::paging::{
    next_page, page_change, previous_page, PageChange,
    jump_target, local_page_window, local_window_fits_exec, next_disabled, online_page_window, page_input_max,
    page_input_text, page_rows, plain_page_window, previous_disabled, total_pages,
};
use table_rs::rows::{filter_rows, filterable_ids_unique, row_keys_unique, search_text_matches, search_rows, Column, ColumnFilter, FilterableColumn, Row, RowEntry};
use table_rs::sort::{sort_rows, stable_sort_rows, SortOrder};
use table_rs::state::{available_filter_columns, filter_button_text, options_for_add, TableState};
use table_rs::view::table_rows;

fn row(cells: &[(&str, &str)]) -> Row {
    Row {
        entries: cells
            .iter()
            .map(|(k, v)| RowEntry {
                key: k.to_string(),
                text: v.to_string(),
                number: match v.trim().parse::<u64>() {
                    Ok(n) => NumberReading::Value(n),
                    Err(_) => NumberReading::Invalid,
                },
            })
            .collect(),
    }
}

fn column(id: &str, header: &str) -> Column {
    Column { id: id.to_string(), header: header.to_string() }
}

fn sample() -> (Vec<Row>, Vec<Column>) {
    let rows = vec![
        row(&[("name", "ferris"), ("email", "ferris@opensass.org"), ("age", "7")]),
        row(&[("name", "Ferros"), ("email", "ferros@opensass.org"), ("age", "12")]),
        row(&[("name", "crab"), ("age", "7")]),
        row(&[("email", "nobody@example.com")]),
    ];
    let columns = vec![column("name", "Name"), column("email", ""), column("age", "Age")];
    (rows, columns)
}

fn filterable() -> Vec<FilterableColumn> {
    vec![
        FilterableColumn { id: "name".to_string(), filter_type: FilterType::String },
        FilterableColumn { id: "age".to_string(), filter_type: FilterType::Number },
    ]
}

#[test]
fn filtering_keeps_passing_rows_in_order() {
    let (rows, _) = sample();
    let all: Vec<usize> = (0..rows.len()).collect();
    let filters = vec![ColumnFilter {
        column_id: "name".to_string(),
        operator: FilterOperator::StartsWith,
        value: "fer".to_string(),
        number: NumberReading::Invalid,
    }];
    assert_eq!(filter_rows(&rows, &all, &filters, &filterable()), vec![0, 1]);
    let filters = vec![ColumnFilter {
        column_id: "age".to_string(),
        operator: FilterOperator::LessThan,
        value: "10".to_string(),
        number: NumberReading::Value(10),
    }];
    assert_eq!(filter_rows(&rows, &all, &filters, &filterable()), vec![0, 2]);
    let filters = vec![ColumnFilter {
        column_id: "name".to_string(),
        operator: FilterOperator::IsEmpty,
        value: String::new(),
        number: NumberReading::Invalid,
    }];
    assert_eq!(filter_rows(&rows, &all, &filters, &filterable()), vec![3]);
}

#[test]
fn filter_on_unfilterable_column_passes_everything() {
    let (rows, _) = sample();
    let all: Vec<usize> = (0..rows.len()).collect();
    let filters = vec![ColumnFilter {
        column_id: "email".to_string(),
        operator: FilterOperator::Equals,
        value: "zzz".to_string(),
        number: NumberReading::Invalid,
    }];
    assert_eq!(filter_rows(&rows, &all, &filters, &filterable()), all);
    assert_eq!(filter_rows(&rows, &all, &filters, &Vec::new()), all);
}

#[test]
fn search_matches_any_column_ignoring_case() {
    let (rows, columns) = sample();
    let all: Vec<usize> = (0..rows.len()).collect();
    assert_eq!(search_rows(&rows, &all, &columns, &"OPENSASS".to_string()), vec![0, 1]);
    assert_eq!(search_rows(&rows, &all, &columns, &"7".to_string()), vec![0, 2]);
    assert_eq!(search_rows(&rows, &all, &columns, &String::new()), all);
    assert_eq!(search_rows(&rows, &all, &columns, &"zebra".to_string()), Vec::<usize>::new());
}

#[test]
fn search_ignores_values_outside_the_columns() {
    let rows = vec![row(&[("secret", "needle")])];
    let columns = vec![column("name", "Name")];
    assert_eq!(search_rows(&rows, &vec![0], &columns, &"needle".to_string()), Vec::<usize>::new());
}

#[test]
fn sorting_is_stable_and_by_code_point() {
    let (rows, columns) = sample();
    let all: Vec<usize> = (0..rows.len()).collect();
    // "Ferros" < "crab" < "ferris" in code point order; the missing name sorts as "".
    assert_eq!(stable_sort_rows(&rows, &all, &"name".to_string(), SortOrder::Asc), vec![3, 1, 2, 0]);
    assert_eq!(stable_sort_rows(&rows, &all, &"name".to_string(), SortOrder::Desc), vec![0, 2, 1, 3]);
    // Equal ages keep their order in both directions; "12" < "7" as text.
    assert_eq!(stable_sort_rows(&rows, &all, &"age".to_string(), SortOrder::Asc), vec![3, 1, 0, 2]);
    assert_eq!(stable_sort_rows(&rows, &all, &"age".to_string(), SortOrder::Desc), vec![0, 2, 1, 3]);
    assert_eq!(sort_rows(&rows, &all, &columns, &Some("missing".to_string()), SortOrder::Asc), all);
    assert_eq!(sort_rows(&rows, &all, &columns, &None, SortOrder::Desc), all);
    assert_eq!(sort_rows(&rows, &vec![2, 0], &columns, &Some("name".to_string()), SortOrder::Asc), vec![2, 0]);
}

#[test]
fn page_counts() {
    assert_eq!(total_pages(0, 10), 1);
    assert_eq!(total_pages(10, 10), 1);
    assert_eq!(total_pages(11, 10), 2);
    assert_eq!(total_pages(25, 5), 5);
    assert_eq!(total_pages(3, 0), usize::MAX);
    assert_eq!(total_pages(0, 0), 1);
}

#[test]
fn local_windows_are_clamped() {
    let w = local_page_window(25, 10, 1);
    assert_eq!((w.total_pages, w.current_page, w.start, w.end), (3, 1, 10, 20));
    let w = local_page_window(25, 10, 7);
    assert_eq!((w.total_pages, w.current_page, w.start, w.end), (3, 2, 20, 25));
    let w = local_page_window(0, 10, 4);
    assert_eq!((w.total_pages, w.current_page, w.start, w.end), (1, 0, 0, 0));
    let w = local_page_window(5, 0, 3);
    assert_eq!((w.total_pages, w.current_page, w.start, w.end), (usize::MAX, 3, 0, 0));
    assert!(local_window_fits_exec(25, 10, 7));
    assert!(!local_window_fits_exec(usize::MAX, 2, usize::MAX));
}

#[test]
fn online_and_plain_windows() {
    let w = online_page_window(8, 9, 4);
    assert_eq!((w.total_pages, w.current_page, w.start, w.end), (4, 3, 0, 8));
    let w = online_page_window(8, 2, 0);
    assert_eq!((w.total_pages, w.current_page, w.start, w.end), (1, 0, 0, 8));
    let w = plain_page_window(25, 10, 2);
    assert_eq!((w.total_pages, w.current_page, w.start, w.end), (3, 2, 20, 25));
    let w = plain_page_window(0, 10, 0);
    assert_eq!((w.total_pages, w.current_page, w.start, w.end), (0, 0, 0, 0));
    let w = plain_page_window(0, 0, 0);
    assert_eq!(w.total_pages, 0);
}

#[test]
fn pages_tile_the_rows() {
    let rows: Vec<usize> = (0..23).collect();
    let mut seen = Vec::new();
    let total = total_pages(rows.len(), 5);
    for p in 0..total {
        let w = local_page_window(rows.len(), 5, p);
        seen.extend(page_rows(&rows, w.start, w.end));
    }
    assert_eq!(seen, rows);
}

#[test]
fn pager_controls() {
    assert_eq!(page_input_text(0, 3), "1");
    assert_eq!(page_input_text(41, 50), "42");
    assert_eq!(page_input_text(5, 0), "0");
    assert_eq!(page_input_max(12), "12");
    assert_eq!(page_input_max(0), "1");
    assert_eq!(jump_target(" 3 ", 5), Some(2));
    assert_eq!(jump_target("+4", 5), Some(3));
    assert_eq!(jump_target("99", 5), Some(98));
    assert_eq!(jump_target("0", 5), None);
    assert_eq!(jump_target("-1", 5), None);
    assert_eq!(jump_target("x", 5), None);
    assert_eq!(jump_target("3", 0), None);
    for p in [0usize, 9, 123] {
        assert_eq!(jump_target(&page_input_text(p, 200), 200), Some(p));
    }
    assert!(previous_disabled(0, 3));
    assert!(!previous_disabled(1, 3));
    assert!(previous_disabled(1, 0));
    assert!(next_disabled(2, 3));
    assert!(!next_disabled(1, 3));
    assert!(next_disabled(0, 0));
}

#[test]
fn sort_header_clicks() {
    let mut state = TableState::new(None, SortOrder::Asc);
    state.sort_by_column("name".to_string());
    assert_eq!(state.sort_column.as_deref(), Some("name"));
    assert_eq!(state.sort_order, SortOrder::Asc);
    state.sort_by_column("name".to_string());
    assert_eq!(state.sort_order, SortOrder::Desc);
    state.sort_by_column("name".to_string());
    assert_eq!(state.sort_order, SortOrder::Asc);
    state.sort_by_column("age".to_string());
    assert_eq!(state.sort_column.as_deref(), Some("age"));
    assert_eq!(state.sort_order, SortOrder::Asc);
    assert_eq!(SortOrder::default(), SortOrder::Asc);
}

#[test]
fn filter_controls() {
    let (_, columns) = sample();
    let options = available_filter_columns(&columns, &filterable());
    assert_eq!(options.len(), 2);
    assert_eq!((options[0].id.as_str(), options[0].label.as_str()), ("name", "Name"));
    assert_eq!(options[1].filter_type, FilterType::Number);

    let mut state = TableState::new(None, SortOrder::Asc);
    state.set_page(3);
    state.add_filter("age", &options);
    assert_eq!(state.filters.len(), 1);
    assert_eq!(state.filters[0].operator, FilterOperator::Equals);
    assert_eq!(state.page, 0);
    assert_eq!(state.active_filter, Some(0));
    assert_eq!(filter_button_text(&state.filters[0], &filterable(), &options), "Age = Any");

    state.toggle_filter_editor(0);
    assert_eq!(state.active_filter, None);
    state.add_filter("age", &options);
    assert_eq!(state.filters.len(), 1);
    assert_eq!(state.active_filter, Some(0));
    state.add_filter("email", &options);
    assert_eq!(state.filters.len(), 1);
    state.add_filter("", &options);
    assert_eq!(state.filters.len(), 1);

    let left = options_for_add(&options, &state.filters);
    assert_eq!(left.len(), 1);
    assert_eq!(left[0].id, "name");

    state.set_page(2);
    state.set_filter_operator(0, "gte");
    assert_eq!(state.filters[0].operator, FilterOperator::GreaterThanOrEqual);
    assert_eq!(state.page, 0);
    state.set_filter_value(0, "10".to_string(), NumberReading::Value(10));
    assert_eq!(filter_button_text(&state.filters[0], &filterable(), &options), "Age >= 10");

    state.add_filter("name", &options);
    assert_eq!(state.filters.len(), 2);
    state.remove_filter(1);
    assert_eq!(state.filters.len(), 1);
    assert_eq!(state.active_filter, None);
    state.remove_filter(5);
    assert_eq!(state.filters.len(), 1);

    state.toggle_add_menu();
    assert!(state.add_menu_open);
    state.clear_filters();
    assert!(state.filters.is_empty());
    assert!(!state.add_menu_open);
}

#[test]
fn first_option_filters_and_column_switch() {
    let (_, columns) = sample();
    let options = available_filter_columns(&columns, &filterable());
    let mut state = TableState::new(None, SortOrder::Asc);
    state.add_first_filter(&options);
    state.add_first_filter(&options);
    assert_eq!(state.filters.len(), 2);
    assert_eq!(state.filters[1].column_id, "name");
    state.set_filter_value(0, "x".to_string(), NumberReading::Invalid);
    state.set_filter_column(0, "age", &options);
    assert_eq!(state.filters[0].column_id, "age");
    assert_eq!(state.filters[0].operator, FilterOperator::Equals);
    assert!(state.filters[0].value.is_empty());
    state.set_filter_column(0, "nope", &options);
    assert_eq!(state.filters[0].column_id, "age");
    let mut empty = TableState::new(None, SortOrder::Asc);
    empty.set_page(4);
    empty.add_first_filter(&Vec::new());
    assert_eq!(empty.page, 4);
}

#[test]
fn whole_table_pipeline() {
    let (rows, columns) = sample();
    let mut state = TableState::new(Some("name".to_string()), SortOrder::Desc);
    assert_eq!(table_rows(&rows, &columns, &filterable(), &state), vec![0, 2, 1, 3]);
    state.set_search_query("opensass".to_string());
    assert_eq!(table_rows(&rows, &columns, &filterable(), &state), vec![0, 1]);
    let options = available_filter_columns(&columns, &filterable());
    state.add_filter("name", &options);
    state.set_filter_value(0, "ferr".to_string(), NumberReading::Invalid);
    state.set_filter_operator(0, "ends_with");
    assert_eq!(table_rows(&rows, &columns, &filterable(), &state), Vec::<usize>::new());
    state.set_filter_operator(0, "starts_with");
    state.sort_by_column("name".to_string());
    assert_eq!(table_rows(&rows, &columns, &filterable(), &state), vec![1, 0]);
}

#[test]
fn filters_and_search_commute() {
    let (rows, columns) = sample();
    let all: Vec<usize> = (0..rows.len()).collect();
    let filters = vec![ColumnFilter {
        column_id: "age".to_string(),
        operator: FilterOperator::Equals,
        value: "7".to_string(),
        number: NumberReading::Value(7),
    }];
    let query = "FER".to_string();
    let a = search_rows(&rows, &filter_rows(&rows, &all, &filters, &filterable()), &columns, &query);
    let b = filter_rows(&rows, &search_rows(&rows, &all, &columns, &query), &filters, &filterable());
    assert_eq!(a, vec![0]);
    assert_eq!(a, b);
}

#[test]
fn removing_the_added_filter_restores_filters() {
    let (_, columns) = sample();
    let options = available_filter_columns(&columns, &filterable());
    let mut state = TableState::new(None, SortOrder::Asc);
    state.add_filter("name", &options);
    state.set_filter_value(0, "abc".to_string(), NumberReading::Invalid);
    let before: Vec<String> = state.filters.iter().map(|f| f.column_id.clone()).collect();
    state.add_filter("age", &options);
    assert_eq!(state.filters.len(), 2);
    state.remove_filter(1);
    let after: Vec<String> = state.filters.iter().map(|f| f.column_id.clone()).collect();
    assert_eq!(before, after);
    assert_eq!(state.filters[0].value, "abc");
}

#[test]
fn filter_order_does_not_matter() {
    let (rows, _) = sample();
    let all: Vec<usize> = (0..rows.len()).collect();
    let name = ColumnFilter {
        column_id: "name".to_string(),
        operator: FilterOperator::Contains,
        value: "r".to_string(),
        number: NumberReading::Invalid,
    };
    let age = ColumnFilter {
        column_id: "age".to_string(),
        operator: FilterOperator::GreaterThanOrEqual,
        value: "7".to_string(),
        number: NumberReading::Value(7),
    };
    let both = filter_rows(&rows, &all, &vec![name.clone(), age.clone()], &filterable());
    let swapped = filter_rows(&rows, &all, &vec![age.clone(), name.clone()], &filterable());
    let staged = filter_rows(&rows, &filter_rows(&rows, &all, &vec![name], &filterable()), &vec![age], &filterable());
    assert_eq!(both, vec![0, 1, 2]);
    assert_eq!(both, swapped);
    assert_eq!(both, staged);
}

#[test]
fn page_requests() {
    assert_eq!(page_change(true, 4), PageChange::Online(4));
    assert_eq!(page_change(false, 4), PageChange::Local(4));
    assert_eq!(previous_page(3), 2);
    assert_eq!(previous_page(0), 0);
    assert_eq!(next_page(3), 4);
    assert_eq!(next_page(usize::MAX), usize::MAX);
}

#[test]
fn stale_page_is_clamped_to_a_non_empty_last_page() {
    for len in 1..30usize {
        for size in 1..7usize {
            let w = local_page_window(len, size, 1000);
            assert!(w.start < w.end && w.end <= len && w.end - w.start <= size);
            assert_eq!(w.current_page + 1, w.total_pages);
        }
    }
}

#[test]
fn unique_keys_checks() {
    assert!(row_keys_unique(&row(&[("a", "1"), ("b", "2")])));
    assert!(!row_keys_unique(&row(&[("a", "1"), ("b", "2"), ("a", "3")])));
    assert!(filterable_ids_unique(&filterable()));
    let mut twice = filterable();
    twice.push(FilterableColumn { id: "name".to_string(), filter_type: FilterType::Bool });
    assert!(!filterable_ids_unique(&twice));
}

#[test]
fn lowered_text_tests() {
    assert!(text_matches(FilterOperator::Contains, "ferris", "rri"));
    assert!(!text_matches(FilterOperator::Contains, "ferris", "RRI"));
    assert!(text_matches(FilterOperator::StartsWith, "ferris", "fe"));
    assert!(text_matches(FilterOperator::EndsWith, "ferris", "is"));
    assert!(text_matches(FilterOperator::NotEqual, "ferris", "crab"));
    assert!(!text_matches(FilterOperator::IsEmpty, "", ""));
    assert!(bool_matches(FilterOperator::Equals, "true", "true"));
    assert!(!bool_matches(FilterOperator::Contains, "true", "tr"));
    assert!(search_text_matches("ferris@opensass.org", "sass"));
    assert!(!search_text_matches("ferris", "crab"));
}

#[test]
fn adding_a_filter_keeps_the_rows_on_display() {
    let (rows, columns) = sample();
    let options = available_filter_columns(&columns, &filterable());
    let mut state = TableState::new(Some("name".to_string()), SortOrder::Asc);
    state.set_search_query("o".to_string());
    let before = table_rows(&rows, &columns, &filterable(), &state);
    state.set_page(2);
    state.add_filter("age", &options);
    state.add_filter("name", &options);
    assert_eq!(state.filters.len(), 2);
    assert_eq!(state.page, 0);
    assert_eq!(table_rows(&rows, &columns, &filterable(), &state), before);
    assert!(state.filters.len() <= options.len());
}
