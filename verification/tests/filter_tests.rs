use table_rs::text::{contains, ends_with, starts_with, text_eq, trim};
use table_rs::filter::{
    default_operator, matches_filter, number_matches, operator_choices, operator_from_value, operator_label,
    operator_value, value_input_disabled, FilterOperator, FilterType, NumberReading,
};

const ALL_OPERATORS: [FilterOperator; 11] = [
    FilterOperator::Contains,
    FilterOperator::Equals,
    FilterOperator::NotEqual,
    FilterOperator::StartsWith,
    FilterOperator::EndsWith,
    FilterOperator::GreaterThan,
    FilterOperator::GreaterThanOrEqual,
    FilterOperator::LessThan,
    FilterOperator::LessThanOrEqual,
    FilterOperator::IsEmpty,
    FilterOperator::IsNotEmpty,
];

fn text(op: FilterOperator, row: &str, wanted: &str) -> bool {
    matches_filter(&FilterType::String, op, row, wanted, NumberReading::Invalid, NumberReading::Invalid)
}

#[test]
fn default_operators_per_type() {
    assert_eq!(default_operator(&FilterType::String), FilterOperator::Contains);
    assert_eq!(default_operator(&FilterType::Number), FilterOperator::Equals);
    assert_eq!(default_operator(&FilterType::Bool), FilterOperator::Equals);
    assert_eq!(default_operator(&FilterType::Enum), FilterOperator::Equals);
}

#[test]
fn default_operator_is_offered() {
    for ft in [FilterType::String, FilterType::Number, FilterType::Bool] {
        assert!(operator_choices(&ft).contains(&default_operator(&ft)));
    }
    assert!(operator_choices(&FilterType::Enum).is_empty());
}

#[test]
fn operator_labels() {
    assert_eq!(operator_label(&FilterType::String, FilterOperator::NotEqual), "not equals");
    assert_eq!(operator_label(&FilterType::String, FilterOperator::GreaterThan), "contains");
    assert_eq!(operator_label(&FilterType::Number, FilterOperator::GreaterThanOrEqual), ">=");
    assert_eq!(operator_label(&FilterType::Number, FilterOperator::Contains), "=");
    assert_eq!(operator_label(&FilterType::Bool, FilterOperator::NotEqual), "is not");
    assert_eq!(operator_label(&FilterType::Bool, FilterOperator::IsEmpty), "is empty");
    assert_eq!(operator_label(&FilterType::Enum, FilterOperator::NotEqual), "is not");
    assert_eq!(operator_label(&FilterType::Enum, FilterOperator::IsEmpty), "is");
}

#[test]
fn operator_values_round_trip() {
    for op in ALL_OPERATORS {
        assert_eq!(operator_from_value(operator_value(op)), op);
    }
    assert_eq!(operator_value(FilterOperator::GreaterThanOrEqual), "gte");
    assert_eq!(operator_from_value("bogus"), FilterOperator::Contains);
    assert_eq!(operator_from_value(""), FilterOperator::Contains);
}

#[test]
fn value_input_off_for_emptiness_tests() {
    assert!(value_input_disabled(FilterOperator::IsEmpty));
    assert!(value_input_disabled(FilterOperator::IsNotEmpty));
    assert!(!value_input_disabled(FilterOperator::Contains));
}

#[test]
fn text_filters_ignore_case_and_padding() {
    assert!(text(FilterOperator::Contains, "  Ferris the Crab ", "CRAB"));
    assert!(!text(FilterOperator::Contains, "Ferris", "crab"));
    assert!(text(FilterOperator::Equals, " Ferris ", "ferris"));
    assert!(!text(FilterOperator::NotEqual, " Ferris ", "ferris"));
    assert!(text(FilterOperator::StartsWith, "Ferris", "fer"));
    assert!(!text(FilterOperator::StartsWith, "Ferris", "ris"));
    assert!(text(FilterOperator::EndsWith, "Ferris", "RIS "));
    assert!(!text(FilterOperator::GreaterThan, "b", "a"));
}

#[test]
fn blank_filter_value_passes() {
    assert!(text(FilterOperator::Equals, "anything", "   "));
    assert!(text(FilterOperator::NotEqual, "", ""));
}

#[test]
fn emptiness_tests() {
    assert!(text(FilterOperator::IsEmpty, " \t ", "x"));
    assert!(!text(FilterOperator::IsNotEmpty, " \t ", "x"));
    assert!(text(FilterOperator::IsNotEmpty, " a ", ""));
    assert!(!text(FilterOperator::IsEmpty, " a ", ""));
}

#[test]
fn bool_and_enum_filters() {
    let none = NumberReading::Invalid;
    assert!(matches_filter(&FilterType::Bool, FilterOperator::Equals, "TRUE", "true", none, none));
    assert!(matches_filter(&FilterType::Bool, FilterOperator::NotEqual, "false", "true", none, none));
    assert!(!matches_filter(&FilterType::Bool, FilterOperator::Contains, "true", "true", none, none));
    assert!(matches_filter(&FilterType::Enum, FilterOperator::Equals, " Red ", "Red", none, none));
    assert!(!matches_filter(&FilterType::Enum, FilterOperator::Equals, "red", "Red", none, none));
    assert!(matches_filter(&FilterType::Enum, FilterOperator::NotEqual, "red", "Red", none, none));
}

#[test]
fn number_filters() {
    let v = NumberReading::Value;
    assert!(matches_filter(&FilterType::Number, FilterOperator::GreaterThan, "10", "5", v(10), v(5)));
    assert!(!matches_filter(&FilterType::Number, FilterOperator::LessThan, "10", "5", v(10), v(5)));
    assert!(matches_filter(&FilterType::Number, FilterOperator::LessThanOrEqual, "5", "5", v(5), v(5)));
    assert!(!matches_filter(&FilterType::Number, FilterOperator::Equals, "abc", "5", NumberReading::Invalid, v(5)));
    assert!(!matches_filter(&FilterType::Number, FilterOperator::NotEqual, "abc", "5", NumberReading::Invalid, v(5)));
    assert!(number_matches(FilterOperator::NotEqual, NumberReading::NotANumber, v(1)));
    assert!(!number_matches(FilterOperator::Equals, NumberReading::NotANumber, NumberReading::NotANumber));
    assert!(!number_matches(FilterOperator::Equals, v(3), NumberReading::Invalid));
    assert!(!number_matches(FilterOperator::Contains, v(3), v(3)));
}

#[test]
fn not_equal_is_the_negation_of_equals() {
    for (row, wanted) in [("Apple", "apple"), ("pear", "apple"), ("", "x")] {
        assert_eq!(text(FilterOperator::NotEqual, row, wanted), !text(FilterOperator::Equals, row, wanted));
    }
    let v = NumberReading::Value;
    for (r, w) in [(v(1), v(1)), (v(1), v(2)), (NumberReading::NotANumber, v(2))] {
        assert_eq!(
            matches_filter(&FilterType::Number, FilterOperator::NotEqual, "x", "y", r, w),
            !matches_filter(&FilterType::Number, FilterOperator::Equals, "x", "y", r, w)
        );
    }
}

#[test]
fn whitespace_beyond_ascii_is_trimmed() {
    assert!(text(FilterOperator::Equals, "\u{3000}crab\u{A0}", "CRAB"));
    assert!(text(FilterOperator::IsEmpty, "\u{2028}\u{85}", ""));
    assert!(!text(FilterOperator::IsEmpty, "\u{200B}", ""));
}

/// The code points that the library's contracts count as white space.
fn listed_white_space(c: char) -> bool {
    matches!(c, '\u{9}'..='\u{D}' | ' ' | '\u{85}' | '\u{A0}' | '\u{1680}' | '\u{2000}'..='\u{200A}'
        | '\u{2028}' | '\u{2029}' | '\u{202F}' | '\u{205F}' | '\u{3000}')
}

#[test]
fn white_space_list_matches_std() {
    for c in (0u32..=0x10FFFF).filter_map(char::from_u32) {
        assert_eq!(c.is_whitespace(), listed_white_space(c), "{:?}", c);
    }
}

#[test]
fn trimming_removes_exactly_the_listed_white_space() {
    for c in (0u32..=0x3000).filter_map(char::from_u32) {
        let padded = format!("{}x{}", c, c);
        let expect_empty_row = listed_white_space(c);
        let only = c.to_string();
        assert_eq!(text(FilterOperator::IsEmpty, &only, ""), expect_empty_row);
        assert!(text(FilterOperator::IsNotEmpty, &padded, ""));
    }
}

#[test]
fn text_operations_agree_with_std() {
    let samples = [
        "", " ", "a", "ab", "ba", "aba", " \u{3000}Ferris\u{A0} ", "\u{200B}x", "crab crab", "é", "ée", "\t\n",
    ];
    for a in samples {
        assert_eq!(trim(a), a.trim());
        for b in samples {
            assert_eq!(contains(a, b), a.contains(b), "{:?} {:?}", a, b);
            assert_eq!(starts_with(a, b), a.starts_with(b));
            assert_eq!(ends_with(a, b), a.ends_with(b));
            assert_eq!(text_eq(a, b), a == b);
        }
    }
}
