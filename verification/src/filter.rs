use vstd::prelude::*;
use crate::text::{trim, trim_spec, to_lowercase, lowercase, contains, has_infix, starts_with, has_prefix, ends_with, has_suffix, text_eq};

verus! {

/// How the values of a filterable column are compared. The options of an
/// enumerated column only shape the value picker, so they are not held here.
#[derive(Clone, Copy, Debug, PartialEq, Eq, Structural)]
pub enum FilterType {
    String,
    Number,
    Bool,
    Enum,
}

/// The comparison a column filter applies.
#[derive(Clone, Copy, Debug, PartialEq, Eq, Structural)]
pub enum FilterOperator {
    Contains,
    Equals,
    NotEqual,
    StartsWith,
    EndsWith,
    GreaterThan,
    GreaterThanOrEqual,
    LessThan,
    LessThanOrEqual,
    IsEmpty,
    IsNotEmpty,
}

/// What parsing a trimmed text as a 64-bit float gives, in the form the numeric
/// comparisons read: `Invalid` when the text is no float, `NotANumber` for NaN, and
/// `Value(k)` for any other float, where the keys compare as the floats do (equal
/// floats, such as `0.0` and `-0.0`, share a key).
#[derive(Clone, Copy, Debug, PartialEq, Eq, Structural)]
pub enum NumberReading {
    Invalid,
    NotANumber,
    Value(u64),
}

/// The operator a new filter on a column of this type starts with.
pub open spec fn default_operator_spec(filter_type: FilterType) -> FilterOperator {
    match filter_type {
        FilterType::String => FilterOperator::Contains,
        FilterType::Number => FilterOperator::Equals,
        FilterType::Bool => FilterOperator::Equals,
        FilterType::Enum => FilterOperator::Equals,
    }
}

/// The operator a new filter on a column of this type starts with.
pub fn default_operator(filter_type: &FilterType) -> (r: FilterOperator)
    ensures
        r == default_operator_spec(*filter_type),
{
    match filter_type {
        FilterType::String => FilterOperator::Contains,
        FilterType::Number => FilterOperator::Equals,
        FilterType::Bool => FilterOperator::Equals,
        FilterType::Enum => FilterOperator::Equals,
    }
}

/// The text that shows an operator on a filter of the given type.
pub open spec fn operator_label_spec(filter_type: FilterType, operator: FilterOperator) -> Seq<char> {
    match filter_type {
        FilterType::String => match operator {
            FilterOperator::Contains => "contains"@,
            FilterOperator::Equals => "equals"@,
            FilterOperator::NotEqual => "not equals"@,
            FilterOperator::StartsWith => "starts with"@,
            FilterOperator::EndsWith => "ends with"@,
            FilterOperator::IsEmpty => "is empty"@,
            FilterOperator::IsNotEmpty => "is not empty"@,
            _ => "contains"@,
        },
        FilterType::Number => match operator {
            FilterOperator::Equals => "="@,
            FilterOperator::NotEqual => "!="@,
            FilterOperator::GreaterThan => ">"@,
            FilterOperator::GreaterThanOrEqual => ">="@,
            FilterOperator::LessThan => "<"@,
            FilterOperator::LessThanOrEqual => "<="@,
            FilterOperator::IsEmpty => "is empty"@,
            FilterOperator::IsNotEmpty => "is not empty"@,
            _ => "="@,
        },
        FilterType::Bool => match operator {
            FilterOperator::Equals => "is"@,
            FilterOperator::NotEqual => "is not"@,
            FilterOperator::IsEmpty => "is empty"@,
            FilterOperator::IsNotEmpty => "is not empty"@,
            _ => "is"@,
        },
        FilterType::Enum => match operator {
            FilterOperator::NotEqual => "is not"@,
            _ => "is"@,
        },
    }
}

/// The text that shows an operator on a filter of the given type.
pub fn operator_label(filter_type: &FilterType, operator: FilterOperator) -> (r: &'static str)
    ensures
        r@ == operator_label_spec(*filter_type, operator),
{
    match filter_type {
        FilterType::String => match operator {
            FilterOperator::Contains => "contains",
            FilterOperator::Equals => "equals",
            FilterOperator::NotEqual => "not equals",
            FilterOperator::StartsWith => "starts with",
            FilterOperator::EndsWith => "ends with",
            FilterOperator::IsEmpty => "is empty",
            FilterOperator::IsNotEmpty => "is not empty",
            _ => "contains",
        },
        FilterType::Number => match operator {
            FilterOperator::Equals => "=",
            FilterOperator::NotEqual => "!=",
            FilterOperator::GreaterThan => ">",
            FilterOperator::GreaterThanOrEqual => ">=",
            FilterOperator::LessThan => "<",
            FilterOperator::LessThanOrEqual => "<=",
            FilterOperator::IsEmpty => "is empty",
            FilterOperator::IsNotEmpty => "is not empty",
            _ => "=",
        },
        FilterType::Bool => match operator {
            FilterOperator::Equals => "is",
            FilterOperator::NotEqual => "is not",
            FilterOperator::IsEmpty => "is empty",
            FilterOperator::IsNotEmpty => "is not empty",
            _ => "is",
        },
        FilterType::Enum => match operator {
            FilterOperator::Equals => "is",
            FilterOperator::NotEqual => "is not",
            _ => "is",
        },
    }
}


/// The form value by which the operator pickers name an operator.
pub open spec fn operator_value_spec(operator: FilterOperator) -> Seq<char> {
    match operator {
        FilterOperator::Contains => "contains"@,
        FilterOperator::Equals => "equals"@,
        FilterOperator::NotEqual => "not_equals"@,
        FilterOperator::StartsWith => "starts_with"@,
        FilterOperator::EndsWith => "ends_with"@,
        FilterOperator::GreaterThan => "gt"@,
        FilterOperator::GreaterThanOrEqual => "gte"@,
        FilterOperator::LessThan => "lt"@,
        FilterOperator::LessThanOrEqual => "lte"@,
        FilterOperator::IsEmpty => "is_empty"@,
        FilterOperator::IsNotEmpty => "is_not_empty"@,
    }
}

/// The form value by which the operator pickers name an operator.
pub fn operator_value(operator: FilterOperator) -> (r: &'static str)
    ensures
        r@ == operator_value_spec(operator),
{
    match operator {
        FilterOperator::Contains => "contains",
        FilterOperator::Equals => "equals",
        FilterOperator::NotEqual => "not_equals",
        FilterOperator::StartsWith => "starts_with",
        FilterOperator::EndsWith => "ends_with",
        FilterOperator::GreaterThan => "gt",
        FilterOperator::GreaterThanOrEqual => "gte",
        FilterOperator::LessThan => "lt",
        FilterOperator::LessThanOrEqual => "lte",
        FilterOperator::IsEmpty => "is_empty",
        FilterOperator::IsNotEmpty => "is_not_empty",
    }
}

/// The operator a picked form value selects; an unknown value selects `Contains`.
pub open spec fn operator_from_value_spec(value: Seq<char>) -> FilterOperator {
    if value == "contains"@ {
        FilterOperator::Contains
    } else if value == "equals"@ {
        FilterOperator::Equals
    } else if value == "not_equals"@ {
        FilterOperator::NotEqual
    } else if value == "starts_with"@ {
        FilterOperator::StartsWith
    } else if value == "ends_with"@ {
        FilterOperator::EndsWith
    } else if value == "gt"@ {
        FilterOperator::GreaterThan
    } else if value == "gte"@ {
        FilterOperator::GreaterThanOrEqual
    } else if value == "lt"@ {
        FilterOperator::LessThan
    } else if value == "lte"@ {
        FilterOperator::LessThanOrEqual
    } else if value == "is_empty"@ {
        FilterOperator::IsEmpty
    } else if value == "is_not_empty"@ {
        FilterOperator::IsNotEmpty
    } else {
        FilterOperator::Contains
    }
}

/// The operator a picked form value selects; an unknown value selects `Contains`.
pub fn operator_from_value(value: &str) -> (r: FilterOperator)
    ensures
        r == operator_from_value_spec(value@),
{
    if text_eq(value, "contains") {
        FilterOperator::Contains
    } else if text_eq(value, "equals") {
        FilterOperator::Equals
    } else if text_eq(value, "not_equals") {
        FilterOperator::NotEqual
    } else if text_eq(value, "starts_with") {
        FilterOperator::StartsWith
    } else if text_eq(value, "ends_with") {
        FilterOperator::EndsWith
    } else if text_eq(value, "gt") {
        FilterOperator::GreaterThan
    } else if text_eq(value, "gte") {
        FilterOperator::GreaterThanOrEqual
    } else if text_eq(value, "lt") {
        FilterOperator::LessThan
    } else if text_eq(value, "lte") {
        FilterOperator::LessThanOrEqual
    } else if text_eq(value, "is_empty") {
        FilterOperator::IsEmpty
    } else if text_eq(value, "is_not_empty") {
        FilterOperator::IsNotEmpty
    } else {
        FilterOperator::Contains
    }
}

/// The operators the operator picker offers for a column of this type, in the
/// order it lists them; enumerated columns get no operator picker.
pub open spec fn operator_choices_spec(filter_type: FilterType) -> Seq<FilterOperator> {
    match filter_type {
        FilterType::String => seq![
            FilterOperator::Contains,
            FilterOperator::Equals,
            FilterOperator::NotEqual,
            FilterOperator::StartsWith,
            FilterOperator::EndsWith,
            FilterOperator::IsEmpty,
            FilterOperator::IsNotEmpty,
        ],
        FilterType::Number => seq![
            FilterOperator::Equals,
            FilterOperator::NotEqual,
            FilterOperator::GreaterThan,
            FilterOperator::GreaterThanOrEqual,
            FilterOperator::LessThan,
            FilterOperator::LessThanOrEqual,
            FilterOperator::IsEmpty,
            FilterOperator::IsNotEmpty,
        ],
        FilterType::Bool => seq![
            FilterOperator::Equals,
            FilterOperator::NotEqual,
            FilterOperator::IsEmpty,
            FilterOperator::IsNotEmpty,
        ],
        FilterType::Enum => seq![],
    }
}

/// The operators the operator picker offers for a column of this type.
pub fn operator_choices(filter_type: &FilterType) -> (r: Vec<FilterOperator>)
    ensures
        r@ == operator_choices_spec(*filter_type),
{
    match filter_type {
        FilterType::String => vec![
            FilterOperator::Contains,
            FilterOperator::Equals,
            FilterOperator::NotEqual,
            FilterOperator::StartsWith,
            FilterOperator::EndsWith,
            FilterOperator::IsEmpty,
            FilterOperator::IsNotEmpty,
        ],
        FilterType::Number => vec![
            FilterOperator::Equals,
            FilterOperator::NotEqual,
            FilterOperator::GreaterThan,
            FilterOperator::GreaterThanOrEqual,
            FilterOperator::LessThan,
            FilterOperator::LessThanOrEqual,
            FilterOperator::IsEmpty,
            FilterOperator::IsNotEmpty,
        ],
        FilterType::Bool => vec![
            FilterOperator::Equals,
            FilterOperator::NotEqual,
            FilterOperator::IsEmpty,
            FilterOperator::IsNotEmpty,
        ],
        FilterType::Enum => Vec::new(),
    }
}

/// Whether the value input of a filter is switched off: the emptiness tests read no value.
pub open spec fn value_input_disabled_spec(operator: FilterOperator) -> bool {
    operator == FilterOperator::IsEmpty || operator == FilterOperator::IsNotEmpty
}

/// Whether the value input of a filter is switched off.
pub fn value_input_disabled(operator: FilterOperator) -> (r: bool)
    ensures
        r == value_input_disabled_spec(operator),
{
    match operator {
        FilterOperator::IsEmpty | FilterOperator::IsNotEmpty => true,
        _ => false,
    }
}

/// The kind of input in which a filter's value is typed: a number input on
/// numeric columns, a text input otherwise.
pub open spec fn value_input_type_spec(filter_type: Option<FilterType>) -> Seq<char> {
    if filter_type == Some(FilterType::Number) {
        "number"@
    } else {
        "text"@
    }
}

/// The kind of input in which a filter's value is typed.
pub fn value_input_type(filter_type: Option<FilterType>) -> (r: &'static str)
    ensures
        r@ == value_input_type_spec(filter_type),
{
    match filter_type {
        Some(FilterType::Number) => "number",
        _ => "text",
    }
}

/// Reading the operator back from its form value gives the operator.
pub proof fn lemma_operator_value_round_trip(operator: FilterOperator)
    ensures
        operator_from_value_spec(operator_value_spec(operator)) == operator,
{
    reveal_strlit("contains");
    reveal_strlit("equals");
    reveal_strlit("not_equals");
    reveal_strlit("starts_with");
    reveal_strlit("ends_with");
    reveal_strlit("gt");
    reveal_strlit("gte");
    reveal_strlit("lt");
    reveal_strlit("lte");
    reveal_strlit("is_empty");
    reveal_strlit("is_not_empty");
    let v = operator_value_spec(operator);
    match operator {
        FilterOperator::Contains => {
        },
        FilterOperator::Equals => {
            assert(v.len() != "contains"@.len());
        },
        FilterOperator::NotEqual => {
            assert(v.len() != "contains"@.len());
            assert(v.len() != "equals"@.len());
        },
        FilterOperator::StartsWith => {
            assert(v.len() != "contains"@.len());
            assert(v.len() != "equals"@.len());
            assert(v.len() != "not_equals"@.len());
        },
        FilterOperator::EndsWith => {
            assert(v.len() != "contains"@.len());
            assert(v.len() != "equals"@.len());
            assert(v.len() != "not_equals"@.len());
            assert(v.len() != "starts_with"@.len());
        },
        FilterOperator::GreaterThan => {
            assert(v.len() != "contains"@.len());
            assert(v.len() != "equals"@.len());
            assert(v.len() != "not_equals"@.len());
            assert(v.len() != "starts_with"@.len());
            assert(v.len() != "ends_with"@.len());
        },
        FilterOperator::GreaterThanOrEqual => {
            assert(v.len() != "contains"@.len());
            assert(v.len() != "equals"@.len());
            assert(v.len() != "not_equals"@.len());
            assert(v.len() != "starts_with"@.len());
            assert(v.len() != "ends_with"@.len());
            assert(v.len() != "gt"@.len());
        },
        FilterOperator::LessThan => {
            assert(v.len() != "contains"@.len());
            assert(v.len() != "equals"@.len());
            assert(v.len() != "not_equals"@.len());
            assert(v.len() != "starts_with"@.len());
            assert(v.len() != "ends_with"@.len());
            assert(v[0] != "gt"@[0]);
            assert(v.len() != "gte"@.len());
        },
        FilterOperator::LessThanOrEqual => {
            assert(v.len() != "contains"@.len());
            assert(v.len() != "equals"@.len());
            assert(v.len() != "not_equals"@.len());
            assert(v.len() != "starts_with"@.len());
            assert(v.len() != "ends_with"@.len());
            assert(v.len() != "gt"@.len());
            assert(v[0] != "gte"@[0]);
            assert(v.len() != "lt"@.len());
        },
        FilterOperator::IsEmpty => {
            assert(v[0] != "contains"@[0]);
            assert(v.len() != "equals"@.len());
            assert(v.len() != "not_equals"@.len());
            assert(v.len() != "starts_with"@.len());
            assert(v.len() != "ends_with"@.len());
            assert(v.len() != "gt"@.len());
            assert(v.len() != "gte"@.len());
            assert(v.len() != "lt"@.len());
            assert(v.len() != "lte"@.len());
        },
        FilterOperator::IsNotEmpty => {
            assert(v.len() != "contains"@.len());
            assert(v.len() != "equals"@.len());
            assert(v.len() != "not_equals"@.len());
            assert(v.len() != "starts_with"@.len());
            assert(v.len() != "ends_with"@.len());
            assert(v.len() != "gt"@.len());
            assert(v.len() != "gte"@.len());
            assert(v.len() != "lt"@.len());
            assert(v.len() != "lte"@.len());
            assert(v.len() != "is_empty"@.len());
        },
    }
}

/// The operator a new filter starts with is one that the operator picker offers,
/// on every column type that has an operator picker.
pub proof fn lemma_default_operator_offered(filter_type: FilterType)
    requires
        filter_type != FilterType::Enum,
    ensures
        operator_choices_spec(filter_type).contains(default_operator_spec(filter_type)),
{
    assert(operator_choices_spec(filter_type)[0] == default_operator_spec(filter_type));
}


/// A numeric filter test, on the readings of the trimmed cell text (`row`) and of
/// the trimmed filter value (`wanted`): no match when either is no number; NaN
/// equals nothing and differs from everything.
pub open spec fn number_matches_spec(operator: FilterOperator, row: NumberReading, wanted: NumberReading) -> bool {
    match (wanted, row) {
        (NumberReading::Invalid, _) => false,
        (_, NumberReading::Invalid) => false,
        (NumberReading::Value(w), NumberReading::Value(x)) => match operator {
            FilterOperator::Equals => x == w,
            FilterOperator::NotEqual => x != w,
            FilterOperator::GreaterThan => x > w,
            FilterOperator::GreaterThanOrEqual => x >= w,
            FilterOperator::LessThan => x < w,
            FilterOperator::LessThanOrEqual => x <= w,
            _ => false,
        },
        _ => operator == FilterOperator::NotEqual,
    }
}

/// Whether a cell passes a column filter. `row_value` is the cell's text (empty
/// where the row has no value for the column) and `filter_value` the filter's
/// text; `row_number` and `filter_number` are what their trimmed texts read as
/// numbers. Both texts are trimmed. The emptiness tests look at the cell alone;
/// every other test passes while the filter value is blank. Text and boolean
/// columns compare the lowercase forms, enumerated columns the trimmed texts.
pub open spec fn matches_filter_spec(
    filter_type: FilterType,
    operator: FilterOperator,
    row_value: Seq<char>,
    filter_value: Seq<char>,
    row_number: NumberReading,
    filter_number: NumberReading,
) -> bool {
    let row = trim_spec(row_value);
    let wanted = trim_spec(filter_value);
    if operator == FilterOperator::IsEmpty {
        row.len() == 0
    } else if operator == FilterOperator::IsNotEmpty {
        row.len() > 0
    } else if wanted.len() == 0 {
        true
    } else {
        match filter_type {
            FilterType::String => text_matches_spec(operator, lowercase(row), lowercase(wanted)),
            FilterType::Number => number_matches_spec(operator, row_number, filter_number),
            FilterType::Bool => bool_matches_spec(operator, lowercase(row), lowercase(wanted)),
            FilterType::Enum => match operator {
                FilterOperator::Equals => row == wanted,
                FilterOperator::NotEqual => row != wanted,
                _ => false,
            },
        }
    }
}

/// A text filter test on the lowercased, trimmed texts of the cell (`row`) and
/// of the filter value (`wanted`).
pub open spec fn text_matches_spec(operator: FilterOperator, row: Seq<char>, wanted: Seq<char>) -> bool {
    match operator {
        FilterOperator::Contains => has_infix(row, wanted),
        FilterOperator::Equals => row == wanted,
        FilterOperator::NotEqual => row != wanted,
        FilterOperator::StartsWith => has_prefix(row, wanted),
        FilterOperator::EndsWith => has_suffix(row, wanted),
        _ => false,
    }
}

/// A boolean filter test on the lowercased, trimmed texts of the cell and of the
/// filter value.
pub open spec fn bool_matches_spec(operator: FilterOperator, row: Seq<char>, wanted: Seq<char>) -> bool {
    match operator {
        FilterOperator::Equals => row == wanted,
        FilterOperator::NotEqual => row != wanted,
        _ => false,
    }
}

/// The text filter test, on texts already lowercased and trimmed.
pub fn text_matches(operator: FilterOperator, row: &str, wanted: &str) -> (r: bool)
    ensures
        r == text_matches_spec(operator, row@, wanted@),
{
    match operator {
        FilterOperator::Contains => contains(row, wanted),
        FilterOperator::Equals => text_eq(row, wanted),
        FilterOperator::NotEqual => !text_eq(row, wanted),
        FilterOperator::StartsWith => starts_with(row, wanted),
        FilterOperator::EndsWith => ends_with(row, wanted),
        _ => false,
    }
}

/// The boolean filter test, on texts already lowercased and trimmed.
pub fn bool_matches(operator: FilterOperator, row: &str, wanted: &str) -> (r: bool)
    ensures
        r == bool_matches_spec(operator, row@, wanted@),
{
    match operator {
        FilterOperator::Equals => text_eq(row, wanted),
        FilterOperator::NotEqual => !text_eq(row, wanted),
        _ => false,
    }
}

/// The numeric filter test.
pub fn number_matches(operator: FilterOperator, row: NumberReading, wanted: NumberReading) -> (r: bool)
    ensures
        r == number_matches_spec(operator, row, wanted),
{
    match (wanted, row) {
        (NumberReading::Invalid, _) => false,
        (_, NumberReading::Invalid) => false,
        (NumberReading::Value(w), NumberReading::Value(x)) => match operator {
            FilterOperator::Equals => x == w,
            FilterOperator::NotEqual => x != w,
            FilterOperator::GreaterThan => x > w,
            FilterOperator::GreaterThanOrEqual => x >= w,
            FilterOperator::LessThan => x < w,
            FilterOperator::LessThanOrEqual => x <= w,
            _ => false,
        },
        _ => match operator {
            FilterOperator::NotEqual => true,
            _ => false,
        },
    }
}

/// Whether a cell passes a column filter (see `matches_filter_spec`).
pub fn matches_filter(
    filter_type: &FilterType,
    operator: FilterOperator,
    row_value: &str,
    filter_value: &str,
    row_number: NumberReading,
    filter_number: NumberReading,
) -> (r: bool)
    ensures
        r == matches_filter_spec(*filter_type, operator, row_value@, filter_value@, row_number, filter_number),
{
    let row_trimmed = trim(row_value);
    let filter_trimmed = trim(filter_value);
    match operator {
        FilterOperator::IsEmpty => return row_trimmed.is_empty(),
        FilterOperator::IsNotEmpty => return !row_trimmed.is_empty(),
        _ => {},
    }
    if filter_trimmed.is_empty() {
        return true;
    }
    match filter_type {
        FilterType::String => {
            let row_norm = to_lowercase(row_trimmed);
            let filter_norm = to_lowercase(filter_trimmed);
            text_matches(operator, row_norm.as_str(), filter_norm.as_str())
        },
        FilterType::Number => number_matches(operator, row_number, filter_number),
        FilterType::Bool => {
            let row_norm = to_lowercase(row_trimmed);
            let filter_norm = to_lowercase(filter_trimmed);
            bool_matches(operator, row_norm.as_str(), filter_norm.as_str())
        },
        FilterType::Enum => match operator {
            FilterOperator::Equals => text_eq(row_trimmed, filter_trimmed),
            FilterOperator::NotEqual => !text_eq(row_trimmed, filter_trimmed),
            _ => false,
        },
    }
}

/// How the numeric tests relate, on any two readings: "greater than" is "at least"
/// and "not equal"; "less than" is "at most" and "not equal"; "equals" is "at
/// least" and "at most"; "at least" is "greater than" or "equals", and "at most"
/// is "less than" or "equals". Between two numbers, exactly one of "less than",
/// "equals" and "greater than" passes, and swapping the two numbers swaps
/// "greater than" with "less than".
pub proof fn lemma_number_tests_relate(row: NumberReading, wanted: NumberReading)
    ensures
        number_matches_spec(FilterOperator::GreaterThan, row, wanted) == (number_matches_spec(
            FilterOperator::GreaterThanOrEqual,
            row,
            wanted,
        ) && number_matches_spec(FilterOperator::NotEqual, row, wanted)),
        number_matches_spec(FilterOperator::LessThan, row, wanted) == (number_matches_spec(
            FilterOperator::LessThanOrEqual,
            row,
            wanted,
        ) && number_matches_spec(FilterOperator::NotEqual, row, wanted)),
        number_matches_spec(FilterOperator::Equals, row, wanted) == (number_matches_spec(
            FilterOperator::GreaterThanOrEqual,
            row,
            wanted,
        ) && number_matches_spec(FilterOperator::LessThanOrEqual, row, wanted)),
        number_matches_spec(FilterOperator::GreaterThanOrEqual, row, wanted) == (number_matches_spec(
            FilterOperator::GreaterThan,
            row,
            wanted,
        ) || number_matches_spec(FilterOperator::Equals, row, wanted)),
        number_matches_spec(FilterOperator::LessThanOrEqual, row, wanted) == (number_matches_spec(
            FilterOperator::LessThan,
            row,
            wanted,
        ) || number_matches_spec(FilterOperator::Equals, row, wanted)),
        (row is Value && wanted is Value) ==> (number_matches_spec(FilterOperator::NotEqual, row, wanted)
            == !number_matches_spec(FilterOperator::Equals, row, wanted)),
        (row is Value && wanted is Value) ==> (number_matches_spec(FilterOperator::LessThan, row, wanted)
            || number_matches_spec(FilterOperator::Equals, row, wanted) || number_matches_spec(
            FilterOperator::GreaterThan,
            row,
            wanted,
        )),
        (row is Value && wanted is Value) ==> number_matches_spec(FilterOperator::GreaterThan, row, wanted)
            == number_matches_spec(FilterOperator::LessThan, wanted, row),
        (row is Value && wanted is Value) ==> number_matches_spec(FilterOperator::GreaterThanOrEqual, row, wanted)
            == number_matches_spec(FilterOperator::LessThanOrEqual, wanted, row),
{
}

/// The numeric tests follow the order of the numbers: a number always equals
/// itself and is neither greater nor less than itself; "greater than" passes
/// exactly the numbers above the filter's, "less than" exactly those below.
/// Only "not equal" passes where a side is NaN, and nothing passes where a side
/// is no number.
pub proof fn lemma_number_tests_follow_order(x: u64, w: u64, operator: FilterOperator)
    ensures
        number_matches_spec(FilterOperator::Equals, NumberReading::Value(x), NumberReading::Value(x)),
        !number_matches_spec(FilterOperator::NotEqual, NumberReading::Value(x), NumberReading::Value(x)),
        !number_matches_spec(FilterOperator::GreaterThan, NumberReading::Value(x), NumberReading::Value(x)),
        !number_matches_spec(FilterOperator::LessThan, NumberReading::Value(x), NumberReading::Value(x)),
        number_matches_spec(FilterOperator::GreaterThan, NumberReading::Value(x), NumberReading::Value(w)) <==> x > w,
        number_matches_spec(FilterOperator::LessThan, NumberReading::Value(x), NumberReading::Value(w)) <==> x < w,
        number_matches_spec(operator, NumberReading::NotANumber, NumberReading::Value(w)) <==> operator
            == FilterOperator::NotEqual,
        number_matches_spec(operator, NumberReading::Value(x), NumberReading::NotANumber) <==> operator
            == FilterOperator::NotEqual,
        !number_matches_spec(operator, NumberReading::Invalid, NumberReading::Value(w)),
        !number_matches_spec(operator, NumberReading::Value(x), NumberReading::Invalid),
{
}

/// How the text tests relate on lowercased texts: a prefix or a suffix is also
/// contained; equal texts start and end with each other; "not equal" is the
/// negation of "equals"; and a text contains, starts and ends with whatever it
/// was built around.
pub proof fn lemma_text_tests_relate(row: Seq<char>, wanted: Seq<char>, before: Seq<char>, after: Seq<char>)
    ensures
        text_matches_spec(FilterOperator::StartsWith, row, wanted) ==> text_matches_spec(
            FilterOperator::Contains,
            row,
            wanted,
        ),
        text_matches_spec(FilterOperator::EndsWith, row, wanted) ==> text_matches_spec(
            FilterOperator::Contains,
            row,
            wanted,
        ),
        text_matches_spec(FilterOperator::Equals, row, wanted) ==> text_matches_spec(
            FilterOperator::StartsWith,
            row,
            wanted,
        ) && text_matches_spec(FilterOperator::EndsWith, row, wanted),
        text_matches_spec(FilterOperator::NotEqual, row, wanted) == !text_matches_spec(
            FilterOperator::Equals,
            row,
            wanted,
        ),
        text_matches_spec(FilterOperator::Equals, row, row),
        text_matches_spec(FilterOperator::Contains, before + wanted + after, wanted),
        text_matches_spec(FilterOperator::StartsWith, wanted + after, wanted),
        text_matches_spec(FilterOperator::EndsWith, before + wanted, wanted),
        !text_matches_spec(FilterOperator::GreaterThan, row, wanted),
        bool_matches_spec(FilterOperator::Equals, row, row),
        bool_matches_spec(FilterOperator::NotEqual, row, wanted) == !bool_matches_spec(
            FilterOperator::Equals,
            row,
            wanted,
        ),
{
    if text_matches_spec(FilterOperator::StartsWith, row, wanted) {
        assert(row.subrange(0int, 0int + wanted.len()) == wanted);
    }
    if text_matches_spec(FilterOperator::EndsWith, row, wanted) {
        let i = row.len() - wanted.len();
        assert(row.subrange(i, i + wanted.len()) == wanted);
    }
    if row == wanted {
        assert(row.subrange(0, row.len() as int) =~= row);
    }
    let t = before + wanted + after;
    assert(t.subrange(before.len() as int, (before.len() + wanted.len()) as int) =~= wanted);
    assert((wanted + after).subrange(0, wanted.len() as int) =~= wanted);
    let e = before + wanted;
    assert(e.subrange(e.len() - wanted.len(), e.len() as int) =~= wanted);
}

/// A filter reads the texts only through their trimmed forms, and a text or
/// boolean filter reads them only through their lowercased trimmed forms (and
/// whether the cell is blank): padding, and on those columns letter case, never
/// change whether a cell passes.
pub proof fn lemma_filter_reads_trimmed_and_lowercased(
    filter_type: FilterType,
    operator: FilterOperator,
    row_a: Seq<char>,
    row_b: Seq<char>,
    value_a: Seq<char>,
    value_b: Seq<char>,
    row_number: NumberReading,
    filter_number: NumberReading,
)
    ensures
        trim_spec(row_a) == trim_spec(row_b) && trim_spec(value_a) == trim_spec(value_b) ==> matches_filter_spec(
            filter_type,
            operator,
            row_a,
            value_a,
            row_number,
            filter_number,
        ) == matches_filter_spec(filter_type, operator, row_b, value_b, row_number, filter_number),
        (filter_type == FilterType::String || filter_type == FilterType::Bool) && lowercase(trim_spec(row_a))
            == lowercase(trim_spec(row_b)) && (trim_spec(row_a).len() == 0) == (trim_spec(row_b).len() == 0)
            && trim_spec(value_a) == trim_spec(value_b) ==> matches_filter_spec(
            filter_type,
            operator,
            row_a,
            value_a,
            row_number,
            filter_number,
        ) == matches_filter_spec(filter_type, operator, row_b, value_b, row_number, filter_number),
{
}

/// A non-blank filter value passes a cell holding that same text under "equals"
/// and rejects it under "not equal", on text, boolean and enumerated columns.
pub proof fn lemma_equal_text_passes(filter_type: FilterType, text: Seq<char>, number: NumberReading)
    requires
        filter_type != FilterType::Number,
        trim_spec(text).len() > 0,
    ensures
        matches_filter_spec(filter_type, FilterOperator::Equals, text, text, number, number),
        !matches_filter_spec(filter_type, FilterOperator::NotEqual, text, text, number, number),
{
}

/// A new filter starts with the first operator its picker offers, and an
/// operator the picker does not offer is shown as that default operator.
pub proof fn lemma_default_operator_first(filter_type: FilterType, operator: FilterOperator)
    ensures
        filter_type != FilterType::Enum ==> operator_choices_spec(filter_type)[0] == default_operator_spec(filter_type),
        filter_type != FilterType::Enum && !operator_choices_spec(filter_type).contains(operator) ==> operator_label_spec(
            filter_type,
            operator,
        ) == operator_label_spec(filter_type, default_operator_spec(filter_type)),
        filter_type == FilterType::Enum && operator != FilterOperator::NotEqual ==> operator_label_spec(
            filter_type,
            operator,
        ) == operator_label_spec(filter_type, default_operator_spec(filter_type)),
{
    let c = operator_choices_spec(filter_type);
    if filter_type != FilterType::Enum && !c.contains(operator) {
        match operator {
            FilterOperator::Contains => { if filter_type == FilterType::String { assert(c[0] == operator); } },
            FilterOperator::Equals => { assert(c[0] == operator || c[1] == operator); },
            FilterOperator::NotEqual => { assert(c[1] == operator || c[2] == operator); },
            FilterOperator::StartsWith => { if filter_type == FilterType::String { assert(c[3] == operator); } },
            FilterOperator::EndsWith => { if filter_type == FilterType::String { assert(c[4] == operator); } },
            FilterOperator::GreaterThan => { if filter_type == FilterType::Number { assert(c[2] == operator); } },
            FilterOperator::GreaterThanOrEqual => { if filter_type == FilterType::Number { assert(c[3] == operator); } },
            FilterOperator::LessThan => { if filter_type == FilterType::Number { assert(c[4] == operator); } },
            FilterOperator::LessThanOrEqual => { if filter_type == FilterType::Number { assert(c[5] == operator); } },
            FilterOperator::IsEmpty => {
                if filter_type == FilterType::String { assert(c[5] == operator); }
                else if filter_type == FilterType::Number { assert(c[6] == operator); }
                else { assert(c[2] == operator); }
            },
            FilterOperator::IsNotEmpty => {
                if filter_type == FilterType::String { assert(c[6] == operator); }
                else if filter_type == FilterType::Number { assert(c[7] == operator); }
                else { assert(c[3] == operator); }
            },
        }
    }
}

/// The picker shows each operator it offers under a label of its own: no two
/// offered operators share a label.
pub proof fn lemma_offered_labels_distinct(filter_type: FilterType, i: int, j: int)
    requires
        0 <= i < j < operator_choices_spec(filter_type).len(),
    ensures
        operator_label_spec(filter_type, operator_choices_spec(filter_type)[i]) != operator_label_spec(
            filter_type,
            operator_choices_spec(filter_type)[j],
        ),
{
    reveal_strlit("contains");
    reveal_strlit("equals");
    reveal_strlit("not equals");
    reveal_strlit("starts with");
    reveal_strlit("ends with");
    reveal_strlit("is empty");
    reveal_strlit("is not empty");
    reveal_strlit("=");
    reveal_strlit("!=");
    reveal_strlit(">");
    reveal_strlit(">=");
    reveal_strlit("<");
    reveal_strlit("<=");
    reveal_strlit("is");
    reveal_strlit("is not");
    let a = operator_label_spec(filter_type, operator_choices_spec(filter_type)[i]);
    let b = operator_label_spec(filter_type, operator_choices_spec(filter_type)[j]);
    if a.len() == b.len() {
        assert(a[0] != b[0] || a[a.len() - 1] != b[b.len() - 1] || (a.len() > 4 && a[3] != b[3]));
    }
}

/// A form value that names no operator selects "contains".
pub proof fn lemma_unknown_value_selects_contains(value: Seq<char>)
    requires
        forall|operator: FilterOperator| operator_value_spec(operator) != value,
    ensures
        operator_from_value_spec(value) == FilterOperator::Contains,
{
    assert(operator_value_spec(FilterOperator::Contains) != value);
    assert(operator_value_spec(FilterOperator::Equals) != value);
    assert(operator_value_spec(FilterOperator::NotEqual) != value);
    assert(operator_value_spec(FilterOperator::StartsWith) != value);
    assert(operator_value_spec(FilterOperator::EndsWith) != value);
    assert(operator_value_spec(FilterOperator::GreaterThan) != value);
    assert(operator_value_spec(FilterOperator::GreaterThanOrEqual) != value);
    assert(operator_value_spec(FilterOperator::LessThan) != value);
    assert(operator_value_spec(FilterOperator::LessThanOrEqual) != value);
    assert(operator_value_spec(FilterOperator::IsEmpty) != value);
    assert(operator_value_spec(FilterOperator::IsNotEmpty) != value);
}

/// The value input is off exactly for the operators whose result does not
/// depend on the filter value.
pub proof fn lemma_disabled_value_is_ignored(
    filter_type: FilterType,
    operator: FilterOperator,
    row_value: Seq<char>,
    value_a: Seq<char>,
    value_b: Seq<char>,
    row_number: NumberReading,
    number_a: NumberReading,
    number_b: NumberReading,
)
    requires
        value_input_disabled_spec(operator),
    ensures
        matches_filter_spec(filter_type, operator, row_value, value_a, row_number, number_a) == matches_filter_spec(
            filter_type,
            operator,
            row_value,
            value_b,
            row_number,
            number_b,
        ),
{
}

/// The two emptiness tests are complementary on every cell.
pub proof fn lemma_emptiness_tests_complementary(
    filter_type: FilterType,
    row_value: Seq<char>,
    filter_value: Seq<char>,
    row_number: NumberReading,
    filter_number: NumberReading,
)
    ensures
        matches_filter_spec(filter_type, FilterOperator::IsEmpty, row_value, filter_value, row_number, filter_number)
            != matches_filter_spec(filter_type, FilterOperator::IsNotEmpty, row_value, filter_value, row_number, filter_number),
{
}

/// A filter whose value is blank lets every cell through, unless it is an emptiness test.
pub proof fn lemma_blank_filter_passes(
    filter_type: FilterType,
    operator: FilterOperator,
    row_value: Seq<char>,
    filter_value: Seq<char>,
    row_number: NumberReading,
    filter_number: NumberReading,
)
    requires
        trim_spec(filter_value).len() == 0,
        operator != FilterOperator::IsEmpty,
        operator != FilterOperator::IsNotEmpty,
    ensures
        matches_filter_spec(filter_type, operator, row_value, filter_value, row_number, filter_number),
{
}

/// With a non-blank value, "not equal" passes exactly the cells that "equals"
/// rejects, except on numeric columns where one of the texts is no number (there
/// both reject).
pub proof fn lemma_not_equal_negates_equals(
    filter_type: FilterType,
    row_value: Seq<char>,
    filter_value: Seq<char>,
    row_number: NumberReading,
    filter_number: NumberReading,
)
    requires
        trim_spec(filter_value).len() > 0,
    ensures
        filter_type == FilterType::Number && (row_number == NumberReading::Invalid || filter_number
            == NumberReading::Invalid) ==> (!matches_filter_spec(filter_type, FilterOperator::NotEqual, row_value, filter_value, row_number, filter_number)
            && !matches_filter_spec(filter_type, FilterOperator::Equals, row_value, filter_value, row_number, filter_number)),
        !(filter_type == FilterType::Number && (row_number == NumberReading::Invalid || filter_number
            == NumberReading::Invalid)) ==> matches_filter_spec(filter_type, FilterOperator::NotEqual, row_value, filter_value, row_number, filter_number)
            == !matches_filter_spec(filter_type, FilterOperator::Equals, row_value, filter_value, row_number, filter_number),
{
}

} // verus!
