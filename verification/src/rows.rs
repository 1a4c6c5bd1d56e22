use vstd::prelude::*;
use crate::filter::{FilterType, FilterOperator, NumberReading, matches_filter, matches_filter_spec};
use crate::text::{has_infix, lowercase, to_lowercase, contains};

verus! {

/// One value of a data row: the column it belongs to, its text, and what that
/// text, trimmed, reads as a number.
#[derive(Clone, Debug)]
pub struct RowEntry {
    pub key: String,
    pub text: String,
    pub number: NumberReading,
}

/// A data row: its values, keyed by column id. A lookup finds the first entry
/// with the key; a row built from a map holds each key once (`keys_unique`), and
/// then the lookup finds the only entry with the key.
#[derive(Clone, Debug)]
pub struct Row {
    pub entries: Vec<RowEntry>,
}

/// A table column: its id, which keys the row values, and its header text.
#[derive(Clone, Debug)]
pub struct Column {
    pub id: String,
    pub header: String,
}

/// A column that can be filtered, and how its values compare. A list of them
/// built from a map holds each id once (`ids_unique`).
#[derive(Clone, Debug)]
pub struct FilterableColumn {
    pub id: String,
    pub filter_type: FilterType,
}

/// An active column filter: the column it tests, the comparison, the value typed
/// for it, and what that value, trimmed, reads as a number.
#[derive(Clone, Debug)]
pub struct ColumnFilter {
    pub column_id: String,
    pub operator: FilterOperator,
    pub value: String,
    pub number: NumberReading,
}

/// The position of the first entry of `entries` at or after `i` whose key is `key`.
pub open spec fn lookup_from(entries: Seq<RowEntry>, key: Seq<char>, i: int) -> Option<int>
    decreases entries.len() - i,
{
    if i < 0 || i >= entries.len() {
        None
    } else if entries[i].key@ == key {
        Some(i)
    } else {
        lookup_from(entries, key, i + 1)
    }
}

/// The position of the row's value for the column `key`, if it has one.
pub open spec fn lookup(row: Row, key: Seq<char>) -> Option<int> {
    lookup_from(row.entries@, key, 0)
}

/// The row's text for the column `key`; the empty text where it has none.
pub open spec fn cell_text(row: Row, key: Seq<char>) -> Seq<char> {
    match lookup(row, key) {
        Some(i) => row.entries@[i].text@,
        None => Seq::empty(),
    }
}

/// What the row's text for the column `key` reads as a number; a missing value
/// (the empty text) is no number.
pub open spec fn cell_number(row: Row, key: Seq<char>) -> NumberReading {
    match lookup(row, key) {
        Some(i) => row.entries@[i].number,
        None => NumberReading::Invalid,
    }
}

pub proof fn lemma_lookup_from_found(entries: Seq<RowEntry>, key: Seq<char>, i: int)
    requires
        0 <= i,
    ensures
        lookup_from(entries, key, i) matches Some(k) ==> i <= k < entries.len() && entries[k].key@ == key,
    decreases entries.len() - i,
{
    if i < entries.len() {
        lemma_lookup_from_found(entries, key, i + 1);
    }
}

/// The position of the row's value for the column `key`, if it has one.
pub fn find_entry(row: &Row, key: &String) -> (r: Option<usize>)
    ensures
        r matches Some(k) ==> lookup(*row, key@) == Some(k as int),
        r is None ==> lookup(*row, key@) is None,
{
    let mut i: usize = 0;
    while i < row.entries.len()
        invariant
            i <= row.entries.len(),
            lookup(*row, key@) == lookup_from(row.entries@, key@, i as int),
        decreases row.entries.len() - i,
    {
        if row.entries[i].key == *key {
            return Some(i);
        }
        i = i + 1;
    }
    None
}

/// The filter type of the column `id`, if the column can be filtered (the first
/// entry for it counts).
pub open spec fn filter_type_from(columns: Seq<FilterableColumn>, id: Seq<char>, i: int) -> Option<FilterType>
    decreases columns.len() - i,
{
    if i < 0 || i >= columns.len() {
        None
    } else if columns[i].id@ == id {
        Some(columns[i].filter_type)
    } else {
        filter_type_from(columns, id, i + 1)
    }
}

/// The filter type of the column `id`, if the column can be filtered.
pub open spec fn filter_type_of(columns: Seq<FilterableColumn>, id: Seq<char>) -> Option<FilterType> {
    filter_type_from(columns, id, 0)
}

/// The filter type of the column `id`, if the column can be filtered.
pub fn find_filter_type(columns: &Vec<FilterableColumn>, id: &String) -> (r: Option<FilterType>)
    ensures
        r == filter_type_of(columns@, id@),
{
    let mut i: usize = 0;
    while i < columns.len()
        invariant
            i <= columns.len(),
            filter_type_of(columns@, id@) == filter_type_from(columns@, id@, i as int),
        decreases columns.len() - i,
    {
        if columns[i].id == *id {
            return Some(columns[i].filter_type);
        }
        i = i + 1;
    }
    None
}

/// Each column id keys at most one entry of the row, as in a map from column id
/// to value; a row built from such a map satisfies it.
pub open spec fn keys_unique(row: Row) -> bool {
    forall|a: int, b: int|
        0 <= a < b < row.entries@.len() ==> #[trigger] row.entries@[a].key@ != #[trigger] row.entries@[b].key@
}

/// Each column id appears at most once among the filterable columns, as in a map
/// from column id to filter type.
pub open spec fn ids_unique(columns: Seq<FilterableColumn>) -> bool {
    forall|a: int, b: int| 0 <= a < b < columns.len() ==> #[trigger] columns[a].id@ != #[trigger] columns[b].id@
}

proof fn lemma_lookup_from_unique(entries: Seq<RowEntry>, key: Seq<char>, i: int, k: int)
    requires
        0 <= i <= k < entries.len(),
        entries[k].key@ == key,
        forall|a: int, b: int| 0 <= a < b < entries.len() ==> #[trigger] entries[a].key@ != #[trigger] entries[b].key@,
    ensures
        lookup_from(entries, key, i) == Some(k),
    decreases k - i,
{
    if i < k {
        assert(entries[i].key@ != entries[k].key@);
        lemma_lookup_from_unique(entries, key, i + 1, k);
    }
}

/// In a row whose keys are unique, the lookup of a key finds the one entry that
/// has it, wherever it stands: the row reads as the map it was built from.
pub proof fn lemma_unique_keys_lookup(row: Row, k: int)
    requires
        keys_unique(row),
        0 <= k < row.entries@.len(),
    ensures
        lookup(row, row.entries@[k].key@) == Some(k),
        cell_text(row, row.entries@[k].key@) == row.entries@[k].text@,
        cell_number(row, row.entries@[k].key@) == row.entries@[k].number,
{
    lemma_lookup_from_unique(row.entries@, row.entries@[k].key@, 0, k);
}

proof fn lemma_filter_type_from_unique(columns: Seq<FilterableColumn>, i: int, k: int)
    requires
        0 <= i <= k < columns.len(),
        ids_unique(columns),
    ensures
        filter_type_from(columns, columns[k].id@, i) == Some(columns[k].filter_type),
    decreases k - i,
{
    if i < k {
        assert(columns[i].id@ != columns[k].id@);
        lemma_filter_type_from_unique(columns, i + 1, k);
    }
}

/// With unique ids, each filterable column's id finds that column's filter type.
pub proof fn lemma_unique_ids_filter_type(columns: Seq<FilterableColumn>, k: int)
    requires
        ids_unique(columns),
        0 <= k < columns.len(),
    ensures
        filter_type_of(columns, columns[k].id@) == Some(columns[k].filter_type),
{
    lemma_filter_type_from_unique(columns, 0, k);
}

/// Whether each column id keys at most one entry of the row.
pub fn row_keys_unique(row: &Row) -> (r: bool)
    ensures
        r == keys_unique(*row),
{
    let n = row.entries.len();
    let mut a: usize = 0;
    while a < n
        invariant
            a <= n,
            n == row.entries@.len(),
            forall|x: int, y: int| 0 <= x < a && x < y < n ==> #[trigger] row.entries@[x].key@ != #[trigger] row.entries@[y].key@,
        decreases n - a,
    {
        let mut b: usize = a + 1;
        while b < n
            invariant
                a < b <= n,
                n == row.entries@.len(),
                forall|x: int, y: int| 0 <= x < a && x < y < n ==> #[trigger] row.entries@[x].key@ != #[trigger] row.entries@[y].key@,
                forall|y: int| a < y < b ==> row.entries@[a as int].key@ != #[trigger] row.entries@[y].key@,
            decreases n - b,
        {
            if row.entries[a].key == row.entries[b].key {
                return false;
            }
            b = b + 1;
        }
        a = a + 1;
    }
    true
}

/// Whether each column id appears at most once among the filterable columns.
pub fn filterable_ids_unique(columns: &Vec<FilterableColumn>) -> (r: bool)
    ensures
        r == ids_unique(columns@),
{
    let n = columns.len();
    let mut a: usize = 0;
    while a < n
        invariant
            a <= n,
            n == columns@.len(),
            forall|x: int, y: int| 0 <= x < a && x < y < n ==> #[trigger] columns@[x].id@ != #[trigger] columns@[y].id@,
        decreases n - a,
    {
        let mut b: usize = a + 1;
        while b < n
            invariant
                a < b <= n,
                n == columns@.len(),
                forall|x: int, y: int| 0 <= x < a && x < y < n ==> #[trigger] columns@[x].id@ != #[trigger] columns@[y].id@,
                forall|y: int| a < y < b ==> columns@[a as int].id@ != #[trigger] columns@[y].id@,
            decreases n - b,
        {
            if columns[a].id == columns[b].id {
                return false;
            }
            b = b + 1;
        }
        a = a + 1;
    }
    true
}

/// Whether a row passes one column filter; a filter on a column that cannot be
/// filtered lets every row through.
pub open spec fn passes_filter(row: Row, filter: ColumnFilter, filterable: Seq<FilterableColumn>) -> bool {
    match filter_type_of(filterable, filter.column_id@) {
        None => true,
        Some(filter_type) => matches_filter_spec(
            filter_type,
            filter.operator,
            cell_text(row, filter.column_id@),
            filter.value@,
            cell_number(row, filter.column_id@),
            filter.number,
        ),
    }
}

/// Whether a row passes every column filter.
pub open spec fn passes_filters(row: Row, filters: Seq<ColumnFilter>, filterable: Seq<FilterableColumn>) -> bool {
    forall|j: int| 0 <= j < filters.len() ==> #[trigger] passes_filter(row, filters[j], filterable)
}

/// Whether a row passes every column filter.
pub fn row_passes_filters(row: &Row, filters: &Vec<ColumnFilter>, filterable: &Vec<FilterableColumn>) -> (r: bool)
    ensures
        r == passes_filters(*row, filters@, filterable@),
{
    let mut j: usize = 0;
    while j < filters.len()
        invariant
            j <= filters.len(),
            forall|k: int| 0 <= k < j ==> #[trigger] passes_filter(*row, filters@[k], filterable@),
        decreases filters.len() - j,
    {
        let filter = &filters[j];
        match find_filter_type(filterable, &filter.column_id) {
            None => {},
            Some(filter_type) => {
                let found = find_entry(row, &filter.column_id);
                proof {
                    lemma_lookup_from_found(row.entries@, filter.column_id@, 0);
                }
                let ok = match found {
                    Some(k) => matches_filter(
                        &filter_type,
                        filter.operator,
                        row.entries[k].text.as_str(),
                        filter.value.as_str(),
                        row.entries[k].number,
                        filter.number,
                    ),
                    None => matches_filter(
                        &filter_type,
                        filter.operator,
                        "",
                        filter.value.as_str(),
                        NumberReading::Invalid,
                        filter.number,
                    ),
                };
                proof {
                    reveal_strlit("");
                    assert(""@ =~= Seq::<char>::empty());
                    assert(ok == passes_filter(*row, filters@[j as int], filterable@));
                }
                if !ok {
                    return false;
                }
            },
        }
        j = j + 1;
    }
    true
}


/// The indices of `selection` whose rows pass every column filter, in order.
pub open spec fn filtered(
    rows: Seq<Row>,
    selection: Seq<usize>,
    filters: Seq<ColumnFilter>,
    filterable: Seq<FilterableColumn>,
) -> Seq<usize> {
    selection.filter(|i: usize| passes_filters(rows[i as int], filters, filterable))
}

/// Every index of `selection` points at a row of `rows`.
pub open spec fn selects_rows(rows: Seq<Row>, selection: Seq<usize>) -> bool {
    forall|k: int| 0 <= k < selection.len() ==> #[trigger] selection[k] < rows.len()
}

/// Keeps, in order, the selected rows that pass every column filter.
pub fn filter_rows(
    rows: &Vec<Row>,
    selection: &Vec<usize>,
    filters: &Vec<ColumnFilter>,
    filterable: &Vec<FilterableColumn>,
) -> (r: Vec<usize>)
    requires
        selects_rows(rows@, selection@),
    ensures
        r@ == filtered(rows@, selection@, filters@, filterable@),
{
    let mut out: Vec<usize> = Vec::new();
    let mut k: usize = 0;
    while k < selection.len()
        invariant
            k <= selection.len(),
            selects_rows(rows@, selection@),
            out@ == filtered(rows@, selection@.take(k as int), filters@, filterable@),
        decreases selection.len() - k,
    {
        reveal_with_fuel(Seq::<_>::filter, 1);
        assert(selection@.take(k + 1).drop_last() =~= selection@.take(k as int));
        let i = selection[k];
        if row_passes_filters(&rows[i], filters, filterable) {
            out.push(i);
        }
        k = k + 1;
    }
    assert(selection@.take(selection.len() as int) =~= selection@);
    out
}

/// Whether the row has a value for the column `key` that, lowercased, holds
/// `query` lowercased.
pub open spec fn column_hit(row: Row, key: Seq<char>, query: Seq<char>) -> bool {
    match lookup(row, key) {
        Some(i) => has_infix(lowercase(row.entries@[i].text@), lowercase(query)),
        None => false,
    }
}

/// Whether some column's value in the row, lowercased, holds `query` lowercased.
pub open spec fn search_hit(row: Row, columns: Seq<Column>, query: Seq<char>) -> bool {
    exists|c: int| 0 <= c < columns.len() && #[trigger] column_hit(row, columns[c].id@, query)
}

/// The indices of `selection` whose rows the search query finds; an empty query
/// finds every row.
pub open spec fn searched(rows: Seq<Row>, selection: Seq<usize>, columns: Seq<Column>, query: Seq<char>) -> Seq<usize> {
    if query.len() == 0 {
        selection
    } else {
        selection.filter(|i: usize| search_hit(rows[i as int], columns, query))
    }
}

/// The search test on texts already lowercased: the cell's text holds the query.
pub fn search_text_matches(value: &str, query: &str) -> (r: bool)
    ensures
        r == has_infix(value@, query@),
{
    contains(value, query)
}

/// Whether some column's value in the row, lowercased, holds the lowercased query.
fn row_search_hit(row: &Row, columns: &Vec<Column>, query_lower: &String, Ghost(query): Ghost<Seq<char>>) -> (r: bool)
    requires
        query_lower@ == lowercase(query),
    ensures
        r == search_hit(*row, columns@, query),
{
    let mut c: usize = 0;
    while c < columns.len()
        invariant
            c <= columns.len(),
            query_lower@ == lowercase(query),
            forall|d: int| 0 <= d < c ==> !#[trigger] column_hit(*row, columns@[d].id@, query),
        decreases columns.len() - c,
    {
        proof {
            lemma_lookup_from_found(row.entries@, columns@[c as int].id@, 0);
        }
        match find_entry(row, &columns[c].id) {
            Some(k) => {
                let lower = to_lowercase(row.entries[k].text.as_str());
                if search_text_matches(lower.as_str(), query_lower.as_str()) {
                    assert(column_hit(*row, columns@[c as int].id@, query));
                    return true;
                }
            },
            None => {},
        }
        c = c + 1;
    }
    false
}

/// Keeps, in order, the selected rows that the search query finds; an empty
/// query keeps them all.
pub fn search_rows(rows: &Vec<Row>, selection: &Vec<usize>, columns: &Vec<Column>, query: &String) -> (r: Vec<usize>)
    requires
        selects_rows(rows@, selection@),
    ensures
        r@ == searched(rows@, selection@, columns@, query@),
{
    if query.as_str().is_empty() {
        let mut copy: Vec<usize> = Vec::new();
        let mut k: usize = 0;
        while k < selection.len()
            invariant
                k <= selection.len(),
                copy@ == selection@.take(k as int),
            decreases selection.len() - k,
        {
            copy.push(selection[k]);
            proof {
                assert(copy@ =~= selection@.take(k + 1));
            }
            k = k + 1;
        }
        assert(selection@.take(selection.len() as int) =~= selection@);
        return copy;
    }
    let query_lower = to_lowercase(query.as_str());
    let mut out: Vec<usize> = Vec::new();
    let mut k: usize = 0;
    while k < selection.len()
        invariant
            k <= selection.len(),
            selects_rows(rows@, selection@),
            query_lower@ == lowercase(query@),
            query@.len() > 0,
            out@ == searched(rows@, selection@.take(k as int), columns@, query@),
        decreases selection.len() - k,
    {
        reveal_with_fuel(Seq::<_>::filter, 1);
        assert(selection@.take(k + 1).drop_last() =~= selection@.take(k as int));
        let i = selection[k];
        if row_search_hit(&rows[i], columns, &query_lower, Ghost(query@)) {
            out.push(i);
        }
        k = k + 1;
    }
    assert(selection@.take(selection.len() as int) =~= selection@);
    out
}


proof fn lemma_filter_push(x: Seq<usize>, e: usize, q: spec_fn(usize) -> bool)
    ensures
        x.push(e).filter(q) == (if q(e) { x.filter(q).push(e) } else { x.filter(q) }),
{
    reveal_with_fuel(Seq::<_>::filter, 1);
    assert(x.push(e).drop_last() =~= x);
}

proof fn lemma_filter_commute(s: Seq<usize>, p: spec_fn(usize) -> bool, q: spec_fn(usize) -> bool)
    ensures
        s.filter(p).filter(q) == s.filter(q).filter(p),
    decreases s.len(),
{
    reveal_with_fuel(Seq::<_>::filter, 1);
    if s.len() > 0 {
        let x = s.drop_last();
        let e = s.last();
        lemma_filter_commute(x, p, q);
        if p(e) {
            lemma_filter_push(x.filter(p), e, q);
        }
        if q(e) {
            lemma_filter_push(x.filter(q), e, p);
        }
    }
}

proof fn lemma_filter_filter(s: Seq<usize>, p: spec_fn(usize) -> bool, q: spec_fn(usize) -> bool)
    ensures
        s.filter(p).filter(q) == s.filter(|x: usize| p(x) && q(x)),
    decreases s.len(),
{
    reveal_with_fuel(Seq::<_>::filter, 1);
    if s.len() > 0 {
        let x = s.drop_last();
        let e = s.last();
        lemma_filter_filter(x, p, q);
        if p(e) {
            lemma_filter_push(x.filter(p), e, q);
        }
    }
}

/// The column filters narrow the rows one after another: filtering by two lists
/// of filters at once keeps the same rows, in the same order, as filtering by
/// the first list and then by the second, or by the second and then the first.
pub proof fn lemma_filters_compose(
    rows: Seq<Row>,
    selection: Seq<usize>,
    first: Seq<ColumnFilter>,
    second: Seq<ColumnFilter>,
    filterable: Seq<FilterableColumn>,
)
    ensures
        filtered(rows, selection, first + second, filterable) == filtered(
            rows,
            filtered(rows, selection, first, filterable),
            second,
            filterable,
        ),
        filtered(rows, selection, first + second, filterable) == filtered(rows, selection, second + first, filterable),
{
    let p = |i: usize| passes_filters(rows[i as int], first, filterable);
    let q = |i: usize| passes_filters(rows[i as int], second, filterable);
    let both = |i: usize| passes_filters(rows[i as int], first + second, filterable);
    let swapped = |i: usize| passes_filters(rows[i as int], second + first, filterable);
    assert forall|i: usize| #[trigger] both(i) == (p(i) && q(i)) by {
        let row = rows[i as int];
        let all = first + second;
        if p(i) && q(i) {
            assert forall|j: int| 0 <= j < all.len() implies #[trigger] passes_filter(row, all[j], filterable) by {
                if j < first.len() {
                    assert(all[j] == first[j]);
                } else {
                    assert(all[j] == second[j - first.len()]);
                }
            }
        }
        if both(i) {
            assert forall|j: int| 0 <= j < first.len() implies #[trigger] passes_filter(row, first[j], filterable) by {
                assert(all[j] == first[j]);
            }
            assert forall|j: int| 0 <= j < second.len() implies #[trigger] passes_filter(row, second[j], filterable) by {
                assert(all[j + first.len()] == second[j]);
            }
        }
    }
    assert forall|i: usize| #[trigger] swapped(i) == (q(i) && p(i)) by {
        let row = rows[i as int];
        let all = second + first;
        if p(i) && q(i) {
            assert forall|j: int| 0 <= j < all.len() implies #[trigger] passes_filter(row, all[j], filterable) by {
                if j < second.len() {
                    assert(all[j] == second[j]);
                } else {
                    assert(all[j] == first[j - second.len()]);
                }
            }
        }
        if swapped(i) {
            assert forall|j: int| 0 <= j < second.len() implies #[trigger] passes_filter(row, second[j], filterable) by {
                assert(all[j] == second[j]);
            }
            assert forall|j: int| 0 <= j < first.len() implies #[trigger] passes_filter(row, first[j], filterable) by {
                assert(all[j + second.len()] == first[j]);
            }
        }
    }
    lemma_filter_filter(selection, p, q);
    assert(both =~= (|x: usize| p(x) && q(x)));
    assert(swapped =~= both);
}

/// The search ignores letter case: a row whose value for one of the columns,
/// lowercased, holds the lowercased query is always kept; every kept row has
/// such a value; and rows whose values agree once lowercased, or queries that
/// agree once lowercased, are found alike.
pub proof fn lemma_search_ignores_case(
    rows: Seq<Row>,
    selection: Seq<usize>,
    columns: Seq<Column>,
    query: Seq<char>,
    k: int,
    c: int,
    i: int,
)
    requires
        0 <= k < selection.len(),
        0 <= c < columns.len(),
        lookup(rows[selection[k] as int], columns[c].id@) == Some(i),
        has_infix(lowercase(rows[selection[k] as int].entries@[i].text@), lowercase(query)),
    ensures
        searched(rows, selection, columns, query).contains(selection[k]),
{
    broadcast use vstd::seq_lib::group_filter_ensures;

    assert(column_hit(rows[selection[k] as int], columns[c].id@, query));
    if query.len() > 0 {
        let pred = |x: usize| search_hit(rows[x as int], columns, query);
        assert(pred(selection[k]));
    } else {
        assert(selection[k] == selection[k]);
    }
}

/// Every row the search keeps has a value, for one of the columns, that holds
/// the query once both are lowercased.
pub proof fn lemma_search_keeps_only_hits(
    rows: Seq<Row>,
    selection: Seq<usize>,
    columns: Seq<Column>,
    query: Seq<char>,
    x: usize,
)
    requires
        query.len() > 0,
        searched(rows, selection, columns, query).contains(x),
    ensures
        exists|c: int, i: int|
            0 <= c < columns.len() && lookup(rows[x as int], columns[c].id@) == Some(i) && has_infix(
                lowercase(rows[x as int].entries@[i].text@),
                lowercase(query),
            ),
{
    broadcast use vstd::seq_lib::group_filter_ensures;

    let pred = |y: usize| search_hit(rows[y as int], columns, query);
    let f = selection.filter(pred);
    let k = choose|k: int| 0 <= k < f.len() && f[k] == x;
    assert(pred(f[k]));
    let c = choose|c: int| 0 <= c < columns.len() && #[trigger] column_hit(rows[x as int], columns[c].id@, query);
    let i = lookup(rows[x as int], columns[c].id@)->0;
    assert(lookup(rows[x as int], columns[c].id@) == Some(i));
}

/// Case does not matter to the search: two rows with the same keys whose
/// values agree once lowercased are found alike, and two queries that agree
/// once lowercased find the same rows.
pub proof fn lemma_search_case_blind(
    row_a: Row,
    row_b: Row,
    columns: Seq<Column>,
    query_a: Seq<char>,
    query_b: Seq<char>,
)
    requires
        row_a.entries@.len() == row_b.entries@.len(),
        forall|k: int|
            0 <= k < row_a.entries@.len() ==> #[trigger] row_a.entries@[k].key@ == row_b.entries@[k].key@
                && lowercase(row_a.entries@[k].text@) == lowercase(row_b.entries@[k].text@),
        lowercase(query_a) == lowercase(query_b),
    ensures
        search_hit(row_a, columns, query_a) == search_hit(row_b, columns, query_b),
{
    assert forall|key: Seq<char>| #[trigger] lookup(row_a, key) == lookup(row_b, key) by {
        lemma_lookup_same_keys(row_a.entries@, row_b.entries@, key, 0);
    }
    assert forall|c: int| 0 <= c < columns.len() implies #[trigger] column_hit(row_a, columns[c].id@, query_a)
        == column_hit(row_b, columns[c].id@, query_b) by {
        lemma_lookup_from_found(row_a.entries@, columns[c].id@, 0);
    }
    if search_hit(row_a, columns, query_a) {
        let c = choose|c: int| 0 <= c < columns.len() && #[trigger] column_hit(row_a, columns[c].id@, query_a);
        assert(column_hit(row_b, columns[c].id@, query_b));
    }
    if search_hit(row_b, columns, query_b) {
        let c = choose|c: int| 0 <= c < columns.len() && #[trigger] column_hit(row_b, columns[c].id@, query_b);
        assert(column_hit(row_a, columns[c].id@, query_a));
    }
}

proof fn lemma_lookup_same_keys(a: Seq<RowEntry>, b: Seq<RowEntry>, key: Seq<char>, i: int)
    requires
        0 <= i,
        a.len() == b.len(),
        forall|k: int| 0 <= k < a.len() ==> #[trigger] a[k].key@ == b[k].key@,
    ensures
        lookup_from(a, key, i) == lookup_from(b, key, i),
    decreases a.len() - i,
{
    if i < a.len() {
        assert(a[i].key@ == b[i].key@);
        lemma_lookup_same_keys(a, b, key, i + 1);
    }
}

/// Column filters and the search query narrow the rows independently: applying
/// them in either order keeps the same rows in the same order.
pub proof fn lemma_filter_search_commute(
    rows: Seq<Row>,
    selection: Seq<usize>,
    filters: Seq<ColumnFilter>,
    filterable: Seq<FilterableColumn>,
    columns: Seq<Column>,
    query: Seq<char>,
)
    ensures
        searched(rows, filtered(rows, selection, filters, filterable), columns, query)
            == filtered(rows, searched(rows, selection, columns, query), filters, filterable),
{
    if query.len() > 0 {
        lemma_filter_commute(
            selection,
            |i: usize| passes_filters(rows[i as int], filters, filterable),
            |i: usize| search_hit(rows[i as int], columns, query),
        );
    }
}

} // verus!
