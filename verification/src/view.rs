use vstd::prelude::*;
use crate::rows::{Row, Column, FilterableColumn, filtered, searched, filter_rows, search_rows, selects_rows};
use crate::sort::{sorted_as, sort_rows, opt_view};
use crate::state::{TableState, FilterModel, OptionModel, filters_model};
use crate::rows::{ColumnFilter, passes_filter, passes_filters};
use crate::filter::FilterOperator;
use crate::text::trim_spec;

verus! {

/// The indices `0..n`.
pub open spec fn all_rows(n: nat) -> Seq<usize> {
    Seq::new(n, |i: int| i as usize)
}

/// `result` lists the rows the table shows across all its pages, in display
/// order: the rows that pass the column filters, then those the search finds,
/// then sorted by the sort column.
pub open spec fn table_rows_spec(
    rows: Seq<Row>,
    columns: Seq<Column>,
    filterable: Seq<FilterableColumn>,
    state: TableState,
    result: Seq<usize>,
) -> bool {
    let narrowed = searched(
        rows,
        filtered(rows, all_rows(rows.len()), state.filters@, filterable),
        columns,
        state.search_query@,
    );
    sorted_as(rows, narrowed, columns, opt_view(state.sort_column), state.sort_order, result)
}

/// The rows the table shows across all its pages, in display order.
pub fn table_rows(
    rows: &Vec<Row>,
    columns: &Vec<Column>,
    filterable: &Vec<FilterableColumn>,
    state: &TableState,
) -> (r: Vec<usize>)
    ensures
        table_rows_spec(rows@, columns@, filterable@, *state, r@),
{
    let mut all: Vec<usize> = Vec::new();
    let mut i: usize = 0;
    while i < rows.len()
        invariant
            i <= rows.len(),
            all@ == all_rows(i as nat),
        decreases rows.len() - i,
    {
        all.push(i);
        proof {
            assert(all@ =~= all_rows((i + 1) as nat));
        }
        i = i + 1;
    }
    let kept = filter_rows(rows, &all, &state.filters, filterable);
    proof {
        lemma_filtered_selects(rows@, all@, state.filters@, filterable@);
    }
    let found = search_rows(rows, &kept, columns, &state.search_query);
    proof {
        lemma_searched_selects(rows@, kept@, columns@, state.search_query@);
    }
    sort_rows(rows, &found, columns, &state.sort_column, state.sort_order)
}

proof fn lemma_filtered_selects(
    rows: Seq<Row>,
    selection: Seq<usize>,
    filters: Seq<crate::rows::ColumnFilter>,
    filterable: Seq<FilterableColumn>,
)
    requires
        selects_rows(rows, selection),
    ensures
        selects_rows(rows, filtered(rows, selection, filters, filterable)),
{
    broadcast use vstd::seq_lib::group_filter_ensures;

    let pred = |i: usize| crate::rows::passes_filters(rows[i as int], filters, filterable);
    let f = selection.filter(pred);
    assert forall|k: int| 0 <= k < f.len() implies #[trigger] f[k] < rows.len() by {
        assert(f.contains(f[k]));
        selection.lemma_filter_contains_rev(pred, f[k]);
    }
}

proof fn lemma_searched_selects(rows: Seq<Row>, selection: Seq<usize>, columns: Seq<Column>, query: Seq<char>)
    requires
        selects_rows(rows, selection),
    ensures
        selects_rows(rows, searched(rows, selection, columns, query)),
{
    broadcast use vstd::seq_lib::group_filter_ensures;

    if query.len() > 0 {
        let pred = |i: usize| crate::rows::search_hit(rows[i as int], columns, query);
        let f = selection.filter(pred);
        assert forall|k: int| 0 <= k < f.len() implies #[trigger] f[k] < rows.len() by {
            assert(f.contains(f[k]));
            selection.lemma_filter_contains_rev(pred, f[k]);
        }
    }
}


/// A filter that lets every row through: not an emptiness test, and its value is
/// blank.
pub open spec fn is_blank_filter(f: FilterModel) -> bool {
    &&& f.operator != FilterOperator::IsEmpty
    &&& f.operator != FilterOperator::IsNotEmpty
    &&& trim_spec(f.value).len() == 0
}

/// Filtering reads the filters only through their models: two filter lists with
/// the same models keep the same rows; appending a blank filter keeps them too.
pub proof fn lemma_filtered_by_models(
    rows: Seq<Row>,
    selection: Seq<usize>,
    first: Seq<ColumnFilter>,
    second: Seq<ColumnFilter>,
    filterable: Seq<FilterableColumn>,
)
    requires
        filters_model(second) == filters_model(first) || (filters_model(second).len() > 0
            && filters_model(second).drop_last() == filters_model(first) && is_blank_filter(
            filters_model(second).last(),
        )),
    ensures
        filtered(rows, selection, second, filterable) == filtered(rows, selection, first, filterable),
{
    let m1 = filters_model(first);
    let m2 = filters_model(second);
    assert(m1.len() == first.len());
    assert(m2.len() == second.len());
    let p1 = |i: usize| passes_filters(rows[i as int], first, filterable);
    let p2 = |i: usize| passes_filters(rows[i as int], second, filterable);
    assert forall|i: usize| #[trigger] p2(i) == p1(i) by {
        let row = rows[i as int];
        assert forall|j: int| 0 <= j < first.len() implies #[trigger] passes_filter(row, second[j], filterable)
            == passes_filter(row, first[j], filterable) by {
            assert(m2[j] == m1[j]);
        }
        if second.len() > first.len() {
            let j = first.len() as int;
            assert(m2[j] == m2.last());
            assert(passes_filter(row, second[j], filterable)) by {
                match crate::rows::filter_type_of(filterable, second[j].column_id@) {
                    Some(ft) => {
                        crate::filter::lemma_blank_filter_passes(
                            ft,
                            second[j].operator,
                            crate::rows::cell_text(row, second[j].column_id@),
                            second[j].value@,
                            crate::rows::cell_number(row, second[j].column_id@),
                            second[j].number,
                        );
                    },
                    None => {},
                }
            }
            if p1(i) {
                assert forall|k: int| 0 <= k < second.len() implies #[trigger] passes_filter(row, second[k], filterable) by {
                    if k < first.len() {
                        assert(passes_filter(row, first[k], filterable));
                    }
                }
            }
            if p2(i) {
                assert forall|k: int| 0 <= k < first.len() implies #[trigger] passes_filter(row, first[k], filterable) by {
                    assert(passes_filter(row, second[k], filterable));
                }
            }
        } else {
            if p1(i) {
                assert forall|k: int| 0 <= k < second.len() implies #[trigger] passes_filter(row, second[k], filterable) by {
                    assert(passes_filter(row, first[k], filterable));
                }
            }
            if p2(i) {
                assert forall|k: int| 0 <= k < first.len() implies #[trigger] passes_filter(row, first[k], filterable) by {
                    assert(passes_filter(row, second[k], filterable));
                }
            }
        }
    }
    assert(p1 =~= p2);
}

/// Picking a column in the add menu never changes the rows on display: a new
/// filter starts with its column's default operator (never an emptiness test)
/// and a blank value, so it keeps every row; only the page goes back to the
/// first one.
pub proof fn lemma_adding_filter_keeps_rows(
    rows: Seq<Row>,
    columns: Seq<Column>,
    filterable: Seq<FilterableColumn>,
    before: TableState,
    after: TableState,
    id: Seq<char>,
    options: Seq<OptionModel>,
    result: Seq<usize>,
)
    requires
        after@ == before@.add_filter(id, options),
    ensures
        table_rows_spec(rows, columns, filterable, after, result) == table_rows_spec(
            rows,
            columns,
            filterable,
            before,
            result,
        ),
{
    let all = all_rows(rows.len());
    let m1 = filters_model(before.filters@);
    let m2 = filters_model(after.filters@);
    if m2 != m1 {
        let last = m2.last();
        assert(last.value == Seq::<char>::empty());
        assert(trim_spec(last.value) == Seq::<char>::empty());
        assert(m2.drop_last() =~= m1);
    }
    lemma_filtered_by_models(rows, all, before.filters@, after.filters@, filterable);
    assert(opt_view(after.sort_column) == opt_view(before.sort_column));
}

} // verus!
