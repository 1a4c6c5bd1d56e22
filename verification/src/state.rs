use vstd::prelude::*;
use crate::filter::{FilterType, FilterOperator, NumberReading, default_operator, default_operator_spec, operator_from_value, operator_from_value_spec};
use crate::rows::{Column, ColumnFilter, FilterableColumn, filter_type_of, find_filter_type};
use crate::sort::{SortOrder, opt_view};
use crate::text::text_eq;
use crate::filter::{operator_label, operator_label_spec};
use vstd::string::StringExecFns;

verus! {

/// A column filter as the contracts see it.
pub struct FilterModel {
    pub column: Seq<char>,
    pub operator: FilterOperator,
    pub value: Seq<char>,
    pub number: NumberReading,
}

/// The model of a column filter.
pub open spec fn filter_model(f: ColumnFilter) -> FilterModel {
    FilterModel { column: f.column_id@, operator: f.operator, value: f.value@, number: f.number }
}

/// The models of a list of column filters.
pub open spec fn filters_model(filters: Seq<ColumnFilter>) -> Seq<FilterModel> {
    filters.map_values(|f: ColumnFilter| filter_model(f))
}

/// A column that a filter can be put on: its id, the text that names it (its
/// header, or its id where the header is empty) and its filter type.
#[derive(Clone, Debug)]
pub struct FilterColumnOption {
    pub id: String,
    pub label: String,
    pub filter_type: FilterType,
}

/// A filter column option as the contracts see it.
pub struct OptionModel {
    pub id: Seq<char>,
    pub label: Seq<char>,
    pub filter_type: FilterType,
}

/// The model of a filter column option.
pub open spec fn option_model(o: FilterColumnOption) -> OptionModel {
    OptionModel { id: o.id@, label: o.label@, filter_type: o.filter_type }
}

/// The models of a list of filter column options.
pub open spec fn options_model(options: Seq<FilterColumnOption>) -> Seq<OptionModel> {
    options.map_values(|o: FilterColumnOption| option_model(o))
}

/// What the table's controls have set: the page, the sort, the search query,
/// the column filters, which filter's editor is open and whether the menu for
/// adding a filter is open.
#[derive(Clone, Debug)]
pub struct TableState {
    pub page: usize,
    pub sort_column: Option<String>,
    pub sort_order: SortOrder,
    pub search_query: String,
    pub filters: Vec<ColumnFilter>,
    pub active_filter: Option<usize>,
    pub add_menu_open: bool,
}

/// The table's control state as the contracts see it.
pub struct TableModel {
    pub page: nat,
    pub sort_column: Option<Seq<char>>,
    pub sort_order: SortOrder,
    pub search_query: Seq<char>,
    pub filters: Seq<FilterModel>,
    pub active_filter: Option<nat>,
    pub add_menu_open: bool,
}

impl View for TableState {
    type V = TableModel;

    open spec fn view(&self) -> TableModel {
        TableModel {
            page: self.page as nat,
            sort_column: match self.sort_column {
                Some(c) => Some(c@),
                None => None,
            },
            sort_order: self.sort_order,
            search_query: self.search_query@,
            filters: filters_model(self.filters@),
            active_filter: match self.active_filter {
                Some(i) => Some(i as nat),
                None => None,
            },
            add_menu_open: self.add_menu_open,
        }
    }
}

/// The position of the first filter at or after `i` on the column `id`.
pub open spec fn filter_position_from(filters: Seq<FilterModel>, id: Seq<char>, i: int) -> Option<nat>
    decreases filters.len() - i,
{
    if i < 0 || i >= filters.len() {
        None
    } else if filters[i].column == id {
        Some(i as nat)
    } else {
        filter_position_from(filters, id, i + 1)
    }
}

/// The position of the first filter on the column `id`.
pub open spec fn filter_position(filters: Seq<FilterModel>, id: Seq<char>) -> Option<nat> {
    filter_position_from(filters, id, 0)
}

/// The position of the first option at or after `i` for the column `id`.
pub open spec fn option_position_from(options: Seq<OptionModel>, id: Seq<char>, i: int) -> Option<nat>
    decreases options.len() - i,
{
    if i < 0 || i >= options.len() {
        None
    } else if options[i].id == id {
        Some(i as nat)
    } else {
        option_position_from(options, id, i + 1)
    }
}

/// The position of the first option for the column `id`.
pub open spec fn option_position(options: Seq<OptionModel>, id: Seq<char>) -> Option<nat> {
    option_position_from(options, id, 0)
}

proof fn lemma_filter_position_found(filters: Seq<FilterModel>, id: Seq<char>, i: int)
    requires
        0 <= i,
    ensures
        filter_position_from(filters, id, i) matches Some(k) ==> i <= k < filters.len() && filters[k as int].column == id,
        filter_position_from(filters, id, i) is None ==> forall|k: int| i <= k < filters.len() ==> filters[k].column != id,
    decreases filters.len() - i,
{
    if i < filters.len() {
        lemma_filter_position_found(filters, id, i + 1);
    }
}

proof fn lemma_option_position_found(options: Seq<OptionModel>, id: Seq<char>, i: int)
    requires
        0 <= i,
    ensures
        option_position_from(options, id, i) matches Some(k) ==> i <= k < options.len() && options[k as int].id == id,
    decreases options.len() - i,
{
    if i < options.len() {
        lemma_option_position_found(options, id, i + 1);
    }
}

/// The position of the first filter on the column `id`.
fn find_filter(filters: &Vec<ColumnFilter>, id: &str) -> (r: Option<usize>)
    ensures
        r matches Some(k) ==> filter_position(filters_model(filters@), id@) == Some(k as nat),
        r is None ==> filter_position(filters_model(filters@), id@) is None,
{
    let ghost m = filters_model(filters@);
    let mut i: usize = 0;
    while i < filters.len()
        invariant
            i <= filters.len(),
            m == filters_model(filters@),
            filter_position(m, id@) == filter_position_from(m, id@, i as int),
        decreases filters.len() - i,
    {
        if text_eq(filters[i].column_id.as_str(), id) {
            return Some(i);
        }
        i = i + 1;
    }
    None
}

/// The position of the first option for the column `id`.
fn find_option(options: &Vec<FilterColumnOption>, id: &str) -> (r: Option<usize>)
    ensures
        r matches Some(k) ==> option_position(options_model(options@), id@) == Some(k as nat),
        r is None ==> option_position(options_model(options@), id@) is None,
{
    let ghost m = options_model(options@);
    let mut i: usize = 0;
    while i < options.len()
        invariant
            i <= options.len(),
            m == options_model(options@),
            option_position(m, id@) == option_position_from(m, id@, i as int),
        decreases options.len() - i,
    {
        if text_eq(options[i].id.as_str(), id) {
            return Some(i);
        }
        i = i + 1;
    }
    None
}

/// The order that a second click on the sorted column switches to.
pub open spec fn flipped(order: SortOrder) -> SortOrder {
    match order {
        SortOrder::Asc => SortOrder::Desc,
        SortOrder::Desc => SortOrder::Asc,
    }
}

/// A new filter on a column: the column's default operator, a blank value.
pub open spec fn new_filter(id: Seq<char>, filter_type: FilterType) -> FilterModel {
    FilterModel {
        column: id,
        operator: default_operator_spec(filter_type),
        value: Seq::empty(),
        number: NumberReading::Invalid,
    }
}

impl TableModel {
    /// The state a table starts in.
    pub open spec fn initial(sort_column: Option<Seq<char>>, sort_order: SortOrder) -> TableModel {
        TableModel {
            page: 0,
            sort_column,
            sort_order,
            search_query: Seq::empty(),
            filters: Seq::empty(),
            active_filter: None,
            add_menu_open: false,
        }
    }

    /// A click on the header of column `id`: the sorted column switches between
    /// ascending and descending; another column becomes the sorted one, ascending.
    pub open spec fn sort_by(self, id: Seq<char>) -> TableModel {
        if self.sort_column == Some(id) {
            TableModel { sort_order: flipped(self.sort_order), ..self }
        } else {
            TableModel { sort_column: Some(id), sort_order: SortOrder::Asc, ..self }
        }
    }

    /// A new search query takes effect, from the first page.
    pub open spec fn search(self, query: Seq<char>) -> TableModel {
        TableModel { search_query: query, page: 0, ..self }
    }

    /// Another page is picked.
    pub open spec fn go_to_page(self, page: nat) -> TableModel {
        TableModel { page, ..self }
    }

    /// A column picked in the menu for adding a filter: an empty pick does
    /// nothing; a column that already has a filter opens that filter's editor;
    /// a column among the options gets a new filter, whose editor opens, from the
    /// first page; the menu closes in both cases; any other pick does nothing.
    pub open spec fn add_filter(self, id: Seq<char>, options: Seq<OptionModel>) -> TableModel {
        if id.len() == 0 {
            self
        } else {
            match filter_position(self.filters, id) {
                Some(k) => TableModel { active_filter: Some(k), add_menu_open: false, ..self },
                None => match option_position(options, id) {
                    Some(o) => TableModel {
                        filters: self.filters.push(new_filter(options[o as int].id, options[o as int].filter_type)),
                        page: 0,
                        active_filter: Some(self.filters.len()),
                        add_menu_open: false,
                        ..self
                    },
                    None => self,
                },
            }
        }
    }

    /// The "+ Filter" button of the bare table: a new filter on the first option,
    /// from the first page; nothing when there is no option.
    pub open spec fn add_first_filter(self, options: Seq<OptionModel>) -> TableModel {
        if options.len() == 0 {
            self
        } else {
            TableModel {
                filters: self.filters.push(new_filter(options[0].id, options[0].filter_type)),
                page: 0,
                ..self
            }
        }
    }

    /// Another column picked for the filter at `index`: when an option has that
    /// column, the filter moves to it with the column's default operator and a
    /// blank value. The table goes back to the first page either way.
    pub open spec fn set_filter_column(self, index: nat, id: Seq<char>, options: Seq<OptionModel>) -> TableModel {
        let filters = if index < self.filters.len() {
            match option_position(options, id) {
                Some(o) => self.filters.update(
                    index as int,
                    new_filter(options[o as int].id, options[o as int].filter_type),
                ),
                None => self.filters,
            }
        } else {
            self.filters
        };
        TableModel { filters, page: 0, ..self }
    }

    /// Another operator picked, by form value, for the filter at `index`; the
    /// table goes back to the first page.
    pub open spec fn set_filter_operator(self, index: nat, value: Seq<char>) -> TableModel {
        let filters = if index < self.filters.len() {
            self.filters.update(
                index as int,
                FilterModel { operator: operator_from_value_spec(value), ..self.filters[index as int] },
            )
        } else {
            self.filters
        };
        TableModel { filters, page: 0, ..self }
    }

    /// A new value typed for the filter at `index`, with what it reads as a
    /// number; the table goes back to the first page.
    pub open spec fn set_filter_value(self, index: nat, value: Seq<char>, number: NumberReading) -> TableModel {
        let filters = if index < self.filters.len() {
            self.filters.update(index as int, FilterModel { value, number, ..self.filters[index as int] })
        } else {
            self.filters
        };
        TableModel { filters, page: 0, ..self }
    }

    /// The filter at `index` removed; the table goes back to the first page and
    /// no filter editor stays open.
    pub open spec fn remove_filter(self, index: nat) -> TableModel {
        let filters = if index < self.filters.len() {
            self.filters.remove(index as int)
        } else {
            self.filters
        };
        TableModel { filters, page: 0, active_filter: None, ..self }
    }

    /// Every filter removed, from the first page, with the editors and the menu closed.
    pub open spec fn clear_filters(self) -> TableModel {
        TableModel { filters: Seq::empty(), page: 0, active_filter: None, add_menu_open: false, ..self }
    }

    /// A click on the button of the filter at `index`: its editor opens, or
    /// closes when it was the open one.
    pub open spec fn toggle_filter_editor(self, index: nat) -> TableModel {
        TableModel {
            active_filter: if self.active_filter == Some(index) {
                None
            } else {
                Some(index)
            },
            ..self
        }
    }

    /// The menu for adding a filter opens or closes.
    pub open spec fn toggle_add_menu(self) -> TableModel {
        TableModel { add_menu_open: !self.add_menu_open, ..self }
    }
}


impl TableState {
    /// The state a table starts in: first page, the given sort, no search, no filters.
    pub fn new(sort_column: Option<String>, sort_order: SortOrder) -> (r: TableState)
        ensures
            r@ == TableModel::initial(opt_view(sort_column), sort_order),
    {
        let r = TableState {
            page: 0,
            sort_column,
            sort_order,
            search_query: String::new(),
            filters: Vec::new(),
            active_filter: None,
            add_menu_open: false,
        };
        assert(filters_model(r.filters@) =~= Seq::<FilterModel>::empty());
        r
    }

    /// A click on the header of column `id`.
    pub fn sort_by_column(&mut self, id: String)
        ensures
            final(self)@ == old(self)@.sort_by(id@),
    {
        let same = match &self.sort_column {
            Some(current) => *current == id,
            None => false,
        };
        if same {
            self.sort_order = match self.sort_order {
                SortOrder::Asc => SortOrder::Desc,
                SortOrder::Desc => SortOrder::Asc,
            };
        } else {
            self.sort_column = Some(id);
            self.sort_order = SortOrder::Asc;
        }
    }

    /// A new search query takes effect, from the first page.
    pub fn set_search_query(&mut self, query: String)
        ensures
            final(self)@ == old(self)@.search(query@),
    {
        self.search_query = query;
        self.page = 0;
    }

    /// A column picked in the menu for adding a filter.
    pub fn add_filter(&mut self, id: &str, options: &Vec<FilterColumnOption>)
        ensures
            final(self)@ == old(self)@.add_filter(id@, options_model(options@)),
    {
        if id.is_empty() {
            return;
        }
        proof {
            lemma_option_position_found(options_model(options@), id@, 0);
        }
        match find_filter(&self.filters, id) {
            Some(existing) => {
                self.active_filter = Some(existing);
                self.add_menu_open = false;
            },
            None => match find_option(options, id) {
                Some(o) => {
                    let option = &options[o];
                    let filter = ColumnFilter {
                        column_id: option.id.clone(),
                        operator: default_operator(&option.filter_type),
                        value: String::new(),
                        number: NumberReading::Invalid,
                    };
                    let ghost before = self.filters@;
                    self.filters.push(filter);
                    proof {
                        assert(filters_model(self.filters@) =~= filters_model(before).push(filter_model(filter)));
                    }
                    self.page = 0;
                    self.active_filter = Some(self.filters.len() - 1);
                    self.add_menu_open = false;
                },
                None => {},
            },
        }
    }

    /// The "+ Filter" button of the bare table: a new filter on the first option.
    pub fn add_first_filter(&mut self, options: &Vec<FilterColumnOption>)
        ensures
            final(self)@ == old(self)@.add_first_filter(options_model(options@)),
    {
        if options.len() > 0 {
            let option = &options[0];
            let filter = ColumnFilter {
                column_id: option.id.clone(),
                operator: default_operator(&option.filter_type),
                value: String::new(),
                number: NumberReading::Invalid,
            };
            let ghost before = self.filters@;
            self.filters.push(filter);
            proof {
                assert(filters_model(self.filters@) =~= filters_model(before).push(filter_model(filter)));
            }
            self.page = 0;
        }
    }

    /// Another column picked for the filter at `index`.
    pub fn set_filter_column(&mut self, index: usize, id: &str, options: &Vec<FilterColumnOption>)
        ensures
            final(self)@ == old(self)@.set_filter_column(index as nat, id@, options_model(options@)),
    {
        if index < self.filters.len() {
            proof {
                lemma_option_position_found(options_model(options@), id@, 0);
            }
            match find_option(options, id) {
                Some(o) => {
                    let option = &options[o];
                    let filter = ColumnFilter {
                        column_id: option.id.clone(),
                        operator: default_operator(&option.filter_type),
                        value: String::new(),
                        number: NumberReading::Invalid,
                    };
                    let ghost before = self.filters@;
                    self.filters.set(index, filter);
                    proof {
                        assert(filters_model(self.filters@) =~= filters_model(before).update(
                            index as int,
                            filter_model(filter),
                        ));
                    }
                },
                None => {},
            }
        }
        self.page = 0;
    }

    /// Another operator picked, by form value, for the filter at `index`.
    pub fn set_filter_operator(&mut self, index: usize, value: &str)
        ensures
            final(self)@ == old(self)@.set_filter_operator(index as nat, value@),
    {
        if index < self.filters.len() {
            let ghost before = self.filters@;
            let operator = operator_from_value(value);
            let old_filter = self.filters.remove(index);
            let filter = ColumnFilter { operator, ..old_filter };
            self.filters.insert(index, filter);
            proof {
                assert(filters_model(self.filters@) =~= filters_model(before).update(
                    index as int,
                    FilterModel { operator: operator_from_value_spec(value@), ..filters_model(before)[index as int] },
                ));
            }
        }
        self.page = 0;
    }

    /// A new value typed for the filter at `index`, with what it reads as a number.
    pub fn set_filter_value(&mut self, index: usize, value: String, number: NumberReading)
        ensures
            final(self)@ == old(self)@.set_filter_value(index as nat, value@, number),
    {
        if index < self.filters.len() {
            let ghost before = self.filters@;
            let ghost value_view = value@;
            let old_filter = self.filters.remove(index);
            let filter = ColumnFilter { value, number, ..old_filter };
            self.filters.insert(index, filter);
            proof {
                assert(filters_model(self.filters@) =~= filters_model(before).update(
                    index as int,
                    FilterModel { value: value_view, number, ..filters_model(before)[index as int] },
                ));
            }
        }
        self.page = 0;
    }

    /// The filter at `index` removed.
    pub fn remove_filter(&mut self, index: usize)
        ensures
            final(self)@ == old(self)@.remove_filter(index as nat),
    {
        if index < self.filters.len() {
            let ghost before = self.filters@;
            self.filters.remove(index);
            proof {
                assert(filters_model(self.filters@) =~= filters_model(before).remove(index as int));
            }
        }
        self.page = 0;
        self.active_filter = None;
    }

    /// Every filter removed.
    pub fn clear_filters(&mut self)
        ensures
            final(self)@ == old(self)@.clear_filters(),
    {
        self.filters = Vec::new();
        proof {
            assert(filters_model(self.filters@) =~= Seq::<FilterModel>::empty());
        }
        self.page = 0;
        self.active_filter = None;
        self.add_menu_open = false;
    }

    /// A click on the button of the filter at `index`.
    pub fn toggle_filter_editor(&mut self, index: usize)
        ensures
            final(self)@ == old(self)@.toggle_filter_editor(index as nat),
    {
        let open = match self.active_filter {
            Some(current) => current == index,
            None => false,
        };
        self.active_filter = if open {
            None
        } else {
            Some(index)
        };
    }

    /// The menu for adding a filter opens or closes.
    pub fn toggle_add_menu(&mut self)
        ensures
            final(self)@ == old(self)@.toggle_add_menu(),
    {
        self.add_menu_open = !self.add_menu_open;
    }

    /// Another page is picked.
    pub fn set_page(&mut self, page: usize)
        ensures
            final(self)@ == old(self)@.go_to_page(page as nat),
    {
        self.page = page;
    }
}


/// The text that names a column in the filter controls: its header, or its id
/// where the header is empty.
pub open spec fn column_label(column: Column) -> Seq<char> {
    if column.header@.len() == 0 {
        column.id@
    } else {
        column.header@
    }
}

/// The columns that can be filtered, in column order, each with its label and
/// filter type.
pub open spec fn available_options(columns: Seq<Column>, filterable: Seq<FilterableColumn>) -> Seq<OptionModel>
    decreases columns.len(),
{
    if columns.len() == 0 {
        Seq::empty()
    } else {
        let rest = available_options(columns.drop_last(), filterable);
        let column = columns.last();
        match filter_type_of(filterable, column.id@) {
            Some(filter_type) => rest.push(OptionModel { id: column.id@, label: column_label(column), filter_type }),
            None => rest,
        }
    }
}

/// The columns that can be filtered, in column order, each with its label and
/// filter type.
pub fn available_filter_columns(columns: &Vec<Column>, filterable: &Vec<FilterableColumn>) -> (r: Vec<FilterColumnOption>)
    ensures
        options_model(r@) == available_options(columns@, filterable@),
{
    let mut out: Vec<FilterColumnOption> = Vec::new();
    let mut k: usize = 0;
    while k < columns.len()
        invariant
            k <= columns.len(),
            options_model(out@) == available_options(columns@.take(k as int), filterable@),
        decreases columns.len() - k,
    {
        let column = &columns[k];
        proof {
            assert(columns@.take(k + 1).drop_last() =~= columns@.take(k as int));
        }
        match find_filter_type(filterable, &column.id) {
            Some(filter_type) => {
                let label = if column.header.as_str().is_empty() {
                    column.id.clone()
                } else {
                    column.header.clone()
                };
                let option = FilterColumnOption { id: column.id.clone(), label, filter_type };
                let ghost before = out@;
                out.push(option);
                proof {
                    assert(options_model(out@) =~= options_model(before).push(option_model(option)));
                }
            },
            None => {},
        }
        k = k + 1;
    }
    proof {
        assert(columns@.take(columns.len() as int) =~= columns@);
    }
    out
}

/// The options that no filter uses yet, in order: what the menu for adding a
/// filter offers.
pub open spec fn unused_options(options: Seq<OptionModel>, filters: Seq<FilterModel>) -> Seq<OptionModel> {
    options.filter(|o: OptionModel| filter_position(filters, o.id) is None)
}

/// The options that no filter uses yet, in order.
pub fn options_for_add(options: &Vec<FilterColumnOption>, filters: &Vec<ColumnFilter>) -> (r: Vec<FilterColumnOption>)
    ensures
        options_model(r@) == unused_options(options_model(options@), filters_model(filters@)),
{
    let ghost all = options_model(options@);
    let ghost fm = filters_model(filters@);
    let mut out: Vec<FilterColumnOption> = Vec::new();
    let mut k: usize = 0;
    while k < options.len()
        invariant
            k <= options.len(),
            all == options_model(options@),
            fm == filters_model(filters@),
            options_model(out@) == unused_options(all.take(k as int), fm),
        decreases options.len() - k,
    {
        reveal_with_fuel(Seq::<_>::filter, 1);
        assert(all.take(k + 1).drop_last() =~= all.take(k as int));
        let option = &options[k];
        if find_filter(filters, option.id.as_str()).is_none() {
            let copy = FilterColumnOption { id: option.id.clone(), label: option.label.clone(), filter_type: option.filter_type };
            let ghost before = out@;
            out.push(copy);
            proof {
                assert(options_model(out@) =~= options_model(before).push(option_model(copy)));
            }
        }
        k = k + 1;
    }
    proof {
        assert(all.take(options.len() as int) =~= all);
    }
    out
}

/// The text on the button of a filter: the column's label (its id where no
/// option names it), the operator as that column's type shows it (`contains`
/// where the column cannot be filtered), and the value, or `Any` when it is empty.
pub open spec fn filter_button_text_spec(
    filter: FilterModel,
    filterable: Seq<FilterableColumn>,
    options: Seq<OptionModel>,
) -> Seq<char> {
    let label = match option_position(options, filter.column) {
        Some(o) => options[o as int].label,
        None => filter.column,
    };
    let operator_text = match filter_type_of(filterable, filter.column) {
        Some(filter_type) => operator_label_spec(filter_type, filter.operator),
        None => "contains"@,
    };
    let value = if filter.value.len() == 0 {
        "Any"@
    } else {
        filter.value
    };
    label + " "@ + operator_text + " "@ + value
}

/// The text on the button of a filter.
pub fn filter_button_text(
    filter: &ColumnFilter,
    filterable: &Vec<FilterableColumn>,
    options: &Vec<FilterColumnOption>,
) -> (r: String)
    ensures
        r@ == filter_button_text_spec(filter_model(*filter), filterable@, options_model(options@)),
{
    proof {
        lemma_option_position_found(options_model(options@), filter.column_id@, 0);
    }
    let mut text = match find_option(options, filter.column_id.as_str()) {
        Some(o) => options[o].label.clone(),
        None => filter.column_id.clone(),
    };
    let operator_text = match find_filter_type(filterable, &filter.column_id) {
        Some(filter_type) => operator_label(&filter_type, filter.operator),
        None => "contains",
    };
    text.append(" ");
    text.append(operator_text);
    text.append(" ");
    if filter.value.as_str().is_empty() {
        text.append("Any");
    } else {
        text.append(filter.value.as_str());
    }
    text
}


/// Editing one filter changes that filter alone: the picked operator lands on
/// the filter at `index` (its column, value and reading stay), a typed value
/// and its reading land on that filter (its column and operator stay), every
/// other filter is untouched, and only the page changes elsewhere (to the first).
pub proof fn lemma_filter_edits_touch_one_filter(
    m: TableModel,
    index: nat,
    value: Seq<char>,
    number: NumberReading,
    k: int,
)
    requires
        0 <= k < m.filters.len(),
    ensures
        m.set_filter_operator(index, value).filters.len() == m.filters.len(),
        m.set_filter_value(index, value, number).filters.len() == m.filters.len(),
        k == index ==> m.set_filter_operator(index, value).filters[k] == (FilterModel {
            operator: operator_from_value_spec(value),
            ..m.filters[k]
        }),
        k == index ==> m.set_filter_value(index, value, number).filters[k] == (FilterModel {
            value,
            number,
            ..m.filters[k]
        }),
        k != index ==> m.set_filter_operator(index, value).filters[k] == m.filters[k],
        k != index ==> m.set_filter_value(index, value, number).filters[k] == m.filters[k],
        index >= m.filters.len() ==> m.set_filter_operator(index, value).filters == m.filters
            && m.set_filter_value(index, value, number).filters == m.filters,
        m.set_filter_operator(index, value) == (TableModel {
            filters: m.set_filter_operator(index, value).filters,
            page: 0,
            ..m
        }),
        m.set_filter_value(index, value, number) == (TableModel {
            filters: m.set_filter_value(index, value, number).filters,
            page: 0,
            ..m
        }),
{
}

/// Picking another column for the filter at `index` replaces that filter alone
/// by a fresh one on the picked column (its default operator, a blank value)
/// when the column is offered, and changes no filter otherwise.
pub proof fn lemma_filter_column_pick(m: TableModel, index: nat, id: Seq<char>, options: Seq<OptionModel>, k: int)
    requires
        0 <= k < m.filters.len(),
    ensures
        m.set_filter_column(index, id, options).filters.len() == m.filters.len(),
        k != index ==> m.set_filter_column(index, id, options).filters[k] == m.filters[k],
        k == index && option_position(options, id) is Some ==> ({
            let f = m.set_filter_column(index, id, options).filters[k];
            let o = options[option_position(options, id)->0 as int];
            &&& f.column == id
            &&& f.operator == default_operator_spec(o.filter_type)
            &&& f.value.len() == 0
            &&& f.number == NumberReading::Invalid
        }),
        option_position(options, id) is None ==> m.set_filter_column(index, id, options).filters == m.filters,
        m.set_filter_column(index, id, options).page == 0,
{
    lemma_option_position_found(options, id, 0);
}

/// Removing the filter at `index` drops that filter alone: the filters before
/// it stay where they were, those after it move down by one, and no filter
/// editor stays open.
pub proof fn lemma_remove_drops_one_filter(m: TableModel, index: nat, k: int)
    requires
        index < m.filters.len(),
        0 <= k < m.filters.len() - 1,
    ensures
        m.remove_filter(index).filters.len() + 1 == m.filters.len(),
        k < index ==> m.remove_filter(index).filters[k] == m.filters[k],
        k >= index ==> m.remove_filter(index).filters[k] == m.filters[k + 1],
        m.remove_filter(index).active_filter is None,
        m.remove_filter(index).page == 0,
{
}

proof fn lemma_filter_position_complete(filters: Seq<FilterModel>, id: Seq<char>, i: int, k: int)
    requires
        0 <= i <= k < filters.len(),
        filters[k].column == id,
    ensures
        filter_position_from(filters, id, i) matches Some(j) && j <= k,
    decreases k - i,
{
    if i < k && filters[i].column != id {
        lemma_filter_position_complete(filters, id, i + 1, k);
    }
}

/// Picking a column in the add menu either opens the editor of the filter
/// already on that column, or appends one fresh filter on it (its default
/// operator, a blank value) and opens that filter's editor, keeping every
/// earlier filter; any other pick leaves the filters as they were.
pub proof fn lemma_add_filter_appends_one(m: TableModel, id: Seq<char>, options: Seq<OptionModel>, k: int)
    requires
        0 <= k < m.filters.len(),
    ensures
        m.add_filter(id, options).filters[k] == m.filters[k],
        m.add_filter(id, options).filters.len() == m.filters.len() || m.add_filter(id, options).filters.len()
            == m.filters.len() + 1,
        m.add_filter(id, options).filters.len() == m.filters.len() + 1 ==> ({
            let f = m.add_filter(id, options).filters.last();
            &&& f.column == id
            &&& f.value.len() == 0
            &&& f.number == NumberReading::Invalid
            &&& f.operator != FilterOperator::IsEmpty
            &&& f.operator != FilterOperator::IsNotEmpty
            &&& m.add_filter(id, options).active_filter == Some(m.filters.len())
            &&& m.add_filter(id, options).page == 0
        }),
        m.filters[k].column == id && id.len() > 0 ==> m.add_filter(id, options).filters == m.filters,
        m.filters[k].column == id && id.len() > 0 ==> (m.add_filter(id, options).active_filter matches Some(j)
            && j <= k && m.filters[j as int].column == id),
{
    lemma_filter_position_found(m.filters, id, 0);
    lemma_option_position_found(options, id, 0);
    if m.filters[k].column == id {
        lemma_filter_position_complete(m.filters, id, 0, k);
    }
}

/// The small controls: a click on a filter button twice leaves the open editor
/// as it was when none or that filter's editor was open; the add menu toggles
/// back; a search changes only the query and goes to the first page; picking a
/// page changes only the page; clearing drops every filter and closes the
/// editors and the menu, keeping the sort and the query.
pub proof fn lemma_small_controls(m: TableModel, index: nat, query: Seq<char>, page: nat)
    ensures
        (m.active_filter is None || m.active_filter == Some(index)) ==> m.toggle_filter_editor(index).toggle_filter_editor(
            index,
        ) == m,
        m.active_filter != Some(index) ==> m.toggle_filter_editor(index).active_filter == Some(index),
        m.active_filter == Some(index) ==> m.toggle_filter_editor(index).active_filter is None,
        m.toggle_add_menu().toggle_add_menu() == m,
        m.toggle_add_menu().add_menu_open != m.add_menu_open,
        m.search(query) == (TableModel { search_query: query, page: 0, ..m }),
        m.go_to_page(page) == (TableModel { page, ..m }),
        m.clear_filters().filters.len() == 0,
        m.clear_filters() == (TableModel {
            filters: Seq::empty(),
            page: 0,
            active_filter: None,
            add_menu_open: false,
            ..m
        }),
{
}

/// A second click on the same header undoes the first when that column was
/// already the sorted one; a click on another column sorts ascending by it, and
/// a second click on it turns that to descending.
pub proof fn lemma_sort_clicks(m: TableModel, id: Seq<char>)
    ensures
        m.sort_column == Some(id) ==> m.sort_by(id).sort_by(id) == m,
        m.sort_column != Some(id) ==> m.sort_by(id).sort_column == Some(id) && m.sort_by(id).sort_order
            == SortOrder::Asc && m.sort_by(id).sort_by(id).sort_order == SortOrder::Desc,
{
}

/// Removing the filter that the add menu has just added gives the filters back.
pub proof fn lemma_add_then_remove(m: TableModel, id: Seq<char>, options: Seq<OptionModel>)
    requires
        m.add_filter(id, options).filters.len() > m.filters.len(),
    ensures
        m.add_filter(id, options).remove_filter(m.filters.len()).filters == m.filters,
{
    let added = m.add_filter(id, options);
    assert(added.filters.remove(m.filters.len() as int) =~= m.filters);
}

/// No two filters test the same column, and the open filter editor (if any)
/// belongs to an existing filter.
pub open spec fn well_formed(m: TableModel) -> bool {
    &&& forall|a: int, b: int|
        0 <= a < b < m.filters.len() ==> #[trigger] m.filters[a].column != #[trigger] m.filters[b].column
    &&& m.active_filter matches Some(k) ==> k < m.filters.len()
}

/// Every filter tests a column that the options offer.
pub open spec fn filters_offered(filters: Seq<FilterModel>, options: Seq<OptionModel>) -> bool {
    forall|k: int| 0 <= k < filters.len() ==> #[trigger] option_position(options, filters[k].column) is Some
}

/// The ids of the options.
pub open spec fn option_ids(options: Seq<OptionModel>) -> Seq<Seq<char>> {
    options.map_values(|o: OptionModel| o.id)
}

/// The table starts well formed, with every filter on an offered column.
pub proof fn lemma_initial_well_formed(sort_column: Option<Seq<char>>, sort_order: SortOrder, options: Seq<OptionModel>)
    ensures
        well_formed(TableModel::initial(sort_column, sort_order)),
        filters_offered(TableModel::initial(sort_column, sort_order).filters, options),
{
}

/// The controls of the table keep every filter on a column that the options
/// offer: the add menu only puts filters on offered columns, and editing,
/// removing or clearing filters never moves one to another column.
pub proof fn lemma_controls_keep_offered(
    m: TableModel,
    id: Seq<char>,
    options: Seq<OptionModel>,
    index: nat,
    value: Seq<char>,
    number: NumberReading,
    page: nat,
)
    requires
        filters_offered(m.filters, options),
    ensures
        filters_offered(m.add_filter(id, options).filters, options),
        filters_offered(m.remove_filter(index).filters, options),
        filters_offered(m.set_filter_operator(index, value).filters, options),
        filters_offered(m.set_filter_value(index, value, number).filters, options),
        filters_offered(m.clear_filters().filters, options),
        filters_offered(m.toggle_filter_editor(index).filters, options),
        filters_offered(m.toggle_add_menu().filters, options),
        filters_offered(m.sort_by(id).filters, options),
        filters_offered(m.search(value).filters, options),
        filters_offered(m.go_to_page(page).filters, options),
{
    lemma_option_position_found(options, id, 0);
    let added = m.add_filter(id, options);
    if id.len() > 0 && filter_position(m.filters, id) is None && option_position(options, id) is Some {
        assert forall|k: int| 0 <= k < added.filters.len() implies #[trigger] option_position(
            options,
            added.filters[k].column,
        ) is Some by {
            if k < m.filters.len() {
                assert(added.filters[k] == m.filters[k]);
            } else {
                assert(added.filters[k].column == id);
            }
        }
    }
    let r = m.remove_filter(index);
    if index < m.filters.len() {
        assert forall|k: int| 0 <= k < r.filters.len() implies #[trigger] option_position(
            options,
            r.filters[k].column,
        ) is Some by {
            let k0 = if k < index { k } else { k + 1 };
            assert(r.filters[k] == m.filters[k0]);
        }
    }
    let o = m.set_filter_operator(index, value);
    assert forall|k: int| 0 <= k < o.filters.len() implies #[trigger] option_position(
        options,
        o.filters[k].column,
    ) is Some by {
        assert(o.filters[k].column == m.filters[k].column);
    }
    let v = m.set_filter_value(index, value, number);
    assert forall|k: int| 0 <= k < v.filters.len() implies #[trigger] option_position(
        options,
        v.filters[k].column,
    ) is Some by {
        assert(v.filters[k].column == m.filters[k].column);
    }
}

/// With the filters on distinct offered columns, there are no more filters than
/// distinct offered column ids, and so no more than options.
pub proof fn lemma_filter_count_bound(m: TableModel, options: Seq<OptionModel>)
    requires
        well_formed(m),
        filters_offered(m.filters, options),
    ensures
        m.filters.len() <= option_ids(options).to_set().len(),
        m.filters.len() <= options.len(),
{
    broadcast use vstd::seq_lib::seq_to_set_is_finite;

    let columns = m.filters.map_values(|f: FilterModel| f.column);
    let ids = option_ids(options);
    assert(columns.no_duplicates()) by {
        assert forall|a: int, b: int| 0 <= a < columns.len() && 0 <= b < columns.len() && a != b implies columns[a]
            != columns[b] by {
            if a < b {
                assert(m.filters[a].column != m.filters[b].column);
            } else {
                assert(m.filters[b].column != m.filters[a].column);
            }
        }
    }
    columns.unique_seq_to_set();
    assert forall|c: Seq<char>| columns.to_set().contains(c) implies ids.to_set().contains(c) by {
        let k = choose|k: int| 0 <= k < columns.len() && columns[k] == c;
        assert(option_position(options, m.filters[k].column) is Some);
        lemma_option_position_found(options, c, 0);
        let o = option_position(options, c)->0 as int;
        assert(ids[o] == c);
    }
    vstd::set_lib::lemma_len_subset(columns.to_set(), ids.to_set());
    ids.lemma_cardinality_of_set();
}

/// The controls of the table keep it well formed: the add menu never puts a
/// second filter on a column, editing or removing filters keeps them on distinct
/// columns, and the open editor always belongs to an existing filter (a filter
/// button is only clicked for an existing filter).
pub proof fn lemma_controls_keep_well_formed(
    m: TableModel,
    id: Seq<char>,
    options: Seq<OptionModel>,
    index: nat,
    value: Seq<char>,
    number: NumberReading,
    page: nat,
)
    requires
        well_formed(m),
    ensures
        well_formed(m.add_filter(id, options)),
        well_formed(m.remove_filter(index)),
        well_formed(m.set_filter_operator(index, value)),
        well_formed(m.set_filter_value(index, value, number)),
        well_formed(m.clear_filters()),
        index < m.filters.len() ==> well_formed(m.toggle_filter_editor(index)),
        well_formed(m.toggle_add_menu()),
        well_formed(m.sort_by(id)),
        well_formed(m.search(value)),
        well_formed(m.go_to_page(page)),
{
    lemma_filter_position_found(m.filters, id, 0);
    lemma_option_position_found(options, id, 0);
    let r = m.remove_filter(index);
    if index < m.filters.len() {
        assert forall|a: int, b: int|
            0 <= a < b < r.filters.len() implies #[trigger] r.filters[a].column != #[trigger] r.filters[b].column by {
            let a0 = if a < index { a } else { a + 1 };
            let b0 = if b < index { b } else { b + 1 };
            assert(r.filters[a] == m.filters[a0]);
            assert(r.filters[b] == m.filters[b0]);
        }
    }
    let o = m.set_filter_operator(index, value);
    assert forall|a: int, b: int|
        0 <= a < b < o.filters.len() implies #[trigger] o.filters[a].column != #[trigger] o.filters[b].column by {
        assert(o.filters[a].column == m.filters[a].column);
        assert(o.filters[b].column == m.filters[b].column);
    }
    let v = m.set_filter_value(index, value, number);
    assert forall|a: int, b: int|
        0 <= a < b < v.filters.len() implies #[trigger] v.filters[a].column != #[trigger] v.filters[b].column by {
        assert(v.filters[a].column == m.filters[a].column);
        assert(v.filters[b].column == m.filters[b].column);
    }
    let added = m.add_filter(id, options);
    if id.len() > 0 && filter_position(m.filters, id) is None && option_position(options, id) is Some {
        assert forall|a: int, b: int|
            0 <= a < b < added.filters.len() implies #[trigger] added.filters[a].column
            != #[trigger] added.filters[b].column by {
            if b == m.filters.len() {
                assert(added.filters[a] == m.filters[a]);
            } else {
                assert(added.filters[a] == m.filters[a]);
                assert(added.filters[b] == m.filters[b]);
            }
        }
    }
}

} // verus!
