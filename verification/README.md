# table-rs

An interactive data table for Yew and Dioxus: per-column filters, client-side
search, stable column sorting and pagination.

- `src/` is the verified core (Verus). `filter` holds the column filter tests and
  operator bookkeeping; `rows` the row model, filtering and search; `sort` the
  stable sort; `paging` the page windows and the pagination controls' decisions;
  `state` the table's control state and every change the controls make to it;
  `view` the whole pipeline from data rows to the rows on display; `text` the
  string operations of `std` that these rest on, with their contracts.
- `app/` holds the Yew and Dioxus components: hooks, rendering, browser events,
  the search debounce timer, and the parsing of numeric cells as floats.
- `tests/` runs the library on concrete tables.
