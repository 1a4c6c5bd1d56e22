use vstd::prelude::*;
use crate::text::{trim, trim_spec, parse_usize, parse_usize_spec, decimal_text, decimal_spec, lemma_parse_decimal, white_space};

verus! {

/// Which rows of the filtered, sorted list a page shows, and where it stands.
#[derive(Clone, Debug)]
pub struct PageWindow {
    pub total_pages: usize,
    pub current_page: usize,
    pub start: usize,
    pub end: usize,
}

/// `len / size` rounded up.
pub open spec fn ceil_div(len: nat, size: nat) -> nat
    recommends
        size > 0,
{
    ((len + size - 1) / (size as int)) as nat
}

/// The number of pages that the table's own pagination offers: the rows divided
/// by the page size, rounded up, and at least one. With a page size of zero it
/// is `usize::MAX` when there are rows (an infinite quotient, saturated) and one
/// when there are none.
pub open spec fn total_pages_spec(len: nat, page_size: nat) -> nat {
    if page_size == 0 {
        if len > 0 {
            usize::MAX as nat
        } else {
            1
        }
    } else if len == 0 {
        1
    } else {
        ceil_div(len, page_size)
    }
}

/// The page number brought into the range of pages `0..total`.
pub open spec fn clamp_page_spec(page: nat, total: nat) -> nat {
    if total == 0 {
        0
    } else if page < total {
        page
    } else {
        (total - 1) as nat
    }
}

/// The window of the page `current`: from `current * page_size` up to the
/// following page's start, cut at the number of rows.
pub open spec fn window_of(total: nat, current: nat, page_size: nat, len: nat) -> (nat, nat, nat, nat) {
    let start = current * page_size;
    let end = if (current + 1) * page_size <= len { (current + 1) * page_size } else { len };
    (total, current, start, end)
}

/// The page window of the table's own pagination for `len` rows: the requested
/// page, brought into range, over the page count of `total_pages_spec`.
pub open spec fn local_window_spec(len: nat, page_size: nat, page: nat) -> (nat, nat, nat, nat) {
    let total = total_pages_spec(len, page_size);
    window_of(total, clamp_page_spec(page, total), page_size, len)
}

/// The view of a page window.
pub open spec fn window_view(w: PageWindow) -> (nat, nat, nat, nat) {
    (w.total_pages as nat, w.current_page as nat, w.start as nat, w.end as nat)
}

/// Whether the table's own pagination can lay out this page without the end of
/// the page window passing `usize::MAX`.
pub open spec fn local_window_fits(len: nat, page_size: nat, page: nat) -> bool {
    (clamp_page_spec(page, total_pages_spec(len, page_size)) + 1) * page_size <= usize::MAX
}

proof fn lemma_ceil_div_bounds(len: nat, size: nat)
    requires
        size > 0,
        len > 0,
    ensures
        ceil_div(len, size) >= 1,
        (ceil_div(len, size) - 1) * size < len,
        ceil_div(len, size) * size >= len,
        ceil_div(len, size) <= len,
{
    let q = ceil_div(len, size);
    let t = len + size - 1;
    assert(q * size <= t && t < q * size + size) by (nonlinear_arith)
        requires
            q == t / (size as int),
            size > 0,
    ;
    assert(q >= 1) by (nonlinear_arith)
        requires
            q * size <= t,
            t < q * size + size,
            t >= size,
    ;
    assert(q <= len) by (nonlinear_arith)
        requires
            q * size <= len + size - 1,
            size >= 1,
            len >= 1,
    ;
    assert((q - 1) * size == q * size - size) by (nonlinear_arith);
}

/// The page count of the table's own pagination.
pub fn total_pages(len: usize, page_size: usize) -> (r: usize)
    ensures
        r as nat == total_pages_spec(len as nat, page_size as nat),
{
    if page_size == 0 {
        if len > 0 {
            usize::MAX
        } else {
            1
        }
    } else if len == 0 {
        1
    } else {
        proof {
            lemma_ceil_div_bounds(len as nat, page_size as nat);
        }
        let q = len / page_size;
        if len % page_size == 0 {
            proof {
                assert(q as nat == ceil_div(len as nat, page_size as nat)) by (nonlinear_arith)
                    requires
                        q == len / page_size,
                        len % page_size == 0,
                        page_size > 0,
                ;
            }
            q
        } else {
            proof {
                assert(q + 1 == ceil_div(len as nat, page_size as nat)) by (nonlinear_arith)
                    requires
                        q == len / page_size,
                        len % page_size != 0,
                        page_size > 0,
                ;
            }
            q + 1
        }
    }
}

/// The page window of the table's own pagination: the page count, the requested
/// page brought into range, and the rows it shows.
pub fn local_page_window(len: usize, page_size: usize, page: usize) -> (w: PageWindow)
    requires
        local_window_fits(len as nat, page_size as nat, page as nat),
    ensures
        window_view(w) == local_window_spec(len as nat, page_size as nat, page as nat),
        w.total_pages >= 1,
        w.current_page < w.total_pages,
        w.start <= w.end <= len,
        w.end - w.start <= page_size,
        page_size > 0 && len > 0 ==> w.start < w.end,
        w.current_page <= page,
        page < w.total_pages ==> w.current_page == page,
        page >= w.total_pages ==> w.current_page == w.total_pages - 1,
        w.start as int == w.current_page * page_size,
{
    let total = total_pages(len, page_size);
    proof {
        if page_size > 0 && len > 0 {
            lemma_ceil_div_bounds(len as nat, page_size as nat);
        }
    }
    let current = if page < total { page } else { total - 1 };
    proof {
        lemma_window_bounds(len as nat, page_size as nat, total as nat, current as nat);
    }
    let start = current * page_size;
    let next = (current + 1) * page_size;
    let end = if next <= len { next } else { len };
    PageWindow { total_pages: total, current_page: current, start, end }
}

proof fn lemma_window_bounds(len: nat, page_size: nat, total: nat, current: nat)
    requires
        total == total_pages_spec(len, page_size),
        current < total,
    ensures
        (current + 1) * page_size == current * page_size + page_size,
        current * page_size <= len,
        page_size > 0 && len > 0 ==> current * page_size < len,
{
    assert((current + 1) * page_size == current * page_size + page_size) by (nonlinear_arith);
    if page_size == 0 {
        assert(current * page_size == 0) by (nonlinear_arith)
            requires
                page_size == 0,
        ;
    } else if len == 0 {
        assert(current == 0);
        assert(current * page_size == 0) by (nonlinear_arith)
            requires
                current == 0,
        ;
    } else {
        lemma_ceil_div_bounds(len, page_size);
        assert(current * page_size <= (total - 1) * page_size) by (nonlinear_arith)
            requires
                current <= total - 1,
        ;
    }
}

/// Whether the table's own pagination can lay out this page (see `local_window_fits`).
pub fn local_window_fits_exec(len: usize, page_size: usize, page: usize) -> (r: bool)
    ensures
        r == local_window_fits(len as nat, page_size as nat, page as nat),
{
    let total = total_pages(len, page_size);
    proof {
        if page_size > 0 && len > 0 {
            lemma_ceil_div_bounds(len as nat, page_size as nat);
        }
    }
    let current = if page < total { page } else { total - 1 };
    (current + 1).checked_mul(page_size).is_some()
}

/// The rows of a page: the part of the display order from `start` up to `end`.
pub fn page_rows(rows: &Vec<usize>, start: usize, end: usize) -> (r: Vec<usize>)
    requires
        start <= end <= rows.len(),
    ensures
        r@ == rows@.subrange(start as int, end as int),
{
    let mut out: Vec<usize> = Vec::new();
    let mut k: usize = start;
    while k < end
        invariant
            start <= k <= end,
            end <= rows.len(),
            out@ == rows@.subrange(start as int, k as int),
        decreases end - k,
    {
        out.push(rows[k]);
        proof {
            assert(out@ =~= rows@.subrange(start as int, k + 1));
        }
        k = k + 1;
    }
    out
}

/// The page window when the pages come from elsewhere: at least one page, the
/// given page brought into range, and every filtered row shown.
pub open spec fn online_window_spec(len: nat, online_page: nat, online_total: nat) -> (nat, nat, nat, nat) {
    let total = if online_total >= 1 { online_total } else { 1 };
    (total, clamp_page_spec(online_page, total), 0, len)
}

/// The page window when the pages come from elsewhere.
pub fn online_page_window(len: usize, online_page: usize, online_total: usize) -> (w: PageWindow)
    ensures
        window_view(w) == online_window_spec(len as nat, online_page as nat, online_total as nat),
        w.total_pages >= 1,
        w.total_pages >= online_total,
        online_total >= 1 ==> w.total_pages == online_total,
        w.current_page < w.total_pages,
        w.current_page <= online_page,
        online_page < w.total_pages ==> w.current_page == online_page,
        online_page >= w.total_pages ==> w.current_page == w.total_pages - 1,
        w.start == 0 && w.end == len,
{
    let total = if online_total >= 1 { online_total } else { 1 };
    let current = if online_page < total { online_page } else { total - 1 };
    PageWindow { total_pages: total, current_page: current, start: 0, end: len }
}

/// The page count without the lower bound of one: the rows divided by the page
/// size, rounded up; with a page size of zero, `usize::MAX` when there are rows
/// and zero when there are none.
pub open spec fn plain_total_pages_spec(len: nat, page_size: nat) -> nat {
    if page_size == 0 {
        if len > 0 {
            usize::MAX as nat
        } else {
            0
        }
    } else {
        ceil_div(len, page_size)
    }
}

/// The page window of the requested page itself, not brought into range, over
/// the page count of `plain_total_pages_spec`.
pub open spec fn plain_window_spec(len: nat, page_size: nat, page: nat) -> (nat, nat, nat, nat) {
    window_of(plain_total_pages_spec(len, page_size), page, page_size, len)
}

/// The page window of the requested page itself. The page must start within
/// the rows, and its end must stay within `usize`.
pub fn plain_page_window(len: usize, page_size: usize, page: usize) -> (w: PageWindow)
    requires
        page < usize::MAX,
        page * page_size <= len,
        (page + 1) * page_size <= usize::MAX,
    ensures
        window_view(w) == plain_window_spec(len as nat, page_size as nat, page as nat),
        w.start <= w.end <= len,
        w.current_page == page,
        w.start as int == page * page_size,
        w.end - w.start <= page_size,
        page_size > 0 ==> w.total_pages as nat == (if len == 0 { 0 } else { total_pages_spec(len as nat, page_size as nat) }),
{
    proof {
        if page_size > 0 {
            lemma_total_pages_fit(len as nat, page_size as nat);
        }
    }
    let total = if page_size == 0 {
        if len > 0 {
            usize::MAX
        } else {
            0
        }
    } else if len == 0 {
        proof {
            assert(ceil_div(0, page_size as nat) == 0) by (nonlinear_arith)
                requires
                    page_size > 0,
            ;
        }
        0
    } else {
        total_pages(len, page_size)
    };
    proof {
        assert((page + 1) * page_size == page * page_size + page_size) by (nonlinear_arith);
    }
    let start = page * page_size;
    let next = (page + 1) * page_size;
    let end = if next <= len { next } else { len };
    PageWindow { total_pages: total, current_page: page, start, end }
}

/// The page count of the table's own pagination is the number of pages of
/// `page_size` rows it takes to hold the rows: enough pages to hold them all,
/// and one page fewer would not do (one page when there are no rows).
pub proof fn lemma_total_pages_fit(len: nat, page_size: nat)
    requires
        page_size > 0,
    ensures
        total_pages_spec(len, page_size) >= 1,
        len <= total_pages_spec(len, page_size) * page_size,
        len > 0 ==> (total_pages_spec(len, page_size) - 1) * page_size < len,
        len == 0 ==> total_pages_spec(len, page_size) == 1,
        plain_total_pages_spec(len, page_size) == (if len == 0 { 0 } else { total_pages_spec(len, page_size) }),
{
    if len > 0 {
        lemma_ceil_div_bounds(len, page_size);
    } else {
        assert(1 * page_size == page_size) by (nonlinear_arith);
        assert(ceil_div(0, page_size) == 0) by (nonlinear_arith)
            requires
                page_size > 0,
        ;
    }
}

/// A page that the owner of the pages asks for is shown when it exists, and
/// the last page otherwise; the page count is the owner's, but at least one.
pub proof fn lemma_online_page_kept(len: nat, online_page: nat, online_total: nat)
    ensures
        online_page < online_total ==> online_window_spec(len, online_page, online_total).1 == online_page,
        online_window_spec(len, online_page, online_total).0 == (if online_total >= 1 { online_total } else { 1 }),
        online_window_spec(len, online_page, online_total).1 < online_window_spec(len, online_page, online_total).0,
        online_window_spec(len, online_page, online_total).1 <= online_page,
{
}

/// A page of the table's own pagination that exists is shown as asked; a page
/// past the end shows the last page.
pub proof fn lemma_local_page_kept(len: nat, page_size: nat, page: nat)
    ensures
        page < total_pages_spec(len, page_size) ==> local_window_spec(len, page_size, page).1 == page,
        page >= total_pages_spec(len, page_size) ==> local_window_spec(len, page_size, page).1 + 1
            == total_pages_spec(len, page_size),
{
    if page_size > 0 {
        lemma_total_pages_fit(len, page_size);
    }
}

/// The pages of the table's own pagination tile the rows: the first starts at
/// row zero, each page ends where the next begins, and the last ends at the last
/// row.
pub proof fn lemma_pages_tile(len: nat, page_size: nat, page: nat)
    requires
        page_size > 0,
        page < total_pages_spec(len, page_size),
    ensures
        local_window_spec(len, page_size, 0).2 == 0,
        page + 1 < total_pages_spec(len, page_size) ==> local_window_spec(len, page_size, page).3
            == local_window_spec(len, page_size, page + 1).2,
        page + 1 == total_pages_spec(len, page_size) ==> local_window_spec(len, page_size, page).3 == len,
{
    let total = total_pages_spec(len, page_size);
    if len > 0 {
        lemma_ceil_div_bounds(len, page_size);
        assert((page + 1) * page_size == page * page_size + page_size) by (nonlinear_arith);
        if page + 1 < total {
            assert((page + 1) * page_size <= (total - 1) * page_size) by (nonlinear_arith)
                requires
                    page + 1 <= total - 1,
            ;
        } else {
            assert((page + 1) * page_size >= len);
        }
    } else {
        assert(0 * page_size == 0) by (nonlinear_arith);
        assert(1 * page_size == page_size) by (nonlinear_arith);
    }
}


/// The text the page number box starts with: the one-based page number while
/// there are pages, `0` when there are none.
pub open spec fn page_input_text_spec(page: nat, total_pages: nat) -> Seq<char> {
    if total_pages > 0 {
        decimal_spec(page + 1)
    } else {
        seq!['0']
    }
}

/// The text the page number box starts with.
pub fn page_input_text(page: usize, total_pages: usize) -> (r: String)
    requires
        total_pages > 0 ==> page < usize::MAX,
    ensures
        r@ == page_input_text_spec(page as nat, total_pages as nat),
{
    if total_pages > 0 {
        decimal_text(page + 1)
    } else {
        proof {
            assert(decimal_spec(0) == seq!['0']);
        }
        decimal_text(0)
    }
}

/// The page that submitting the page number box asks for: none while there are
/// no pages; otherwise the typed text, trimmed, read as a one-based page number
/// (zero and anything that is no number ask for nothing). It is not held to the
/// page count.
pub open spec fn jump_target_spec(input: Seq<char>, total_pages: nat) -> Option<usize> {
    if total_pages == 0 {
        None
    } else {
        match parse_usize_spec(trim_spec(input)) {
            Some(n) => if n > 0 {
                Some((n - 1) as usize)
            } else {
                None
            },
            None => None,
        }
    }
}

/// The page that submitting the page number box asks for.
pub fn jump_target(input: &str, total_pages: usize) -> (r: Option<usize>)
    ensures
        r == jump_target_spec(input@, total_pages as nat),
{
    if total_pages == 0 {
        return None;
    }
    match parse_usize(trim(input)) {
        Some(n) => if n > 0 {
            Some(n - 1)
        } else {
            None
        },
        None => None,
    }
}

/// The upper bound the page number box shows: the page count, or `1` when there
/// are no pages.
pub open spec fn page_input_max_spec(total_pages: nat) -> Seq<char> {
    if total_pages > 0 {
        decimal_spec(total_pages)
    } else {
        seq!['1']
    }
}

/// The upper bound the page number box shows.
pub fn page_input_max(total_pages: usize) -> (r: String)
    ensures
        r@ == page_input_max_spec(total_pages as nat),
{
    if total_pages > 0 {
        decimal_text(total_pages)
    } else {
        proof {
            assert(decimal_spec(1) == seq!['1']);
        }
        decimal_text(1)
    }
}

/// The "previous" button is off when there are no pages or the first page shows.
pub fn previous_disabled(page: usize, total_pages: usize) -> (r: bool)
    ensures
        r == (total_pages == 0 || page == 0),
{
    total_pages == 0 || page == 0
}

/// The "next" button is off when there are no pages or the last page (or one
/// past it) shows.
pub fn next_disabled(page: usize, total_pages: usize) -> (r: bool)
    ensures
        r == (total_pages == 0 || page + 1 >= total_pages),
{
    total_pages == 0 || page >= total_pages - 1
}

/// Where a requested page goes: to the owner of the pages when they come from
/// elsewhere, into the table's own page state otherwise.
#[derive(Clone, Copy, Debug, PartialEq, Eq, Structural)]
pub enum PageChange {
    Online(usize),
    Local(usize),
}

/// Where a requested page goes.
pub fn page_change(online_paginated: bool, next_page: usize) -> (r: PageChange)
    ensures
        r == (if online_paginated {
            PageChange::Online(next_page)
        } else {
            PageChange::Local(next_page)
        }),
{
    if online_paginated {
        PageChange::Online(next_page)
    } else {
        PageChange::Local(next_page)
    }
}

/// The page the "previous" button asks for: the one before, or the first.
pub open spec fn previous_page_spec(page: nat) -> nat {
    if page > 0 {
        (page - 1) as nat
    } else {
        0
    }
}

/// The page the "next" button asks for: the one after (the last `usize` stays put).
pub open spec fn next_page_spec(page: nat) -> nat {
    if page < usize::MAX {
        page + 1
    } else {
        page
    }
}

/// The page the "previous" button asks for.
pub fn previous_page(page: usize) -> (r: usize)
    ensures
        r == previous_page_spec(page as nat),
{
    if page > 0 {
        page - 1
    } else {
        0
    }
}

/// The page the "next" button asks for.
pub fn next_page(page: usize) -> (r: usize)
    ensures
        r == next_page_spec(page as nat),
{
    if page < usize::MAX {
        page + 1
    } else {
        page
    }
}

/// While a pagination button is on, the page it asks for is a page of the table
/// and differs from the shown one by one.
pub proof fn lemma_buttons_stay_in_range(page: nat, total_pages: nat)
    requires
        page < total_pages <= usize::MAX,
    ensures
        !(total_pages == 0 || page == 0) ==> previous_page_spec(page) + 1 == page,
        !(total_pages == 0 || page + 1 >= total_pages) ==> next_page_spec(page) == page + 1
            && next_page_spec(page) < total_pages,
{
}

/// The upper bound the page box shows, submitted as it is, asks for the last page.
pub proof fn lemma_page_input_max_is_last_page(total_pages: usize)
    requires
        total_pages > 0,
    ensures
        jump_target_spec(page_input_max_spec(total_pages as nat), total_pages as nat) == Some((total_pages - 1) as usize),
        jump_target_spec(page_input_text_spec(0, 0), 0) is None,
{
    lemma_parse_decimal(total_pages);
    lemma_decimal_not_white(total_pages as nat);
}

/// Submitting the page number box unchanged asks for the page it was showing.
pub proof fn lemma_page_input_round_trip(page: usize, total_pages: usize)
    requires
        total_pages > 0,
        page < usize::MAX,
    ensures
        jump_target_spec(page_input_text_spec(page as nat, total_pages as nat), total_pages as nat) == Some(page),
{
    let n = (page + 1) as usize;
    lemma_parse_decimal(n);
    lemma_decimal_not_white(n as nat);
}

proof fn lemma_decimal_not_white(n: nat)
    ensures
        trim_spec(decimal_spec(n)) == decimal_spec(n),
{
    lemma_decimal_digit_chars(n);
    let s = decimal_spec(n);
    assert(!white_space(s[0]));
    assert(!white_space(s.last()));
}

proof fn lemma_decimal_digit_chars(n: nat)
    ensures
        decimal_spec(n).len() > 0,
        forall|i: int| 0 <= i < decimal_spec(n).len() ==> '0' <= #[trigger] decimal_spec(n)[i] <= '9',
    decreases n,
{
    if n >= 10 {
        lemma_decimal_digit_chars(n / 10);
        let s = decimal_spec(n);
        assert forall|i: int| 0 <= i < s.len() implies '0' <= #[trigger] s[i] <= '9' by {
            if i < s.len() - 1 {
                assert(s[i] == decimal_spec(n / 10)[i]);
            }
        }
    }
}

} // verus!
