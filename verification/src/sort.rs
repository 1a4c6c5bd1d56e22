use vstd::prelude::*;
use crate::rows::{Row, Column, cell_text, find_entry, selects_rows, lemma_lookup_from_found};
use crate::text::{text_less, text_less_exec, lemma_text_less_order, chars_of};

verus! {

/// The direction of a column sort.
#[derive(Clone, Copy, Debug, PartialEq, Eq, Structural)]
pub enum SortOrder {
    Asc,
    Desc,
}

impl Default for SortOrder {
    /// Sorting starts ascending.
    fn default() -> (r: Self)
        ensures
            r == SortOrder::Asc,
    {
        SortOrder::Asc
    }
}

/// Whether the item at position `a` of a list with sort keys `keys` goes before
/// the item at position `b` in a stable sort: the keys decide (in code point
/// order, reversed for a descending sort), and between equal keys the earlier
/// position comes first.
pub open spec fn goes_before(keys: Seq<Seq<char>>, order: SortOrder, a: int, b: int) -> bool {
    match order {
        SortOrder::Asc => text_less(keys[a], keys[b]) || (keys[a] == keys[b] && a < b),
        SortOrder::Desc => text_less(keys[b], keys[a]) || (keys[a] == keys[b] && a < b),
    }
}

/// `p` lists each position below `n` exactly once.
pub open spec fn is_permutation(p: Seq<usize>, n: nat) -> bool {
    &&& p.len() == n
    &&& forall|k: int| 0 <= k < p.len() ==> #[trigger] p[k] < n
    &&& forall|a: int, b: int| 0 <= a < b < p.len() ==> p[a] != p[b]
    &&& forall|x: int| 0 <= x < n ==> #[trigger] lists(p, x)
}

/// Some entry of `p` is `x`.
pub open spec fn lists(p: Seq<usize>, x: int) -> bool {
    exists|k: int| 0 <= k < p.len() && p[k] == x
}

proof fn lemma_swap_keeps_permutation(old: Seq<usize>, new: Seq<usize>, a: int, b: int, n: nat)
    requires
        is_permutation(old, n),
        0 <= a < b < old.len(),
        new == old.update(a, old[b]).update(b, old[a]),
    ensures
        is_permutation(new, n),
{
    assert forall|x: int, y: int| 0 <= x < y < new.len() implies new[x] != new[y] by {
        let x0 = if x == a { b } else if x == b { a } else { x };
        let y0 = if y == a { b } else if y == b { a } else { y };
        assert(new[x] == old[x0]);
        assert(new[y] == old[y0]);
        if x0 < y0 {
            assert(old[x0] != old[y0]);
        } else {
            assert(old[y0] != old[x0]);
        }
    }
    assert forall|v: int| 0 <= v < n implies #[trigger] lists(new, v) by {
        assert(lists(old, v));
        let k = choose|k: int| 0 <= k < old.len() && old[k] == v;
        let k1 = if k == a { b } else if k == b { a } else { k };
        assert(new[k1] == v);
    }
}

/// The positions in `p` appear in stable sort order for the keys.
pub open spec fn stably_ordered(p: Seq<usize>, keys: Seq<Seq<char>>, order: SortOrder) -> bool {
    forall|a: int, b: int|
        0 <= a < b < p.len() ==> #[trigger] goes_before(keys, order, p[a] as int, p[b] as int)
}

/// The sort keys of the selected rows for the column `key`: each row's text for
/// it, the empty text where the row has none.
pub open spec fn sort_keys(rows: Seq<Row>, selection: Seq<usize>, key: Seq<char>) -> Seq<Seq<char>> {
    Seq::new(selection.len(), |k: int| cell_text(rows[selection[k] as int], key))
}

/// `result` holds the selected rows stably sorted by their text for the column
/// `key`: it is the selection rearranged by a permutation that puts the keys in
/// order and keeps rows with equal keys in their selection order.
pub open spec fn is_stable_sort(
    rows: Seq<Row>,
    selection: Seq<usize>,
    key: Seq<char>,
    order: SortOrder,
    result: Seq<usize>,
) -> bool {
    exists|p: Seq<usize>|
        #![trigger is_permutation(p, selection.len())]
        is_permutation(p, selection.len()) && stably_ordered(p, sort_keys(rows, selection, key), order)
            && result == p.map_values(|k: usize| selection[k as int])
}

/// `goes_before` is a strict total order on distinct positions.
pub proof fn lemma_goes_before_order(keys: Seq<Seq<char>>, order: SortOrder, a: int, b: int, c: int)
    ensures
        !goes_before(keys, order, a, a),
        goes_before(keys, order, a, b) ==> !goes_before(keys, order, b, a),
        a != b ==> goes_before(keys, order, a, b) || goes_before(keys, order, b, a),
        goes_before(keys, order, a, b) && goes_before(keys, order, b, c) ==> goes_before(keys, order, a, c),
{
    lemma_text_less_order(keys[a], keys[b], keys[c]);
    lemma_text_less_order(keys[b], keys[a], keys[c]);
    lemma_text_less_order(keys[a], keys[c], keys[b]);
    lemma_text_less_order(keys[c], keys[b], keys[a]);
    lemma_text_less_order(keys[b], keys[c], keys[a]);
    lemma_text_less_order(keys[c], keys[a], keys[b]);
}

proof fn lemma_ordered_permutations_agree(
    p: Seq<usize>,
    q: Seq<usize>,
    n: nat,
    keys: Seq<Seq<char>>,
    order: SortOrder,
    k: int,
)
    requires
        is_permutation(p, n),
        is_permutation(q, n),
        stably_ordered(p, keys, order),
        stably_ordered(q, keys, order),
        0 <= k < n,
    ensures
        forall|i: int| 0 <= i <= k ==> p[i] == q[i],
    decreases k,
{
    if k > 0 {
        lemma_ordered_permutations_agree(p, q, n, keys, order, k - 1);
    }
    assert(lists(q, p[k] as int));
    let j = choose|j: int| 0 <= j < q.len() && q[j] == p[k];
    assert(lists(p, q[k] as int));
    let m = choose|m: int| 0 <= m < p.len() && p[m] == q[k];
    if j < k {
        assert(q[j] == p[j]);
        assert(p[j] != p[k]);
    }
    if m < k {
        assert(p[m] == q[m]);
        assert(q[m] != q[k]);
    }
    if j > k {
        assert(goes_before(keys, order, q[k] as int, q[j] as int));
        if m == k {
            assert(q[k] != q[j]);
        } else {
            assert(goes_before(keys, order, p[k] as int, p[m] as int));
            lemma_goes_before_order(keys, order, p[k] as int, p[m] as int, p[k] as int);
        }
    }
}

/// The contract of the stable sort fixes its result: two lists that both satisfy
/// it are the same list.
pub proof fn lemma_stable_sort_unique(
    rows: Seq<Row>,
    selection: Seq<usize>,
    key: Seq<char>,
    order: SortOrder,
    first: Seq<usize>,
    second: Seq<usize>,
)
    requires
        is_stable_sort(rows, selection, key, order, first),
        is_stable_sort(rows, selection, key, order, second),
    ensures
        first == second,
{
    let keys = sort_keys(rows, selection, key);
    let n = selection.len();
    let p = choose|p: Seq<usize>|
        #![trigger is_permutation(p, n)]
        is_permutation(p, n) && stably_ordered(p, keys, order) && first == p.map_values(|k: usize| selection[k as int]);
    let q = choose|q: Seq<usize>|
        #![trigger is_permutation(q, n)]
        is_permutation(q, n) && stably_ordered(q, keys, order) && second == q.map_values(|k: usize| selection[k as int]);
    if n > 0 {
        lemma_ordered_permutations_agree(p, q, n, keys, order, n - 1);
    }
    assert(p =~= q);
}

/// Whether position `a` goes before position `b` (see `goes_before`).
fn goes_before_exec(keys: &Vec<Vec<char>>, Ghost(ks): Ghost<Seq<Seq<char>>>, order: SortOrder, a: usize, b: usize) -> (r: bool)
    requires
        a < keys.len(),
        b < keys.len(),
        keys.len() == ks.len(),
        forall|k: int| 0 <= k < ks.len() ==> #[trigger] keys@[k]@ == ks[k],
    ensures
        r == goes_before(ks, order, a as int, b as int),
{
    proof {
        lemma_text_less_order(ks[a as int], ks[b as int], ks[a as int]);
    }
    let ka = &keys[a];
    let kb = &keys[b];
    let (first, second) = match order {
        SortOrder::Asc => (ka, kb),
        SortOrder::Desc => (kb, ka),
    };
    if text_less_exec(first, second) {
        true
    } else if text_less_exec(second, first) {
        false
    } else {
        a < b
    }
}

/// The sort keys of the selected rows for the column `key`, as character lists.
fn collect_keys(rows: &Vec<Row>, selection: &Vec<usize>, key: &String) -> (r: Vec<Vec<char>>)
    requires
        selects_rows(rows@, selection@),
    ensures
        r.len() == selection.len(),
        forall|k: int| 0 <= k < r.len() ==> #[trigger] r@[k]@ == sort_keys(rows@, selection@, key@)[k],
{
    let mut keys: Vec<Vec<char>> = Vec::new();
    let mut k: usize = 0;
    while k < selection.len()
        invariant
            k <= selection.len(),
            keys.len() == k,
            selects_rows(rows@, selection@),
            forall|m: int| 0 <= m < k ==> #[trigger] keys@[m]@ == sort_keys(rows@, selection@, key@)[m],
        decreases selection.len() - k,
    {
        let row = &rows[selection[k]];
        proof {
            lemma_lookup_from_found(row.entries@, key@, 0);
        }
        let chars = match find_entry(row, key) {
            Some(e) => chars_of(row.entries[e].text.as_str()),
            None => Vec::new(),
        };
        keys.push(chars);
        k = k + 1;
    }
    keys
}

/// The permutation that stably sorts positions `0..keys.len()` by their keys.
fn sorting_permutation(keys: &Vec<Vec<char>>, Ghost(ks): Ghost<Seq<Seq<char>>>, order: SortOrder) -> (p: Vec<usize>)
    requires
        keys.len() == ks.len(),
        forall|k: int| 0 <= k < ks.len() ==> #[trigger] keys@[k]@ == ks[k],
    ensures
        is_permutation(p@, ks.len()),
        stably_ordered(p@, ks, order),
{
    let n = keys.len();
    let mut perm: Vec<usize> = Vec::new();
    let mut k: usize = 0;
    while k < n
        invariant
            k <= n,
            perm.len() == k,
            forall|m: int| 0 <= m < k ==> #[trigger] perm@[m] == m,
        decreases n - k,
    {
        perm.push(k);
        k = k + 1;
    }
    assert forall|x: int| 0 <= x < n implies #[trigger] lists(perm@, x) by {
        assert(perm@[x] == x);
    }
    let mut i: usize = 0;
    while i < n
        invariant
            i <= n,
            n == keys.len(),
            keys.len() == ks.len(),
            forall|k: int| 0 <= k < ks.len() ==> #[trigger] keys@[k]@ == ks[k],
            is_permutation(perm@, n as nat),
            forall|m: int| i <= m < n ==> #[trigger] perm@[m] == m,
            forall|a: int, b: int|
                0 <= a < b < i ==> #[trigger] goes_before(ks, order, perm@[a] as int, perm@[b] as int),
        decreases n - i,
    {
        let mut j: usize = i;
        let mut moving = true;
        while moving
            invariant
                i < n,
                j <= i,
                n == keys.len(),
                keys.len() == ks.len(),
                forall|k: int| 0 <= k < ks.len() ==> #[trigger] keys@[k]@ == ks[k],
                is_permutation(perm@, n as nat),
                forall|m: int| i < m < n ==> #[trigger] perm@[m] == m,
                forall|a: int, b: int|
                    0 <= a < b <= i && a != j && b != j ==> #[trigger] goes_before(ks, order, perm@[a] as int, perm@[b] as int),
                forall|b: int| j < b <= i ==> #[trigger] goes_before(ks, order, perm@[j as int] as int, perm@[b] as int),
                !moving ==> j == 0 || goes_before(ks, order, perm@[j - 1] as int, perm@[j as int] as int),
            decreases j + (if moving { 1int } else { 0int }),
        {
            if j == 0 {
                moving = false;
            } else {
                let cur = perm[j];
                let prev = perm[j - 1];
                if goes_before_exec(keys, Ghost(ks), order, cur, prev) {
                    let ghost old_perm = perm@;
                    perm.set(j - 1, cur);
                    perm.set(j, prev);
                    proof {
                        lemma_swap_keeps_permutation(old_perm, perm@, j - 1, j as int, n as nat);
                        assert forall|a: int, b: int|
                            0 <= a < b <= i && a != j - 1 && b != j - 1 implies #[trigger] goes_before(
                                ks,
                                order,
                                perm@[a] as int,
                                perm@[b] as int,
                            ) by {
                            if a == j {
                                assert(goes_before(ks, order, old_perm[j - 1] as int, old_perm[b] as int));
                            } else if b == j {
                                assert(goes_before(ks, order, old_perm[a] as int, old_perm[j - 1] as int));
                            } else {
                                assert(goes_before(ks, order, old_perm[a] as int, old_perm[b] as int));
                            }
                        }
                        assert forall|b: int| j - 1 < b <= i implies #[trigger] goes_before(
                            ks,
                            order,
                            perm@[j - 1] as int,
                            perm@[b] as int,
                        ) by {
                            if b > j {
                                assert(goes_before(ks, order, old_perm[j as int] as int, old_perm[b] as int));
                            }
                        }
                    }
                    j = j - 1;
                } else {
                    proof {
                        lemma_goes_before_order(ks, order, cur as int, prev as int, cur as int);
                    }
                    moving = false;
                }
            }
        }
        proof {
            assert forall|a: int, b: int|
                0 <= a < b <= i implies #[trigger] goes_before(ks, order, perm@[a] as int, perm@[b] as int) by {
                if b == j {
                    if a < j - 1 {
                        lemma_goes_before_order(ks, order, perm@[a] as int, perm@[j - 1] as int, perm@[b] as int);
                        assert(goes_before(ks, order, perm@[a] as int, perm@[j - 1] as int));
                    }
                } else if a == j {
                } else {
                }
            }
        }
        i = i + 1;
    }
    perm
}

/// The selected rows, stably sorted by their text for the column `key`.
pub fn stable_sort_rows(rows: &Vec<Row>, selection: &Vec<usize>, key: &String, order: SortOrder) -> (r: Vec<usize>)
    requires
        selects_rows(rows@, selection@),
    ensures
        is_stable_sort(rows@, selection@, key@, order, r@),
{
    let keys = collect_keys(rows, selection, key);
    let ghost ks = sort_keys(rows@, selection@, key@);
    let perm = sorting_permutation(&keys, Ghost(ks), order);
    let mut out: Vec<usize> = Vec::new();
    let mut k: usize = 0;
    while k < perm.len()
        invariant
            k <= perm.len(),
            is_permutation(perm@, selection.len() as nat),
            out@ == perm@.take(k as int).map_values(|m: usize| selection@[m as int]),
        decreases perm.len() - k,
    {
        out.push(selection[perm[k]]);
        proof {
            assert(out@ =~= perm@.take(k + 1).map_values(|m: usize| selection@[m as int]));
        }
        k = k + 1;
    }
    proof {
        assert(perm@.take(perm.len() as int) =~= perm@);
        assert(is_permutation(perm@, selection@.len()));
    }
    out
}


/// The two directions: between different keys a descending sort puts first
/// what an ascending sort puts last, and the ascending sort puts the smaller key
/// (in code point order) first; between equal keys both keep the earlier
/// position first.
pub proof fn lemma_sort_directions(keys: Seq<Seq<char>>, a: int, b: int)
    ensures
        keys[a] != keys[b] ==> goes_before(keys, SortOrder::Desc, a, b) == goes_before(keys, SortOrder::Asc, b, a),
        keys[a] != keys[b] ==> goes_before(keys, SortOrder::Asc, a, b) == text_less(keys[a], keys[b]),
        keys[a] == keys[b] ==> goes_before(keys, SortOrder::Asc, a, b) == (a < b),
        keys[a] == keys[b] ==> goes_before(keys, SortOrder::Desc, a, b) == (a < b),
{
    lemma_text_less_order(keys[a], keys[b], keys[a]);
}

/// The rows a stable sort puts out are in order of their texts for the sort
/// column: ascending, no row has a text that sorts before the text of a row
/// ahead of it; descending, no row has a text that sorts after it; rows with
/// equal texts keep their order in the selection.
pub proof fn lemma_sorted_rows_in_order(
    rows: Seq<Row>,
    selection: Seq<usize>,
    key: Seq<char>,
    order: SortOrder,
    result: Seq<usize>,
    u: int,
    v: int,
)
    requires
        is_stable_sort(rows, selection, key, order, result),
        0 <= u < v < result.len(),
    ensures
        order == SortOrder::Asc ==> !text_less(cell_text(rows[result[v] as int], key), cell_text(rows[result[u] as int], key)),
        order == SortOrder::Desc ==> !text_less(cell_text(rows[result[u] as int], key), cell_text(rows[result[v] as int], key)),
        result.len() == selection.len(),
        exists|a: int, b: int|
            0 <= a < selection.len() && 0 <= b < selection.len() && a != b && selection[a] == result[u]
                && selection[b] == result[v] && (cell_text(rows[result[u] as int], key) == cell_text(
                rows[result[v] as int],
                key,
            ) ==> a < b),
{
    let keys = sort_keys(rows, selection, key);
    let n = selection.len();
    let p = choose|p: Seq<usize>|
        #![trigger is_permutation(p, n)]
        is_permutation(p, n) && stably_ordered(p, keys, order) && result == p.map_values(|k: usize| selection[k as int]);
    let a = p[u] as int;
    let b = p[v] as int;
    assert(goes_before(keys, order, a, b));
    assert(result[u] == selection[a]);
    assert(result[v] == selection[b]);
    assert(keys[a] == cell_text(rows[result[u] as int], key));
    assert(keys[b] == cell_text(rows[result[v] as int], key));
    lemma_text_less_order(keys[a], keys[b], keys[a]);
    assert(p[u] != p[v]);
}

/// Whether the table has a column with id `id`.
pub open spec fn has_column(columns: Seq<Column>, id: Seq<char>) -> bool {
    exists|c: int| 0 <= c < columns.len() && #[trigger] columns[c].id@ == id
}

/// Whether the table has a column with id `id`.
pub fn find_column(columns: &Vec<Column>, id: &String) -> (r: bool)
    ensures
        r == has_column(columns@, id@),
{
    let mut c: usize = 0;
    while c < columns.len()
        invariant
            c <= columns.len(),
            forall|d: int| 0 <= d < c ==> #[trigger] columns@[d].id@ != id@,
        decreases columns.len() - c,
    {
        if columns[c].id == *id {
            return true;
        }
        c = c + 1;
    }
    false
}

/// What the sort step does: with a sort column that the table has, the selected
/// rows come out stably sorted by their text for it; otherwise unchanged.
pub open spec fn sorted_as(
    rows: Seq<Row>,
    selection: Seq<usize>,
    columns: Seq<Column>,
    sort_column: Option<Seq<char>>,
    order: SortOrder,
    result: Seq<usize>,
) -> bool {
    match sort_column {
        Some(id) => if has_column(columns, id) {
            is_stable_sort(rows, selection, id, order, result)
        } else {
            result == selection
        },
        None => result == selection,
    }
}

/// The view of an optional column id.
pub open spec fn opt_view(id: Option<String>) -> Option<Seq<char>> {
    match id {
        Some(s) => Some(s@),
        None => None,
    }
}

/// Sorts the selected rows by the sort column, when the table has that column.
pub fn sort_rows(
    rows: &Vec<Row>,
    selection: &Vec<usize>,
    columns: &Vec<Column>,
    sort_column: &Option<String>,
    order: SortOrder,
) -> (r: Vec<usize>)
    requires
        selects_rows(rows@, selection@),
    ensures
        sorted_as(rows@, selection@, columns@, opt_view(*sort_column), order, r@),
{
    match sort_column {
        Some(id) => {
            if find_column(columns, id) {
                return stable_sort_rows(rows, selection, id, order);
            }
        },
        None => {},
    }
    selection.clone()
}

} // verus!
