//! The generic connection builder and page selection.
//!
//! One algorithm serves every entity variant: given the table rows, an
//! optional relationship scope and a decoded cursor, it keeps the rows
//! strictly after the cursor position, bounds the page, and assembles the
//! edge list with its page-boundary flags. Whether another page follows is
//! read off the selection itself (one row beyond the requested count is
//! probed for), so the answer stays right even when ordering keys have gaps.

use vstd::prelude::*;

use crate::cursor::Cursor;
use crate::errors::ApiError;
use crate::models::Node;

verus! {

/// The largest page a single request may ask for; anything above is
/// rejected before any row is touched.
pub const MAX_PAGE_SIZE: i64 = 100;

/// A requested page size is acceptable when positive and bounded.
pub open spec fn valid_count(first: i64) -> bool {
    1 <= first <= MAX_PAGE_SIZE
}

/// The ordering key a page starts strictly after: the supplied cursor's key,
/// or the sentinel `0` when no cursor was supplied.
pub open spec fn after_key_of(after: Option<Cursor>) -> int {
    match after {
        Option::Some(c) => c._rowid as int,
        Option::None => 0,
    }
}

/// Flags indicating whether further pages exist before or after the current
/// one.
#[derive(Clone, Copy, Debug, PartialEq, Eq, Structural)]
pub struct PageInfo {
    pub has_next_page: bool,
    pub has_previous_page: bool,
}

/// A fetched entity paired with the cursor at its position.
#[derive(Debug)]
pub struct Edge<T: Node> {
    pub cursor: Cursor,
    pub node: T,
}

/// A page of results plus its boundary flags.
#[derive(Debug)]
pub struct Connection<T: Node> {
    pub edges: Vec<Edge<T>>,
    pub page_info: PageInfo,
}

impl<T: Node> Edge<T> {
    /// Pair an entity with the cursor at its position.
    pub fn from_node(node: T) -> (e: Edge<T>)
        ensures
            e.node == node,
            e.cursor == (Cursor { _rowid: node.ordering_key(), ty: T::type_tag() }),
    {
        let cursor = node.cursor();
        Edge { cursor, node }
    }
}

/// Whether a row passes the scope filter and sits strictly after the cursor
/// position.
pub open spec fn row_matches<T: Node>(row: T, scope: Option<u128>, after: int) -> bool {
    &&& after < row.ordering_key()
    &&& (match scope {
        Option::Some(p) => row.scope_id() == p,
        Option::None => true,
    })
}

/// The rows of the table, in table order, that pass the scope filter and sit
/// strictly after the cursor position.
pub open spec fn selected<T: Node>(rows: Seq<T>, scope: Option<u128>, after: int) -> Seq<T>
    decreases rows.len(),
{
    if rows.len() == 0 {
        Seq::empty()
    } else {
        let prefix = selected(rows.drop_last(), scope, after);
        if row_matches(rows.last(), scope, after) {
            prefix.push(rows.last())
        } else {
            prefix
        }
    }
}

/// The page: the first `limit` selected rows.
pub open spec fn page_of<T: Node>(rows: Seq<T>, scope: Option<u128>, after: int, limit: int) -> Seq<
    T,
> {
    let sel = selected(rows, scope, after);
    if 0 <= limit <= sel.len() {
        sel.take(limit)
    } else {
        sel
    }
}

/// The ordering keys of the rows are strictly increasing in table order.
pub open spec fn strictly_ordered<T: Node>(rows: Seq<T>) -> bool {
    forall|i: int, j: int|
        0 <= i < j < rows.len() ==> (#[trigger] rows[i].ordering_key()) < (
        #[trigger] rows[j].ordering_key())
}

/// The whole contract of a page request, shared by every list-returning
/// field: when the requested count is acceptable, the edges are exactly the
/// first `first` rows after the cursor position that pass the scope filter,
/// each under its own cursor; whether a previous page exists is the sentinel
/// check, and whether a next page exists is whether the selection goes on
/// past the page.
pub open spec fn connection_spec<T: Node>(
    rows: Seq<T>,
    scope: Option<u128>,
    first: i64,
    after: Option<Cursor>,
    r: Result<Connection<T>, ApiError>,
) -> bool {
    let after_key = after_key_of(after);
    let sel = selected(rows, scope, after_key);
    match r {
        Ok(conn) => {
            &&& valid_count(first)
            &&& conn.page_info.has_previous_page == (after_key > 0)
            &&& conn.page_info.has_next_page == (sel.len() > first)
            &&& conn.edges@.len() == (if sel.len() < first {
                sel.len() as int
            } else {
                first as int
            })
            &&& forall|i: int|
                0 <= i < conn.edges@.len() ==> (#[trigger] conn.edges@[i]).node == sel[i]
            &&& forall|i: int|
                0 <= i < conn.edges@.len() ==> (#[trigger] conn.edges@[i]).cursor == (Cursor {
                    _rowid: sel[i].ordering_key(),
                    ty: T::type_tag(),
                })
        },
        Err(e) => {
            &&& e == ApiError::InvalidCount
            &&& !valid_count(first)
        },
    }
}

fn select_rows<T: Node>(rows: &Vec<T>, scope: Option<u128>, after: i32, limit: usize) -> (out: Vec<
    T,
>)
    ensures
        out@ == page_of(rows@, scope, after as int, limit as int),
        out@.len() <= limit,
{
    let mut out: Vec<T> = Vec::new();
    let mut i: usize = 0;
    proof {
        assert(rows@.take(0) =~= Seq::<T>::empty());
    }
    while i < rows.len()
        invariant
            0 <= i <= rows@.len(),
            out@ == page_of(rows@.take(i as int), scope, after as int, limit as int),
            out@.len() <= limit,
        decreases rows@.len() - i,
    {
        let ghost sel_i = selected(rows@.take(i as int), scope, after as int);
        let row = &rows[i];
        let in_scope = match scope {
            Option::Some(p) => row.in_scope(p),
            Option::None => true,
        };
        let matches = in_scope && after < row.key();
        if matches && out.len() < limit {
            out.push(row.duplicate());
        }
        i = i + 1;
        proof {
            let t_new = rows@.take(i as int);
            assert(t_new.drop_last() =~= rows@.take(i - 1));
            assert(t_new.last() == rows@[i - 1]);
            let sel_new = selected(t_new, scope, after as int);
            if matches {
                assert(sel_new == sel_i.push(rows@[i - 1]));
                if sel_i.len() < limit {
                    assert(sel_new.len() <= limit);
                } else {
                    assert(sel_new.take(limit as int) =~= sel_i.take(limit as int));
                }
            } else {
                assert(sel_new == sel_i);
            }
        }
    }
    proof {
        assert(rows@.take(rows@.len() as int) =~= rows@);
    }
    out
}

/// Resolve a list-returning field: validate the requested count, keep the
/// rows strictly after the cursor position that pass the scope filter, bound
/// the page, and assemble the edges and page-boundary flags.
pub fn paginate<T: Node>(
    rows: &Vec<T>,
    scope: Option<u128>,
    first: i64,
    after: Option<Cursor>,
) -> (r: Result<Connection<T>, ApiError>)
    requires
        (match after {
            Option::Some(c) => c.valid(),
            Option::None => true,
        }),
    ensures
        connection_spec(rows@, scope, first, after, r),
{
    if first < 1 || first > MAX_PAGE_SIZE {
        return Err(ApiError::InvalidCount);
    }
    let after_key: i32 = match after {
        Option::Some(c) => c._rowid,
        Option::None => 0,
    };
    let limit: usize = first as usize + 1;
    let mut page = select_rows(rows, scope, after_key, limit);
    let ghost sel = selected(rows@, scope, after_key as int);
    let has_next_page = page.len() > first as usize;
    let has_previous_page = after_key > 0;
    proof {
        if limit <= sel.len() {
            assert(page@.len() == limit);
        }
        assert(has_next_page == (sel.len() > first as int));
    }
    page.truncate(first as usize);
    let mut edges: Vec<Edge<T>> = Vec::new();
    let mut i: usize = 0;
    while i < page.len()
        invariant
            0 <= i <= page@.len(),
            page@.len() <= first as int,
            edges@.len() == i as int,
            forall|j: int| 0 <= j < i ==> (#[trigger] edges@[j]).node == page@[j],
            forall|j: int|
                0 <= j < i ==> (#[trigger] edges@[j]).cursor == (Cursor {
                    _rowid: page@[j].ordering_key(),
                    ty: T::type_tag(),
                }),
        decreases page@.len() - i,
    {
        let e = Edge::from_node(page[i].duplicate());
        edges.push(e);
        i = i + 1;
    }
    proof {
        let edges_len = (if sel.len() < first as int {
            sel.len() as int
        } else {
            first as int
        });
        assert(page@.len() == edges_len);
        assert(forall|j: int| 0 <= j < page@.len() ==> page@[j] == sel[j]);
    }
    Ok(Connection { edges, page_info: PageInfo { has_next_page, has_previous_page } })
}

proof fn lemma_selected_all<T: Node>(rows: Seq<T>, scope: Option<u128>, after: int)
    requires
        forall|i: int| 0 <= i < rows.len() ==> row_matches(#[trigger] rows[i], scope, after),
    ensures
        selected(rows, scope, after) == rows,
    decreases rows.len(),
{
    if rows.len() == 0 {
        assert(selected(rows, scope, after) =~= rows);
    } else {
        let rows0 = rows.drop_last();
        assert(forall|i: int|
            0 <= i < rows0.len() ==> row_matches(#[trigger] rows0[i], scope, after));
        lemma_selected_all(rows0, scope, after);
        assert(selected(rows, scope, after) =~= rows);
    }
}

/// Law: page selection keeps the table's ascending ordering-key order, keeps
/// only rows strictly after the cursor position, and returns only rows of
/// the table.
pub proof fn lemma_selected_ordered<T: Node>(rows: Seq<T>, scope: Option<u128>, after: int)
    requires
        strictly_ordered(rows),
    ensures
        strictly_ordered(selected(rows, scope, after)),
        forall|i: int|
            0 <= i < selected(rows, scope, after).len() ==> after < (#[trigger] selected(
                rows,
                scope,
                after,
            )[i]).ordering_key(),
        forall|i: int|
            0 <= i < selected(rows, scope, after).len() ==> (exists|j: int|
                0 <= j < rows.len() && (#[trigger] selected(rows, scope, after)[i]) == rows[j]),
    decreases rows.len(),
{
    if rows.len() == 0 {
    } else {
        let rows0 = rows.drop_last();
        assert(forall|i: int, j: int|
            0 <= i < j < rows0.len() ==> (#[trigger] rows0[i].ordering_key()) < (
            #[trigger] rows0[j].ordering_key()));
        lemma_selected_ordered(rows0, scope, after);
        let sel0 = selected(rows0, scope, after);
        let sel = selected(rows, scope, after);
        if row_matches(rows.last(), scope, after) {
            assert(sel == sel0.push(rows.last()));
            assert forall|i: int|
                0 <= i < sel.len() implies (exists|j: int|
                0 <= j < rows.len() && (#[trigger] sel[i]) == rows[j]) by {
                if i < sel0.len() {
                    assert(sel[i] == sel0[i]);
                    let j = choose|j: int| 0 <= j < rows0.len() && sel0[i] == rows0[j];
                    assert(rows0[j] == rows[j]);
                } else {
                    assert(sel[i] == rows[rows.len() - 1]);
                }
            }
            assert forall|i: int, j: int|
                0 <= i < j < sel.len() implies (#[trigger] sel[i].ordering_key()) < (
            #[trigger] sel[j].ordering_key()) by {
                if j < sel0.len() {
                } else {
                    assert(sel[j] == rows.last());
                    if i < sel0.len() {
                        assert(sel[i] == sel0[i]);
                        let k = choose|k: int| 0 <= k < rows0.len() && sel0[i] == rows0[k];
                        assert(rows[k].ordering_key() < rows[rows.len() - 1].ordering_key());
                    }
                }
            }
        } else {
            assert(sel == sel0);
            assert forall|i: int|
                0 <= i < sel.len() implies (exists|j: int|
                0 <= j < rows.len() && (#[trigger] sel[i]) == rows[j]) by {
                let j = choose|j: int| 0 <= j < rows0.len() && sel0[i] == rows0[j];
                assert(rows0[j] == rows[j]);
            }
        }
    }
}

/// Law: a page keeps the table's ascending ordering-key order and holds only
/// rows strictly after the cursor position.
pub proof fn lemma_page_ascending<T: Node>(
    rows: Seq<T>,
    scope: Option<u128>,
    after: int,
    limit: int,
)
    requires
        strictly_ordered(rows),
    ensures
        strictly_ordered(page_of(rows, scope, after, limit)),
        forall|i: int|
            0 <= i < page_of(rows, scope, after, limit).len() ==> after < (#[trigger] page_of(
                rows,
                scope,
                after,
                limit,
            )[i]).ordering_key(),
{
    lemma_selected_ordered(rows, scope, after);
    let sel = selected(rows, scope, after);
    let page = page_of(rows, scope, after, limit);
    if 0 <= limit <= sel.len() {
        assert(forall|i: int| 0 <= i < page.len() ==> page[i] == sel[i]);
    } else {
        assert(page == sel);
    }
}

/// Law: over a table whose ordering keys are `1..N` in insertion order, a
/// first page with no cursor and a requested count of `k <= N` rows holds
/// exactly the rows with keys `1..k`, in ascending order.
pub proof fn lemma_first_page_dense<T: Node>(rows: Seq<T>, k: int)
    requires
        forall|i: int| 0 <= i < rows.len() ==> (#[trigger] rows[i]).ordering_key() == i + 1,
        1 <= k <= rows.len(),
    ensures
        page_of(rows, Option::None, 0, k).len() == k,
        forall|i: int| 0 <= i < k ==> #[trigger] page_of(rows, Option::None, 0, k)[i] == rows[i],
        forall|i: int|
            0 <= i < k ==> (#[trigger] page_of(rows, Option::None, 0, k)[i]).ordering_key() == i
                + 1,
{
    assert(forall|i: int|
        0 <= i < rows.len() ==> row_matches(#[trigger] rows[i], Option::<u128>::None, 0));
    lemma_selected_all(rows, Option::None, 0);
    let page = page_of(rows, Option::None, 0, k);
    assert(forall|i: int| 0 <= i < k ==> page[i] == rows[i]);
}

} // verus!
