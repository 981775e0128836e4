//! Paging over recorded history.
//!
//! The storage collaborator hands the records out ordered most recent
//! first; this module cuts that ordered sequence into pages.

use vstd::prelude::*;
use vstd::math::min;
use crate::dto::History;

verus! {

/// The ordering key of a record: its server-assigned timestamp, with
/// records that never got one sorting last.
pub open spec fn history_key(h: History) -> int {
    match h.timestamp {
        Some(t) => t as int,
        None => i64::MIN - 1,
    }
}

/// Records are ordered most recent first.
pub open spec fn most_recent_first(items: Seq<History>) -> bool {
    forall|i: int, j: int|
        0 <= i < j < items.len() ==> history_key(items[i]) >= history_key(items[j])
}

/// Where a page starts and ends inside the record list.
pub open spec fn page_start(len: int, page: int, page_size: int) -> int {
    min(page * page_size, len)
}

/// One page of the ordered history: the records from `page * page_size`
/// on, at most `page_size` of them, in their stored order.
pub fn list_history_page(items: &Vec<History>, page: usize, page_size: usize) -> (r: Vec<History>)
    requires
        page_size > 0,
        most_recent_first(items@),
    ensures
        r@.len() == min(
            page_start(items@.len() as int, page as int, page_size as int) + page_size as int,
            items@.len() as int,
        ) - page_start(items@.len() as int, page as int, page_size as int),
        forall|i: int|
            0 <= i < r@.len() ==> r@[i] == items@[page_start(
                items@.len() as int,
                page as int,
                page_size as int,
            ) + i],
        most_recent_first(r@),
    {
    let len = items.len();
    let mut start: usize = 0;
    let mut p: usize = 0;
    while p < page && start < len
        invariant
            start <= len,
            len == items@.len(),
            p <= page,
            start == min(p as int * page_size as int, len as int),
            p < page ==> start == min(p as int * page_size as int, len as int),
            p == page || start == len || start == p as int * page_size as int,
        decreases page - p,
    {
        let ghost p0 = p as int;
        if len - start <= page_size {
            start = len;
        } else {
            start = start + page_size;
        }
        p += 1;
        proof {
            assert((p0 + 1) * page_size as int == p0 * page_size as int + page_size as int) by (nonlinear_arith);
            assert(page_size as int >= 0);
            assert(p0 * page_size as int <= (p0 + 1) * page_size as int) by (nonlinear_arith)
                requires page_size as int >= 0, {};
        }
    }
    proof {
        if p < page {
            assert(start == len);
            assert(p as int * page_size as int >= len as int);
            assert(page as int * page_size as int >= p as int * page_size as int) by (nonlinear_arith)
                requires p as int <= page as int, page_size as int >= 0, {};
        }
        assert(start == page_start(len as int, page as int, page_size as int));
    }
    let end = if len - start <= page_size {
        len
    } else {
        start + page_size
    };
    let mut r: Vec<History> = Vec::new();
    let mut i: usize = start;
    while i < end
        invariant
            start <= i <= end <= len,
            len == items@.len(),
            r@.len() == i - start,
            forall|k: int| 0 <= k < r@.len() ==> r@[k] == items@[start as int + k],
        decreases end - i,
    {
        r.push(items[i].duplicate());
        i += 1;
    }
    r
}

} // verus!
