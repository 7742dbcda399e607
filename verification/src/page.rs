//! Pagination: slicing an ordered record list into pages or raw chunks and
//! deriving the page metadata from the total and the request alone.

use vstd::prelude::*;

use crate::ceil_div;
use crate::record::HostEntry;

verus! {

/// Lower and upper bound of the page-size request.
pub const MIN_PAGE_SIZE: usize = 1000;

pub const MAX_PAGE_SIZE: usize = 20000;

/// Upper bound of the chunk-size request of the streaming read.
pub const MAX_CHUNK_SIZE: usize = 10000;

/// One page of records with its derived metadata.
#[derive(Debug)]
pub struct PaginatedResponse<T> {
    pub data: Vec<T>,
    pub total: usize,
    pub page: usize,
    pub page_size: usize,
    pub total_pages: usize,
    pub has_next: bool,
    pub has_prev: bool,
}

/// The window `[start, start + count)` of `rs`, clipped to its length.
pub open spec fn window<T>(rs: Seq<T>, start: int, count: int) -> Seq<T>
    recommends
        0 <= start,
        0 <= count,
{
    let lo = if start <= rs.len() {
        start
    } else {
        rs.len() as int
    };
    let hi = if start + count <= rs.len() {
        start + count
    } else {
        rs.len() as int
    };
    rs.subrange(lo, hi)
}

/// Clamps a requested page size into `[1000, 20000]`: requests below the
/// lower bound are silently raised to it, requests above the upper bound
/// are capped to it.
pub fn clamp_page_size(requested: usize) -> (r: usize)
    ensures
        requested < MIN_PAGE_SIZE ==> r == MIN_PAGE_SIZE,
        requested > MAX_PAGE_SIZE ==> r == MAX_PAGE_SIZE,
        MIN_PAGE_SIZE <= requested <= MAX_PAGE_SIZE ==> r == requested,
{
    if requested < MIN_PAGE_SIZE {
        MIN_PAGE_SIZE
    } else if requested > MAX_PAGE_SIZE {
        MAX_PAGE_SIZE
    } else {
        requested
    }
}

/// Caps a requested chunk size at the streaming maximum.
pub fn cap_chunk_size(requested: usize) -> (r: usize)
    ensures
        requested <= MAX_CHUNK_SIZE ==> r == requested,
        requested > MAX_CHUNK_SIZE ==> r == MAX_CHUNK_SIZE,
{
    if requested > MAX_CHUNK_SIZE {
        MAX_CHUNK_SIZE
    } else {
        requested
    }
}

/// Copies the window `[start, start + count)` of the records, clipped to
/// the list length.
pub fn take_window(records: &Vec<HostEntry>, start: usize, count: usize) -> (r: Vec<HostEntry>)
    ensures
        r@ == window(records@, start as int, count as int),
{
    let total = records.len();
    let lo = if start <= total {
        start
    } else {
        total
    };
    let hi = if count <= total - lo {
        lo + count
    } else {
        total
    };
    let mut r: Vec<HostEntry> = Vec::new();
    let mut i: usize = lo;
    while i < hi
        invariant
            lo <= i <= hi <= total == records@.len(),
            r@ == records@.subrange(lo as int, i as int),
        decreases hi - i,
    {
        let e = records[i].duplicate();
        r.push(e);
        i = i + 1;
        assert(r@ =~= records@.subrange(lo as int, i as int));
    }
    proof {
        assert(r@ =~= window(records@, start as int, count as int));
    }
    r
}

/// Builds the requested page over an ordered record list.  The metadata is
/// derived from the total and the request alone: `total_pages` is the
/// ceiling of `total / page_size`, and the returned records are those at
/// ordinals `[page * page_size, page * page_size + page_size)`.
pub fn paginate(records: &Vec<HostEntry>, page: usize, page_size: usize) -> (p: PaginatedResponse<
    HostEntry,
>)
    requires
        page_size >= 1,
    ensures
        p.total == records@.len(),
        p.page == page,
        p.page_size == page_size,
        p.total_pages as int == ceil_div(records@.len() as nat, page_size as nat),
        p.has_next == (page + 1 < p.total_pages),
        p.has_prev == (page > 0),
        p.data@ == window(records@, page as int * page_size as int, page_size as int),
{
    let total = records.len();
    let data = match page.checked_mul(page_size) {
        Some(start) => take_window(records, start, page_size),
        None => {
            proof {
                assert(window(records@, page as int * page_size as int, page_size as int)
                    =~= Seq::<HostEntry>::empty());
            }
            Vec::new()
        },
    };
    proof {
        let t = total as int;
        let p = page_size as int;
        let q = t / p;
        let m = t % p;
        vstd::arithmetic::div_mod::lemma_fundamental_div_mod(t, p);
        vstd::arithmetic::div_mod::lemma_mod_bound(t, p);
        assert(q <= q * p) by (nonlinear_arith)
            requires
                q >= 0,
                p >= 1,
        ;
        if m != 0 {
            assert((q + 1) * p == q * p + p) by (nonlinear_arith);
            assert(p * q == q * p) by (nonlinear_arith);
            vstd::arithmetic::div_mod::lemma_fundamental_div_mod_converse(t + p - 1, p, q + 1, m
                - 1);
        } else {
            vstd::arithmetic::div_mod::lemma_fundamental_div_mod_converse(t + p - 1, p, q, p - 1);
        }
        assert((t + p - 1) / p == q + (if m != 0 {
            1int
        } else {
            0int
        }));
    }
    let total_pages = total / page_size + (if total % page_size != 0 {
        1usize
    } else {
        0usize
    });
    PaginatedResponse {
        data,
        total,
        page,
        page_size,
        total_pages,
        has_next: if page < total_pages {
            page + 1 < total_pages
        } else {
            false
        },
        has_prev: page > 0,
    }
}

} // verus!
