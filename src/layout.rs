use vstd::prelude::*;
use vstd::arithmetic::div_mod::lemma_fundamental_div_mod;

verus! {

/// Places `entry` bytes long that each entry point takes; the first entry point
/// leaves out the first `skip` bytes of its template, and `tail` bytes follow the
/// entry points. The page holds all of it.
pub open spec fn layout_fits(page: int, entry: int, skip: int, tail: int) -> bool {
    &&& 0 <= skip < entry
    &&& 0 <= tail
    &&& tail + (entry - skip) <= page
}

/// How many entry points fit in a page beside the shared tail.
pub open spec fn capacity_for(page: int, entry: int, skip: int, tail: int) -> int {
    (page - tail - (entry - skip)) / entry + 1
}

/// Bytes of the entry point area: every template but the first is whole.
pub open spec fn entry_area_for(page: int, entry: int, skip: int, tail: int) -> int {
    capacity_for(page, entry, skip, tail) * entry - skip
}

/// No-op bytes in front of the entry points, so that the code fills the page.
pub open spec fn padding_for(page: int, entry: int, skip: int, tail: int) -> int {
    page - (entry_area_for(page, entry, skip, tail) + tail)
}

/// The layout fills one page exactly, with at least one entry point, and the
/// capacity is the largest: the padding is too short for one more entry point.
pub proof fn lemma_layout_fills_page(page: int, entry: int, skip: int, tail: int)
    requires
        layout_fits(page, entry, skip, tail),
    ensures
        capacity_for(page, entry, skip, tail) >= 1,
        0 <= padding_for(page, entry, skip, tail) < entry,
        padding_for(page, entry, skip, tail) + entry_area_for(page, entry, skip, tail) + tail
            == page,
        entry_area_for(page, entry, skip, tail) >= entry - skip,
        0 <= (capacity_for(page, entry, skip, tail) - 1) * entry <= page - tail - (entry - skip),
        entry_area_for(page, entry, skip, tail) == (capacity_for(page, entry, skip, tail) - 1)
            * entry + entry - skip,
{
    let a = page - tail - (entry - skip);
    lemma_fundamental_div_mod(a, entry);
    assert(a / entry >= 0) by (nonlinear_arith)
        requires
            a >= 0,
            entry > 0,
    ;
    assert(capacity_for(page, entry, skip, tail) * entry == (a / entry) * entry + entry)
        by (nonlinear_arith)
        requires
            capacity_for(page, entry, skip, tail) == a / entry + 1,
    ;
    assert((capacity_for(page, entry, skip, tail) - 1) * entry == (a / entry) * entry)
        by (nonlinear_arith)
        requires
            capacity_for(page, entry, skip, tail) == a / entry + 1,
    ;
    assert((a / entry) * entry >= 0) by (nonlinear_arith)
        requires
            a / entry >= 0,
            entry > 0,
    ;
}

/// The capacity for a page of `page_size` bytes, templates of `entry_len` bytes of
/// which the first entry point leaves out `skip`, and a tail of `tail_len` bytes.
pub fn trampoline_capacity(page_size: usize, entry_len: usize, skip: usize, tail_len: usize) -> (r:
    usize)
    requires
        layout_fits(page_size as int, entry_len as int, skip as int, tail_len as int),
    ensures
        r == capacity_for(page_size as int, entry_len as int, skip as int, tail_len as int),
        r >= 1,
        r * entry_len - skip + tail_len <= page_size,
        (r + 1) * entry_len - skip + tail_len > page_size,
{
    proof {
        lemma_layout_fills_page(page_size as int, entry_len as int, skip as int, tail_len as int);
    }
    let r = (page_size - tail_len - (entry_len - skip)) / entry_len + 1;
    proof {
        assert((r + 1) * entry_len == r * entry_len + entry_len) by (nonlinear_arith);
    }
    r
}

/// The number of padding bytes in front of the entry points for the same layout.
pub fn padding_len(page_size: usize, entry_len: usize, skip: usize, tail_len: usize) -> (r: usize)
    requires
        layout_fits(page_size as int, entry_len as int, skip as int, tail_len as int),
    ensures
        r == padding_for(page_size as int, entry_len as int, skip as int, tail_len as int),
        r < entry_len,
{
    proof {
        lemma_layout_fills_page(page_size as int, entry_len as int, skip as int, tail_len as int);
    }
    let capacity = trampoline_capacity(page_size, entry_len, skip, tail_len);
    page_size - tail_len - (entry_len - skip) - (capacity - 1) * entry_len
}

} // verus!
