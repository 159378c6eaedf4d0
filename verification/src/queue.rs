//! Sizing of the shared ring: how many pages it takes and which frame number
//! is published to the device.

use vstd::prelude::*;

verus! {

/// The least number of pages of `page_size` bytes that hold `bytes` bytes.
pub open spec fn pages_needed(bytes: int, page_size: int) -> int {
    (bytes + page_size - 1) / page_size
}

/// Number of whole pages that a region of `bytes` bytes occupies, rounded up.
pub fn page_count(bytes: usize, page_size: usize) -> (pages: usize)
    requires
        page_size > 0,
    ensures
        pages == pages_needed(bytes as int, page_size as int),
{
    let whole: usize = bytes / page_size;
    let rest: usize = bytes % page_size;
    proof {
        lemma_pages_needed_split(bytes as int, page_size as int);
    }
    if rest == 0 {
        whole
    } else {
        whole + 1
    }
}

/// Frame number of the page at `addr`: the address in units of pages. This
/// number, not the address, is what the device is told.
pub fn frame_number(addr: usize, page_size: usize) -> (frame: usize)
    requires
        page_size > 0,
    ensures
        frame == addr as int / page_size as int,
{
    addr / page_size
}

/// The pages counted hold the region, and one page fewer would not.
pub proof fn lemma_pages_needed_least(bytes: int, page_size: int)
    requires
        bytes >= 0,
        page_size > 0,
    ensures
        pages_needed(bytes, page_size) * page_size >= bytes,
        (pages_needed(bytes, page_size) - 1) * page_size < bytes,
        pages_needed(bytes, page_size) >= 0,
{
    assert(pages_needed(bytes, page_size) * page_size >= bytes && (pages_needed(bytes, page_size)
        - 1) * page_size < bytes && pages_needed(bytes, page_size) >= 0) by (nonlinear_arith)
        requires
            bytes >= 0,
            page_size > 0,
    ;
}

/// Rounding up adds one page exactly when the size is not a whole number of
/// pages, and then the number of whole pages is below the size.
pub proof fn lemma_pages_needed_split(bytes: int, page_size: int)
    requires
        bytes >= 0,
        page_size > 0,
    ensures
        pages_needed(bytes, page_size) == bytes / page_size + if bytes % page_size == 0 {
            0int
        } else {
            1int
        },
        bytes % page_size != 0 ==> bytes / page_size < bytes,
{
    assert(pages_needed(bytes, page_size) == bytes / page_size + if bytes % page_size == 0 {
        0int
    } else {
        1int
    } && (bytes % page_size != 0 ==> bytes / page_size < bytes)) by (nonlinear_arith)
        requires
            bytes >= 0,
            page_size > 0,
    ;
}

} // verus!
