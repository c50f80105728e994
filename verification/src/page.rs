//! Page identity and the owned page buffer.
use vstd::prelude::*;

verus! {

/// Identifier of a logical disk page. The page's disk offset is
/// `page_id * page_size`, computed by the I/O layer around this crate.
#[derive(Clone, Copy, PartialEq, Eq, Structural, Hash, PartialOrd, Ord, Debug)]
pub struct PageId(pub u64);

/// An owned page buffer; its length is the pool's fixed page size.
pub type Page = Vec<u8>;

/// The disk offset of a page: its identity times the pool's fixed page
/// size. The product must fit the offset's width; the I/O layer around
/// this crate addresses the heap file with exactly this offset.
pub fn page_offset(page_id: PageId, page_size: u64) -> (offset: u64)
    requires
        page_id.0 * page_size <= u64::MAX,
    ensures
        offset == page_id.0 * page_size,
{
    page_id.0 * page_size
}

} // verus!
