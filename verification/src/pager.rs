//! Page addressing: byte offsets of 1-indexed pages, and raw extraction of a
//! page's bytes from an in-memory file image.

use vstd::prelude::*;

verus! {

/// Failure of a page read: the file holds fewer bytes than one full page at
/// the requested offset (an out-of-range page number surfaces this way).
#[derive(Debug, PartialEq, Eq, Structural, Clone, Copy)]
pub enum PageError {
    ShortRead,
}

/// Byte offset of the 1-indexed page `page_number` in a file of pages of
/// `page_size` bytes each.
pub fn page_offset(page_size: u16, page_number: u32) -> (r: u64)
    requires
        page_number >= 1,
    ensures
        r == (page_number - 1) * page_size,
{
    let n: u64 = (page_number - 1) as u64;
    let ps: u64 = page_size as u64;
    proof {
        assert(n * ps <= 0xFFFF_FFFFu64 * 0xFFFFu64) by (nonlinear_arith)
            requires
                n <= 0xFFFF_FFFFu64,
                ps <= 0xFFFFu64,
        ;
    }
    n * ps
}

/// The bytes of the 1-indexed page `page_number`, copied out of the raw file
/// image `data`; exactly `page_size` bytes, or `ShortRead` if the image ends
/// before the page does. The page's contents are not interpreted.
pub fn extract_page(data: &Vec<u8>, page_size: u16, page_number: u32) -> (r: Result<
    Vec<u8>,
    PageError,
>)
    requires
        page_number >= 1,
    ensures
        match r {
            Ok(page) => {
                &&& (page_number - 1) * page_size + page_size <= data@.len()
                &&& page@ == data@.subrange(
                    (page_number - 1) * page_size,
                    (page_number - 1) * page_size + page_size,
                )
            },
            Err(e) => {
                &&& e == PageError::ShortRead
                &&& (page_number - 1) * page_size + page_size > data@.len()
            },
        },
{
    let offset: u64 = page_offset(page_size, page_number);
    let ps: u64 = page_size as u64;
    proof {
        assert(offset <= 0xFFFF_FFFFu64 * 0xFFFFu64) by (nonlinear_arith)
            requires
                offset == (page_number - 1) * page_size,
                page_number <= 0xFFFF_FFFFu32,
                page_size <= 0xFFFFu16,
                page_number >= 1,
        ;
    }
    let dlen: usize = data.len();
    if offset + ps > dlen as u64 {
        return Err(PageError::ShortRead);
    }
    let start: usize = offset as usize;
    let ps_u: usize = page_size as usize;
    let mut page: Vec<u8> = Vec::new();
    let mut i: usize = 0;
    while i < ps_u
        invariant
            i <= ps_u,
            start + ps_u <= dlen,
            dlen == data@.len(),
            start == (page_number - 1) * page_size,
            ps_u == page_size,
            page@ == data@.subrange(start as int, start + i),
        decreases ps_u - i,
    {
        page.push(data[start + i]);
        proof {
            assert(page@ =~= data@.subrange(start as int, start + i + 1));
        }
        i += 1;
    }
    Ok(page)
}

} // verus!
