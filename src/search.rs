use vstd::prelude::*;

verus! {

/// How many pages the navigation shows on each side of the current one.
pub const NAV_PAGE_COUNT: u8 = 3;

/// The last page that the navigation offers.
pub const MAX_PAGE: u8 = 100;

/// A search as the reader sends it.
#[derive(Debug, Clone, PartialEq, Eq)]
pub struct SearchQuery {
    pub q: String,
    pub page: Option<u8>,
}

pub open spec fn nav_min(current: u8) -> int {
    if current as int - NAV_PAGE_COUNT as int >= 1 { current as int - NAV_PAGE_COUNT as int } else { 1 }
}

pub open spec fn nav_max(current: u8) -> int {
    let up = if current as int + NAV_PAGE_COUNT as int > 255 { 255 } else { current as int + NAV_PAGE_COUNT as int };
    if up <= MAX_PAGE as int { up } else { MAX_PAGE as int }
}

/// The pages that the navigation links to around `current`: up to three on each side,
/// from page 1 to page 100.
pub fn nav_pages(current: u8) -> (r: Vec<u8>)
    ensures
        r@.len() == if nav_max(current) >= nav_min(current) { nav_max(current) - nav_min(current) + 1 } else { 0 },
        forall|i: int| 0 <= i < r@.len() ==> #[trigger] r@[i] == nav_min(current) + i,
{
    let low: u8 = if current >= NAV_PAGE_COUNT + 1 { current - NAV_PAGE_COUNT } else { 1 };
    let up: u8 = if current > 255 - NAV_PAGE_COUNT { 255 } else { current + NAV_PAGE_COUNT };
    let high: u8 = if up <= MAX_PAGE { up } else { MAX_PAGE };
    let mut out: Vec<u8> = Vec::new();
    if low > high {
        return out;
    }
    let mut p: u8 = low;
    while p <= high
        invariant
            low as int == nav_min(current),
            high as int == nav_max(current),
            low <= p,
            p <= high + 1,
            high <= MAX_PAGE,
            out@.len() == p - low,
            forall|i: int| 0 <= i < out@.len() ==> #[trigger] out@[i] == low + i,
        decreases high + 1 - p,
    {
        out.push(p);
        p = p + 1;
    }
    out
}

} // verus!
