//! Pages of a list: which rows a page holds, and how many pages there are.
use vstd::prelude::*;

verus! {

/// The rows of a page: the number of the page, the number of rows on a
/// page, and the number of rows that come before the page.
#[derive(Debug, Clone, Copy, PartialEq, Eq, Structural)]
pub struct PageWindow {
    pub page: i32,
    pub page_size: i32,
    pub offset: i64,
}

/// The greater of two numbers.
pub open spec fn at_least(value: int, floor: int) -> int {
    if value < floor {
        floor
    } else {
        value
    }
}

/// The lesser of two numbers.
pub open spec fn at_most(value: int, ceiling: int) -> int {
    if value > ceiling {
        ceiling
    } else {
        value
    }
}

/// The number that a client asked for, or `fallback` where it asked for
/// none.
pub open spec fn asked(value: Option<i32>, fallback: int) -> int {
    match value {
        Some(v) => v as int,
        None => fallback,
    }
}

/// The window of a page where pages count from 1, a page holds 10 rows
/// unless the client asks otherwise, and never more than 100.
pub fn page_window(page: Option<i32>, page_size: Option<i32>) -> (window: PageWindow)
    ensures
        window.page == at_least(asked(page, 1), 1),
        window.page_size == at_most(asked(page_size, 10), 100),
        window.offset == (window.page - 1) * window.page_size,
{
    let page: i32 = match page {
        Some(p) => if p < 1 {
            1
        } else {
            p
        },
        None => 1,
    };
    let page_size: i32 = match page_size {
        Some(s) => if s > 100 {
            100
        } else {
            s
        },
        None => 10,
    };
    assert(-0x8000_0000 * 0x8000_0000 <= (page - 1) * page_size <= 0x8000_0000 * 0x8000_0000)
        by (nonlinear_arith)
        requires
            0 <= page - 1 < 0x8000_0000,
            -0x8000_0000 <= page_size < 0x8000_0000,
    ;
    PageWindow { page, page_size, offset: (page as i64 - 1) * (page_size as i64) }
}

/// The window of a page where pages count from 1, and a page holds 20 rows
/// unless the client asks otherwise, at least 1 and never more than 100.
pub fn bounded_page_window(page: Option<i32>, limit: Option<i32>) -> (window: PageWindow)
    ensures
        window.page == at_least(asked(page, 1), 1),
        window.page_size == at_most(at_least(asked(limit, 20), 1), 100),
        window.offset == (window.page - 1) * window.page_size,
{
    let page: i32 = match page {
        Some(p) => if p < 1 {
            1
        } else {
            p
        },
        None => 1,
    };
    let limit: i32 = match limit {
        Some(l) => if l < 1 {
            1
        } else if l > 100 {
            100
        } else {
            l
        },
        None => 20,
    };
    assert(0 <= (page - 1) * limit <= 0x8000_0000 * 100) by (nonlinear_arith)
        requires
            0 <= page - 1 < 0x8000_0000,
            1 <= limit <= 100,
    ;
    PageWindow { page, page_size: limit, offset: (page as i64 - 1) * (limit as i64) }
}

/// The window of a page of 10 rows, where pages count from 1.
pub fn fixed_page_window(page: Option<i32>) -> (window: PageWindow)
    ensures
        window.page == at_least(asked(page, 1), 1),
        window.page_size == 10,
        window.offset == (window.page - 1) * 10,
{
    let page: i32 = match page {
        Some(p) => if p < 1 {
            1
        } else {
            p
        },
        None => 1,
    };
    PageWindow { page, page_size: 10, offset: (page as i64 - 1) * 10 }
}

/// The number of rows that come before the page `page` of `page_size`
/// rows, where pages count from 1; nothing where that number cannot be
/// held.
pub fn page_offset(page: i64, page_size: i64) -> (offset: Option<i64>)
    ensures
        offset.is_some() == (i64::MIN <= (page - 1) * page_size <= i64::MAX),
        offset.is_some() ==> offset.unwrap() == (page - 1) * page_size,
{
    assert(-0x8000_0000_0000_0001 * 0x8000_0000_0000_0001 <= (page - 1) * page_size
        <= 0x8000_0000_0000_0001 * 0x8000_0000_0000_0001) by (nonlinear_arith)
        requires
            -0x8000_0000_0000_0001 <= page - 1 <= 0x8000_0000_0000_0001,
            -0x8000_0000_0000_0001 <= page_size <= 0x8000_0000_0000_0001,
    ;
    let wide: i128 = (page as i128 - 1) * (page_size as i128);
    if -0x8000_0000_0000_0000 <= wide && wide <= 0x7FFF_FFFF_FFFF_FFFF {
        Some(wide as i64)
    } else {
        None
    }
}

/// The number of pages of `limit` rows that `total` rows fill, the last
/// one perhaps in part; 0 where a page holds no row.
pub fn total_pages(total: u64, limit: i32) -> (pages: u64)
    ensures
        limit <= 0 ==> pages == 0,
        limit > 0 ==> pages == (total + limit - 1) / (limit as int),
{
    if limit <= 0 {
        return 0;
    }
    let wide: u128 = (total as u128 + limit as u128 - 1) / (limit as u128);
    assert(wide <= total) by (nonlinear_arith)
        requires
            wide == (total + limit - 1) / (limit as int),
            limit >= 1,
            total >= 0,
    ;
    wide as u64
}

} // verus!
