//! Page arithmetic of the board index and the preview of a thread's replies.

use crate::text::chars_of;
use vstd::prelude::*;

verus! {

/// How many threads one page of the index lists.
pub const PAGE_SIZE: u64 = 15;

/// How many replies the index shows under the start of a thread.
pub const PREVIEW_REPLIES: usize = 3;

/// The number of index pages for `threads` threads: as many as are needed to
/// list them all, [`PAGE_SIZE`] to a page, and one page for an empty board.
pub open spec fn page_count(threads: nat) -> nat {
    if threads == 0 {
        1
    } else {
        ((threads + PAGE_SIZE - 1) / (PAGE_SIZE as int)) as nat
    }
}

/// The page that is shown when `requested` is asked for: the nearest page
/// that exists.
pub open spec fn clamped_page(requested: nat, total_pages: nat) -> nat {
    if total_pages < 1 {
        total_pages
    } else if requested < 1 {
        1
    } else if requested > total_pages {
        total_pages
    } else {
        requested
    }
}

/// How many threads stand before the first thread of `page`.
pub open spec fn offset_of(page: nat) -> nat {
    ((page - 1) * PAGE_SIZE) as nat
}

/// Where the preview of `count` replies begins: at the third from the end, or
/// at the first if there are no more than three.
pub open spec fn preview_from(count: nat) -> nat {
    if count > PREVIEW_REPLIES {
        (count - PREVIEW_REPLIES) as nat
    } else {
        0
    }
}

/// The replies that the index shows: the last three, or all where there are no
/// more.
pub open spec fn preview<T>(replies: Seq<T>) -> Seq<T> {
    replies.skip(preview_from(replies.len()) as int)
}

/// The number of pages is the least that holds all threads, and at least one.
pub proof fn lemma_page_count(threads: nat)
    ensures
        page_count(threads) >= 1,
        page_count(threads) * PAGE_SIZE >= threads,
        threads > 0 ==> (page_count(threads) - 1) * PAGE_SIZE < threads,
{
}

/// A clamped page exists, and an existing page is not changed by clamping.
pub proof fn lemma_clamped_page(requested: nat, total_pages: nat)
    requires
        total_pages >= 1,
    ensures
        1 <= clamped_page(requested, total_pages) <= total_pages,
        1 <= requested <= total_pages ==> clamped_page(requested, total_pages) == requested,
{
}

/// Counts the pages of an index of `threads` threads.
pub fn total_pages(threads: u64) -> (pages: u64)
    ensures
        pages == page_count(threads as nat),
        pages >= 1,
{
    if threads == 0 {
        1
    } else {
        (threads - 1) / PAGE_SIZE + 1
    }
}

/// Brings a requested page number into the range of pages that exist.
pub fn clamp_page(requested: u64, total_pages: u64) -> (page: u64)
    ensures
        page == clamped_page(requested as nat, total_pages as nat),
{
    let at_least_one: u64 = if requested < 1 {
        1
    } else {
        requested
    };
    if at_least_one > total_pages {
        total_pages
    } else {
        at_least_one
    }
}

/// Counts the threads that stand before the first thread of `page`.
pub fn page_offset(page: u64) -> (offset: u64)
    requires
        page >= 1,
        (page - 1) * PAGE_SIZE <= u64::MAX,
    ensures
        offset == offset_of(page as nat),
{
    (page - 1) * PAGE_SIZE
}

/// The part of the index that a request shows.
pub struct Window {
    /// The page shown, after clamping.
    pub page: u64,
    /// The number of pages there are.
    pub total_pages: u64,
    /// How many threads to skip before the first one shown.
    pub offset: u64,
}

/// Settles which page of an index of `threads` threads a request for page
/// `requested` shows, and where in the listing that page begins.
pub fn window(threads: u64, requested: u64) -> (w: Window)
    ensures
        w.total_pages == page_count(threads as nat),
        w.page == clamped_page(requested as nat, w.total_pages as nat),
        w.offset == offset_of(w.page as nat),
        1 <= w.page <= w.total_pages,
        threads > 0 ==> w.offset < threads,
{
    let total = total_pages(threads);
    let page = clamp_page(requested, total);
    assert((page - 1) * PAGE_SIZE <= (total - 1) * PAGE_SIZE) by (nonlinear_arith)
        requires
            1 <= page <= total,
    ;
    Window { page, total_pages: total, offset: page_offset(page) }
}

/// Finds where the preview of `count` replies begins.
pub fn preview_start(count: usize) -> (from: usize)
    ensures
        from == preview_from(count as nat),
        from <= count,
{
    if count > PREVIEW_REPLIES {
        count - PREVIEW_REPLIES
    } else {
        0
    }
}

/// The value of a decimal digit, or `None` for any other character.
pub open spec fn digit_value(c: char) -> Option<nat> {
    if c == '0' {
        Some(0)
    } else if c == '1' {
        Some(1)
    } else if c == '2' {
        Some(2)
    } else if c == '3' {
        Some(3)
    } else if c == '4' {
        Some(4)
    } else if c == '5' {
        Some(5)
    } else if c == '6' {
        Some(6)
    } else if c == '7' {
        Some(7)
    } else if c == '8' {
        Some(8)
    } else if c == '9' {
        Some(9)
    } else {
        None
    }
}

/// The number that a run of decimal digits writes, or `None` where a
/// character is no digit. The empty run writes zero.
pub open spec fn digits_value(s: Seq<char>) -> Option<nat>
    decreases s.len(),
{
    if s.len() == 0 {
        Some(0)
    } else {
        match (digits_value(s.drop_last()), digit_value(s.last())) {
            (Some(high), Some(low)) => Some(high * 10 + low),
            _ => None,
        }
    }
}

/// The unsigned number that a text writes: an optional plus sign, then one
/// or more decimal digits, and a value that fits 64 bits. Any other text
/// writes no number.
pub open spec fn number_of(text: Seq<char>) -> Option<nat> {
    let digits = if text.len() > 0 && text.first() == '+' {
        text.drop_first()
    } else {
        text
    };
    if digits.len() == 0 {
        None
    } else {
        match digits_value(digits) {
            Some(n) => if n <= u64::MAX {
                Some(n)
            } else {
                None
            },
            None => None,
        }
    }
}

/// The page that a request asks for: the number its parameter writes, page
/// one where the parameter is missing, writes no number, or writes zero.
pub open spec fn requested_page(parameter: Option<Seq<char>>) -> nat {
    match parameter {
        Some(text) => match number_of(text) {
            Some(n) => if n < 1 {
                1
            } else {
                n
            },
            None => 1,
        },
        None => 1,
    }
}

/// A run of digits writes at least what its beginning writes.
pub proof fn lemma_digits_value_grows(s: Seq<char>, k: int)
    requires
        0 <= k <= s.len(),
        digits_value(s) is Some,
    ensures
        digits_value(s.take(k)) is Some,
        digits_value(s.take(k))->0 <= digits_value(s)->0,
    decreases s.len() - k,
{
    if k == s.len() {
        assert(s.take(k) =~= s);
    } else {
        lemma_digits_value_grows(s.drop_last(), k);
        assert(s.drop_last().take(k) =~= s.take(k));
    }
}

fn value_of_digit(c: char) -> (v: Option<u64>)
    ensures
        match v {
            Some(d) => digit_value(c) == Some(d as nat) && d < 10,
            None => digit_value(c) is None,
        },
{
    if c == '0' {
        Some(0)
    } else if c == '1' {
        Some(1)
    } else if c == '2' {
        Some(2)
    } else if c == '3' {
        Some(3)
    } else if c == '4' {
        Some(4)
    } else if c == '5' {
        Some(5)
    } else if c == '6' {
        Some(6)
    } else if c == '7' {
        Some(7)
    } else if c == '8' {
        Some(8)
    } else if c == '9' {
        Some(9)
    } else {
        None
    }
}

/// Reads an unsigned number: an optional plus sign and then decimal digits.
/// Returns `None` for any other text and for a number beyond 64 bits.
pub fn parse_number(text: &str) -> (n: Option<u64>)
    ensures
        match n {
            Some(v) => number_of(text@) == Some(v as nat),
            None => number_of(text@) is None,
        },
{
    let v = chars_of(text);
    let start: usize = if v.len() > 0 && v[0] == '+' {
        1
    } else {
        0
    };
    if start == v.len() {
        return None;
    }
    let ghost digits = v@.skip(start as int);
    assert(digits =~= if text@.len() > 0 && text@.first() == '+' {
        text@.drop_first()
    } else {
        text@
    });
    let mut n: u64 = 0;
    let mut i: usize = start;
    assert(digits.take(0) =~= Seq::<char>::empty());
    while i < v.len()
        invariant
            start <= i <= v.len(),
            start < v.len(),
            digits == v@.skip(start as int),
            digits_value(digits.take(i - start)) == Some(n as nat),
            number_of(text@) == match digits_value(digits) {
                Some(n) => if n <= u64::MAX {
                    Some(n)
                } else {
                    None
                },
                None => None,
            },
        decreases v.len() - i,
    {
        let ghost upto = digits.take(i - start + 1);
        proof {
            assert(upto.drop_last() =~= digits.take(i - start));
            assert(upto.last() == v@[i as int]);
            if digits_value(digits) is Some {
                lemma_digits_value_grows(digits, i - start + 1);
            }
            if digits_value(upto) is None {
                if digits_value(digits) is Some {
                    assert(false);
                }
            }
        }
        match value_of_digit(v[i]) {
            None => {
                return None;
            },
            Some(d) => {
                if n > (u64::MAX - d) / 10 {
                    assert(digits_value(upto)->0 > u64::MAX);
                    return None;
                }
                n = n * 10 + d;
            },
        }
        i += 1;
    }
    assert(digits.take(digits.len() as int) =~= digits);
    Some(n)
}

/// Reads the page that a request asks for from its parameter.
pub fn parse_page(parameter: Option<&str>) -> (page: u64)
    ensures
        page == requested_page(
            match parameter {
                Some(p) => Some(p@),
                None => None,
            },
        ),
        page >= 1,
{
    match parameter {
        Some(text) => match parse_number(text) {
            Some(n) => if n < 1 {
                1
            } else {
                n
            },
            None => 1,
        },
        None => 1,
    }
}

} // verus!
