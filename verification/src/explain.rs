//! Reading row counts back out of plan text.

use vstd::prelude::*;
use crate::text;

verus! {

/// The least index at or after `from` at which `lit` stands in `v`.
pub open spec fn first_at(v: Seq<char>, from: int, lit: Seq<char>) -> Option<int>
    decreases v.len() + 1 - from,
{
    if from < 0 || from > v.len() {
        None
    } else if text::occurs_at(v, from, lit) {
        Some(from)
    } else {
        first_at(v, from + 1, lit)
    }
}

/// The first `rows=` count at or after `from`: its value and where the text
/// goes on behind it. `None` where there is no `rows=`, where no digit follows
/// it, or where the number does not fit in 32 bits.
pub open spec fn rows_count_after(v: Seq<char>, from: int) -> Option<(int, int)> {
    match first_at(v, from, "rows="@) {
        None => None,
        Some(p) => {
            let start = p + 5;
            let end = text::digits_end(v, start);
            let n = text::number_of(v.subrange(start, end));
            if end == start || n > i32::MAX {
                None
            } else {
                Some((n, end))
            }
        },
    }
}

/// The first two `rows=` counts of a line of plan text.
pub open spec fn rows_pair(v: Seq<char>) -> Option<(int, int)> {
    match rows_count_after(v, 0) {
        None => None,
        Some((a, end)) => match rows_count_after(v, end) {
            None => None,
            Some((b, _)) => Some((a, b)),
        },
    }
}

fn find_from(v: &Vec<char>, from: usize, lit: &Vec<char>) -> (r: Option<usize>)
    requires
        from <= v.len(),
        lit.len() > 0,
    ensures
        match r {
            Some(p) => first_at(v@, from as int, lit@) == Some(p as int) && from <= p && p
                + lit.len() <= v.len(),
            None => first_at(v@, from as int, lit@) is None,
        },
{
    let mut i: usize = from;
    while i < v.len()
        invariant
            from <= i <= v.len(),
            lit.len() > 0,
            first_at(v@, from as int, lit@) == first_at(v@, i as int, lit@),
        decreases v.len() - i,
    {
        if text::has_at(v, i, lit) {
            return Some(i);
        }
        i += 1;
    }
    proof {
        reveal_with_fuel(first_at, 2);
    }
    None
}

fn count_after(v: &Vec<char>, from: usize) -> (r: Option<(i32, usize)>)
    requires
        from <= v.len(),
    ensures
        match r {
            Some((n, end)) => rows_count_after(v@, from as int) == Some((n as int, end as int))
                && end <= v.len(),
            None => rows_count_after(v@, from as int) is None,
        },
{
    let mark: Vec<char> = text::chars_of("rows=");
    proof {
        reveal_strlit("rows=");
    }
    let start: usize = match find_from(v, from, &mark) {
        None => {
            return None;
        },
        Some(p) => p + 5,
    };
    let (n, end): (Option<u64>, usize) = text::read_digits(v, start);
    if end == start {
        return None;
    }
    match n {
        Some(n) => if n > 2147483647 {
            None
        } else {
            Some((n as i32, end))
        },
        None => None,
    }
}

/// The first two `rows=` counts of a line of plan text, if it has both.
pub fn parse_explain_rows_pair(line: &str) -> (r: Option<(i32, i32)>)
    ensures
        match r {
            Some((a, b)) => rows_pair(line@) == Some((a as int, b as int)),
            None => rows_pair(line@) is None,
        },
{
    let v: Vec<char> = text::chars_of(line);
    match count_after(&v, 0) {
        None => None,
        Some((a, end)) => match count_after(&v, end) {
            None => None,
            Some((b, _)) => Some((a, b)),
        },
    }
}

} // verus!
