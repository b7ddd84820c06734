//! Text as sequences of characters: conversions between `str` and `Vec<char>`,
//! comparison, searching and decimal notation.

use vstd::prelude::*;
use vstd::string::StringExecFns;
use vstd::string::StrSliceExecFns;

verus! {

/// `String::push` appends one character to the end of the string and leaves
/// what was there before as it was.
pub assume_specification[ String::push ](s: &mut String, c: char)
    ensures
        final(s)@ == old(s)@.push(c),
;

/// The characters of `s`, in order.
pub fn chars_of(s: &str) -> (r: Vec<char>)
    ensures
        r@ == s@,
{
    let mut r: Vec<char> = Vec::new();
    for c in it: s.chars()
        invariant
            it.seq() == s@,
            r@ == s@.take(it.index() as int),
    {
        proof {
            assert(s@.take(it.index() as int).push(c) =~= s@.take(it.index() + 1));
        }
        r.push(c);
    }
    proof {
        assert(s@.take(s@.len() as int) =~= s@);
    }
    r
}

/// The string whose characters are those of `v`, in order.
pub fn string_of(v: &Vec<char>) -> (r: String)
    ensures
        r@ == v@,
{
    let mut r: String = String::new();
    let mut i: usize = 0;
    while i < v.len()
        invariant
            i <= v.len(),
            r@ == v@.take(i as int),
        decreases v.len() - i,
    {
        proof {
            assert(v@.take(i as int).push(v@[i as int]) =~= v@.take(i + 1));
        }
        r.push(v[i]);
        i += 1;
    }
    proof {
        assert(v@.take(v@.len() as int) =~= v@);
    }
    r
}

/// A copy of `s` as an owned string.
pub fn owned(s: &str) -> (r: String)
    ensures
        r@ == s@,
{
    String::from_str(s)
}

/// Whether `lit` stands in `v` from index `at` on.
pub open spec fn occurs_at(v: Seq<char>, at: int, lit: Seq<char>) -> bool {
    &&& 0 <= at
    &&& at + lit.len() <= v.len()
    &&& v.subrange(at, at + lit.len()) == lit
}

/// Decides `occurs_at`.
pub fn has_at(v: &Vec<char>, at: usize, lit: &Vec<char>) -> (r: bool)
    ensures
        r == occurs_at(v@, at as int, lit@),
{
    if at > v.len() || lit.len() > v.len() - at {
        return false;
    }
    let mut i: usize = 0;
    while i < lit.len()
        invariant
            i <= lit.len(),
            at + lit.len() <= v.len(),
            forall|j: int| 0 <= j < i ==> v@[at + j] == lit@[j],
        decreases lit.len() - i,
    {
        if v[at + i] != lit[i] {
            proof {
                assert(v@.subrange(at as int, at + lit@.len())[i as int] != lit@[i as int]);
            }
            return false;
        }
        i += 1;
    }
    proof {
        assert(v@.subrange(at as int, at + lit@.len()) =~= lit@);
    }
    true
}

/// Whether two texts are equal.
pub fn same_text(a: &str, b: &str) -> (r: bool)
    ensures
        r == (a@ == b@),
{
    same_chars(&chars_of(a), &chars_of(b))
}

/// Whether two character vectors hold the same characters.
pub fn same_chars(a: &Vec<char>, b: &Vec<char>) -> (r: bool)
    ensures
        r == (a@ == b@),
{
    if a.len() != b.len() {
        return false;
    }
    let mut i: usize = 0;
    while i < a.len()
        invariant
            i <= a.len(),
            a.len() == b.len(),
            forall|j: int| 0 <= j < i ==> a@[j] == b@[j],
        decreases a.len() - i,
    {
        if a[i] != b[i] {
            return false;
        }
        i += 1;
    }
    proof {
        assert(a@ =~= b@);
    }
    true
}

/// Whether a character vector spells the literal `lit`.
pub fn spells(a: &Vec<char>, lit: &str) -> (r: bool)
    ensures
        r == (a@ == lit@),
{
    let n: usize = lit.unicode_len();
    if a.len() != n {
        return false;
    }
    let mut i: usize = 0;
    while i < n
        invariant
            i <= n,
            n == a.len(),
            n == lit@.len(),
            forall|j: int| 0 <= j < i ==> a@[j] == lit@[j],
        decreases n - i,
    {
        if a[i] != lit.get_char(i) {
            return false;
        }
        i += 1;
    }
    proof {
        assert(a@ =~= lit@);
    }
    true
}

/// Whether `c` is one of the ten decimal digits.
pub open spec fn is_digit(c: char) -> bool {
    '0' <= c && c <= '9'
}

/// The value of a decimal digit.
pub open spec fn digit_value(c: char) -> int {
    (c as int) - ('0' as int)
}

/// The number that a sequence of decimal digits denotes.
pub open spec fn number_of(s: Seq<char>) -> int
    decreases s.len(),
{
    if s.len() == 0 {
        0
    } else {
        10 * number_of(s.drop_last()) + digit_value(s.last())
    }
}

/// The end of the run of digits that starts at `from`.
pub open spec fn digits_end(v: Seq<char>, from: int) -> int
    decreases v.len() - from,
{
    if 0 <= from < v.len() && is_digit(v[from]) {
        digits_end(v, from + 1)
    } else {
        from
    }
}

proof fn lemma_digits_end(v: Seq<char>, from: int)
    requires
        0 <= from <= v.len(),
    ensures
        from <= digits_end(v, from) <= v.len(),
        forall|j: int| from <= j < digits_end(v, from) ==> is_digit(v[j]),
    decreases v.len() - from,
{
    if from < v.len() && is_digit(v[from]) {
        lemma_digits_end(v, from + 1);
    }
}

/// Reads the run of digits that starts at `from`: the number it denotes, if that
/// fits in 64 bits, and where the run ends.
pub fn read_digits(v: &Vec<char>, from: usize) -> (r: (Option<u64>, usize))
    requires
        from <= v.len(),
    ensures
        r.1 == digits_end(v@, from as int),
        from <= r.1 <= v.len(),
        match r.0 {
            Some(n) => n == number_of(v@.subrange(from as int, r.1 as int)),
            None => number_of(v@.subrange(from as int, r.1 as int)) > u64::MAX,
        },
{
    let mut end: usize = from;
    let mut n: Option<u64> = Some(0);
    proof {
        assert(v@.subrange(from as int, from as int) =~= Seq::<char>::empty());
    }
    while end < v.len() && '0' <= v[end] && v[end] <= '9'
        invariant
            from <= end <= v.len(),
            digits_end(v@, from as int) == digits_end(v@, end as int),
            forall|j: int| from <= j < end ==> is_digit(v@[j]),
            match n {
                Some(m) => m == number_of(v@.subrange(from as int, end as int)),
                None => number_of(v@.subrange(from as int, end as int)) > u64::MAX,
            },
        decreases v.len() - end,
    {
        proof {
            assert(v@.subrange(from as int, end + 1).drop_last() =~= v@.subrange(
                from as int,
                end as int,
            ));
            assert(v@.subrange(from as int, end + 1).last() == v@[end as int]);
        }
        let d: u64 = ((v[end] as u32) - ('0' as u32)) as u64;
        n = match n {
            None => None,
            Some(m) => if m > 1844674407370955161 || (m == 1844674407370955161 && d > 5) {
                None
            } else {
                Some(10 * m + d)
            },
        };
        end += 1;
    }
    (n, end)
}

/// The digit that stands for `d`.
pub open spec fn digit_char(d: int) -> char {
    (d + ('0' as int)) as char
}

/// The decimal notation of `n`, without leading zeros.
pub open spec fn decimal(n: nat) -> Seq<char>
    decreases n,
{
    if n < 10 {
        seq![digit_char(n as int)]
    } else {
        decimal(n / 10).push(digit_char((n % 10) as int))
    }
}

/// The decimal notation of an integer: a minus sign before the digits of a
/// negative one.
pub open spec fn signed_decimal(n: int) -> Seq<char> {
    if n < 0 {
        seq!['-'] + decimal((-n) as nat)
    } else {
        decimal(n as nat)
    }
}

fn digit_of(d: u64) -> (c: char)
    requires
        d < 10,
    ensures
        c == digit_char(d as int),
{
    match d {
        0 => '0',
        1 => '1',
        2 => '2',
        3 => '3',
        4 => '4',
        5 => '5',
        6 => '6',
        7 => '7',
        8 => '8',
        _ => '9',
    }
}

/// Appends the decimal notation of `n`.
pub fn push_decimal(s: &mut String, n: u64)
    ensures
        final(s)@ == old(s)@ + decimal(n as nat),
    decreases n,
{
    if n >= 10 {
        push_decimal(s, n / 10);
    }
    s.push(digit_of(n % 10));
    proof {
        if n < 10 {
            assert(old(s)@.push(digit_char(n as int)) =~= old(s)@ + decimal(n as nat));
        } else {
            assert((old(s)@ + decimal((n / 10) as nat)).push(digit_char((n % 10) as int))
                =~= old(s)@ + decimal(n as nat));
        }
    }
}

/// Appends the decimal notation of an integer.
pub fn push_signed(s: &mut String, n: i64)
    ensures
        final(s)@ == old(s)@ + signed_decimal(n as int),
{
    if n < 0 {
        s.push('-');
        let m: u64 = if n == i64::MIN {
            9223372036854775808
        } else {
            (-n) as u64
        };
        let ghost before = old(s)@;
        push_decimal(s, m);
        proof {
            assert(before.push('-') + decimal(m as nat) =~= before + (seq!['-'] + decimal(m as nat)));
        }
    } else {
        push_decimal(s, n as u64);
    }
}

/// Whether a text is made of digits alone, at least one.
pub open spec fn all_digits(s: Seq<char>) -> bool {
    s.len() > 0 && forall|i: int| 0 <= i < s.len() ==> is_digit(#[trigger] s[i])
}

/// The 64-bit integer that a text denotes, if it denotes one: digits, with or
/// without a minus sign before them.
pub open spec fn integer_of(s: Seq<char>) -> Option<i64> {
    let negative = s.len() > 0 && s[0] == '-';
    let digits = if negative {
        s.drop_first()
    } else {
        s
    };
    let n = if negative {
        -number_of(digits)
    } else {
        number_of(digits)
    };
    if all_digits(digits) && i64::MIN <= n <= i64::MAX {
        Some(n as i64)
    } else {
        None
    }
}

/// Reads the 64-bit integer that a text denotes.
pub fn read_integer(v: &Vec<char>) -> (r: Option<i64>)
    ensures
        r == integer_of(v@),
{
    let negative: bool = v.len() > 0 && v[0] == '-';
    let from: usize = if negative {
        1
    } else {
        0
    };
    let ghost digits = v@.subrange(from as int, v@.len() as int);
    proof {
        lemma_digits_end(v@, from as int);
        if negative {
            assert(v@.drop_first() =~= digits);
        } else {
            assert(v@ =~= digits);
        }
    }
    let (n, end): (Option<u64>, usize) = read_digits(v, from);
    if end == from || end < v.len() {
        proof {
            if end < v.len() {
                lemma_digits_stop(v@, from as int);
                assert(!is_digit(digits[end - from]));
            }
        }
        return None;
    }
    proof {
        assert forall|i: int| 0 <= i < digits.len() implies is_digit(#[trigger] digits[i]) by {
            assert(is_digit(v@[from + i]));
        }
    }
    match n {
        None => None,
        Some(m) => if negative {
            if m == 9223372036854775808 {
                Some(i64::MIN)
            } else if m < 9223372036854775808 {
                Some(-(m as i64))
            } else {
                None
            }
        } else if m <= 9223372036854775807 {
            Some(m as i64)
        } else {
            None
        },
    }
}

proof fn lemma_digits_stop(v: Seq<char>, from: int)
    requires
        0 <= from <= v.len(),
    ensures
        digits_end(v, from) < v.len() ==> !is_digit(v[digits_end(v, from)]),
    decreases v.len() - from,
{
    if from < v.len() && is_digit(v[from]) {
        lemma_digits_stop(v, from + 1);
    }
}

/// The texts that a sequence of strings holds.
pub open spec fn texts(v: Seq<String>) -> Seq<Seq<char>> {
    v.map_values(|s: String| s@)
}

/// Appends all of `tail` to `v`.
pub fn extend_chars(v: &mut Vec<char>, tail: &Vec<char>)
    ensures
        final(v)@ == old(v)@ + tail@,
{
    let ghost before = v@;
    let mut i: usize = 0;
    while i < tail.len()
        invariant
            i <= tail.len(),
            v@ == before + tail@.take(i as int),
        decreases tail.len() - i,
    {
        proof {
            assert((before + tail@.take(i as int)).push(tail@[i as int]) =~= before + tail@.take(
                i + 1,
            ));
        }
        v.push(tail[i]);
        i += 1;
    }
    proof {
        assert(tail@.take(tail@.len() as int) =~= tail@);
    }
}

} // verus!
