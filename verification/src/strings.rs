//! Texts that functions make of values.
//!
//! A value holds a text by its number in the table of texts. A text that is not in
//! the table has no number yet: the value is then a fault that says how the text is
//! made, so that it can be entered before the statement runs.

use vstd::prelude::*;
use crate::ast::TextFn;
use crate::datum;
use crate::datum::Datum;
use crate::fault::Fault;
use crate::lexer;
use crate::symbols;
use crate::symbols::Symbols;
use crate::text;

verus! {

/// A text that a function makes of up to three values.
#[derive(Clone, Copy, Debug)]
pub struct NewText {
    pub f: TextFn,
    pub a: Datum,
    pub b: Datum,
    pub c: Datum,
}

/// A value as a text; null is the empty one.
pub open spec fn shown(t: Seq<Seq<char>>, d: Datum) -> Seq<char> {
    match d {
        Datum::Null => Seq::empty(),
        Datum::Int(n) => text::signed_decimal(n as int),
        Datum::Big(n) => text::signed_decimal(n as int),
        Datum::Bool(b) => if b {
            "true"@
        } else {
            "false"@
        },
        Datum::Text(i) => symbols::text_at(t, i),
    }
}

pub open spec fn upper(c: char) -> char {
    if 'a' <= c && c <= 'z' {
        ((c as int) - 32) as char
    } else {
        c
    }
}

/// A text in upper case; only the letters a to z have another form.
pub open spec fn uppered(s: Seq<char>) -> Seq<char> {
    s.map_values(|c: char| upper(c))
}

/// The first place at or after `from` that holds no blank.
pub open spec fn first_solid(s: Seq<char>, from: int) -> int
    decreases s.len() - from,
{
    if 0 <= from < s.len() && s[from] == ' ' {
        first_solid(s, from + 1)
    } else {
        from
    }
}

/// The place behind the last one before `below` that holds no blank.
pub open spec fn last_solid(s: Seq<char>, below: int) -> int
    decreases below,
{
    if 0 < below <= s.len() && s[below - 1] == ' ' {
        last_solid(s, below - 1)
    } else {
        below
    }
}

/// A text without the blanks at its ends.
pub open spec fn trimmed(s: Seq<char>) -> Seq<char> {
    let a = first_solid(s, 0);
    let b = last_solid(s, s.len() as int);
    if a <= b {
        s.subrange(a, b)
    } else {
        Seq::empty()
    }
}

pub open spec fn within(n: int, s: Seq<char>) -> int {
    if n < 0 {
        0
    } else if n > s.len() {
        s.len() as int
    } else {
        n
    }
}

/// The characters from place `start` on, counted from one, `n` places further.
/// Places outside of the text hold nothing.
pub open spec fn part(s: Seq<char>, start: int, n: int) -> Seq<char> {
    let a = within(start - 1, s);
    let b = within(start - 1 + n, s);
    if a <= b {
        s.subrange(a, b)
    } else {
        Seq::empty()
    }
}

/// A text from place `i` on with `from` replaced by `to`, behind `acc`. Nothing is
/// replaced if `from` is empty.
pub open spec fn replaced_from(
    s: Seq<char>,
    i: int,
    from: Seq<char>,
    to: Seq<char>,
    acc: Seq<char>,
) -> Seq<char>
    decreases s.len() - i,
{
    if i < 0 || i >= s.len() {
        acc
    } else if from.len() > 0 && text::occurs_at(s, i, from) {
        replaced_from(s, i + from.len(), from, to, acc + to)
    } else {
        replaced_from(s, i + 1, from, to, acc.push(s[i]))
    }
}

/// The first place at or after `i` at which `part` stands, counted from one; 0 if
/// there is none.
pub open spec fn position_from(s: Seq<char>, i: int, part: Seq<char>) -> int
    decreases s.len() + 1 - i,
{
    if i < 0 || i > s.len() {
        0
    } else if text::occurs_at(s, i, part) {
        i + 1
    } else {
        position_from(s, i + 1, part)
    }
}

/// The first `n` characters of a text that is repeated without end.
pub open spec fn filling(s: Seq<char>, n: int) -> Seq<char> {
    Seq::new(
        if n < 0 || s.len() == 0 {
            0
        } else {
            n as nat
        },
        |i: int| s[i % (s.len() as int)],
    )
}

/// A text repeated `n` times.
pub open spec fn repeated(s: Seq<char>, n: int) -> Seq<char>
    decreases n,
{
    if n <= 0 {
        Seq::empty()
    } else {
        repeated(s, n - 1) + s
    }
}

/// The last place before `i` of a percent sign that has `n - 1` others between it and
/// `i`.
pub open spec fn nth_percent(s: Seq<char>, n: int, i: int) -> Option<int>
    decreases i,
{
    if i <= 0 || i > s.len() || n <= 0 {
        None
    } else if s[i - 1] != '%' {
        nth_percent(s, n, i - 1)
    } else if n == 1 {
        Some(i - 1)
    } else {
        nth_percent(s, n - 1, i - 1)
    }
}

/// A text with another in place of its percent sign that is the `n`-th from the end.
pub open spec fn filled(s: Seq<char>, n: int, by: Seq<char>) -> Seq<char> {
    match nth_percent(s, n, s.len() as int) {
        None => s,
        Some(i) => s.take(i) + by + s.skip(i + 1),
    }
}

/// A value as it is shown in a message.
pub open spec fn shown_or_null(t: Seq<Seq<char>>, d: Datum) -> Seq<char> {
    if d == Datum::Null {
        "<NULL>"@
    } else {
        shown(t, d)
    }
}

/// The text that a function makes.
pub open spec fn made(t: Seq<Seq<char>>, x: NewText) -> Seq<char> {
    let s = shown(t, x.a);
    let n = datum::as_number(x.b);
    match x.f {
        TextFn::Upper => uppered(s),
        TextFn::Lower => lexer::lowered(s),
        TextFn::Trim => trimmed(s),
        TextFn::Substring => part(s, n, datum::as_number(x.c)),
        TextFn::Join => s + shown(t, x.b),
        TextFn::Concat => s + shown(t, x.b),
        TextFn::Replace => replaced_from(s, 0, shown(t, x.b), shown(t, x.c), Seq::empty()),
        TextFn::Lpad => if n <= s.len() {
            s.take(within(n, s))
        } else {
            filling(shown(t, x.c), n - s.len()) + s
        },
        TextFn::Rpad => if n <= s.len() {
            s.take(within(n, s))
        } else {
            s + filling(shown(t, x.c), n - s.len())
        },
        TextFn::Repeat => repeated(s, n),
        TextFn::Cast => s,
        TextFn::Length => s,
        TextFn::Position => s,
        TextFn::Fill => filled(s, datum::as_number(x.c), shown_or_null(t, x.b)),
    }
}

/// A text of a function as a value: its number, if it has one.
pub open spec fn text_value(t: Seq<Seq<char>>, x: NewText) -> Result<Datum, Fault> {
    match symbols::place(t, made(t, x)) {
        Some(i) => Ok(Datum::Text(i)),
        None => Err(Fault::Unentered { text: x }),
    }
}

/// How many values a function takes.
pub open spec fn arity(f: TextFn) -> u8 {
    match f {
        TextFn::Upper => 1,
        TextFn::Lower => 1,
        TextFn::Trim => 1,
        TextFn::Length => 1,
        TextFn::Cast => 1,
        TextFn::Join => 2,
        TextFn::Concat => 2,
        TextFn::Position => 2,
        TextFn::Repeat => 2,
        TextFn::Substring => 3,
        TextFn::Replace => 3,
        TextFn::Lpad => 3,
        TextFn::Rpad => 3,
        TextFn::Fill => 3,
    }
}

/// The value of a function on texts. It is null if one of its values is, but for
/// the concatenation of a list, which passes over nulls.
pub open spec fn call_value(t: Seq<Seq<char>>, f: TextFn, a: Datum, b: Datum, c: Datum) -> Result<
    Datum,
    Fault,
> {
    if f != TextFn::Concat && f != TextFn::Fill && (a == Datum::Null || (arity(f) >= 2 && b == Datum::Null) || (arity(f)
        >= 3 && c == Datum::Null)) {
        Ok(Datum::Null)
    } else {
        match f {
            TextFn::Length => if shown(t, a).len() <= i32::MAX {
                Ok(Datum::Int(shown(t, a).len() as i32))
            } else {
                Err(Fault::OutOfRange)
            },
            TextFn::Position => {
                let n = position_from(shown(t, a), 0, shown(t, b));
                if n <= i32::MAX {
                    Ok(Datum::Int(n as i32))
                } else {
                    Err(Fault::OutOfRange)
                }
            },
            TextFn::Substring => if datum::as_number(c) < 0 {
                Err(Fault::NegativeLength)
            } else {
                text_value(t, NewText { f, a, b, c })
            },
            _ => text_value(t, NewText { f, a, b, c }),
        }
    }
}

fn chars_shown(t: &Symbols, d: Datum) -> (r: Vec<char>)
    ensures
        r@ == shown(t@, d),
{
    match d {
        Datum::Null => Vec::new(),
        Datum::Int(n) => decimal_chars(n as i64),
        Datum::Big(n) => decimal_chars(n),
        Datum::Bool(b) => if b {
            text::chars_of("true")
        } else {
            text::chars_of("false")
        },
        Datum::Text(i) => text::chars_of(t.text(i).as_str()),
    }
}

fn decimal_chars(n: i64) -> (r: Vec<char>)
    ensures
        r@ == text::signed_decimal(n as int),
{
    let mut s: String = String::new();
    text::push_signed(&mut s, n);
    assert(s@ =~= text::signed_decimal(n as int));
    text::chars_of(s.as_str())
}

fn to_upper(c: char) -> (r: char)
    ensures
        r == upper(c),
{
    if 'a' <= c && c <= 'z' {
        (c as u8 - 32) as char
    } else {
        c
    }
}

fn upper_chars(s: &Vec<char>, raise: bool) -> (r: Vec<char>)
    ensures
        r@ == if raise {
            uppered(s@)
        } else {
            lexer::lowered(s@)
        },
{
    let mut r: Vec<char> = Vec::new();
    let mut i: usize = 0;
    while i < s.len()
        invariant
            i <= s.len(),
            r@.len() == i,
            forall|j: int|
                0 <= j < i ==> #[trigger] r@[j] == if raise {
                    upper(s@[j])
                } else {
                    lexer::lower(s@[j])
                },
        decreases s.len() - i,
    {
        let c: char = s[i];
        r.push(
            if raise {
                to_upper(c)
            } else {
                lexer::to_lower(c)
            },
        );
        i += 1;
    }
    assert(raise ==> r@ =~= uppered(s@));
    assert(!raise ==> r@ =~= lexer::lowered(s@));
    r
}

fn range_of(s: &Vec<char>, from: usize, to: usize) -> (r: Vec<char>)
    requires
        to <= s.len(),
    ensures
        r@ == if from <= to {
            s@.subrange(from as int, to as int)
        } else {
            Seq::empty()
        },
{
    let mut r: Vec<char> = Vec::new();
    if from > to {
        return r;
    }
    let mut i: usize = from;
    while i < to
        invariant
            from <= i <= to <= s.len(),
            r@ == s@.subrange(from as int, i as int),
        decreases to - i,
    {
        proof {
            assert(s@.subrange(from as int, i as int).push(s@[i as int]) =~= s@.subrange(
                from as int,
                i + 1,
            ));
        }
        r.push(s[i]);
        i += 1;
    }
    r
}

fn trim_chars(s: &Vec<char>) -> (r: Vec<char>)
    ensures
        r@ == trimmed(s@),
{
    let mut a: usize = 0;
    while a < s.len() && s[a] == ' '
        invariant
            a <= s.len(),
            first_solid(s@, 0) == first_solid(s@, a as int),
        decreases s.len() - a,
    {
        a += 1;
    }
    let mut b: usize = s.len();
    while b > 0 && s[b - 1] == ' '
        invariant
            b <= s.len(),
            last_solid(s@, s@.len() as int) == last_solid(s@, b as int),
        decreases b,
    {
        b -= 1;
    }
    range_of(s, a, b)
}

fn place_within(n: i128, s: &Vec<char>) -> (r: usize)
    ensures
        r == within(n as int, s@),
        r <= s.len(),
{
    if n < 0 {
        0
    } else if n > s.len() as i128 {
        s.len()
    } else {
        n as usize
    }
}

fn replace_chars(s: &Vec<char>, from: &Vec<char>, to: &Vec<char>) -> (r: Vec<char>)
    ensures
        r@ == replaced_from(s@, 0, from@, to@, Seq::empty()),
{
    let mut acc: Vec<char> = Vec::new();
    let mut i: usize = 0;
    while i < s.len()
        invariant
            i <= s.len(),
            replaced_from(s@, 0, from@, to@, Seq::empty()) == replaced_from(
                s@,
                i as int,
                from@,
                to@,
                acc@,
            ),
        decreases s.len() - i,
    {
        if from.len() > 0 && text::has_at(s, i, from) {
            text::extend_chars(&mut acc, to);
            i += from.len();
        } else {
            acc.push(s[i]);
            i += 1;
        }
    }
    acc
}

fn position_of(s: &Vec<char>, part: &Vec<char>) -> (r: Option<usize>)
    ensures
        match r {
            None => position_from(s@, 0, part@) == 0,
            Some(i) => position_from(s@, 0, part@) == i + 1 && i <= s.len(),
        },
{
    let mut i: usize = 0;
    while i < s.len()
        invariant
            i <= s.len(),
            position_from(s@, 0, part@) == position_from(s@, i as int, part@),
        decreases s.len() - i,
    {
        if text::has_at(s, i, part) {
            return Some(i);
        }
        i += 1;
    }
    if text::has_at(s, i, part) {
        Some(i)
    } else {
        proof {
            reveal_with_fuel(position_from, 2);
        }
        None
    }
}

fn fill_chars(s: &Vec<char>, n: u64) -> (r: Vec<char>)
    ensures
        r@ == filling(s@, n as int),
{
    let mut r: Vec<char> = Vec::new();
    if s.len() > 0 {
        let mut i: u64 = 0;
        let mut j: usize = 0;
        while i < n
            invariant
                i <= n,
                s.len() > 0,
                j < s.len(),
                j == (i as int) % (s.len() as int),
                r@.len() == i,
                forall|k: int| 0 <= k < i ==> #[trigger] r@[k] == s@[k % (s@.len() as int)],
            decreases n - i,
        {
            r.push(s[j]);
            proof {
                let m = s.len() as int;
                assert((i + 1) % m == if j + 1 == m {
                    0
                } else {
                    j + 1
                }) by (nonlinear_arith)
                    requires
                        m > 0,
                        j as int == (i as int) % m,
                        j < m,
                ;
            }
            j = if j + 1 == s.len() {
                0
            } else {
                j + 1
            };
            i += 1;
        }
    }
    assert(r@ =~= filling(s@, n as int));
    r
}

fn repeat_chars(s: &Vec<char>, n: i64) -> (r: Vec<char>)
    ensures
        r@ == repeated(s@, n as int),
{
    let mut r: Vec<char> = Vec::new();
    let mut i: i64 = 0;
    while i < n
        invariant
            0 <= i,
            n > 0 ==> i <= n,
            n <= 0 ==> i == 0,
            r@ == repeated(s@, i as int),
        decreases n - i,
    {
        text::extend_chars(&mut r, s);
        i += 1;
    }
    r
}

fn number(d: Datum) -> (r: i64)
    ensures
        r == datum::as_number(d),
{
    match d {
        Datum::Int(n) => n as i64,
        Datum::Big(n) => n,
        _ => 0,
    }
}

fn pad_chars(s: Vec<char>, n: i64, fill: &Vec<char>, left: bool) -> (r: Vec<char>)
    ensures
        r@ == if n <= s@.len() {
            s@.take(within(n as int, s@))
        } else if left {
            filling(fill@, n - s@.len()) + s@
        } else {
            s@ + filling(fill@, n - s@.len())
        },
{
    if n as i128 <= s.len() as i128 {
        let r: Vec<char> = range_of(&s, 0, place_within(n as i128, &s));
        assert(r@ =~= s@.take(within(n as int, s@)));
        r
    } else {
        let more: Vec<char> = fill_chars(fill, (n as i128 - s.len() as i128) as u64);
        if left {
            let mut r: Vec<char> = more;
            text::extend_chars(&mut r, &s);
            r
        } else {
            let mut r: Vec<char> = s;
            text::extend_chars(&mut r, &more);
            r
        }
    }
}

fn insert_chars(s: &Vec<char>, n: i64, by: &Vec<char>) -> (r: Vec<char>)
    ensures
        r@ == filled(s@, n as int, by@),
{
    let mut i: usize = s.len();
    let mut left: i64 = n;
    while i > 0 && left > 0
        invariant
            i <= s.len(),
            nth_percent(s@, n as int, s@.len() as int) == nth_percent(s@, left as int, i as int),
        decreases i,
    {
        if s[i - 1] == '%' {
            if left == 1 {
                let mut r: Vec<char> = range_of(s, 0, i - 1);
                text::extend_chars(&mut r, by);
                let rest: Vec<char> = range_of(s, i, s.len());
                text::extend_chars(&mut r, &rest);
                assert(r@ =~= s@.take(i - 1) + by@ + s@.skip(i as int));
                return r;
            }
            left -= 1;
        }
        i -= 1;
    }
    let r: Vec<char> = range_of(s, 0, s.len());
    assert(r@ =~= s@);
    r
}

fn chars_or_null(t: &Symbols, d: Datum) -> (r: Vec<char>)
    ensures
        r@ == shown_or_null(t@, d),
{
    if d == Datum::Null {
        text::chars_of("<NULL>")
    } else {
        chars_shown(t, d)
    }
}

/// The text that a function makes.
pub fn make(t: &Symbols, x: NewText) -> (r: Vec<char>)
    ensures
        r@ == made(t@, x),
{
    let s: Vec<char> = chars_shown(t, x.a);
    let n: i64 = number(x.b);
    match x.f {
        TextFn::Upper => upper_chars(&s, true),
        TextFn::Lower => upper_chars(&s, false),
        TextFn::Trim => trim_chars(&s),
        TextFn::Substring => {
            let from: i128 = n as i128 - 1;
            range_of(
                &s,
                place_within(from, &s),
                place_within(from + number(x.c) as i128, &s),
            )
        },
        TextFn::Join => joined(s, &chars_shown(t, x.b)),
        TextFn::Concat => joined(s, &chars_shown(t, x.b)),
        TextFn::Replace => replace_chars(&s, &chars_shown(t, x.b), &chars_shown(t, x.c)),
        TextFn::Lpad => pad_chars(s, n, &chars_shown(t, x.c), true),
        TextFn::Rpad => pad_chars(s, n, &chars_shown(t, x.c), false),
        TextFn::Repeat => repeat_chars(&s, n),
        TextFn::Cast => s,
        TextFn::Length => s,
        TextFn::Position => s,
        TextFn::Fill => insert_chars(&s, number(x.c), &chars_or_null(t, x.b)),
    }
}

fn joined(a: Vec<char>, b: &Vec<char>) -> (r: Vec<char>)
    ensures
        r@ == a@ + b@,
{
    let mut r: Vec<char> = a;
    text::extend_chars(&mut r, b);
    r
}

/// A text of a function as a value.
pub fn find_text(t: &Symbols, x: NewText) -> (r: Result<Datum, Fault>)
    ensures
        r == text_value(t@, x),
{
    match t.find(&make(t, x)) {
        Some(i) => Ok(Datum::Text(i)),
        None => Err(Fault::Unentered { text: x }),
    }
}

/// The value of a function on texts.
pub fn call(t: &Symbols, f: TextFn, a: Datum, b: Datum, c: Datum) -> (r: Result<Datum, Fault>)
    ensures
        r == call_value(t@, f, a, b, c),
{
    let n: u8 = values_of(f);
    if f != TextFn::Concat && f != TextFn::Fill && (a == Datum::Null || (n >= 2 && b == Datum::Null) || (n >= 3 && c
        == Datum::Null)) {
        return Ok(Datum::Null);
    }
    match f {
        TextFn::Length => {
            let s: Vec<char> = chars_shown(t, a);
            if s.len() <= 2147483647 {
                Ok(Datum::Int(s.len() as i32))
            } else {
                Err(Fault::OutOfRange)
            }
        },
        TextFn::Position => match position_of(&chars_shown(t, a), &chars_shown(t, b)) {
            None => Ok(Datum::Int(0)),
            Some(i) => if i < 2147483647 {
                Ok(Datum::Int((i + 1) as i32))
            } else {
                Err(Fault::OutOfRange)
            },
        },
        TextFn::Substring => if number(c) < 0 {
            Err(Fault::NegativeLength)
        } else {
            find_text(t, NewText { f, a, b, c })
        },
        _ => find_text(t, NewText { f, a, b, c }),
    }
}

fn values_of(f: TextFn) -> (r: u8)
    ensures
        r == arity(f),
{
    match f {
        TextFn::Upper => 1,
        TextFn::Lower => 1,
        TextFn::Trim => 1,
        TextFn::Length => 1,
        TextFn::Cast => 1,
        TextFn::Join => 2,
        TextFn::Concat => 2,
        TextFn::Position => 2,
        TextFn::Repeat => 2,
        TextFn::Substring => 3,
        TextFn::Replace => 3,
        TextFn::Lpad => 3,
        TextFn::Rpad => 3,
        TextFn::Fill => 3,
    }
}

/// Upper and lower case have as many characters as the text, and upper case is its
/// own upper case.
pub proof fn law_case(s: Seq<char>)
    ensures
        uppered(s).len() == s.len(),
        lexer::lowered(s).len() == s.len(),
        uppered(uppered(s)) == uppered(s),
{
    assert(uppered(uppered(s)) =~= uppered(s));
}

/// A text that is cut in two gives the whole back when the parts are joined.
pub proof fn law_parts_join(s: Seq<char>, n: int)
    requires
        0 <= n <= s.len(),
    ensures
        part(s, 1, n) + part(s, n + 1, s.len() - n) == s,
{
    assert(part(s, 1, n) + part(s, n + 1, s.len() - n) =~= s);
}

} // verus!
