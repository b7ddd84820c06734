//! Values of cells, rows of them, and how they are compared and calculated with.

use vstd::prelude::*;
use crate::symbols;
use crate::symbols::Symbols;

verus! {

/// The types that a column can have.
#[derive(Clone, Copy, PartialEq, Eq, Debug, Structural)]
pub enum DataType {
    Int,
    BigInt,
    Boolean,
    Text,
}

/// One cell. A text is held as its number in the table of symbols.
#[derive(Clone, Copy, PartialEq, Eq, Debug, Structural)]
pub enum Datum {
    Null,
    Int(i32),
    Big(i64),
    Bool(bool),
    Text(usize),
}

/// A row of cells.
#[derive(Debug)]
pub enum Tuple {
    Nil,
    Cons(Datum, Box<Tuple>),
}

/// The outcome of a comparison.
#[derive(Clone, Copy, PartialEq, Eq, Debug, Structural)]
pub enum Rank {
    Less,
    Same,
    More,
}

/// The four calculations and the remainder.
#[derive(Clone, Copy, PartialEq, Eq, Debug, Structural)]
pub enum Arith {
    Plus,
    Minus,
    Times,
    Divide,
    Modulo,
}

/// The six comparisons.
#[derive(Clone, Copy, PartialEq, Eq, Debug, Structural)]
pub enum Compare {
    Eq,
    Ne,
    Lt,
    Le,
    Gt,
    Ge,
}

/// Why a calculation has no result.
#[derive(Clone, Copy, PartialEq, Eq, Debug, Structural)]
pub enum ArithFault {
    NotNumbers,
    DivisionByZero,
    OutOfRange,
}

pub open spec fn rank_ints(a: int, b: int) -> Rank {
    if a < b {
        Rank::Less
    } else if a == b {
        Rank::Same
    } else {
        Rank::More
    }
}

/// Texts are ordered by their first differing character, a text before its
/// continuations.
pub open spec fn rank_texts(a: Seq<char>, b: Seq<char>) -> Rank
    decreases a.len(),
{
    if a.len() == 0 {
        if b.len() == 0 {
            Rank::Same
        } else {
            Rank::Less
        }
    } else if b.len() == 0 {
        Rank::More
    } else if a[0] == b[0] {
        rank_texts(a.drop_first(), b.drop_first())
    } else {
        rank_ints(a[0] as int, b[0] as int)
    }
}

/// Values of one kind stand together: truth values, numbers, texts, and the null
/// value behind all others.
pub open spec fn kind_of(d: Datum) -> int {
    match d {
        Datum::Bool(_) => 0,
        Datum::Int(_) => 1,
        Datum::Big(_) => 1,
        Datum::Text(_) => 2,
        Datum::Null => 3,
    }
}

/// The number that a numeric value is; zero for others.
pub open spec fn as_number(d: Datum) -> int {
    match d {
        Datum::Int(n) => n as int,
        Datum::Big(n) => n as int,
        _ => 0,
    }
}

pub open spec fn is_number(d: Datum) -> bool {
    d is Int || d is Big
}

/// The order of all values: by kind, then by number, text or truth value.
pub open spec fn rank(t: Seq<Seq<char>>, a: Datum, b: Datum) -> Rank {
    match (a, b) {
        (Datum::Bool(x), Datum::Bool(y)) => rank_ints(
            if x {
                1
            } else {
                0
            },
            if y {
                1
            } else {
                0
            },
        ),
        (Datum::Text(x), Datum::Text(y)) => rank_texts(
            symbols::text_at(t, x),
            symbols::text_at(t, y),
        ),
        _ => if kind_of(a) == kind_of(b) {
            rank_ints(as_number(a), as_number(b))
        } else {
            rank_ints(kind_of(a), kind_of(b))
        },
    }
}

/// Whether a rank satisfies a comparison.
pub open spec fn satisfies(op: Compare, r: Rank) -> bool {
    match op {
        Compare::Eq => r is Same,
        Compare::Ne => !(r is Same),
        Compare::Lt => r is Less,
        Compare::Le => !(r is More),
        Compare::Gt => r is More,
        Compare::Ge => !(r is Less),
    }
}

/// A comparison of two values: unknown if one of them is null.
pub open spec fn compared(t: Seq<Seq<char>>, op: Compare, a: Datum, b: Datum) -> Datum {
    if a is Null || b is Null {
        Datum::Null
    } else {
        Datum::Bool(satisfies(op, rank(t, a, b)))
    }
}

pub open spec fn magnitude(n: int) -> int {
    if n < 0 {
        -n
    } else {
        n
    }
}

/// The quotient rounded towards zero.
pub open spec fn quotient(a: int, b: int) -> int {
    if (a < 0) == (b < 0) {
        magnitude(a) / magnitude(b)
    } else {
        -(magnitude(a) / magnitude(b))
    }
}

/// The remainder that belongs to `quotient`: it has the sign of `a`.
pub open spec fn remainder(a: int, b: int) -> int {
    if a < 0 {
        -(magnitude(a) % magnitude(b))
    } else {
        magnitude(a) % magnitude(b)
    }
}

pub open spec fn apply(op: Arith, a: int, b: int) -> int {
    match op {
        Arith::Plus => a + b,
        Arith::Minus => a - b,
        Arith::Times => a * b,
        Arith::Divide => quotient(a, b),
        Arith::Modulo => remainder(a, b),
    }
}

pub open spec fn divides(op: Arith) -> bool {
    op is Divide || op is Modulo
}

/// A calculation on two values. It is null if one of them is; two 32-bit numbers
/// give a 32-bit number, others a 64-bit one.
pub open spec fn calculated(op: Arith, a: Datum, b: Datum) -> Result<Datum, ArithFault> {
    if a is Null || b is Null {
        Ok(Datum::Null)
    } else if !is_number(a) || !is_number(b) {
        Err(ArithFault::NotNumbers)
    } else if divides(op) && as_number(b) == 0 {
        Err(ArithFault::DivisionByZero)
    } else {
        let n = apply(op, as_number(a), as_number(b));
        if a is Int && b is Int {
            if i32::MIN <= n <= i32::MAX {
                Ok(Datum::Int(n as i32))
            } else {
                Err(ArithFault::OutOfRange)
            }
        } else {
            if i64::MIN <= n <= i64::MAX {
                Ok(Datum::Big(n as i64))
            } else {
                Err(ArithFault::OutOfRange)
            }
        }
    }
}

/// Negation in three-valued logic.
pub open spec fn not3(a: Datum) -> Datum {
    match a {
        Datum::Bool(x) => Datum::Bool(!x),
        _ => Datum::Null,
    }
}

/// Conjunction in three-valued logic: false if one side is false, unknown if
/// neither is and one is unknown.
pub open spec fn and3(a: Datum, b: Datum) -> Datum {
    if a == Datum::Bool(false) || b == Datum::Bool(false) {
        Datum::Bool(false)
    } else if a == Datum::Bool(true) && b == Datum::Bool(true) {
        Datum::Bool(true)
    } else {
        Datum::Null
    }
}

/// Disjunction in three-valued logic.
pub open spec fn or3(a: Datum, b: Datum) -> Datum {
    if a == Datum::Bool(true) || b == Datum::Bool(true) {
        Datum::Bool(true)
    } else if a == Datum::Bool(false) && b == Datum::Bool(false) {
        Datum::Bool(false)
    } else {
        Datum::Null
    }
}

/// Whether a value is the truth value true; a filter keeps a row only then.
pub open spec fn holds(a: Datum) -> bool {
    a == Datum::Bool(true)
}

pub open spec fn tuple_len(a: Tuple) -> nat
    decreases a,
{
    match a {
        Tuple::Nil => 0,
        Tuple::Cons(_, rest) => 1 + tuple_len(*rest),
    }
}

/// The cell at place `i`; null behind the end.
pub open spec fn cell(a: Tuple, i: nat) -> Datum
    decreases a,
{
    match a {
        Tuple::Nil => Datum::Null,
        Tuple::Cons(d, rest) => if i == 0 {
            d
        } else {
            cell(*rest, (i - 1) as nat)
        },
    }
}

pub open spec fn tuple_append(a: Tuple, b: Tuple) -> Tuple
    decreases a,
{
    match a {
        Tuple::Nil => b,
        Tuple::Cons(d, rest) => Tuple::Cons(d, Box::new(tuple_append(*rest, b))),
    }
}

/// A row of `n` nulls.
pub open spec fn nulls(n: nat) -> Tuple
    decreases n,
{
    if n == 0 {
        Tuple::Nil
    } else {
        Tuple::Cons(Datum::Null, Box::new(nulls((n - 1) as nat)))
    }
}

fn rank_of_ints(a: i64, b: i64) -> (r: Rank)
    ensures
        r == rank_ints(a as int, b as int),
{
    if a < b {
        Rank::Less
    } else if a == b {
        Rank::Same
    } else {
        Rank::More
    }
}

/// The order of two texts.
pub fn rank_of_texts(a: &Vec<char>, b: &Vec<char>) -> (r: Rank)
    ensures
        r == rank_texts(a@, b@),
{
    let mut i: usize = 0;
    proof {
        assert(a@.skip(0) =~= a@);
        assert(b@.skip(0) =~= b@);
    }
    while i < a.len() && i < b.len()
        invariant
            i <= a.len(),
            i <= b.len(),
            rank_texts(a@, b@) == rank_texts(a@.skip(i as int), b@.skip(i as int)),
        decreases a.len() - i,
    {
        proof {
            assert(a@.skip(i as int).drop_first() =~= a@.skip(i + 1));
            assert(b@.skip(i as int).drop_first() =~= b@.skip(i + 1));
        }
        if a[i] != b[i] {
            return if a[i] < b[i] {
                Rank::Less
            } else {
                Rank::More
            };
        }
        i += 1;
    }
    if i < a.len() {
        Rank::More
    } else if i < b.len() {
        Rank::Less
    } else {
        Rank::Same
    }
}

fn kind(d: Datum) -> (r: i64)
    ensures
        r == kind_of(d),
{
    match d {
        Datum::Bool(_) => 0,
        Datum::Int(_) => 1,
        Datum::Big(_) => 1,
        Datum::Text(_) => 2,
        Datum::Null => 3,
    }
}

fn number_in(d: Datum) -> (r: i64)
    ensures
        r == as_number(d),
{
    match d {
        Datum::Int(n) => n as i64,
        Datum::Big(n) => n,
        _ => 0,
    }
}

/// The order of two values.
pub fn rank_of(t: &Symbols, a: Datum, b: Datum) -> (r: Rank)
    ensures
        r == rank(t@, a, b),
{
    match (a, b) {
        (Datum::Bool(x), Datum::Bool(y)) => rank_of_ints(
            if x {
                1
            } else {
                0
            },
            if y {
                1
            } else {
                0
            },
        ),
        (Datum::Text(x), Datum::Text(y)) => t.rank_places(x, y),
        _ => if kind(a) == kind(b) {
            rank_of_ints(number_in(a), number_in(b))
        } else {
            rank_of_ints(kind(a), kind(b))
        },
    }
}

/// A comparison of two values.
pub fn compare(t: &Symbols, op: Compare, a: Datum, b: Datum) -> (r: Datum)
    ensures
        r == compared(t@, op, a, b),
{
    if matches!(a, Datum::Null) || matches!(b, Datum::Null) {
        return Datum::Null;
    }
    let r: Rank = rank_of(t, a, b);
    Datum::Bool(
        match op {
            Compare::Eq => r == Rank::Same,
            Compare::Ne => r != Rank::Same,
            Compare::Lt => r == Rank::Less,
            Compare::Le => r != Rank::More,
            Compare::Gt => r == Rank::More,
            Compare::Ge => r != Rank::Less,
        },
    )
}

fn apply_wide(op: Arith, a: i64, b: i64) -> (r: i128)
    requires
        divides(op) ==> b != 0,
    ensures
        r == apply(op, a as int, b as int),
{
    let x: i128 = a as i128;
    let y: i128 = b as i128;
    match op {
        Arith::Plus => x + y,
        Arith::Minus => x - y,
        Arith::Times => {
            assert(-0x4000_0000_0000_0000_0000_0000_0000_0000 <= x * y
                <= 0x4000_0000_0000_0000_0000_0000_0000_0000) by (nonlinear_arith)
                requires
                    -0x8000_0000_0000_0000 <= x <= 0x8000_0000_0000_0000,
                    -0x8000_0000_0000_0000 <= y <= 0x8000_0000_0000_0000,
            ;
            x * y
        },
        Arith::Divide => {
            let ux: u128 = if x < 0 {
                (-x) as u128
            } else {
                x as u128
            };
            let uy: u128 = if y < 0 {
                (-y) as u128
            } else {
                y as u128
            };
            let q: u128 = ux / uy;
            assert(q <= ux) by (nonlinear_arith)
                requires
                    q == ux / uy,
                    uy >= 1,
            ;
            if (x < 0) == (y < 0) {
                q as i128
            } else {
                -(q as i128)
            }
        },
        Arith::Modulo => {
            let ux: u128 = if x < 0 {
                (-x) as u128
            } else {
                x as u128
            };
            let uy: u128 = if y < 0 {
                (-y) as u128
            } else {
                y as u128
            };
            let m: u128 = ux % uy;
            assert(m <= ux) by (nonlinear_arith)
                requires
                    m == ux % uy,
                    uy >= 1,
            ;
            if x < 0 {
                -(m as i128)
            } else {
                m as i128
            }
        },
    }
}

/// A calculation on two values.
pub fn calculate(op: Arith, a: Datum, b: Datum) -> (r: Result<Datum, ArithFault>)
    ensures
        r == calculated(op, a, b),
{
    if matches!(a, Datum::Null) || matches!(b, Datum::Null) {
        return Ok(Datum::Null);
    }
    let both_small: bool = match (a, b) {
        (Datum::Int(_), Datum::Int(_)) => true,
        (Datum::Int(_), Datum::Big(_)) => false,
        (Datum::Big(_), Datum::Int(_)) => false,
        (Datum::Big(_), Datum::Big(_)) => false,
        _ => {
            return Err(ArithFault::NotNumbers);
        },
    };
    let x: i64 = number_in(a);
    let y: i64 = number_in(b);
    if (op == Arith::Divide || op == Arith::Modulo) && y == 0 {
        return Err(ArithFault::DivisionByZero);
    }
    let n: i128 = apply_wide(op, x, y);
    if both_small {
        if -2147483648 <= n && n <= 2147483647 {
            Ok(Datum::Int(n as i32))
        } else {
            Err(ArithFault::OutOfRange)
        }
    } else if -9223372036854775808 <= n && n <= 9223372036854775807 {
        Ok(Datum::Big(n as i64))
    } else {
        Err(ArithFault::OutOfRange)
    }
}

pub fn negate3(a: Datum) -> (r: Datum)
    ensures
        r == not3(a),
{
    match a {
        Datum::Bool(x) => Datum::Bool(!x),
        _ => Datum::Null,
    }
}

pub fn both3(a: Datum, b: Datum) -> (r: Datum)
    ensures
        r == and3(a, b),
{
    if a == Datum::Bool(false) || b == Datum::Bool(false) {
        Datum::Bool(false)
    } else if a == Datum::Bool(true) && b == Datum::Bool(true) {
        Datum::Bool(true)
    } else {
        Datum::Null
    }
}

pub fn either3(a: Datum, b: Datum) -> (r: Datum)
    ensures
        r == or3(a, b),
{
    if a == Datum::Bool(true) || b == Datum::Bool(true) {
        Datum::Bool(true)
    } else if a == Datum::Bool(false) && b == Datum::Bool(false) {
        Datum::Bool(false)
    } else {
        Datum::Null
    }
}

impl Tuple {
    /// A copy of the row.
    pub fn copy(&self) -> (r: Tuple)
        ensures
            r == *self,
        decreases self,
    {
        match self {
            Tuple::Nil => Tuple::Nil,
            Tuple::Cons(d, rest) => Tuple::Cons(*d, Box::new(rest.copy())),
        }
    }

    /// Whether two rows hold the same cells.
    pub fn same(&self, other: &Tuple) -> (r: bool)
        ensures
            r == (*self == *other),
        decreases self,
    {
        match (self, other) {
            (Tuple::Nil, Tuple::Nil) => true,
            (Tuple::Cons(d, rest), Tuple::Cons(e, more)) => *d == *e && rest.same(more),
            _ => false,
        }
    }

    /// The cell at place `i`.
    pub fn cell_at(&self, i: usize) -> (r: Datum)
        ensures
            r == cell(*self, i as nat),
        decreases self,
    {
        match self {
            Tuple::Nil => Datum::Null,
            Tuple::Cons(d, rest) => if i == 0 {
                *d
            } else {
                rest.cell_at(i - 1)
            },
        }
    }

    /// The row followed by the cells of `other`.
    pub fn append(&self, other: &Tuple) -> (r: Tuple)
        ensures
            r == tuple_append(*self, *other),
        decreases self,
    {
        match self {
            Tuple::Nil => other.copy(),
            Tuple::Cons(d, rest) => Tuple::Cons(*d, Box::new(rest.append(other))),
        }
    }

    /// A row of `n` nulls.
    pub fn all_null(n: usize) -> (r: Tuple)
        ensures
            r == nulls(n as nat),
        decreases n,
    {
        if n == 0 {
            Tuple::Nil
        } else {
            Tuple::Cons(Datum::Null, Box::new(Tuple::all_null(n - 1)))
        }
    }
}

proof fn lemma_rank_texts_swap(a: Seq<char>, b: Seq<char>)
    ensures
        rank_texts(a, b) is Less <==> rank_texts(b, a) is More,
        rank_texts(a, b) is Same <==> rank_texts(b, a) is Same,
        rank_texts(a, b) is Same <==> a == b,
    decreases a.len(),
{
    if a.len() > 0 && b.len() > 0 {
        lemma_rank_texts_swap(a.drop_first(), b.drop_first());
        if a[0] == b[0] && a.drop_first() == b.drop_first() {
            assert(a =~= seq![a[0]] + a.drop_first());
            assert(b =~= seq![b[0]] + b.drop_first());
        }
    } else if a.len() == 0 && b.len() == 0 {
        assert(a =~= b);
    }
}

proof fn lemma_rank_texts_chain(a: Seq<char>, b: Seq<char>, c: Seq<char>)
    ensures
        !(rank_texts(a, b) is More) && !(rank_texts(b, c) is More) ==> !(rank_texts(a, c) is More),
    decreases a.len(),
{
    if a.len() > 0 && b.len() > 0 && c.len() > 0 {
        lemma_rank_texts_chain(a.drop_first(), b.drop_first(), c.drop_first());
    }
}

/// The order of values is total: swapping the sides swaps less and more, and
/// leaves equal ones equal.
pub proof fn law_rank_total(t: Seq<Seq<char>>, a: Datum, b: Datum)
    ensures
        rank(t, a, b) is Less <==> rank(t, b, a) is More,
        rank(t, a, b) is Same <==> rank(t, b, a) is Same,
{
    if let (Datum::Text(x), Datum::Text(y)) = (a, b) {
        lemma_rank_texts_swap(symbols::text_at(t, x), symbols::text_at(t, y));
    }
}

/// The order of values is transitive.
pub proof fn law_rank_transitive(t: Seq<Seq<char>>, a: Datum, b: Datum, c: Datum)
    requires
        !(rank(t, a, b) is More),
        !(rank(t, b, c) is More),
    ensures
        !(rank(t, a, c) is More),
{
    if let (Datum::Text(x), Datum::Text(y), Datum::Text(z)) = (a, b, c) {
        lemma_rank_texts_chain(
            symbols::text_at(t, x),
            symbols::text_at(t, y),
            symbols::text_at(t, z),
        );
    }
}

/// Two texts of a table of distinct texts compare as equal exactly if they are
/// the same value.
pub proof fn law_text_equality(t: Seq<Seq<char>>, x: usize, y: usize)
    requires
        t.no_duplicates(),
        x < t.len(),
        y < t.len(),
    ensures
        compared(t, Compare::Eq, Datum::Text(x), Datum::Text(y)) == Datum::Bool(x == y),
{
    lemma_rank_texts_swap(t[x as int], t[y as int]);
}

/// De Morgan's law holds in three-valued logic.
pub proof fn law_de_morgan(a: Datum, b: Datum)
    requires
        a is Bool || a is Null,
        b is Bool || b is Null,
    ensures
        not3(and3(a, b)) == or3(not3(a), not3(b)),
        not3(or3(a, b)) == and3(not3(a), not3(b)),
{
}

/// A quotient and its remainder give the dividend back.
pub proof fn law_quotient_remainder(a: int, b: int)
    requires
        b != 0,
    ensures
        quotient(a, b) * b + remainder(a, b) == a,
{
    let x = magnitude(a);
    let y = magnitude(b);
    vstd::arithmetic::div_mod::lemma_fundamental_div_mod(x, y);
    let q = x / y;
    assert(q * y == y * q) by (nonlinear_arith);
    assert((-q) * y == -(q * y)) by (nonlinear_arith);
    assert(q * (-y) == -(q * y)) by (nonlinear_arith);
    assert((-q) * (-y) == q * y) by (nonlinear_arith);
}

} // verus!
