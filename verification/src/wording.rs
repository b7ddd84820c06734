//! Laws of texts: the notation of numbers, casts, and the functions on texts.

use vstd::prelude::*;
use vstd::arithmetic::power::pow;
use crate::analyze::CxModel;
use crate::ast::Expr;
use crate::ast::TextFn;
use crate::conditions;
use crate::datum;
use crate::datum::DataType;
use crate::datum::Datum;
use crate::datum::Tuple;
use crate::eval;
use crate::fault::Fault;
use crate::fields::Env;
use crate::lexer;
use crate::strings;
use crate::symbols;
use crate::text;

verus! {

/// The number that digits stand for by their places: the first one counts as often as ten
/// to the number of those behind it.
pub open spec fn worth(s: Seq<char>) -> int
    decreases s.len(),
{
    if s.len() == 0 {
        0
    } else {
        ((s[0] as int) - 48) * pow(10, (s.len() - 1) as nat) + worth(s.drop_first())
    }
}

proof fn lemma_worth(s: Seq<char>)
    ensures
        text::number_of(s) == worth(s),
    decreases s.len(),
{
    if s.len() == 1 {
        assert(s.drop_last() =~= Seq::empty());
        assert(s.drop_first() =~= Seq::empty());
        vstd::arithmetic::power::lemma_pow0(10);
        assert(text::number_of(s.drop_last()) == 0);
        assert(worth(s.drop_first()) == 0);
        assert(worth(s) == (s[0] as int) - 48) by (nonlinear_arith)
            requires
                worth(s) == ((s[0] as int) - 48) * 1 + 0,
        ;
    } else if s.len() > 1 {
        lemma_worth(s.drop_last());
        lemma_worth(s.drop_first());
        lemma_worth(s.drop_first().drop_last());
        assert(s.drop_last().drop_first() =~= s.drop_first().drop_last());
        let n = (s.len() - 1) as nat;
        vstd::arithmetic::power::lemma_pow_adds(10, (n - 1) as nat, 1);
        vstd::arithmetic::power::lemma_pow1(10);
        let d = (s[0] as int) - 48;
        let p = pow(10, (n - 1) as nat);
        assert(pow(10, n) == p * 10);
        assert(10 * (d * p) == d * (p * 10)) by (nonlinear_arith);
        let front = s.drop_last();
        let back = s.drop_first();
        assert(front[0] == s[0]);
        assert(back.last() == s.last());
        assert(worth(front) == d * p + worth(front.drop_first()));
        assert(worth(s) == d * pow(10, n) + worth(back));
        assert(text::number_of(back) == 10 * text::number_of(back.drop_last()) + text::digit_value(
            back.last(),
        ));
        assert(text::number_of(s) == 10 * worth(front) + text::digit_value(s.last()));
    }
}

proof fn lemma_decimal(n: nat)
    ensures
        text::all_digits(text::decimal(n)),
        text::number_of(text::decimal(n)) == n,
        n > 0 ==> text::decimal(n)[0] != '0',
        n == 0 ==> text::decimal(n) == seq!['0'],
    decreases n,
{
    if n < 10 {
        assert(text::decimal(n).drop_last() =~= Seq::empty());
        assert(text::number_of(text::decimal(n)) == n) by {
            assert(text::number_of(Seq::empty()) == 0);
        }
    } else {
        lemma_decimal(n / 10);
        let front = text::decimal(n / 10);
        assert(text::decimal(n).drop_last() =~= front);
        assert(text::decimal(n)[0] == front[0]);
        assert forall|i: int| 0 <= i < text::decimal(n).len() implies text::is_digit(
            #[trigger] text::decimal(n)[i],
        ) by {
            if i < front.len() {
                assert(text::decimal(n)[i] == front[i]);
            }
        }
    }
}

/// The notation of a number is made of digits without a zero in front, but for zero itself,
/// and stands for the number by the places of its digits.
pub proof fn law_decimal(n: nat)
    ensures
        text::decimal(n).len() > 0,
        forall|i: int|
            0 <= i < text::decimal(n).len() ==> '0' <= #[trigger] text::decimal(n)[i] <= '9',
        n > 0 ==> text::decimal(n)[0] != '0',
        n == 0 ==> text::decimal(n) == seq!['0'],
        worth(text::decimal(n)) == n,
{
    lemma_decimal(n);
    lemma_worth(text::decimal(n));
}

/// A text denotes an integer exactly if it is made of digits, with or without a minus sign
/// before them, and the number they stand for fits; then it denotes that number or, with the
/// sign, its negative.
pub proof fn law_integer_of(s: Seq<char>, digits: Seq<char>)
    requires
        text::all_digits(digits),
    ensures
        text::integer_of(digits) == if worth(digits) <= i64::MAX {
            Some(worth(digits) as i64)
        } else {
            None
        },
        text::integer_of(seq!['-'] + digits) == if -worth(digits) >= i64::MIN {
            Some((-worth(digits)) as i64)
        } else {
            None
        },
        text::integer_of(s) is Some ==> text::all_digits(s) || (s.len() > 0 && s[0] == '-'
            && text::all_digits(s.drop_first())),
{
    lemma_worth(digits);
    lemma_not_negative(digits);
    assert((seq!['-'] + digits).drop_first() =~= digits);
    assert(text::is_digit(digits[0]));
}

proof fn lemma_not_negative(s: Seq<char>)
    requires
        forall|i: int| 0 <= i < s.len() ==> text::is_digit(#[trigger] s[i]),
    ensures
        text::number_of(s) >= 0,
    decreases s.len(),
{
    if s.len() > 0 {
        assert forall|i: int| 0 <= i < s.drop_last().len() implies text::is_digit(
            #[trigger] s.drop_last()[i],
        ) by {
            assert(s.drop_last()[i] == s[i]);
        }
        lemma_not_negative(s.drop_last());
        assert(text::is_digit(s[s.len() - 1]));
    }
}

/// The notation of a 64-bit integer denotes that integer.
pub proof fn law_notation_read_back(n: i64)
    ensures
        text::integer_of(text::signed_decimal(n as int)) == Some(n),
        n < 0 ==> text::signed_decimal(n as int)[0] == '-',
{
    if n < 0 {
        let d = text::decimal((-n) as nat);
        lemma_decimal((-n) as nat);
        assert((seq!['-'] + d).drop_first() =~= d);
    } else {
        lemma_decimal(n as nat);
        assert(text::is_digit(text::decimal(n as nat)[0]));
    }
}

/// Whether a result is the text `s`, or a sign that the text has to be entered first.
pub open spec fn gives_text(t: Seq<Seq<char>>, r: Result<Datum, Fault>, s: Seq<char>) -> bool {
    match r {
        Ok(Datum::Text(i)) => i < t.len() && t[i as int] == s,
        Err(Fault::Unentered { text }) => !t.contains(s) && strings::made(t, text) == s,
        _ => false,
    }
}

proof fn lemma_text_value(t: Seq<Seq<char>>, x: strings::NewText)
    requires
        t.len() <= usize::MAX,
    ensures
        gives_text(t, strings::text_value(t, x), strings::made(t, x)),
{
    symbols::lemma_place(t, strings::made(t, x), 0);
}

/// A cast to text gives the notation of a number, the words `true` and `false`, or the text
/// itself.
pub proof fn law_cast_to_text(
    cx: CxModel,
    env: Env,
    group: Option<Seq<Tuple>>,
    x: Box<Expr>,
    d: Datum,
)
    requires
        conditions::is_worth(cx, env, group, *x, d),
        cx.symbols.len() <= usize::MAX,
    ensures
        d == Datum::Null ==> conditions::is_worth(
            cx,
            env,
            group,
            Expr::Cast(x, DataType::Text),
            Datum::Null,
        ),
        datum::is_number(d) ==> gives_text(
            cx.symbols,
            eval::expr_value(cx, env, group, Expr::Cast(x, DataType::Text)),
            text::signed_decimal(datum::as_number(d)),
        ),
        d matches Datum::Bool(b) ==> gives_text(
            cx.symbols,
            eval::expr_value(cx, env, group, Expr::Cast(x, DataType::Text)),
            if b {
                "true"@
            } else {
                "false"@
            },
        ),
        d matches Datum::Text(i) ==> gives_text(
            cx.symbols,
            eval::expr_value(cx, env, group, Expr::Cast(x, DataType::Text)),
            symbols::text_at(cx.symbols, i),
        ),
{
    lemma_text_value(
        cx.symbols,
        strings::NewText { f: TextFn::Cast, a: d, b: Datum::Null, c: Datum::Null },
    );
}

/// A cast between numbers keeps the number and fails if it does not fit. A cast of a text to
/// a number gives the number that the text denotes, and fails if it denotes none that fits.
pub proof fn law_cast_to_number(
    cx: CxModel,
    env: Env,
    group: Option<Seq<Tuple>>,
    x: Box<Expr>,
    d: Datum,
)
    requires
        conditions::is_worth(cx, env, group, *x, d),
    ensures
        datum::is_number(d) ==> {
            &&& conditions::is_worth(
                cx,
                env,
                group,
                Expr::Cast(x, DataType::BigInt),
                Datum::Big(datum::as_number(d) as i64),
            )
            &&& if i32::MIN <= datum::as_number(d) <= i32::MAX {
                conditions::is_worth(
                    cx,
                    env,
                    group,
                    Expr::Cast(x, DataType::Int),
                    Datum::Int(datum::as_number(d) as i32),
                )
            } else {
                eval::expr_value(cx, env, group, Expr::Cast(x, DataType::Int)) == Err::<
                    Datum,
                    Fault,
                >(Fault::OutOfRange)
            }
        },
        d == Datum::Null ==> {
            &&& conditions::is_worth(cx, env, group, Expr::Cast(x, DataType::Int), Datum::Null)
            &&& conditions::is_worth(cx, env, group, Expr::Cast(x, DataType::BigInt), Datum::Null)
            &&& conditions::is_worth(cx, env, group, Expr::Cast(x, DataType::Boolean), Datum::Null)
        },
        d matches Datum::Text(i) ==> match text::integer_of(symbols::text_at(cx.symbols, i)) {
            None => {
                &&& eval::expr_value(cx, env, group, Expr::Cast(x, DataType::BigInt)) is Err
                &&& eval::expr_value(cx, env, group, Expr::Cast(x, DataType::Int)) is Err
            },
            Some(n) => {
                &&& conditions::is_worth(
                    cx,
                    env,
                    group,
                    Expr::Cast(x, DataType::BigInt),
                    Datum::Big(n),
                )
                &&& if i32::MIN <= n <= i32::MAX {
                    conditions::is_worth(
                        cx,
                        env,
                        group,
                        Expr::Cast(x, DataType::Int),
                        Datum::Int(n as i32),
                    )
                } else {
                    eval::expr_value(cx, env, group, Expr::Cast(x, DataType::Int)) is Err
                }
            },
        },
        d is Bool ==> conditions::is_worth(cx, env, group, Expr::Cast(x, DataType::Boolean), d),
{
}

/// A function on texts has the value that it has for the values of its arguments.
pub proof fn law_call(
    cx: CxModel,
    env: Env,
    group: Option<Seq<Tuple>>,
    f: TextFn,
    n: usize,
    x: Box<Expr>,
    y: Box<Expr>,
    z: Box<Expr>,
    a: Datum,
    b: Datum,
    c: Datum,
)
    requires
        conditions::is_worth(cx, env, group, *x, a),
        conditions::is_worth(cx, env, group, *y, b),
        conditions::is_worth(cx, env, group, *z, c),
    ensures
        eval::expr_value(cx, env, group, Expr::Call(f, n, x, y, z)) == strings::call_value(
            cx.symbols,
            f,
            a,
            b,
            c,
        ),
{
}

/// The functions on texts are null if one of the values that they take is null.
pub proof fn law_null_texts(t: Seq<Seq<char>>, b: Datum, c: Datum)
    ensures
        strings::call_value(t, TextFn::Upper, Datum::Null, b, c) == Ok::<Datum, Fault>(Datum::Null),
        strings::call_value(t, TextFn::Lower, Datum::Null, b, c) == Ok::<Datum, Fault>(Datum::Null),
        strings::call_value(t, TextFn::Trim, Datum::Null, b, c) == Ok::<Datum, Fault>(Datum::Null),
        strings::call_value(t, TextFn::Length, Datum::Null, b, c) == Ok::<Datum, Fault>(
            Datum::Null,
        ),
        strings::call_value(t, TextFn::Join, Datum::Null, b, c) == Ok::<Datum, Fault>(Datum::Null),
        strings::call_value(t, TextFn::Join, b, Datum::Null, c) == Ok::<Datum, Fault>(Datum::Null),
        strings::call_value(t, TextFn::Position, Datum::Null, b, c) == Ok::<Datum, Fault>(
            Datum::Null,
        ),
        strings::call_value(t, TextFn::Position, b, Datum::Null, c) == Ok::<Datum, Fault>(
            Datum::Null,
        ),
        strings::call_value(t, TextFn::Repeat, Datum::Null, b, c) == Ok::<Datum, Fault>(
            Datum::Null,
        ),
        strings::call_value(t, TextFn::Repeat, b, Datum::Null, c) == Ok::<Datum, Fault>(
            Datum::Null,
        ),
        strings::call_value(t, TextFn::Substring, Datum::Null, b, c) == Ok::<Datum, Fault>(
            Datum::Null,
        ),
        strings::call_value(t, TextFn::Substring, b, Datum::Null, c) == Ok::<Datum, Fault>(
            Datum::Null,
        ),
        strings::call_value(t, TextFn::Substring, b, c, Datum::Null) == Ok::<Datum, Fault>(
            Datum::Null,
        ),
        strings::call_value(t, TextFn::Replace, Datum::Null, b, c) == Ok::<Datum, Fault>(
            Datum::Null,
        ),
        strings::call_value(t, TextFn::Replace, b, Datum::Null, c) == Ok::<Datum, Fault>(
            Datum::Null,
        ),
        strings::call_value(t, TextFn::Replace, b, c, Datum::Null) == Ok::<Datum, Fault>(
            Datum::Null,
        ),
        strings::call_value(t, TextFn::Lpad, Datum::Null, b, c) == Ok::<Datum, Fault>(Datum::Null),
        strings::call_value(t, TextFn::Lpad, b, Datum::Null, c) == Ok::<Datum, Fault>(Datum::Null),
        strings::call_value(t, TextFn::Lpad, b, c, Datum::Null) == Ok::<Datum, Fault>(Datum::Null),
        strings::call_value(t, TextFn::Rpad, Datum::Null, b, c) == Ok::<Datum, Fault>(Datum::Null),
        strings::call_value(t, TextFn::Rpad, b, Datum::Null, c) == Ok::<Datum, Fault>(Datum::Null),
        strings::call_value(t, TextFn::Rpad, b, c, Datum::Null) == Ok::<Datum, Fault>(Datum::Null),
{
}

/// UPPER and LOWER turn the letters a to z into those of the other case, place by place, and
/// leave all other characters.
pub proof fn law_letter_case(t: Seq<Seq<char>>, i: usize)
    requires
        t.len() <= usize::MAX,
    ensures
        exists|s: Seq<char>|
            #![trigger s.len()]
            {
                let old = symbols::text_at(t, i);
                &&& gives_text(
                    t,
                    strings::call_value(
                        t,
                        TextFn::Upper,
                        Datum::Text(i),
                        Datum::Null,
                        Datum::Null,
                    ),
                    s,
                )
                &&& s.len() == old.len()
                &&& forall|k: int|
                    0 <= k < old.len() ==> (#[trigger] s[k]) as int == if 'a' <= old[k] <= 'z' {
                        (old[k] as int) - 32
                    } else {
                        old[k] as int
                    }
            },
        exists|s: Seq<char>|
            #![trigger s.len()]
            {
                let old = symbols::text_at(t, i);
                &&& gives_text(
                    t,
                    strings::call_value(
                        t,
                        TextFn::Lower,
                        Datum::Text(i),
                        Datum::Null,
                        Datum::Null,
                    ),
                    s,
                )
                &&& s.len() == old.len()
                &&& forall|k: int|
                    0 <= k < old.len() ==> (#[trigger] s[k]) as int == if 'A' <= old[k] <= 'Z' {
                        (old[k] as int) + 32
                    } else {
                        old[k] as int
                    }
            },
{
    let a = Datum::Text(i);
    let none = Datum::Null;
    let u = strings::uppered(symbols::text_at(t, i));
    let l = lexer::lowered(symbols::text_at(t, i));
    lemma_text_value(t, strings::NewText { f: TextFn::Upper, a, b: none, c: none });
    lemma_text_value(t, strings::NewText { f: TextFn::Lower, a, b: none, c: none });
    assert(u.len() == symbols::text_at(t, i).len());
    assert(l.len() == symbols::text_at(t, i).len());
}

/// Whether a text is made of blanks.
pub open spec fn is_blank(s: Seq<char>) -> bool {
    forall|k: int| 0 <= k < s.len() ==> #[trigger] s[k] == ' '
}

proof fn lemma_first_solid(s: Seq<char>, from: int)
    requires
        0 <= from <= s.len(),
    ensures
        ({
            let a = strings::first_solid(s, from);
            &&& from <= a <= s.len()
            &&& forall|k: int| from <= k < a ==> s[k] == ' '
            &&& a < s.len() ==> s[a] != ' '
        }),
    decreases s.len() - from,
{
    if from < s.len() && s[from] == ' ' {
        lemma_first_solid(s, from + 1);
    }
}

proof fn lemma_last_solid(s: Seq<char>, below: int)
    requires
        0 <= below <= s.len(),
    ensures
        ({
            let b = strings::last_solid(s, below);
            &&& 0 <= b <= below
            &&& forall|k: int| b <= k < below ==> s[k] == ' '
            &&& b > 0 ==> s[b - 1] != ' '
        }),
    decreases below,
{
    if below > 0 && s[below - 1] == ' ' {
        lemma_last_solid(s, below - 1);
    }
}

/// TRIM gives back the text without the blanks at its ends: it takes nothing else away, and
/// leaves no blank at either end.
pub proof fn law_trim(s: Seq<char>)
    ensures
        exists|a: Seq<char>, b: Seq<char>|
            is_blank(a) && is_blank(b) && #[trigger] (a + strings::trimmed(s) + b) == s,
        strings::trimmed(s).len() > 0 ==> strings::trimmed(s)[0] != ' ' && strings::trimmed(
            s,
        ).last() != ' ',
{
    lemma_first_solid(s, 0);
    lemma_last_solid(s, s.len() as int);
    let i = strings::first_solid(s, 0);
    let j = strings::last_solid(s, s.len() as int);
    if i <= j {
        let a = s.take(i);
        let b = s.skip(j);
        assert(a + strings::trimmed(s) + b =~= s);
    } else {
        assert forall|k: int| 0 <= k < s.len() implies #[trigger] s[k] == ' ' by {
            if k >= i {
                assert(j <= k);
            }
        }
        assert(s + strings::trimmed(s) + Seq::<char>::empty() =~= s);
    }
}

/// SUBSTRING gives back the characters from a place on, counted from one, as many as it is
/// to have, as far as the text has characters at these places.
pub proof fn law_substring(s: Seq<char>, start: int, n: int)
    requires
        n >= 0,
    ensures
        ({
            let first = if start < 1 {
                1
            } else {
                start
            };
            let stop = if start + n > s.len() + 1 {
                (s.len() + 1) as int
            } else {
                start + n
            };
            let r = strings::part(s, start, n);
            &&& r.len() == if first <= stop {
                stop - first
            } else {
                0
            }
            &&& forall|k: int| 0 <= k < r.len() ==> #[trigger] r[k] == s[first - 1 + k]
        }),
{
}

/// Whether `part` stands in `s` from place `i` on.
pub open spec fn stands_at(s: Seq<char>, i: int, part: Seq<char>) -> bool {
    &&& 0 <= i
    &&& i + part.len() <= s.len()
    &&& forall|k: int| 0 <= k < part.len() ==> #[trigger] part[k] == s[i + k]
}

proof fn lemma_stands(s: Seq<char>, i: int, part: Seq<char>)
    ensures
        text::occurs_at(s, i, part) <==> stands_at(s, i, part),
{
    if text::occurs_at(s, i, part) {
        assert forall|k: int| 0 <= k < part.len() implies #[trigger] part[k] == s[i + k] by {
            assert(s.subrange(i, i + part.len())[k] == s[i + k]);
        }
    }
    if stands_at(s, i, part) {
        assert(s.subrange(i, i + part.len()) =~= part);
    }
}

proof fn lemma_position(s: Seq<char>, i: int, part: Seq<char>)
    requires
        0 <= i <= s.len() + 1,
    ensures
        ({
            let n = strings::position_from(s, i, part);
            if n == 0 {
                forall|k: int| i <= k ==> !#[trigger] stands_at(s, k, part)
            } else {
                &&& i <= n - 1
                &&& stands_at(s, n - 1, part)
                &&& forall|k: int| i <= k < n - 1 ==> !#[trigger] stands_at(s, k, part)
            }
        }),
    decreases s.len() + 1 - i,
{
    lemma_stands(s, i, part);
    if i <= s.len() && !text::occurs_at(s, i, part) {
        lemma_position(s, i + 1, part);
    }
}

/// POSITION is the first place, counted from one, at which a part stands in a text, and zero
/// if there is none.
pub proof fn law_position(s: Seq<char>, part: Seq<char>)
    ensures
        ({
            let n = strings::position_from(s, 0, part);
            &&& n == 0 <==> forall|k: int| !#[trigger] stands_at(s, k, part)
            &&& n > 0 ==> stands_at(s, n - 1, part) && forall|k: int|
                0 <= k < n - 1 ==> !#[trigger] stands_at(s, k, part)
            &&& n >= 0
        }),
{
    lemma_position(s, 0, part);
}

proof fn lemma_replaced_acc(
    s: Seq<char>,
    i: int,
    from: Seq<char>,
    to: Seq<char>,
    acc: Seq<char>,
)
    requires
        0 <= i <= s.len(),
    ensures
        strings::replaced_from(s, i, from, to, acc) == acc + strings::replaced_from(
            s.skip(i),
            0,
            from,
            to,
            Seq::empty(),
        ),
    decreases s.len() - i,
{
    let a = s.skip(i);
    if i < s.len() {
        lemma_stands(s, i, from);
        lemma_stands(a, 0, from);
        assert(stands_at(s, i, from) <==> stands_at(a, 0, from)) by {
            if stands_at(s, i, from) {
                assert forall|k: int| 0 <= k < from.len() implies #[trigger] from[k] == a[0 + k] by {
                    assert(from[k] == s[i + k]);
                }
            }
            if stands_at(a, 0, from) {
                assert forall|k: int| 0 <= k < from.len() implies #[trigger] from[k] == s[i + k] by {
                    assert(from[k] == a[0 + k]);
                }
            }
        }
        if from.len() > 0 && text::occurs_at(s, i, from) {
            let m = from.len() as int;
            lemma_replaced_acc(s, i + m, from, to, acc + to);
            assert(a.skip(m) =~= s.skip(i + m));
            if i > 0 {
                lemma_replaced_acc(a, m, from, to, Seq::empty() + to);
            } else {
                assert(a =~= s);
                lemma_replaced_acc(s, m, from, to, Seq::empty() + to);
            }
            let rest = strings::replaced_from(s.skip(i + m), 0, from, to, Seq::empty());
            assert((acc + to) + rest =~= acc + ((Seq::empty() + to) + rest));
        } else {
            lemma_replaced_acc(s, i + 1, from, to, acc.push(s[i]));
            assert(a.skip(1) =~= s.skip(i + 1));
            assert(a[0] == s[i]);
            if i > 0 {
                lemma_replaced_acc(a, 1, from, to, Seq::empty().push(a[0]));
            } else {
                assert(a =~= s);
                lemma_replaced_acc(s, 1, from, to, Seq::empty().push(a[0]));
            }
            let rest = strings::replaced_from(s.skip(i + 1), 0, from, to, Seq::empty());
            assert(acc.push(s[i]) + rest =~= acc + (Seq::empty().push(a[0]) + rest));
        }
    } else {
        assert(acc + Seq::<char>::empty() =~= acc);
    }
}

/// A text with one part replaced by another.
pub open spec fn replaced(s: Seq<char>, from: Seq<char>, to: Seq<char>) -> Seq<char> {
    strings::replaced_from(s, 0, from, to, Seq::empty())
}

proof fn lemma_replaced_until(s: Seq<char>, from: Seq<char>, to: Seq<char>, i: int, acc: Seq<char>)
    requires
        0 <= i <= s.len(),
        forall|k: int| 0 <= k < i ==> from.len() == 0 || !#[trigger] stands_at(s, k, from),
    ensures
        replaced(s, from, to) == strings::replaced_from(s, i, from, to, s.take(i)),
    decreases i,
{
    if i > 0 {
        lemma_replaced_until(s, from, to, i - 1, acc);
        lemma_stands(s, i - 1, from);
        assert(from.len() == 0 || !stands_at(s, i - 1, from));
        assert(s.take(i - 1).push(s[i - 1]) =~= s.take(i));
    } else {
        assert(s.take(0) =~= Seq::empty());
    }
}

/// REPLACE changes nothing in a text without the part, and nothing if the part is empty.
/// Otherwise it puts the other text in place of the first occurrence and goes on behind it.
pub proof fn law_replace(s: Seq<char>, from: Seq<char>, to: Seq<char>, i: int)
    ensures
        from.len() == 0 || (forall|k: int| !#[trigger] stands_at(s, k, from)) ==> replaced(
            s,
            from,
            to,
        ) == s,
        from.len() > 0 && stands_at(s, i, from) && (forall|k: int|
            0 <= k < i ==> !#[trigger] stands_at(s, k, from)) ==> replaced(s, from, to) == s.take(i)
            + to + replaced(s.skip(i + from.len()), from, to),
{
    if from.len() == 0 || (forall|k: int| !#[trigger] stands_at(s, k, from)) {
        lemma_replaced_until(s, from, to, s.len() as int, Seq::empty());
        assert(s.take(s.len() as int) =~= s);
    }
    if from.len() > 0 && stands_at(s, i, from) && (forall|k: int|
        0 <= k < i ==> !#[trigger] stands_at(s, k, from)) {
        lemma_replaced_until(s, from, to, i, Seq::empty());
        lemma_stands(s, i, from);
        lemma_replaced_acc(s, i + from.len(), from, to, s.take(i) + to);
    }
}

proof fn lemma_repeated(s: Seq<char>, n: int, k: int)
    requires
        n >= 0,
    ensures
        strings::repeated(s, n).len() == n * s.len(),
        0 <= k < n * s.len() ==> strings::repeated(s, n)[k] == s[k % (s.len() as int)],
    decreases n,
{
    if n > 0 {
        let m = s.len() as int;
        lemma_repeated(s, n - 1, k);
        assert((n - 1) * m + m == n * m) by (nonlinear_arith);
        let front = strings::repeated(s, n - 1);
        if 0 <= k < n * m {
            if k >= front.len() {
                let j = k - (n - 1) * m;
                assert(k == m * (n - 1) + j) by (nonlinear_arith)
                    requires
                        j == k - (n - 1) * m,
                ;
                vstd::arithmetic::div_mod::lemma_fundamental_div_mod_converse(k, m, n - 1, j);
                assert(k % m == j);
            }
        }
    } else {
        assert(n * s.len() == 0) by (nonlinear_arith)
            requires
                n == 0,
        ;
    }
}

/// REPEAT puts a text behind itself as often as it is to stand there; not at all if that is
/// no positive number.
pub proof fn law_repeat(s: Seq<char>, n: int)
    ensures
        n <= 0 ==> strings::repeated(s, n).len() == 0,
        n > 0 ==> strings::repeated(s, n).len() == n * s.len(),
        forall|k: int|
            0 <= k < strings::repeated(s, n).len() ==> #[trigger] strings::repeated(s, n)[k]
                == s[k % (s.len() as int)],
{
    if n > 0 {
        lemma_repeated(s, n, 0);
        assert forall|k: int|
            0 <= k < strings::repeated(s, n).len() implies #[trigger] strings::repeated(s, n)[k]
            == s[k % (s.len() as int)] by {
            lemma_repeated(s, n, k);
        }
    }
}

/// What the functions on texts give for texts and numbers: joined texts, parts, texts with
/// parts replaced, repeated texts, and the numbers of LENGTH and POSITION.
pub proof fn law_text_results(t: Seq<Seq<char>>, i: usize, j: usize, k: usize, n: i32, m: i32)
    requires
        t.len() <= usize::MAX,
    ensures
        ({
            let s = symbols::text_at(t, i);
            let u = symbols::text_at(t, j);
            let v = symbols::text_at(t, k);
            let a = Datum::Text(i);
            let b = Datum::Text(j);
            let c = Datum::Text(k);
            let p = Datum::Int(n);
            let q = Datum::Int(m);
            let none = Datum::Null;
            &&& gives_text(t, strings::call_value(t, TextFn::Join, a, b, none), s + u)
            &&& gives_text(t, strings::call_value(t, TextFn::Concat, a, b, none), s + u)
            &&& gives_text(t, strings::call_value(t, TextFn::Concat, a, none, none), s)
            &&& gives_text(t, strings::call_value(t, TextFn::Concat, none, b, none), u)
            &&& gives_text(
                t,
                strings::call_value(t, TextFn::Trim, a, none, none),
                strings::trimmed(s),
            )
            &&& m >= 0 ==> gives_text(
                t,
                strings::call_value(t, TextFn::Substring, a, p, q),
                strings::part(s, n as int, m as int),
            )
            &&& m < 0 ==> strings::call_value(t, TextFn::Substring, a, p, q) == Err::<
                Datum,
                Fault,
            >(Fault::NegativeLength)
            &&& gives_text(
                t,
                strings::call_value(t, TextFn::Replace, a, b, c),
                replaced(s, u, v),
            )
            &&& gives_text(
                t,
                strings::call_value(t, TextFn::Repeat, a, p, none),
                strings::repeated(s, n as int),
            )
            &&& s.len() <= i32::MAX ==> strings::call_value(t, TextFn::Length, a, none, none)
                == Ok::<Datum, Fault>(Datum::Int(s.len() as i32))
            &&& s.len() <= i32::MAX ==> (strings::call_value(
                t,
                TextFn::Position,
                a,
                b,
                none,
            ) matches Ok(Datum::Int(x)) && x == strings::position_from(s, 0, u)) || s.len()
                == i32::MAX
        }),
{
    let a = Datum::Text(i);
    let b = Datum::Text(j);
    let c = Datum::Text(k);
    let p = Datum::Int(n);
    let q = Datum::Int(m);
    let none = Datum::Null;
    let s = symbols::text_at(t, i);
    let u = symbols::text_at(t, j);
    lemma_text_value(t, strings::NewText { f: TextFn::Join, a, b, c: none });
    lemma_text_value(t, strings::NewText { f: TextFn::Concat, a, b, c: none });
    lemma_text_value(t, strings::NewText { f: TextFn::Concat, a, b: none, c: none });
    lemma_text_value(t, strings::NewText { f: TextFn::Concat, a: none, b, c: none });
    lemma_text_value(t, strings::NewText { f: TextFn::Trim, a, b: none, c: none });
    lemma_text_value(t, strings::NewText { f: TextFn::Substring, a, b: p, c: q });
    lemma_text_value(t, strings::NewText { f: TextFn::Replace, a, b, c });
    lemma_text_value(t, strings::NewText { f: TextFn::Repeat, a, b: p, c: none });
    assert(s + Seq::<char>::empty() =~= s);
    assert(Seq::<char>::empty() + u =~= u);
    lemma_position(s, 0, u);
}

/// LPAD and RPAD give a text of the length that is asked for: cut at its end if it is longer,
/// and otherwise with as many characters of the other text, over and over, before or behind
/// it. An empty text adds nothing.
pub proof fn law_pads(t: Seq<Seq<char>>, i: usize, k: usize, n: i32)
    requires
        t.len() <= usize::MAX,
    ensures
        ({
            let s = symbols::text_at(t, i);
            let fill = symbols::text_at(t, k);
            let l = strings::call_value(
                t,
                TextFn::Lpad,
                Datum::Text(i),
                Datum::Int(n),
                Datum::Text(k),
            );
            let r = strings::call_value(
                t,
                TextFn::Rpad,
                Datum::Text(i),
                Datum::Int(n),
                Datum::Text(k),
            );
            &&& n <= 0 ==> gives_text(t, l, Seq::empty()) && gives_text(t, r, Seq::empty())
            &&& 0 < n <= s.len() ==> gives_text(t, l, s.take(n as int)) && gives_text(
                t,
                r,
                s.take(n as int),
            )
            &&& n > s.len() && fill.len() == 0 ==> gives_text(t, l, s) && gives_text(t, r, s)
            &&& n > s.len() && fill.len() > 0 ==> {
                let more = Seq::new(
                    (n - s.len()) as nat,
                    |x: int| fill[x % (fill.len() as int)],
                );
                gives_text(t, l, more + s) && gives_text(t, r, s + more)
            }
        }),
{
    let a = Datum::Text(i);
    let b = Datum::Int(n);
    let c = Datum::Text(k);
    let s = symbols::text_at(t, i);
    let fill = symbols::text_at(t, k);
    let left = strings::NewText { f: TextFn::Lpad, a, b, c };
    let right = strings::NewText { f: TextFn::Rpad, a, b, c };
    lemma_text_value(t, left);
    lemma_text_value(t, right);
    if n <= 0 {
        assert(strings::made(t, left) =~= Seq::empty());
        assert(strings::made(t, right) =~= Seq::empty());
    } else if n <= s.len() {
        assert(strings::made(t, left) =~= s.take(n as int));
    } else if fill.len() == 0 {
        assert(strings::made(t, left) =~= s);
        assert(strings::made(t, right) =~= s);
    } else {
        let more = Seq::new((n - s.len()) as nat, |x: int| fill[x % (fill.len() as int)]);
        assert(strings::made(t, left) =~= more + s);
        assert(strings::made(t, right) =~= s + more);
    }
}

/// How many percent signs a text has from place `i` on.
pub open spec fn signs_from(s: Seq<char>, i: int) -> nat
    decreases s.len() - i,
{
    if i < 0 || i >= s.len() {
        0
    } else {
        signs_from(s, i + 1) + if s[i] == '%' {
            1nat
        } else {
            0nat
        }
    }
}

proof fn lemma_nth_percent(s: Seq<char>, n: int, i: int, start: int)
    requires
        0 <= i <= s.len(),
        n >= 1,
        signs_from(s, i) + n == start,
    ensures
        match strings::nth_percent(s, n, i) {
            Some(k) => 0 <= k < i && s[k] == '%' && signs_from(s, k) == start,
            None => signs_from(s, 0) < start,
        },
    decreases i,
{
    if i > 0 {
        if s[i - 1] != '%' {
            lemma_nth_percent(s, n, i - 1, start);
        } else if n > 1 {
            lemma_nth_percent(s, n - 1, i - 1, start);
        }
    }
}

/// A message has a value in place of the percent sign with a given number, counted from the
/// end; without such a sign it stays as it is.
pub proof fn law_fill(s: Seq<char>, n: int, by: Seq<char>)
    requires
        n >= 1,
    ensures
        signs_from(s, 0) < n ==> strings::filled(s, n, by) == s,
        signs_from(s, 0) >= n ==> exists|k: int|
            #![trigger s[k]]
            {
                &&& 0 <= k < s.len()
                &&& s[k] == '%'
                &&& signs_from(s, k) == n
                &&& strings::filled(s, n, by) == s.take(k) + by + s.skip(k + 1)
            },
{
    lemma_nth_percent(s, n, s.len() as int, n);
    if let Some(k) = strings::nth_percent(s, n, s.len() as int) {
        lemma_signs_fall(s, 0, k);
        assert(s[k] == '%');
    }
}

proof fn lemma_signs_fall(s: Seq<char>, i: int, j: int)
    requires
        0 <= i <= j <= s.len(),
    ensures
        signs_from(s, j) <= signs_from(s, i),
    decreases j - i,
{
    if i < j {
        lemma_signs_fall(s, i + 1, j);
    }
}

/// The concatenation of a cast is the text of the value, null being the empty text, and a
/// null in a message is shown as such.
pub proof fn law_shown(t: Seq<Seq<char>>, d: Datum)
    ensures
        d == Datum::Null ==> strings::shown(t, d).len() == 0 && strings::shown_or_null(t, d)
            == "<NULL>"@,
        d != Datum::Null ==> strings::shown_or_null(t, d) == strings::shown(t, d),
        datum::is_number(d) ==> strings::shown(t, d) == text::signed_decimal(datum::as_number(d)),
{
}

} // verus!
