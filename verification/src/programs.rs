//! Laws of cursors, of blocks of code and of what a session defines for itself.

use vstd::prelude::*;
use crate::analyze::CxModel;
use crate::ast::Action;
use crate::ast::Actions;
use crate::ast::Branches;
use crate::ast::Casts;
use crate::ast::Def;
use crate::ast::Direction;
use crate::ast::Expr;
use crate::ast::Idents;
use crate::ast::Signature;
use crate::ast::Signatures;
use crate::ast::Variables;
use crate::block;
use crate::block::Ran;
use crate::conditions;
use crate::datum;
use crate::datum::DataType;
use crate::datum::Datum;
use crate::datum::Tuple;
use crate::defined;
use crate::defined::Defined;
use crate::explain;
use crate::fault::Fault;
use crate::fields;
use crate::fields::Env;
use crate::fields::Fields;
use crate::fields::Found;
use crate::portal;
use crate::portal::PortalModel;
use crate::results;
use crate::text;

verus! {

/// A cursor stands before the first row, on a row or behind the last. Going forward hands out
/// the next rows in their order, as many as are asked for and there are, and the cursor comes
/// to stand on the last of them, or behind all rows if they ran out.
pub proof fn law_fetch_forward(rows: Seq<Tuple>, at: int, k: u64, j: int)
    requires
        portal::is_position(rows.len() as int, at),
    ensures
        ({
            let n = rows.len() as int;
            let m = portal::motion(n, at, Direction::Forward(Some(k)));
            let out = portal::handed_out(rows, m);
            let left = if at < n {
                n - at
            } else {
                0
            };
            &&& out.len() == if k <= left {
                k as int
            } else {
                left
            }
            &&& 0 <= j < out.len() ==> out[j] == rows[at + j]
            &&& k == 0 ==> m.at == at
            &&& 0 < k <= left ==> m.at == at + k
            &&& k > left ==> m.at == n + 1
        }),
        ({
            let n = rows.len() as int;
            let m = portal::motion(n, at, Direction::Forward(None));
            let out = portal::handed_out(rows, m);
            &&& out.len() == if at < n {
                n - at
            } else {
                0
            }
            &&& 0 <= j < out.len() ==> out[j] == rows[at + j]
            &&& m.at == n + 1
        }),
{
}

/// Going backward hands out the rows before the cursor, the nearest first, as many as are
/// asked for and there are, and the cursor comes to stand on the last of them, or before all
/// rows if they ran out.
pub proof fn law_fetch_backward(rows: Seq<Tuple>, at: int, k: u64, j: int)
    requires
        portal::is_position(rows.len() as int, at),
    ensures
        ({
            let n = rows.len() as int;
            let m = portal::motion(n, at, Direction::Backward(Some(k)));
            let out = portal::handed_out(rows, m);
            let left = if at > 0 {
                at - 1
            } else {
                0
            };
            &&& out.len() == if k <= left {
                k as int
            } else {
                left
            }
            &&& 0 <= j < out.len() ==> out[j] == rows[at - 2 - j]
            &&& k == 0 ==> m.at == at
            &&& 0 < k <= left ==> m.at == at - k
            &&& k > left ==> m.at == 0
        }),
        ({
            let n = rows.len() as int;
            let m = portal::motion(n, at, Direction::Backward(None));
            let out = portal::handed_out(rows, m);
            &&& out.len() == if at > 0 {
                at - 1
            } else {
                0
            }
            &&& 0 <= j < out.len() ==> out[j] == rows[at - 2 - j]
            &&& m.at == 0
        }),
{
}

/// FIRST and LAST hand out the first and the last row, wherever the cursor stands, and put it
/// on that row.
pub proof fn law_fetch_ends(rows: Seq<Tuple>, at: int)
    requires
        rows.len() > 0,
    ensures
        ({
            let n = rows.len() as int;
            let m = portal::motion(n, at, Direction::First);
            m.at == 1 && portal::handed_out(rows, m) == seq![rows[0]]
        }),
        ({
            let n = rows.len() as int;
            let m = portal::motion(n, at, Direction::Last);
            m.at == n && portal::handed_out(rows, m) == seq![rows[n - 1]]
        }),
{
    let n = rows.len() as int;
    assert(rows.subrange(0, 1) =~= seq![rows[0]]);
    assert(rows.subrange(n - 1, n) =~= seq![rows[n - 1]]);
}

/// A name means the first portal that has it, and a cursor only if that portal is one.
pub proof fn law_cursor_name(ps: Seq<PortalModel>, name: usize, from: int)
    requires
        0 <= from,
    ensures
        match portal::portal_place(ps, name, from) {
            Some(i) => {
                &&& from <= i < ps.len()
                &&& ps[i].name == name
                &&& forall|k: int| from <= k < i ==> (#[trigger] ps[k]).name != name
            },
            None => forall|k: int| from <= k < ps.len() ==> (#[trigger] ps[k]).name != name,
        },
        portal::cursor_place(ps, name) matches Some(i) ==> ps[i].statement is None
            && portal::portal_place(ps, name, 0) == Some(i),
    decreases ps.len() - from,
{
    if from < ps.len() && ps[from].name != name {
        law_cursor_name(ps, name, from + 1);
    }
}

/// The older portals are those with a number below a mark, and the cursors are counted.
pub proof fn law_portals(ps: Seq<PortalModel>, mark: u64)
    ensures
        portal::older(ps, mark) == ps.filter(|p: PortalModel| p.born < mark),
        portal::cursor_count(ps) == ps.filter(|p: PortalModel| p.statement is None).len(),
    decreases ps.len(),
{
    reveal(Seq::filter);
    if ps.len() > 0 {
        law_portals(ps.drop_last(), mark);
    }
}

/// Two lists of names joined are the one and behind it the other.
pub proof fn law_joined(a: Idents, b: Idents, k: int)
    ensures
        results::idents_len(block::joined(a, b)) == results::idents_len(a) + results::idents_len(b),
        0 <= k < results::idents_len(a) ==> results::ident_at(block::joined(a, b), k)
            == results::ident_at(a, k),
        results::idents_len(a) <= k ==> results::ident_at(block::joined(a, b), k)
            == results::ident_at(b, k - results::idents_len(a)),
    decreases a,
{
    if let Idents::Cons(_, rest) = a {
        law_joined(*rest, b, k - 1);
    }
}

/// Actions, and behind them others.
pub open spec fn in_turn(a: Actions, b: Actions) -> Actions
    decreases a,
{
    match a {
        Actions::Nil => b,
        Actions::Cons(x, rest) => Actions::Cons(x, Box::new(in_turn(*rest, b))),
    }
}

proof fn lemma_joined_twice(a: Idents, b: Idents, c: Idents)
    ensures
        block::joined(block::joined(a, b), c) == block::joined(a, block::joined(b, c)),
    decreases a,
{
    if let Idents::Cons(_, rest) = a {
        lemma_joined_twice(*rest, b, c);
    }
}

/// Actions are carried out one after the other, each on the variables as those before it left
/// them; what they say comes in that order, and the first that fails ends them.
pub proof fn law_actions_in_turn(cx: CxModel, fs: Fields, row: Tuple, a: Actions, b: Actions)
    ensures
        block::acts(cx, fs, row, in_turn(a, b)) == match block::acts(cx, fs, row, a) {
            Err(f) => Err::<Ran, Fault>(f),
            Ok(x) => match block::acts(cx, fs, x.row, b) {
                Err(f) => Err::<Ran, Fault>(f),
                Ok(y) => Ok::<Ran, Fault>(
                    Ran { row: y.row, said: block::joined(x.said, y.said) },
                ),
            },
        },
    decreases a,
{
    if let Actions::Cons(x, rest) = a {
        if let Ok(first) = block::act(cx, fs, row, x) {
            law_actions_in_turn(cx, fs, first.row, *rest, b);
            if let Ok(more) = block::acts(cx, fs, first.row, *rest) {
                if let Ok(y) = block::acts(cx, fs, more.row, b) {
                    lemma_joined_twice(first.said, more.said, y.said);
                }
            }
        }
    } else {
        if let Ok(y) = block::acts(cx, fs, row, b) {
            assert(block::joined(Idents::Nil, y.said) == y.said);
        }
    }
}

proof fn lemma_with_cell(row: Tuple, i: usize, d: Datum, k: nat)
    ensures
        datum::tuple_len(block::with_cell(row, i, d)) == datum::tuple_len(row),
        i < datum::tuple_len(row) ==> datum::cell(block::with_cell(row, i, d), i as nat) == d,
        k != i ==> datum::cell(block::with_cell(row, i, d), k) == datum::cell(row, k),
    decreases row,
{
    if let Tuple::Cons(_, rest) = row {
        if i > 0 && k > 0 {
            lemma_with_cell(*rest, (i - 1) as usize, d, (k - 1) as nat);
        } else if i > 0 {
            lemma_with_cell(*rest, (i - 1) as usize, d, 0);
        }
    }
}

/// An assignment gives one variable a value, as its type holds it, and leaves the others; it
/// says nothing.
pub proof fn law_variable_assigned(
    cx: CxModel,
    fs: Fields,
    row: Tuple,
    n: usize,
    e: Box<Expr>,
    i: usize,
    ty: DataType,
    k: nat,
)
    requires
        fields::find(fs, None, n) == Found::One(i),
        fields::field_at(fs, i as nat) matches Some(f) && f.ty == Some(ty),
        i < datum::tuple_len(row),
    ensures
        match block::value_as(cx, fs, row, ty, *e) {
            Err(f) => block::act(cx, fs, row, Action::Assign(n, e)) == Err::<Ran, Fault>(f),
            Ok(d) => block::act(cx, fs, row, Action::Assign(n, e)) matches Ok(r) && {
                &&& r.said == Idents::Nil
                &&& datum::tuple_len(r.row) == datum::tuple_len(row)
                &&& datum::cell(r.row, i as nat) == d
                &&& k != i ==> datum::cell(r.row, k) == datum::cell(row, k)
            },
        },
{
    if let Ok(d) = block::value_as(cx, fs, row, ty, *e) {
        lemma_with_cell(row, i, d, k);
    }
}

/// RAISE says the text that its expression has, and leaves the variables.
pub proof fn law_raise(cx: CxModel, fs: Fields, row: Tuple, e: Box<Expr>, s: usize)
    ensures
        block::value_as(cx, fs, row, DataType::Text, *e) == Ok::<Datum, Fault>(Datum::Text(s)) ==> (
        block::act(cx, fs, row, Action::Raise(e)) matches Ok(r) && r.row == row
            && results::idents_len(r.said) == 1 && results::ident_at(r.said, 0) == s),
        block::value_as(cx, fs, row, DataType::Text, *e) matches Err(f) ==> block::act(
            cx,
            fs,
            row,
            Action::Raise(e),
        ) == Err::<Ran, Fault>(f),
{
    reveal_with_fuel(results::idents_len, 2);
}

/// How many conditions an IF has.
pub open spec fn branches_len(bs: Branches) -> nat
    decreases bs,
{
    match bs {
        Branches::Else(_) => 0,
        Branches::When(_, _, rest) => 1 + branches_len(*rest),
    }
}

/// The condition at place `k`.
pub open spec fn test_at(bs: Branches, k: int) -> Expr
    decreases bs,
{
    match bs {
        Branches::Else(_) => Expr::Default,
        Branches::When(c, _, rest) => if k == 0 {
            *c
        } else {
            test_at(*rest, k - 1)
        },
    }
}

/// The actions behind the condition at place `k`, or those of ELSE behind all.
pub open spec fn actions_at(bs: Branches, k: int) -> Actions
    decreases bs,
{
    match bs {
        Branches::Else(list) => *list,
        Branches::When(_, list, rest) => if k == 0 {
            *list
        } else {
            actions_at(*rest, k - 1)
        },
    }
}

/// Whether the condition at a place has a value that is not true.
pub open spec fn is_passed(cx: CxModel, fs: Fields, row: Tuple, bs: Branches, i: int) -> bool {
    exists|d: Datum|
        d != Datum::Bool(true) && #[trigger] conditions::is_worth(
            cx,
            Env::Frame(&fs, &row, &Env::Empty),
            None,
            test_at(bs, i),
            d,
        )
}

/// IF carries out the actions of the first condition that is true, and those of ELSE if none
/// is.
pub proof fn law_if(cx: CxModel, fs: Fields, row: Tuple, bs: Branches)
    ensures
        block::branch(cx, fs, row, bs) matches Ok(r) ==> exists|k: int|
            {
                &&& 0 <= k <= branches_len(bs)
                &&& block::acts(cx, fs, row, #[trigger] actions_at(bs, k)) == Ok::<Ran, Fault>(r)
                &&& k < branches_len(bs) ==> conditions::is_worth(
                    cx,
                    Env::Frame(&fs, &row, &Env::Empty),
                    None,
                    test_at(bs, k),
                    Datum::Bool(true),
                )
                &&& forall|i: int| 0 <= i < k ==> #[trigger] is_passed(cx, fs, row, bs, i)
            },
    decreases bs,
{
    match bs {
        Branches::Else(list) => {
            assert(actions_at(bs, 0) == *list);
        },
        Branches::When(c, list, rest) => {
            let here = Env::Frame(&fs, &row, &Env::Empty);
            if let Ok(r) = block::branch(cx, fs, row, bs) {
                let d = crate::eval::expr_value(cx, here, None, *c)->Ok_0;
                assert(test_at(bs, 0) == *c);
                assert(conditions::is_worth(cx, here, None, test_at(bs, 0), d));
                if d == Datum::Bool(true) {
                    assert(actions_at(bs, 0) == *list);
                } else {
                    assert(is_passed(cx, fs, row, bs, 0));
                    law_if(cx, fs, row, *rest);
                    let k = choose|k: int|
                        {
                            &&& 0 <= k <= branches_len(*rest)
                            &&& block::acts(cx, fs, row, #[trigger] actions_at(*rest, k)) == Ok::<
                                Ran,
                                Fault,
                            >(r)
                            &&& k < branches_len(*rest) ==> conditions::is_worth(
                                cx,
                                here,
                                None,
                                test_at(*rest, k),
                                Datum::Bool(true),
                            )
                            &&& forall|i: int|
                                0 <= i < k ==> #[trigger] is_passed(cx, fs, row, *rest, i)
                        };
                    assert(actions_at(bs, k + 1) == actions_at(*rest, k));
                    assert(test_at(bs, k + 1) == test_at(*rest, k));
                    assert forall|i: int| 0 <= i < k + 1 implies #[trigger] is_passed(
                        cx,
                        fs,
                        row,
                        bs,
                        i,
                    ) by {
                        if i > 0 {
                            assert(is_passed(cx, fs, row, *rest, i - 1));
                            assert(test_at(bs, i) == test_at(*rest, i - 1));
                        }
                    }
                }
            }
        },
    }
}

/// How many variables a block has.
pub open spec fn variables_len(vs: Variables) -> nat
    decreases vs,
{
    match vs {
        Variables::Nil => 0,
        Variables::Cons(_, _, _, rest) => 1 + variables_len(*rest),
    }
}

proof fn lemma_declared_after(
    cx: CxModel,
    vs: Variables,
    fs: Fields,
    row: Tuple,
    k: nat,
)
    ensures
        block::declared(cx, vs, fs, row) matches Ok(s) ==> {
            &&& datum::tuple_len(s.row) == datum::tuple_len(row) + variables_len(vs)
            &&& k < datum::tuple_len(row) ==> datum::cell(s.row, k) == datum::cell(row, k)
        },
    decreases vs,
{
    if let Variables::Cons(n, ty, e, rest) = vs {
        if let Ok(d) = block::value_as(cx, fs, row, ty, *e) {
            let one = Tuple::Cons(d, Box::new(Tuple::Nil));
            let more = fields::fields_append(
                fs,
                Fields::Cons(block::variable(n, ty), Box::new(Fields::Nil)),
            );
            lemma_declared_after(cx, *rest, more, datum::tuple_append(row, one), k);
            lemma_appended(row, d, k);
        }
    }
}

proof fn lemma_appended(row: Tuple, d: Datum, k: nat)
    ensures
        ({
            let wide = datum::tuple_append(row, Tuple::Cons(d, Box::new(Tuple::Nil)));
            &&& datum::tuple_len(wide) == datum::tuple_len(row) + 1
            &&& k < datum::tuple_len(row) ==> datum::cell(wide, k) == datum::cell(row, k)
            &&& datum::cell(wide, datum::tuple_len(row)) == d
        }),
    decreases row,
{
    reveal_with_fuel(datum::tuple_len, 2);
    if let Tuple::Cons(_, rest) = row {
        if k > 0 {
            lemma_appended(*rest, d, (k - 1) as nat);
        } else {
            lemma_appended(*rest, d, 0);
        }
    }
}

/// A variable that is declared starts with the value of its expression, as its type holds it,
/// computed from the variables before it; those keep their values.
pub proof fn law_declared(
    cx: CxModel,
    n: usize,
    ty: DataType,
    e: Box<Expr>,
    rest: Box<Variables>,
    fs: Fields,
    row: Tuple,
    k: nat,
)
    ensures
        block::declared(cx, Variables::Cons(n, ty, e, rest), fs, row) matches Ok(s) ==> {
            &&& datum::tuple_len(s.row) == datum::tuple_len(row) + 1 + variables_len(*rest)
            &&& block::value_as(cx, fs, row, ty, *e) == Ok::<Datum, Fault>(
                datum::cell(s.row, datum::tuple_len(row)),
            )
            &&& k < datum::tuple_len(row) ==> datum::cell(s.row, k) == datum::cell(row, k)
        },
{
    let vs = Variables::Cons(n, ty, e, rest);
    lemma_declared_after(cx, vs, fs, row, k);
    if let Ok(d) = block::value_as(cx, fs, row, ty, *e) {
        let one = Tuple::Cons(d, Box::new(Tuple::Nil));
        let more = fields::fields_append(
            fs,
            Fields::Cons(block::variable(n, ty), Box::new(Fields::Nil)),
        );
        lemma_appended(row, d, k);
        lemma_declared_after(
            cx,
            *rest,
            more,
            datum::tuple_append(row, one),
            datum::tuple_len(row),
        );
    }
}

/// Names mean one type exactly if they are the same or other names of it: of integers, of
/// large integers or of truth values.
pub proof fn law_names_of_types(v: Seq<char>, w: Seq<char>)
    ensures
        defined::canonical(v) == defined::canonical(w) <==> {
            ||| v == w
            ||| (v == "int"@ || v == "int4"@ || v == "integer"@) && (w == "int"@ || w == "int4"@
                || w == "integer"@)
            ||| (v == "int8"@ || v == "bigint"@) && (w == "int8"@ || w == "bigint"@)
            ||| (v == "bool"@ || v == "boolean"@) && (w == "bool"@ || w == "boolean"@)
        },
{
    reveal_strlit("int");
    reveal_strlit("int4");
    reveal_strlit("integer");
    reveal_strlit("int8");
    reveal_strlit("bigint");
    reveal_strlit("bool");
    reveal_strlit("boolean");
    assert("integer"@.len() == 7 && "bigint"@.len() == 6 && "boolean"@.len() == 7);
    assert("integer"@[0] == 'i' && "boolean"@[0] == 'b');
    assert("int"@.len() == 3 && "int4"@.len() == 4 && "int8"@.len() == 4 && "bool"@.len() == 4);
    assert("int4"@[3] == '4' && "int8"@[3] == '8' && "bool"@[0] == 'b' && "int4"@[0] == 'i'
        && "int8"@[0] == 'i');
}

/// A type that is defined is known, the others stay as known as they were, and only a name
/// that is not known can be defined.
pub proof fn law_type_defined(t: Seq<Seq<char>>, d: Defined, n: usize, other: usize)
    ensures
        defined::after(t, d, Def::Type(n)) is Ok <==> !defined::known(t, d, n),
        defined::after(t, d, Def::Type(n)) matches Ok(x) ==> {
            &&& defined::known(t, x, n)
            &&& other != n ==> defined::known(t, x, other) == defined::known(t, d, other)
        },
{
}

proof fn lemma_copied(t: Seq<Seq<char>>, cs: Casts, ss: Signatures, s: Signature, a: usize, b: usize)
    ensures
        defined::has_cast(t, defined::copied_casts(cs), a, b) == defined::has_cast(t, cs, a, b),
        defined::has_signature(t, defined::copied_signatures(ss), s) == defined::has_signature(
            t,
            ss,
            s,
        ),
    decreases cs, ss,
{
    if let Casts::Cons(_, _, _, rest) = cs {
        lemma_copied(t, *rest, ss, s, a, b);
    }
    lemma_copied_signatures(t, ss, s);
}

proof fn lemma_copied_signatures(t: Seq<Seq<char>>, ss: Signatures, s: Signature)
    ensures
        defined::has_signature(t, defined::copied_signatures(ss), s) == defined::has_signature(
            t,
            ss,
            s,
        ),
    decreases ss,
{
    if let Signatures::Cons(_, rest) = ss {
        lemma_copied_signatures(t, *rest, s);
    }
}

/// Lists name the same types if they are equally long and do so at each place.
pub proof fn law_same_types(t: Seq<Seq<char>>, a: Idents, b: Idents)
    ensures
        defined::same_types(t, a, b) <==> results::idents_len(a) == results::idents_len(b) && (
        forall|k: int|
            0 <= k < results::idents_len(a) ==> defined::same_type(
                t,
                #[trigger] results::ident_at(a, k),
                results::ident_at(b, k),
            )),
    decreases a,
{
    if let (Idents::Cons(x, more), Idents::Cons(y, rest)) = (a, b) {
        law_same_types(t, *more, *rest);
        assert(results::ident_at(a, 0) == x && results::ident_at(b, 0) == y);
        assert forall|k: int| 1 <= k implies #[trigger] results::ident_at(a, k)
            == results::ident_at(*more, k - 1) && results::ident_at(b, k) == results::ident_at(
            *rest,
            k - 1,
        ) by {}
        if forall|k: int|
            0 <= k < results::idents_len(a) ==> defined::same_type(
                t,
                #[trigger] results::ident_at(a, k),
                results::ident_at(b, k),
            ) {
            assert forall|k: int| 0 <= k < results::idents_len(*more) implies defined::same_type(
                t,
                #[trigger] results::ident_at(*more, k),
                results::ident_at(*rest, k),
            ) by {
                assert(results::ident_at(a, k + 1) == results::ident_at(*more, k));
                assert(results::ident_at(b, k + 1) == results::ident_at(*rest, k));
            }
        }
        if defined::same_types(t, a, b) {
            assert forall|k: int| 0 <= k < results::idents_len(a) implies defined::same_type(
                t,
                #[trigger] results::ident_at(a, k),
                results::ident_at(b, k),
            ) by {
                if k > 0 {
                    assert(results::ident_at(a, k) == results::ident_at(*more, k - 1));
                }
            }
        }
    }
}

proof fn lemma_same_signature(t: Seq<Seq<char>>, x: Signature, y: Signature, z: Signature)
    ensures
        defined::same_signature(t, x, x),
        defined::same_signature(t, x, y) ==> defined::same_signature(t, x, z)
            == defined::same_signature(t, y, z),
{
    lemma_same_args(t, x.args, y.args, z.args);
}

proof fn lemma_same_args(t: Seq<Seq<char>>, x: Idents, y: Idents, z: Idents)
    ensures
        defined::same_types(t, x, x),
        defined::same_types(t, x, y) ==> defined::same_types(t, x, z) == defined::same_types(
            t,
            y,
            z,
        ),
    decreases x,
{
    if let Idents::Cons(_, a) = x {
        match (y, z) {
            (Idents::Cons(_, b), Idents::Cons(_, c)) => lemma_same_args(t, *a, *b, *c),
            (Idents::Cons(_, b), Idents::Nil) => lemma_same_args(t, *a, *b, Idents::Nil),
            _ => lemma_same_args(t, *a, Idents::Nil, Idents::Nil),
        }
    }
}

/// A function that is defined is there, beside the others, and it was not there before; the
/// types that it speaks of are known.
pub proof fn law_function_defined(
    t: Seq<Seq<char>>,
    d: Defined,
    s: Box<Signature>,
    result: usize,
    other: Signature,
    a: usize,
    b: usize,
)
    ensures
        defined::after(t, d, Def::Function(s, result)) matches Ok(x) ==> {
            &&& !defined::has_signature(t, d.functions, *s)
            &&& defined::known(t, d, result)
            &&& forall|k: int|
                0 <= k < results::idents_len(s.args) ==> defined::known(
                    t,
                    d,
                    #[trigger] results::ident_at(s.args, k),
                )
            &&& defined::has_signature(t, x.functions, *s)
            &&& !defined::same_signature(t, *s, other) ==> defined::has_signature(
                t,
                x.functions,
                other,
            ) == defined::has_signature(t, d.functions, other)
            &&& x.types == d.types
            &&& defined::has_cast(t, x.casts, a, b) == defined::has_cast(t, d.casts, a, b)
        },
{
    lemma_copied(t, d.casts, d.functions, other, a, b);
    lemma_same_signature(t, *s, *s, other);
    lemma_known_in(t, d, s.args);
}

proof fn lemma_known_in(t: Seq<Seq<char>>, d: Defined, ns: Idents)
    ensures
        defined::unknown_in(t, d, ns) is None ==> forall|k: int|
            0 <= k < results::idents_len(ns) ==> defined::known(
                t,
                d,
                #[trigger] results::ident_at(ns, k),
            ),
    decreases ns,
{
    if let Idents::Cons(n, rest) = ns {
        lemma_known_in(t, d, *rest);
        if defined::unknown_in(t, d, ns) is None {
            assert forall|k: int| 0 <= k < results::idents_len(ns) implies defined::known(
                t,
                d,
                #[trigger] results::ident_at(ns, k),
            ) by {
                if k > 0 {
                    assert(results::ident_at(ns, k) == results::ident_at(*rest, k - 1));
                }
            }
        }
    }
}

/// A cast that is defined is there, beside the others, and it was not there before. If it
/// goes through a function, there is that function.
pub proof fn law_cast_defined(
    t: Seq<Seq<char>>,
    d: Defined,
    a: usize,
    b: usize,
    by: Option<Box<Signature>>,
    x: usize,
    y: usize,
    s: Signature,
)
    ensures
        defined::after(t, d, Def::Cast(a, b, by)) matches Ok(z) ==> {
            &&& defined::known(t, d, a) && defined::known(t, d, b)
            &&& !defined::has_cast(t, d.casts, a, b)
            &&& by matches Some(f) ==> defined::has_signature(t, d.functions, *f)
            &&& defined::has_cast(t, z.casts, a, b)
            &&& !(defined::same_type(t, a, x) && defined::same_type(t, b, y)) ==> defined::has_cast(
                t,
                z.casts,
                x,
                y,
            ) == defined::has_cast(t, d.casts, x, y)
            &&& z.types == d.types
            &&& defined::has_signature(t, z.functions, s) == defined::has_signature(
                t,
                d.functions,
                s,
            )
        },
        defined::after(t, d, Def::Cast(a, b, by)) is Ok <==> defined::known(t, d, a)
            && defined::known(t, d, b) && !defined::has_cast(t, d.casts, a, b) && (
        by matches Some(f) ==> defined::has_signature(t, d.functions, *f)),
{
    lemma_copied(t, d.casts, d.functions, s, x, y);
}

proof fn lemma_without(t: Seq<Seq<char>>, ss: Signatures, s: Signature, other: Signature)
    ensures
        !defined::has_signature(t, defined::without_signature(t, ss, s), s),
        !defined::same_signature(t, s, other) ==> defined::has_signature(
            t,
            defined::without_signature(t, ss, s),
            other,
        ) == defined::has_signature(t, ss, other),
    decreases ss,
{
    if let Signatures::Cons(x, rest) = ss {
        lemma_without(t, *rest, s, other);
        lemma_same_signature(t, *x, s, other);
    }
}

/// Whether a cast is there that does not go through a function.
pub open spec fn has_other_cast(
    t: Seq<Seq<char>>,
    cs: Casts,
    s: Signature,
    a: usize,
    b: usize,
) -> bool
    decreases cs,
{
    match cs {
        Casts::Nil => false,
        Casts::Cons(x, y, by, rest) => {
            ||| defined::same_type(t, x, a) && defined::same_type(t, y, b) && !(by matches Some(f)
                && defined::same_signature(t, *f, s))
            ||| has_other_cast(t, *rest, s, a, b)
        },
    }
}

proof fn lemma_independents(t: Seq<Seq<char>>, cs: Casts, s: Signature, a: usize, b: usize)
    ensures
        defined::has_cast(t, defined::independents(t, cs, s), a, b) == has_other_cast(
            t,
            cs,
            s,
            a,
            b,
        ),
        defined::dependents(t, cs, s) is Nil ==> has_other_cast(t, cs, s, a, b)
            == defined::has_cast(t, cs, a, b),
    decreases cs,
{
    if let Casts::Cons(_, _, _, rest) = cs {
        lemma_independents(t, *rest, s, a, b);
    }
}

/// A function that is dropped is gone, with the casts that go through it, and nothing else.
/// Without CASCADE it goes only if no cast goes through it.
pub proof fn law_function_dropped(
    t: Seq<Seq<char>>,
    d: Defined,
    s: Box<Signature>,
    quiet: bool,
    cascade: bool,
    other: Signature,
    a: usize,
    b: usize,
)
    requires
        defined::has_signature(t, d.functions, *s),
    ensures
        defined::after(t, d, Def::DropFunction(s, quiet, cascade)) matches Ok(x) ==> {
            &&& !defined::has_signature(t, x.functions, *s)
            &&& !defined::same_signature(t, *s, other) ==> defined::has_signature(
                t,
                x.functions,
                other,
            ) == defined::has_signature(t, d.functions, other)
            &&& x.types == d.types
            &&& defined::has_cast(t, x.casts, a, b) == has_other_cast(t, d.casts, *s, a, b)
            &&& !cascade ==> defined::has_cast(t, x.casts, a, b) == defined::has_cast(
                t,
                d.casts,
                a,
                b,
            )
        },
        cascade ==> defined::after(t, d, Def::DropFunction(s, quiet, cascade)) is Ok,
{
    lemma_without(t, d.functions, *s, other);
    lemma_independents(t, d.casts, *s, a, b);
}

proof fn lemma_first_at(v: Seq<char>, from: int, lit: Seq<char>)
    requires
        0 <= from,
    ensures
        match explain::first_at(v, from, lit) {
            Some(p) => {
                &&& from <= p
                &&& text::occurs_at(v, p, lit)
                &&& forall|q: int| from <= q < p ==> !#[trigger] text::occurs_at(v, q, lit)
            },
            None => forall|q: int| from <= q ==> !#[trigger] text::occurs_at(v, q, lit),
        },
    decreases v.len() + 1 - from,
{
    if from <= v.len() && !text::occurs_at(v, from, lit) {
        lemma_first_at(v, from + 1, lit);
    }
}

/// Whether `n` is the number that the digits from `start` to `end` denote, with no digit
/// behind them.
pub open spec fn is_number_at(v: Seq<char>, start: int, end: int, n: int) -> bool {
    &&& 0 <= start < end <= v.len()
    &&& forall|i: int| start <= i < end ==> text::is_digit(#[trigger] v[i])
    &&& end < v.len() ==> !text::is_digit(v[end])
    &&& n == text::number_of(v.subrange(start, end))
    &&& n <= i32::MAX
}

proof fn lemma_run(v: Seq<char>, from: int)
    requires
        0 <= from <= v.len(),
    ensures
        ({
            let end = text::digits_end(v, from);
            &&& from <= end <= v.len()
            &&& forall|i: int| from <= i < end ==> text::is_digit(#[trigger] v[i])
            &&& end < v.len() ==> !text::is_digit(v[end])
        }),
    decreases v.len() - from,
{
    if from < v.len() && text::is_digit(v[from]) {
        lemma_run(v, from + 1);
    }
}

/// The counts of a line of plan text are the numbers behind its first `rows=` and behind the
/// next one after that number.
pub proof fn law_rows_pair(v: Seq<char>)
    ensures
        explain::rows_pair(v) matches Some((a, b)) ==> exists|p: int, e: int, q: int, f: int|
            {
                &&& text::occurs_at(v, p, "rows="@)
                &&& forall|i: int| 0 <= i < p ==> !#[trigger] text::occurs_at(v, i, "rows="@)
                &&& #[trigger] is_number_at(v, p + 5, e, a)
                &&& e <= q
                &&& text::occurs_at(v, q, "rows="@)
                &&& forall|i: int| e <= i < q ==> !#[trigger] text::occurs_at(v, i, "rows="@)
                &&& #[trigger] is_number_at(v, q + 5, f, b)
            },
{
    reveal_strlit("rows=");
    if let Some((a, b)) = explain::rows_pair(v) {
        lemma_first_at(v, 0, "rows="@);
        let p = explain::first_at(v, 0, "rows="@)->Some_0;
        lemma_run(v, p + 5);
        let e = text::digits_end(v, p + 5);
        assert(is_number_at(v, p + 5, e, a));
        lemma_first_at(v, e, "rows="@);
        let q = explain::first_at(v, e, "rows="@)->Some_0;
        lemma_run(v, q + 5);
        let f = text::digits_end(v, q + 5);
        assert(is_number_at(v, q + 5, f, b));
    }
}

} // verus!
