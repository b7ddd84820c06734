//! What a session defines for itself: types, casts and functions.
//!
//! Types are known by name, casts and functions are kept with what they depend on.
//! Nothing can be computed with them.

use vstd::prelude::*;
use crate::ast::Casts;
use crate::ast::Def;
use crate::ast::Idents;
use crate::ast::Signature;
use crate::ast::Signatures;
use crate::fault::Fault;
use crate::fault::Tag;
use crate::fields;
use crate::notice::Notice;
use crate::symbols;
use crate::symbols::Symbols;
use crate::text;

verus! {

/// What a session has defined.
#[derive(Debug)]
pub struct Defined {
    pub types: Idents,
    pub casts: Casts,
    pub functions: Signatures,
}

/// The name of a type by which its other names are meant too.
pub open spec fn canonical(w: Seq<char>) -> Seq<char> {
    if w == "int"@ || w == "int4"@ {
        "integer"@
    } else if w == "int8"@ {
        "bigint"@
    } else if w == "bool"@ {
        "boolean"@
    } else {
        w
    }
}

/// The name of a type.
pub open spec fn type_text(t: Seq<Seq<char>>, n: usize) -> Seq<char> {
    canonical(symbols::text_at(t, n))
}

/// The name of a type.
pub fn type_string(t: &Symbols, n: usize) -> (r: String)
    ensures
        r@ == type_text(t@, n),
{
    let w: String = t.text(n);
    if text::same_text(w.as_str(), "int") || text::same_text(w.as_str(), "int4") {
        text::owned("integer")
    } else if text::same_text(w.as_str(), "int8") {
        text::owned("bigint")
    } else if text::same_text(w.as_str(), "bool") {
        text::owned("boolean")
    } else {
        w
    }
}

/// Whether two names are those of one type.
pub open spec fn same_type(t: Seq<Seq<char>>, a: usize, b: usize) -> bool {
    type_text(t, a) == type_text(t, b)
}

fn types_same(t: &Symbols, a: usize, b: usize) -> (r: bool)
    ensures
        r == same_type(t@, a, b),
{
    let x: String = type_string(t, a);
    let y: String = type_string(t, b);
    text::same_text(x.as_str(), y.as_str())
}

/// Whether a type is there without being defined.
pub open spec fn is_builtin(t: Seq<Seq<char>>, n: usize) -> bool {
    let w = type_text(t, n);
    w == "integer"@ || w == "bigint"@ || w == "boolean"@ || w == "text"@
}

fn builtin(t: &Symbols, n: usize) -> (r: bool)
    ensures
        r == is_builtin(t@, n),
{
    let w: String = type_string(t, n);
    text::same_text(w.as_str(), "integer") || text::same_text(w.as_str(), "bigint")
        || text::same_text(w.as_str(), "boolean") || text::same_text(w.as_str(), "text")
}

/// What a session has defined that has defined nothing.
pub open spec fn nothing() -> Defined {
    Defined { types: Idents::Nil, casts: Casts::Nil, functions: Signatures::Nil }
}

pub fn no_definitions() -> (r: Defined)
    ensures
        r == nothing(),
{
    Defined { types: Idents::Nil, casts: Casts::Nil, functions: Signatures::Nil }
}

/// A copy is the same.
pub proof fn lemma_duplicate(d: Defined)
    ensures
        duplicate(d) == d,
{
    lemma_copied_casts(d.casts);
    lemma_copied_signatures(d.functions);
}

proof fn lemma_copied_casts(cs: Casts)
    ensures
        copied_casts(cs) == cs,
    decreases cs,
{
    if let Casts::Cons(_, _, _, rest) = cs {
        lemma_copied_casts(*rest);
    }
}

proof fn lemma_copied_signatures(ss: Signatures)
    ensures
        copied_signatures(ss) == ss,
    decreases ss,
{
    if let Signatures::Cons(_, rest) = ss {
        lemma_copied_signatures(*rest);
    }
}

/// What casts are reported as when they go.
pub open spec fn reports(cs: Casts, acc: Seq<Notice>) -> Seq<Notice>
    decreases cs,
{
    match cs {
        Casts::Nil => acc,
        Casts::Cons(a, b, _, rest) => reports(*rest, acc.push(Notice::DropsCast(a, b))),
    }
}

fn report(cs: &Casts, acc: Vec<Notice>) -> (r: Vec<Notice>)
    ensures
        r@ == reports(*cs, acc@),
    decreases cs,
{
    match cs {
        Casts::Nil => acc,
        Casts::Cons(a, b, _, rest) => {
            let mut more: Vec<Notice> = acc;
            more.push(Notice::DropsCast(*a, *b));
            report(rest, more)
        },
    }
}

/// What is said when a definition is carried out: the casts that go with a function.
pub open spec fn said(t: Seq<Seq<char>>, d: Defined, def: Def) -> Seq<Notice> {
    match def {
        Def::DropFunction(s, _, true) => reports(dependents(t, d.casts, *s), Seq::empty()),
        _ => Seq::empty(),
    }
}

/// What is said when a definition is carried out.
pub fn say(t: &Symbols, d: &Defined, def: &Def) -> (r: Vec<Notice>)
    ensures
        r@ == said(t@, *d, *def),
{
    match def {
        Def::DropFunction(s, _, true) => {
            let gone: Casts = define_dependents(t, &d.casts, s);
            report(&gone, Vec::new())
        },
        _ => Vec::new(),
    }
}

/// The same casts.
pub open spec fn copied_casts(cs: Casts) -> Casts
    decreases cs,
{
    match cs {
        Casts::Nil => Casts::Nil,
        Casts::Cons(a, b, by, rest) => Casts::Cons(
            a,
            b,
            copied_by(by),
            Box::new(copied_casts(*rest)),
        ),
    }
}

/// The same function, if there is one.
pub open spec fn copied_by(by: Option<Box<Signature>>) -> Option<Box<Signature>>
{
    match by {
        None => None,
        Some(s) => Some(Box::new(copied_signature(*s))),
    }
}

/// The same function.
pub open spec fn copied_signature(s: Signature) -> Signature
{
    Signature { name: s.name, args: s.args }
}

/// The same functions.
pub open spec fn copied_signatures(ss: Signatures) -> Signatures
    decreases ss,
{
    match ss {
        Signatures::Nil => Signatures::Nil,
        Signatures::Cons(s, rest) => Signatures::Cons(
            Box::new(copied_signature(*s)),
            Box::new(copied_signatures(*rest)),
        ),
    }
}

/// Whether two lists name the same types.
pub open spec fn same_types(t: Seq<Seq<char>>, a: Idents, b: Idents) -> bool
    decreases a,
{
    match (a, b) {
        (Idents::Nil, Idents::Nil) => true,
        (
            Idents::Cons(x, more),
            Idents::Cons(y, rest),
        ) => same_type(t, x, y) && same_types(t, *more, *rest),
        _ => false,
    }
}

/// Whether two functions have one name and take values of the same types.
pub open spec fn same_signature(t: Seq<Seq<char>>, a: Signature, b: Signature) -> bool
{
    a.name == b.name && same_types(t, a.args, b.args)
}

/// Whether a function is among others.
pub open spec fn has_signature(t: Seq<Seq<char>>, ss: Signatures, s: Signature) -> bool
    decreases ss,
{
    match ss {
        Signatures::Nil => false,
        Signatures::Cons(x, rest) => same_signature(t, *x, s) || has_signature(t, *rest, s),
    }
}

/// The functions but for one.
pub open spec fn without_signature(t: Seq<Seq<char>>, ss: Signatures, s: Signature) -> Signatures
    decreases ss,
{
    match ss {
        Signatures::Nil => Signatures::Nil,
        Signatures::Cons(x, rest) => if same_signature(t, *x, s) {
            without_signature(t, *rest, s)
        } else {
            Signatures::Cons(
                Box::new(copied_signature(*x)),
                Box::new(without_signature(t, *rest, s)),
            )
        },
    }
}

/// Whether there is a cast from one type to another.
pub open spec fn has_cast(t: Seq<Seq<char>>, cs: Casts, a: usize, b: usize) -> bool
    decreases cs,
{
    match cs {
        Casts::Nil => false,
        Casts::Cons(x, y, _, rest) => (
            same_type(t, x, a) && same_type(t, y, b)
        ) || has_cast(t, *rest, a, b),
    }
}

/// Whether a cast goes through a function.
pub open spec fn uses(t: Seq<Seq<char>>, by: Option<Box<Signature>>, s: Signature) -> bool
{
    match by {
        None => false,
        Some(x) => same_signature(t, *x, s),
    }
}

/// The casts that go through a function.
pub open spec fn dependents(t: Seq<Seq<char>>, cs: Casts, s: Signature) -> Casts
    decreases cs,
{
    match cs {
        Casts::Nil => Casts::Nil,
        Casts::Cons(a, b, by, rest) => if uses(t, by, s) {
            Casts::Cons(a, b, copied_by(by), Box::new(dependents(t, *rest, s)))
        } else {
            dependents(t, *rest, s)
        },
    }
}

/// The casts that do not go through a function.
pub open spec fn independents(t: Seq<Seq<char>>, cs: Casts, s: Signature) -> Casts
    decreases cs,
{
    match cs {
        Casts::Nil => Casts::Nil,
        Casts::Cons(a, b, by, rest) => if uses(t, by, s) {
            independents(t, *rest, s)
        } else {
            Casts::Cons(a, b, copied_by(by), Box::new(independents(t, *rest, s)))
        },
    }
}

/// Whether there is a type with a name.
pub open spec fn known(t: Seq<Seq<char>>, d: Defined, n: usize) -> bool
{
    is_builtin(t, n) || fields::has_ident(d.types, n)
}

/// The first of several types that is not there.
pub open spec fn unknown_in(t: Seq<Seq<char>>, d: Defined, ns: Idents) -> Option<usize>
    decreases ns,
{
    match ns {
        Idents::Nil => None,
        Idents::Cons(n, rest) => if known(t, d, n) {
            unknown_in(t, d, *rest)
        } else {
            Some(n)
        },
    }
}

/// The same definitions.
pub open spec fn duplicate(d: Defined) -> Defined
{
    Defined {
        types: d.types,
        casts: copied_casts(d.casts),
        functions: copied_signatures(d.functions),
    }
}

/// The name under which a definition is reported.
pub open spec fn tag(def: Def) -> Tag
{
    match def {
        Def::Type(_) => Tag::CreateType,
        Def::Cast(_, _, _) => Tag::CreateCast,
        Def::Function(_, _) => Tag::CreateFunction,
        Def::DropFunction(_, _, _) => Tag::DropFunction,
    }
}

/// What is defined after a definition was carried out.
pub open spec fn after(t: Seq<Seq<char>>, d: Defined, def: Def) -> Result<Defined, Fault>
{
    match def {
        Def::Type(n) => if is_builtin(t, n) || fields::has_ident(d.types, n) {
            Err(Fault::TypeExists { name: n })
        } else {
            Ok(
                Defined {
                    types: Idents::Cons(n, Box::new(d.types)),
                    casts: copied_casts(d.casts),
                    functions: copied_signatures(d.functions),
                },
            )
        },
        Def::Cast(a, b, by) => with_cast(t, d, a, b, by),
        Def::Function(s, result) => if !known(t, d, result) {
            Err(Fault::TypeMissing { name: result })
        } else {
            match unknown_in(t, d, s.args) {
                Some(n) => Err(Fault::TypeMissing { name: n }),
                None => if has_signature(t, d.functions, *s) {
                    Err(Fault::FunctionExists { name: s.name })
                } else {
                    Ok(
                        Defined {
                            types: d.types,
                            casts: copied_casts(d.casts),
                            functions: Signatures::Cons(
                                Box::new(copied_signature(*s)),
                                Box::new(copied_signatures(d.functions)),
                            ),
                        },
                    )
                },
            }
        },
        Def::DropFunction(s, quiet, cascade) => if !has_signature(t, d.functions, *s) {
            if quiet {
                Ok(duplicate(d))
            } else {
                Err(Fault::UndefinedFunction { name: s.name })
            }
        } else {
            match (dependents(t, d.casts, *s), cascade) {
                (Casts::Cons(_, _, _, _), false) => Err(Fault::FunctionInUse { name: s.name }),
                _ => Ok(
                    Defined {
                        types: d.types,
                        casts: independents(t, d.casts, *s),
                        functions: without_signature(t, d.functions, *s),
                    },
                ),
            }
        },
    }
}

/// What is defined after a cast was.
pub open spec fn with_cast(
    t: Seq<Seq<char>>,
    d: Defined,
    a: usize,
    b: usize,
    by: Option<Box<Signature>>,
) -> Result<Defined, Fault>
{
    if !known(t, d, a) {
        Err(Fault::TypeMissing { name: a })
    } else if !known(t, d, b) {
        Err(Fault::TypeMissing { name: b })
    } else if has_cast(t, d.casts, a, b) {
        Err(Fault::CastExists { source: a, target: b })
    } else {
        match by {
            Some(s) => if has_signature(t, d.functions, *s) {
                Ok(
                    Defined {
                        types: d.types,
                        casts: Casts::Cons(a, b, copied_by(by), Box::new(copied_casts(d.casts))),
                        functions: copied_signatures(d.functions),
                    },
                )
            } else {
                Err(Fault::UndefinedFunction { name: s.name })
            },
            None => Ok(
                Defined {
                    types: d.types,
                    casts: Casts::Cons(a, b, None, Box::new(copied_casts(d.casts))),
                    functions: copied_signatures(d.functions),
                },
            ),
        }
    }
}

pub fn define_copied_casts(cs: &Casts) -> (out: Casts)
    ensures
        out == copied_casts(*cs),
    decreases cs,
{
    match cs {
        Casts::Nil => Casts::Nil,
        Casts::Cons(a, b, by, rest) => Casts::Cons(
            *a,
            *b,
            define_copied_by(by),
            Box::new(define_copied_casts(rest)),
        ),
    }
}

pub fn define_copied_by(by: &Option<Box<Signature>>) -> (out: Option<Box<Signature>>)
    ensures
        out == copied_by(*by),
{
    match by {
        None => None,
        Some(s) => Some(Box::new(define_copied_signature(s))),
    }
}

pub fn define_copied_signature(s: &Signature) -> (out: Signature)
    ensures
        out == copied_signature(*s),
{
    Signature { name: s.name, args: s.args.copy() }
}

pub fn define_copied_signatures(ss: &Signatures) -> (out: Signatures)
    ensures
        out == copied_signatures(*ss),
    decreases ss,
{
    match ss {
        Signatures::Nil => Signatures::Nil,
        Signatures::Cons(s, rest) => Signatures::Cons(
            Box::new(define_copied_signature(s)),
            Box::new(define_copied_signatures(rest)),
        ),
    }
}

pub fn define_same_types(t: &Symbols, a: &Idents, b: &Idents) -> (out: bool)
    ensures
        out == same_types(t@, *a, *b),
    decreases a,
{
    match (a, b) {
        (Idents::Nil, Idents::Nil) => true,
        (
            Idents::Cons(x, more),
            Idents::Cons(y, rest),
        ) => types_same(t, *x, *y) && define_same_types(t, more, rest),
        _ => false,
    }
}

pub fn define_same_signature(t: &Symbols, a: &Signature, b: &Signature) -> (out: bool)
    ensures
        out == same_signature(t@, *a, *b),
{
    a.name == b.name && define_same_types(t, &a.args, &b.args)
}

pub fn define_has_signature(t: &Symbols, ss: &Signatures, s: &Signature) -> (out: bool)
    ensures
        out == has_signature(t@, *ss, *s),
    decreases ss,
{
    match ss {
        Signatures::Nil => false,
        Signatures::Cons(x, rest) => define_same_signature(t, x, s) || define_has_signature(t, rest, s),
    }
}

pub fn define_without_signature(t: &Symbols, ss: &Signatures, s: &Signature) -> (out: Signatures)
    ensures
        out == without_signature(t@, *ss, *s),
    decreases ss,
{
    match ss {
        Signatures::Nil => Signatures::Nil,
        Signatures::Cons(x, rest) => if define_same_signature(t, x, s) {
            define_without_signature(t, rest, s)
        } else {
            Signatures::Cons(
                Box::new(define_copied_signature(x)),
                Box::new(define_without_signature(t, rest, s)),
            )
        },
    }
}

pub fn define_has_cast(t: &Symbols, cs: &Casts, a: usize, b: usize) -> (out: bool)
    ensures
        out == has_cast(t@, *cs, a, b),
    decreases cs,
{
    match cs {
        Casts::Nil => false,
        Casts::Cons(x, y, _, rest) => (
            types_same(t, *x, a) && types_same(t, *y, b)
        ) || define_has_cast(t, rest, a, b),
    }
}

pub fn define_uses(t: &Symbols, by: &Option<Box<Signature>>, s: &Signature) -> (out: bool)
    ensures
        out == uses(t@, *by, *s),
{
    match by {
        None => false,
        Some(x) => define_same_signature(t, x, s),
    }
}

pub fn define_dependents(t: &Symbols, cs: &Casts, s: &Signature) -> (out: Casts)
    ensures
        out == dependents(t@, *cs, *s),
    decreases cs,
{
    match cs {
        Casts::Nil => Casts::Nil,
        Casts::Cons(a, b, by, rest) => if define_uses(t, by, s) {
            Casts::Cons(*a, *b, define_copied_by(by), Box::new(define_dependents(t, rest, s)))
        } else {
            define_dependents(t, rest, s)
        },
    }
}

pub fn define_independents(t: &Symbols, cs: &Casts, s: &Signature) -> (out: Casts)
    ensures
        out == independents(t@, *cs, *s),
    decreases cs,
{
    match cs {
        Casts::Nil => Casts::Nil,
        Casts::Cons(a, b, by, rest) => if define_uses(t, by, s) {
            define_independents(t, rest, s)
        } else {
            Casts::Cons(*a, *b, define_copied_by(by), Box::new(define_independents(t, rest, s)))
        },
    }
}

pub fn define_known(t: &Symbols, d: &Defined, n: usize) -> (out: bool)
    ensures
        out == known(t@, *d, n),
{
    builtin(t, n) || fields::ident_in(&d.types, n)
}

pub fn define_unknown_in(t: &Symbols, d: &Defined, ns: &Idents) -> (out: Option<usize>)
    ensures
        out == unknown_in(t@, *d, *ns),
    decreases ns,
{
    match ns {
        Idents::Nil => None,
        Idents::Cons(n, rest) => if define_known(t, d, *n) {
            define_unknown_in(t, d, rest)
        } else {
            Some(*n)
        },
    }
}

pub fn define_duplicate(d: &Defined) -> (out: Defined)
    ensures
        out == duplicate(*d),
{
    Defined {
        types: d.types.copy(),
        casts: define_copied_casts(&d.casts),
        functions: define_copied_signatures(&d.functions),
    }
}

pub fn define_tag(def: &Def) -> (out: Tag)
    ensures
        out == tag(*def),
{
    match def {
        Def::Type(_) => Tag::CreateType,
        Def::Cast(_, _, _) => Tag::CreateCast,
        Def::Function(_, _) => Tag::CreateFunction,
        Def::DropFunction(_, _, _) => Tag::DropFunction,
    }
}

pub fn define_after(t: &Symbols, d: &Defined, def: &Def) -> (out: Result<Defined, Fault>)
    ensures
        out == after(t@, *d, *def),
{
    match def {
        Def::Type(n) => if builtin(t, *n) || fields::ident_in(&d.types, *n) {
            Err(Fault::TypeExists { name: *n })
        } else {
            Ok(
                Defined {
                    types: Idents::Cons(*n, Box::new(d.types.copy())),
                    casts: define_copied_casts(&d.casts),
                    functions: define_copied_signatures(&d.functions),
                },
            )
        },
        Def::Cast(a, b, by) => define_with_cast(t, d, *a, *b, by),
        Def::Function(s, result) => if !define_known(t, d, *result) {
            Err(Fault::TypeMissing { name: *result })
        } else {
            match define_unknown_in(t, d, &s.args) {
                Some(n) => Err(Fault::TypeMissing { name: n }),
                None => if define_has_signature(t, &d.functions, s) {
                    Err(Fault::FunctionExists { name: s.name })
                } else {
                    Ok(
                        Defined {
                            types: d.types.copy(),
                            casts: define_copied_casts(&d.casts),
                            functions: Signatures::Cons(
                                Box::new(define_copied_signature(s)),
                                Box::new(define_copied_signatures(&d.functions)),
                            ),
                        },
                    )
                },
            }
        },
        Def::DropFunction(s, quiet, cascade) => if !define_has_signature(t, &d.functions, s) {
            if *quiet {
                Ok(define_duplicate(d))
            } else {
                Err(Fault::UndefinedFunction { name: s.name })
            }
        } else {
            match (define_dependents(t, &d.casts, s), *cascade) {
                (Casts::Cons(_, _, _, _), false) => Err(Fault::FunctionInUse { name: s.name }),
                _ => Ok(
                    Defined {
                        types: d.types.copy(),
                        casts: define_independents(t, &d.casts, s),
                        functions: define_without_signature(t, &d.functions, s),
                    },
                ),
            }
        },
    }
}

pub fn define_with_cast(
    t: &Symbols,
    d: &Defined,
    a: usize,
    b: usize,
    by: &Option<Box<Signature>>,
) -> (out: Result<Defined, Fault>)
    ensures
        out == with_cast(t@, *d, a, b, *by),
{
    if !define_known(t, d, a) {
        Err(Fault::TypeMissing { name: a })
    } else if !define_known(t, d, b) {
        Err(Fault::TypeMissing { name: b })
    } else if define_has_cast(t, &d.casts, a, b) {
        Err(Fault::CastExists { source: a, target: b })
    } else {
        match by {
            Some(s) => if define_has_signature(t, &d.functions, s) {
                Ok(
                    Defined {
                        types: d.types.copy(),
                        casts: Casts::Cons(
                            a,
                            b,
                            define_copied_by(by),
                            Box::new(define_copied_casts(&d.casts)),
                        ),
                        functions: define_copied_signatures(&d.functions),
                    },
                )
            } else {
                Err(Fault::UndefinedFunction { name: s.name })
            },
            None => Ok(
                Defined {
                    types: d.types.copy(),
                    casts: Casts::Cons(a, b, None, Box::new(define_copied_casts(&d.casts))),
                    functions: define_copied_signatures(&d.functions),
                },
            ),
        }
    }
}

} // verus!
