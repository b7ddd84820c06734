//! The columns of relations, and the rows that column references are looked up
//! in.

use vstd::prelude::*;
use crate::ast::Columns;
use crate::ast::Idents;
use crate::datum;
use crate::datum::DataType;
use crate::datum::Datum;
use crate::datum::Tuple;

verus! {

/// A column of a relation. It has no type where it holds null constants alone. A
/// hidden column is found by its qualified name alone.
#[derive(Clone, Copy, Debug)]
pub struct Field {
    pub qualifier: Option<usize>,
    pub name: usize,
    pub ty: Option<DataType>,
    pub nullable: bool,
    pub hidden: bool,
}

#[derive(Debug)]
pub enum Fields {
    Nil,
    Cons(Field, Box<Fields>),
}

/// The rows that are in scope, the innermost first, each with its columns.
#[derive(Clone, Copy, Debug)]
pub enum Env<'a> {
    Empty,
    Frame(&'a Fields, &'a Tuple, &'a Env<'a>),
}

/// Where a column reference leads.
#[derive(Clone, Copy, PartialEq, Eq, Debug, Structural)]
pub enum Found {
    Missing,
    One(usize),
    Many,
}

/// Places of columns that a join compares: one in the left relation and one in
/// the right relation each.
#[derive(Debug)]
pub enum Pairs {
    Nil,
    Cons(usize, usize, Box<Pairs>),
}

pub open spec fn same_qualifier(a: Option<usize>, b: Option<usize>) -> bool {
    match (a, b) {
        (None, None) => true,
        (Some(x), Some(y)) => x == y,
        _ => false,
    }
}

/// Whether a reference names a column.
pub open spec fn names_field(f: Field, qualifier: Option<usize>, name: usize) -> bool {
    f.name == name && match qualifier {
        None => !f.hidden,
        Some(_) => same_qualifier(f.qualifier, qualifier),
    }
}

/// The column that a reference names, with places counted from `at`.
pub open spec fn find_from(fs: Fields, qualifier: Option<usize>, name: usize, at: usize) -> Found
    decreases fs,
{
    match fs {
        Fields::Nil => Found::Missing,
        Fields::Cons(f, rest) => {
            let later = find_from(*rest, qualifier, name, next_place(at));
            if names_field(f, qualifier, name) {
                if later == Found::Missing {
                    Found::One(at)
                } else {
                    Found::Many
                }
            } else {
                later
            }
        },
    }
}

/// The place behind `at`; the greatest place has none.
pub open spec fn next_place(at: usize) -> usize {
    if at < usize::MAX {
        (at + 1) as usize
    } else {
        at
    }
}

pub open spec fn find(fs: Fields, qualifier: Option<usize>, name: usize) -> Found {
    find_from(fs, qualifier, name, 0)
}

pub open spec fn fields_len(fs: Fields) -> nat
    decreases fs,
{
    match fs {
        Fields::Nil => 0,
        Fields::Cons(_, rest) => 1 + fields_len(*rest),
    }
}

pub open spec fn field_at(fs: Fields, i: nat) -> Option<Field>
    decreases fs,
{
    match fs {
        Fields::Nil => None,
        Fields::Cons(f, rest) => if i == 0 {
            Some(f)
        } else {
            field_at(*rest, (i - 1) as nat)
        },
    }
}

pub open spec fn fields_append(a: Fields, b: Fields) -> Fields
    decreases a,
{
    match a {
        Fields::Nil => b,
        Fields::Cons(f, rest) => Fields::Cons(f, Box::new(fields_append(*rest, b))),
    }
}

/// The columns as they are seen under another relation name.
pub open spec fn requalified(fs: Fields, qualifier: usize) -> Fields
    decreases fs,
{
    match fs {
        Fields::Nil => Fields::Nil,
        Fields::Cons(f, rest) => Fields::Cons(
            Field {
                qualifier: Some(qualifier),
                name: f.name,
                ty: f.ty,
                nullable: f.nullable,
                hidden: false,
            },
            Box::new(requalified(*rest, qualifier)),
        ),
    }
}

/// The columns of a table under the name `qualifier`.
pub open spec fn table_fields(cs: Columns, qualifier: usize) -> Fields
    decreases cs,
{
    match cs {
        Columns::Nil => Fields::Nil,
        Columns::Cons(c, rest) => Fields::Cons(
            Field {
                qualifier: Some(qualifier),
                name: c.name,
                ty: Some(c.ty),
                nullable: !c.not_null,
                hidden: false,
            },
            Box::new(table_fields(*rest, qualifier)),
        ),
    }
}

/// The columns of a relation that an outer join can leave without a row.
pub open spec fn made_nullable(fs: Fields, all: bool) -> Fields
    decreases fs,
{
    match fs {
        Fields::Nil => Fields::Nil,
        Fields::Cons(f, rest) => Fields::Cons(
            Field {
                qualifier: f.qualifier,
                name: f.name,
                ty: f.ty,
                nullable: f.nullable || all,
                hidden: f.hidden,
            },
            Box::new(made_nullable(*rest, all)),
        ),
    }
}

pub open spec fn has_ident(names: Idents, n: usize) -> bool
    decreases names,
{
    match names {
        Idents::Nil => false,
        Idents::Cons(m, rest) => m == n || has_ident(*rest, n),
    }
}

/// The columns with those of the given names hidden.
pub open spec fn with_hidden(fs: Fields, names: Idents) -> Fields
    decreases fs,
{
    match fs {
        Fields::Nil => Fields::Nil,
        Fields::Cons(f, rest) => Fields::Cons(
            Field {
                qualifier: f.qualifier,
                name: f.name,
                ty: f.ty,
                nullable: f.nullable,
                hidden: f.hidden || has_ident(names, f.name),
            },
            Box::new(with_hidden(*rest, names)),
        ),
    }
}

/// The names of the visible columns of `a` that `b` has too.
pub open spec fn common_names(a: Fields, b: Fields) -> Idents
    decreases a,
{
    match a {
        Fields::Nil => Idents::Nil,
        Fields::Cons(f, rest) => if !f.hidden && find(b, None, f.name) != Found::Missing {
            Idents::Cons(f.name, Box::new(common_names(*rest, b)))
        } else {
            common_names(*rest, b)
        },
    }
}

/// The cells of the columns that are merged by a join: the left one, or the right
/// one where the left one is null.
pub open spec fn merged(ps: Pairs, l: Tuple, r: Tuple) -> Tuple
    decreases ps,
{
    match ps {
        Pairs::Nil => Tuple::Nil,
        Pairs::Cons(i, j, rest) => {
            let d = datum::cell(l, i as nat);
            Tuple::Cons(
                if d == Datum::Null {
                    datum::cell(r, j as nat)
                } else {
                    d
                },
                Box::new(merged(*rest, l, r)),
            )
        },
    }
}

/// The row that a join makes of a left and a right row.
pub open spec fn joined(ps: Pairs, l: Tuple, r: Tuple) -> Tuple {
    datum::tuple_append(merged(ps, l, r), datum::tuple_append(l, r))
}

/// The visible cells of a row.
pub open spec fn visible(fs: Fields, row: Tuple) -> Tuple
    decreases fs,
{
    match (fs, row) {
        (Fields::Cons(f, more), Tuple::Cons(d, rest)) => if f.hidden {
            visible(*more, *rest)
        } else {
            Tuple::Cons(d, Box::new(visible(*more, *rest)))
        },
        _ => Tuple::Nil,
    }
}

/// Columns under other names: the first ones get those of the list.
pub open spec fn renamed(fs: Fields, names: Idents) -> Fields
    decreases fs,
{
    match (fs, names) {
        (Fields::Cons(f, more), Idents::Cons(n, rest)) => Fields::Cons(
            Field { name: n, ..f },
            Box::new(renamed(*more, *rest)),
        ),
        _ => fs,
    }
}

/// The cells of a row that belong to one relation.
pub open spec fn cells_of(fs: Fields, row: Tuple, qualifier: usize) -> Tuple
    decreases fs,
{
    match (fs, row) {
        (Fields::Cons(f, more), Tuple::Cons(d, rest)) => if same_qualifier(
            f.qualifier,
            Some(qualifier),
        ) {
            Tuple::Cons(d, Box::new(cells_of(*more, *rest, qualifier)))
        } else {
            cells_of(*more, *rest, qualifier)
        },
        _ => Tuple::Nil,
    }
}

/// The visible columns.
pub open spec fn visible_fields(fs: Fields) -> Fields
    decreases fs,
{
    match fs {
        Fields::Nil => Fields::Nil,
        Fields::Cons(f, rest) => if f.hidden {
            visible_fields(*rest)
        } else {
            Fields::Cons(f, Box::new(visible_fields(*rest)))
        },
    }
}

/// The columns of one relation.
pub open spec fn fields_of(fs: Fields, qualifier: usize) -> Fields
    decreases fs,
{
    match fs {
        Fields::Nil => Fields::Nil,
        Fields::Cons(f, rest) => if same_qualifier(f.qualifier, Some(qualifier)) {
            Fields::Cons(f, Box::new(fields_of(*rest, qualifier)))
        } else {
            fields_of(*rest, qualifier)
        },
    }
}

/// The value that a column reference has in the rows in scope: that of the
/// innermost row that has such a column.
pub open spec fn env_cell(env: Env, qualifier: Option<usize>, name: usize) -> Option<
    Result<Datum, ()>,
>
    decreases env,
{
    match env {
        Env::Empty => None,
        Env::Frame(fs, row, outer) => match find(*fs, qualifier, name) {
            Found::One(i) => Some(Ok(datum::cell(*row, i as nat))),
            Found::Many => Some(Err(())),
            Found::Missing => env_cell(*outer, qualifier, name),
        },
    }
}

/// The column that a reference leads to, in the same way.
pub open spec fn env_field(env: Env, qualifier: Option<usize>, name: usize) -> Option<
    Result<Field, ()>,
>
    decreases env,
{
    match env {
        Env::Empty => None,
        Env::Frame(fs, row, outer) => match find(*fs, qualifier, name) {
            Found::One(i) => match field_at(*fs, i as nat) {
                Some(f) => Some(Ok(f)),
                None => None,
            },
            Found::Many => Some(Err(())),
            Found::Missing => env_field(*outer, qualifier, name),
        },
    }
}

pub fn qualifiers_agree(a: Option<usize>, b: Option<usize>) -> (r: bool)
    ensures
        r == same_qualifier(a, b),
{
    match (a, b) {
        (None, None) => true,
        (Some(x), Some(y)) => x == y,
        _ => false,
    }
}

fn is_named(f: &Field, qualifier: Option<usize>, name: usize) -> (r: bool)
    ensures
        r == names_field(*f, qualifier, name),
{
    f.name == name && match qualifier {
        None => !f.hidden,
        Some(_) => qualifiers_agree(f.qualifier, qualifier),
    }
}

impl Fields {
    fn locate_from(&self, qualifier: Option<usize>, name: usize, at: usize) -> (r: Found)
        ensures
            r == find_from(*self, qualifier, name, at),
        decreases self,
    {
        match self {
            Fields::Nil => Found::Missing,
            Fields::Cons(f, rest) => {
                let next: usize = if at < usize::MAX {
                    at + 1
                } else {
                    at
                };
                let later: Found = rest.locate_from(qualifier, name, next);
                if is_named(f, qualifier, name) {
                    if later == Found::Missing {
                        Found::One(at)
                    } else {
                        Found::Many
                    }
                } else {
                    later
                }
            },
        }
    }

    /// The column that a reference names.
    pub fn locate(&self, qualifier: Option<usize>, name: usize) -> (r: Found)
        ensures
            r == find(*self, qualifier, name),
    {
        self.locate_from(qualifier, name, 0)
    }

    pub fn at(&self, i: usize) -> (r: Option<Field>)
        ensures
            r == field_at(*self, i as nat),
        decreases self,
    {
        match self {
            Fields::Nil => None,
            Fields::Cons(f, rest) => if i == 0 {
                Some(*f)
            } else {
                rest.at(i - 1)
            },
        }
    }

    pub fn copy(&self) -> (r: Fields)
        ensures
            r == *self,
        decreases self,
    {
        match self {
            Fields::Nil => Fields::Nil,
            Fields::Cons(f, rest) => Fields::Cons(*f, Box::new(rest.copy())),
        }
    }

    pub fn append(&self, other: &Fields) -> (r: Fields)
        ensures
            r == fields_append(*self, *other),
        decreases self,
    {
        match self {
            Fields::Nil => other.copy(),
            Fields::Cons(f, rest) => Fields::Cons(*f, Box::new(rest.append(other))),
        }
    }

    pub fn under(&self, qualifier: usize) -> (r: Fields)
        ensures
            r == requalified(*self, qualifier),
        decreases self,
    {
        match self {
            Fields::Nil => Fields::Nil,
            Fields::Cons(f, rest) => Fields::Cons(
                Field {
                    qualifier: Some(qualifier),
                    name: f.name,
                    ty: f.ty,
                    nullable: f.nullable,
                    hidden: false,
                },
                Box::new(rest.under(qualifier)),
            ),
        }
    }

    pub fn of_table(cs: &Columns, qualifier: usize) -> (r: Fields)
        ensures
            r == table_fields(*cs, qualifier),
        decreases cs,
    {
        match cs {
            Columns::Nil => Fields::Nil,
            Columns::Cons(c, rest) => Fields::Cons(
                Field {
                    qualifier: Some(qualifier),
                    name: c.name,
                    ty: Some(c.ty),
                    nullable: !c.not_null,
                    hidden: false,
                },
                Box::new(Fields::of_table(rest, qualifier)),
            ),
        }
    }

    pub fn nullable_if(&self, all: bool) -> (r: Fields)
        ensures
            r == made_nullable(*self, all),
        decreases self,
    {
        match self {
            Fields::Nil => Fields::Nil,
            Fields::Cons(f, rest) => Fields::Cons(
                Field {
                    qualifier: f.qualifier,
                    name: f.name,
                    ty: f.ty,
                    nullable: f.nullable || all,
                    hidden: f.hidden,
                },
                Box::new(rest.nullable_if(all)),
            ),
        }
    }

    pub fn hiding(&self, names: &Idents) -> (r: Fields)
        ensures
            r == with_hidden(*self, *names),
        decreases self,
    {
        match self {
            Fields::Nil => Fields::Nil,
            Fields::Cons(f, rest) => Fields::Cons(
                Field {
                    qualifier: f.qualifier,
                    name: f.name,
                    ty: f.ty,
                    nullable: f.nullable,
                    hidden: f.hidden || ident_in(names, f.name),
                },
                Box::new(rest.hiding(names)),
            ),
        }
    }

    pub fn names_shared(&self, other: &Fields) -> (r: Idents)
        ensures
            r == common_names(*self, *other),
        decreases self,
    {
        match self {
            Fields::Nil => Idents::Nil,
            Fields::Cons(f, rest) => if !f.hidden && other.locate(None, f.name) != Found::Missing {
                Idents::Cons(f.name, Box::new(rest.names_shared(other)))
            } else {
                rest.names_shared(other)
            },
        }
    }

    pub fn only_visible(&self) -> (r: Fields)
        ensures
            r == visible_fields(*self),
        decreases self,
    {
        match self {
            Fields::Nil => Fields::Nil,
            Fields::Cons(f, rest) => if f.hidden {
                rest.only_visible()
            } else {
                Fields::Cons(*f, Box::new(rest.only_visible()))
            },
        }
    }

    pub fn only_of(&self, qualifier: usize) -> (r: Fields)
        ensures
            r == fields_of(*self, qualifier),
        decreases self,
    {
        match self {
            Fields::Nil => Fields::Nil,
            Fields::Cons(f, rest) => if qualifiers_agree(f.qualifier, Some(qualifier)) {
                Fields::Cons(*f, Box::new(rest.only_of(qualifier)))
            } else {
                rest.only_of(qualifier)
            },
        }
    }

    /// The cells of a row that are visible.
    /// Columns under other names.
    pub fn rename(&self, names: &Idents) -> (r: Fields)
        ensures
            r == renamed(*self, *names),
        decreases self,
    {
        match (self, names) {
            (Fields::Cons(f, more), Idents::Cons(n, rest)) => Fields::Cons(
                Field {
                    qualifier: f.qualifier,
                    name: *n,
                    ty: f.ty,
                    nullable: f.nullable,
                    hidden: f.hidden,
                },
                Box::new(more.rename(rest)),
            ),
            _ => self.copy(),
        }
    }

    pub fn visible_cells(&self, row: &Tuple) -> (r: Tuple)
        ensures
            r == visible(*self, *row),
        decreases self,
    {
        match (self, row) {
            (Fields::Cons(f, more), Tuple::Cons(d, rest)) => if f.hidden {
                more.visible_cells(rest)
            } else {
                Tuple::Cons(*d, Box::new(more.visible_cells(rest)))
            },
            _ => Tuple::Nil,
        }
    }

    /// Columns under other names: the first ones get those of the list.
pub open spec fn renamed(fs: Fields, names: Idents) -> Fields
    decreases fs,
{
    match (fs, names) {
        (Fields::Cons(f, more), Idents::Cons(n, rest)) => Fields::Cons(
            Field { name: n, ..f },
            Box::new(renamed(*more, *rest)),
        ),
        _ => fs,
    }
}

/// The cells of a row that belong to one relation.
    pub fn cells_under(&self, row: &Tuple, qualifier: usize) -> (r: Tuple)
        ensures
            r == cells_of(*self, *row, qualifier),
        decreases self,
    {
        match (self, row) {
            (Fields::Cons(f, more), Tuple::Cons(d, rest)) => if qualifiers_agree(
                f.qualifier,
                Some(qualifier),
            ) {
                Tuple::Cons(*d, Box::new(more.cells_under(rest, qualifier)))
            } else {
                more.cells_under(rest, qualifier)
            },
            _ => Tuple::Nil,
        }
    }
}

pub fn ident_in(names: &Idents, n: usize) -> (r: bool)
    ensures
        r == has_ident(*names, n),
    decreases names,
{
    match names {
        Idents::Nil => false,
        Idents::Cons(m, rest) => *m == n || ident_in(rest, n),
    }
}

impl Pairs {
    fn merge(&self, l: &Tuple, r: &Tuple) -> (row: Tuple)
        ensures
            row == merged(*self, *l, *r),
        decreases self,
    {
        match self {
            Pairs::Nil => Tuple::Nil,
            Pairs::Cons(i, j, rest) => {
                let d: Datum = l.cell_at(*i);
                Tuple::Cons(
                    if d == Datum::Null {
                        r.cell_at(*j)
                    } else {
                        d
                    },
                    Box::new(rest.merge(l, r)),
                )
            },
        }
    }

    /// The row that a join makes of a left and a right row.
    pub fn join(&self, l: &Tuple, r: &Tuple) -> (row: Tuple)
        ensures
            row == joined(*self, *l, *r),
    {
        self.merge(l, r).append(&l.append(r))
    }
}

impl<'a> Env<'a> {
    /// The value of a column reference.
    pub fn cell(&self, qualifier: Option<usize>, name: usize) -> (r: Option<Result<Datum, ()>>)
        ensures
            r == env_cell(*self, qualifier, name),
        decreases self,
    {
        match self {
            Env::Empty => None,
            Env::Frame(fs, row, outer) => match fs.locate(qualifier, name) {
                Found::One(i) => Some(Ok(row.cell_at(i))),
                Found::Many => Some(Err(())),
                Found::Missing => outer.cell(qualifier, name),
            },
        }
    }

    /// The column that a reference leads to.
    pub fn field(&self, qualifier: Option<usize>, name: usize) -> (r: Option<Result<Field, ()>>)
        ensures
            r == env_field(*self, qualifier, name),
        decreases self,
    {
        match self {
            Env::Empty => None,
            Env::Frame(fs, row, outer) => match fs.locate(qualifier, name) {
                Found::One(i) => match fs.at(i) {
                    Some(f) => Some(Ok(f)),
                    None => None,
                },
                Found::Many => Some(Err(())),
                Found::Missing => outer.field(qualifier, name),
            },
        }
    }
}

} // verus!
