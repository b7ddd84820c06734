//! Tables, schemas, sequences, roles and privileges.

use vstd::prelude::*;
use crate::ast::Column;
use crate::ast::Columns;
use crate::ast::Idents;
use crate::ast::Name;
use crate::ast::Privileges;
use crate::datum::Tuple;
use crate::relation;
use crate::symbols;

verus! {

/// A table: its name, the role that made it, its columns and rows.
#[derive(Debug)]
pub struct Table {
    pub schema: usize,
    pub name: usize,
    pub owner: usize,
    pub columns: Columns,
    pub rows: Vec<Tuple>,
}

/// What a table holds.
#[verifier::ext_equal]
pub struct TableModel {
    pub schema: usize,
    pub name: usize,
    pub owner: usize,
    pub columns: Columns,
    pub rows: Seq<Tuple>,
}

/// A role. Its password is kept as it was given.
#[derive(Clone, Copy, Debug)]
pub struct Role {
    pub name: usize,
    pub superuser: bool,
    pub login: bool,
    pub password: Option<usize>,
}

/// What privileges are held on.
#[derive(Clone, Copy, PartialEq, Eq, Debug, Structural)]
pub enum Object {
    Table(usize, usize),
    Schema(usize),
}

/// The privileges of a role on an object.
#[derive(Clone, Copy, PartialEq, Eq, Debug, Structural)]
pub struct Grant {
    pub role: usize,
    pub object: Object,
    pub privileges: Privileges,
}

#[derive(Clone, Copy, PartialEq, Eq, Debug, Structural)]
pub struct Sequence {
    pub schema: usize,
    pub name: usize,
}

/// The values that were last drawn from sequences. From one that is not there none was.
#[derive(Debug)]
pub enum Draws {
    Nil,
    Cons(Sequence, i64, Box<Draws>),
}

/// The value that was last drawn from a sequence, or zero.
pub open spec fn last_drawn(ds: Draws, s: Sequence) -> i64
    decreases ds,
{
    match ds {
        Draws::Nil => 0,
        Draws::Cons(x, n, rest) => if x == s {
            n
        } else {
            last_drawn(*rest, s)
        },
    }
}

/// The values without those from a sequence.
pub open spec fn without_drawn(ds: Draws, s: Sequence) -> Draws
    decreases ds,
{
    match ds {
        Draws::Nil => Draws::Nil,
        Draws::Cons(x, n, rest) => if x == s {
            without_drawn(*rest, s)
        } else {
            Draws::Cons(x, n, Box::new(without_drawn(*rest, s)))
        },
    }
}

/// The values after one was drawn from a sequence.
pub open spec fn with_drawn(ds: Draws, s: Sequence, n: i64) -> Draws {
    Draws::Cons(s, n, Box::new(without_drawn(ds, s)))
}

/// The values without those from the sequences of a schema.
pub open spec fn drawn_outside(ds: Draws, schema: usize) -> Draws
    decreases ds,
{
    match ds {
        Draws::Nil => Draws::Nil,
        Draws::Cons(x, n, rest) => if x.schema == schema {
            drawn_outside(*rest, schema)
        } else {
            Draws::Cons(x, n, Box::new(drawn_outside(*rest, schema)))
        },
    }
}

/// Without those from one sequence, the values from another are what they were.
pub proof fn lemma_without_drawn(ds: Draws, s: Sequence, other: Sequence)
    requires
        other != s,
    ensures
        last_drawn(without_drawn(ds, s), other) == last_drawn(ds, other),
    decreases ds,
{
    if let Draws::Cons(_, _, rest) = ds {
        lemma_without_drawn(*rest, s, other);
    }
}

impl Draws {
    pub fn copy(&self) -> (r: Draws)
        ensures
            r == *self,
        decreases self,
    {
        match self {
            Draws::Nil => Draws::Nil,
            Draws::Cons(x, n, rest) => Draws::Cons(*x, *n, Box::new(rest.copy())),
        }
    }

    /// The value that was last drawn from a sequence, or zero.
    pub fn last(&self, s: Sequence) -> (r: i64)
        ensures
            r == last_drawn(*self, s),
        decreases self,
    {
        match self {
            Draws::Nil => 0,
            Draws::Cons(x, n, rest) => if *x == s {
                *n
            } else {
                rest.last(s)
            },
        }
    }

    /// The values without those from a sequence.
    pub fn without(&self, s: Sequence) -> (r: Draws)
        ensures
            r == without_drawn(*self, s),
        decreases self,
    {
        match self {
            Draws::Nil => Draws::Nil,
            Draws::Cons(x, n, rest) => if *x == s {
                rest.without(s)
            } else {
                Draws::Cons(*x, *n, Box::new(rest.without(s)))
            },
        }
    }

    /// The values after one was drawn from a sequence.
    pub fn with(&self, s: Sequence, n: i64) -> (r: Draws)
        ensures
            r == with_drawn(*self, s, n),
    {
        Draws::Cons(s, n, Box::new(self.without(s)))
    }

    /// The values without those from the sequences of a schema.
    pub fn outside(&self, schema: usize) -> (r: Draws)
        ensures
            r == drawn_outside(*self, schema),
        decreases self,
    {
        match self {
            Draws::Nil => Draws::Nil,
            Draws::Cons(x, n, rest) => if x.schema == schema {
                rest.outside(schema)
            } else {
                Draws::Cons(*x, *n, Box::new(rest.outside(schema)))
            },
        }
    }
}

/// That a role is a member of another, who made it one, and whether it may make others
/// members.
#[derive(Clone, Copy, PartialEq, Eq, Debug, Structural)]
pub struct Member {
    pub role: usize,
    pub member: usize,
    pub grantor: usize,
    pub admin: bool,
}

/// All that statements read and change.
#[derive(Debug)]
pub struct Db {
    pub tables: Vec<Table>,
    pub schemas: Vec<usize>,
    pub sequences: Vec<Sequence>,
    pub roles: Vec<Role>,
    pub grants: Vec<Grant>,
    pub members: Vec<Member>,
    pub draws: Draws,
}

#[verifier::ext_equal]
pub struct DbModel {
    pub tables: Seq<TableModel>,
    pub schemas: Seq<usize>,
    pub sequences: Seq<Sequence>,
    pub roles: Seq<Role>,
    pub grants: Seq<Grant>,
    pub members: Seq<Member>,
    pub draws: Draws,
}

impl View for Table {
    type V = TableModel;

    open spec fn view(&self) -> TableModel {
        TableModel {
            schema: self.schema,
            name: self.name,
            owner: self.owner,
            columns: self.columns,
            rows: self.rows@,
        }
    }
}

pub open spec fn tables_view(v: Seq<Table>) -> Seq<TableModel> {
    v.map_values(|t: Table| t@)
}

impl View for Db {
    type V = DbModel;

    open spec fn view(&self) -> DbModel {
        DbModel {
            tables: tables_view(self.tables@),
            schemas: self.schemas@,
            sequences: self.sequences@,
            roles: self.roles@,
            grants: self.grants@,
            members: self.members@,
            draws: self.draws,
        }
    }
}

/// A database with nothing in it but the schema `public`.
pub open spec fn empty_db() -> DbModel {
    DbModel {
        tables: Seq::empty(),
        schemas: seq![symbols::PUBLIC],
        sequences: Seq::empty(),
        roles: Seq::empty(),
        grants: Seq::empty(),
        members: Seq::empty(),
        draws: Draws::Nil,
    }
}

/// The first place at or after `from` of a table with the given name.
pub open spec fn table_place(ts: Seq<TableModel>, schema: usize, name: usize, from: int) -> Option<
    usize,
>
    decreases ts.len() - from,
{
    if from < 0 || from >= ts.len() {
        None
    } else if ts[from].schema == schema && ts[from].name == name {
        Some(from as usize)
    } else {
        table_place(ts, schema, name, from + 1)
    }
}

/// The table that a name without a schema means: that of the first schema of the
/// search path that has one.
pub open spec fn path_place(ts: Seq<TableModel>, path: Idents, name: usize) -> Option<usize>
    decreases path,
{
    match path {
        Idents::Nil => None,
        Idents::Cons(schema, rest) => match table_place(ts, schema, name, 0) {
            Some(i) => Some(i),
            None => path_place(ts, *rest, name),
        },
    }
}

/// The table that a name means.
pub open spec fn resolved(ts: Seq<TableModel>, path: Idents, n: Name) -> Option<usize> {
    match n.schema {
        Some(schema) => table_place(ts, schema, n.name, 0),
        None => path_place(ts, path, n.name),
    }
}

/// The schema that something new goes to when no schema is named: the first of
/// the search path that exists.
pub open spec fn creation_schema(schemas: Seq<usize>, path: Idents) -> Option<usize>
    decreases path,
{
    match path {
        Idents::Nil => None,
        Idents::Cons(schema, rest) => if schemas.contains(schema) {
            Some(schema)
        } else {
            creation_schema(schemas, *rest)
        },
    }
}

/// The place of the sequence with the given name.
pub open spec fn sequence_path_place(ss: Seq<Sequence>, path: Idents, name: usize) -> Option<usize>
    decreases path,
{
    match path {
        Idents::Nil => None,
        Idents::Cons(schema, rest) => match sequence_place(ss, Sequence { schema, name }, 0) {
            Some(i) => Some(i),
            None => sequence_path_place(ss, *rest, name),
        },
    }
}

pub open spec fn sequence_place(ss: Seq<Sequence>, s: Sequence, from: int) -> Option<usize>
    decreases ss.len() - from,
{
    if from < 0 || from >= ss.len() {
        None
    } else if ss[from] == s {
        Some(from as usize)
    } else {
        sequence_place(ss, s, from + 1)
    }
}

pub open spec fn sequence_resolved(ss: Seq<Sequence>, path: Idents, n: Name) -> Option<usize> {
    match n.schema {
        Some(schema) => sequence_place(ss, Sequence { schema, name: n.name }, 0),
        None => sequence_path_place(ss, path, n.name),
    }
}

/// The first place at or after `from` of a role with the given name.
pub open spec fn role_place(rs: Seq<Role>, name: usize, from: int) -> Option<usize>
    decreases rs.len() - from,
{
    if from < 0 || from >= rs.len() {
        None
    } else if rs[from].name == name {
        Some(from as usize)
    } else {
        role_place(rs, name, from + 1)
    }
}

pub open spec fn is_superuser(rs: Seq<Role>, name: usize) -> bool {
    match role_place(rs, name, 0) {
        Some(i) => rs[i as int].superuser,
        None => false,
    }
}

/// Whether a role may administer roles and privileges. As long as there is no
/// role at all, everyone may.
pub open spec fn may_administer(rs: Seq<Role>, name: usize) -> bool {
    rs.len() == 0 || is_superuser(rs, name)
}

/// The first place at or after `from` of the privileges of a role on an object.
pub open spec fn grant_place(
    gs: Seq<Grant>,
    role: usize,
    object: Object,
    from: int,
) -> Option<usize>
    decreases gs.len() - from,
{
    if from < 0 || from >= gs.len() {
        None
    } else if gs[from].role == role && gs[from].object == object {
        Some(from as usize)
    } else {
        grant_place(gs, role, object, from + 1)
    }
}

pub open spec fn both_privileges(a: Privileges, b: Privileges) -> Privileges {
    Privileges {
        select: a.select || b.select,
        insert: a.insert || b.insert,
        update: a.update || b.update,
        delete: a.delete || b.delete,
        create: a.create || b.create,
    }
}

pub open spec fn without_privileges(a: Privileges, b: Privileges) -> Privileges {
    Privileges {
        select: a.select && !b.select,
        insert: a.insert && !b.insert,
        update: a.update && !b.update,
        delete: a.delete && !b.delete,
        create: a.create && !b.create,
    }
}

/// Whether `a` has all that is in `b`.
pub open spec fn covers(a: Privileges, b: Privileges) -> bool {
    both_privileges(a, b) == a
}

pub open spec fn no_privileges() -> Privileges {
    Privileges { select: false, insert: false, update: false, delete: false, create: false }
}

/// The privilege to read a table.
pub open spec fn reading() -> Privileges {
    Privileges { select: true, insert: false, update: false, delete: false, create: false }
}

/// The privilege to read a table.
pub fn to_read() -> (r: Privileges)
    ensures
        r == reading(),
{
    Privileges { select: true, insert: false, update: false, delete: false, create: false }
}

/// The privileges that a role holds on an object.
pub open spec fn held(gs: Seq<Grant>, role: usize, object: Object) -> Privileges {
    match grant_place(gs, role, object, 0) {
        Some(i) => gs[i as int].privileges,
        None => no_privileges(),
    }
}

/// The privileges after a grant.
pub open spec fn granted(gs: Seq<Grant>, role: usize, object: Object, p: Privileges) -> Seq<Grant> {
    match grant_place(gs, role, object, 0) {
        Some(i) => gs.update(
            i as int,
            (Grant { role, object, privileges: both_privileges(gs[i as int].privileges, p) }),
        ),
        None => gs.push((Grant { role, object, privileges: p })),
    }
}

/// The privileges after a revocation.
pub open spec fn revoked(gs: Seq<Grant>, role: usize, object: Object, p: Privileges) -> Seq<Grant> {
    match grant_place(gs, role, object, 0) {
        Some(i) => gs.update(
            i as int,
            (Grant { role, object, privileges: without_privileges(gs[i as int].privileges, p) }),
        ),
        None => gs,
    }
}

/// The privileges of all roles but one.
pub open spec fn without_role(gs: Seq<Grant>, role: usize) -> Seq<Grant>
    decreases gs.len(),
{
    if gs.len() == 0 {
        Seq::empty()
    } else if gs.last().role == role {
        without_role(gs.drop_last(), role)
    } else {
        without_role(gs.drop_last(), role).push(gs.last())
    }
}

/// The privileges on an object that a role holds itself or as a member of another, and
/// so on, in at most `fuel` steps.
pub open spec fn inherited(
    gs: Seq<Grant>,
    ms: Seq<Member>,
    role: usize,
    object: Object,
    fuel: nat,
) -> Privileges
    decreases fuel, ms.len() + 1,
{
    inherited_from(gs, ms, role, object, fuel, ms.len())
}

/// The same, where only the first `n` memberships are looked at in the first step.
pub open spec fn inherited_from(
    gs: Seq<Grant>,
    ms: Seq<Member>,
    role: usize,
    object: Object,
    fuel: nat,
    n: nat,
) -> Privileges
    decreases fuel, n,
{
    if n == 0 || n > ms.len() {
        held(gs, role, object)
    } else {
        let before = inherited_from(gs, ms, role, object, fuel, (n - 1) as nat);
        let m = ms[n - 1];
        if m.member == role && fuel > 0 {
            both_privileges(before, inherited(gs, ms, m.role, object, (fuel - 1) as nat))
        } else {
            before
        }
    }
}

/// Whether a role is another or a member of it, and so on, in at most `fuel` steps.
pub open spec fn belongs(ms: Seq<Member>, role: usize, to: usize, fuel: nat) -> bool
    decreases fuel, ms.len() + 1,
{
    role == to || belongs_from(ms, role, to, fuel, ms.len())
}

/// The same, where only the first `n` memberships are looked at in the first step.
pub open spec fn belongs_from(ms: Seq<Member>, role: usize, to: usize, fuel: nat, n: nat) -> bool
    decreases fuel, n,
{
    if n == 0 || n > ms.len() {
        false
    } else {
        let m = ms[n - 1];
        ||| belongs_from(ms, role, to, fuel, (n - 1) as nat)
        ||| m.member == role && fuel > 0 && belongs(ms, m.role, to, (fuel - 1) as nat)
    }
}

/// The memberships without those that a role has a part in.
pub open spec fn without_memberships(ms: Seq<Member>, role: usize) -> Seq<Member>
    decreases ms.len(),
{
    if ms.len() == 0 {
        Seq::empty()
    } else if ms.last().role == role || ms.last().member == role {
        without_memberships(ms.drop_last(), role)
    } else {
        without_memberships(ms.drop_last(), role).push(ms.last())
    }
}

/// Whether a role may do to a table what `want` says: everyone may as long as
/// there is no role, and a superuser and the owner always may.
pub open spec fn allowed(db: DbModel, user: usize, t: TableModel, want: Privileges) -> bool {
    ||| may_administer(db.roles, user)
    ||| t.owner == user
    ||| covers(
        inherited(
            db.grants,
            db.members,
            user,
            Object::Table(t.schema, t.name),
            db.members.len(),
        ),
        want,
    )
}

pub open spec fn columns_len(cs: Columns) -> nat
    decreases cs,
{
    match cs {
        Columns::Nil => 0,
        Columns::Cons(_, rest) => 1 + columns_len(*rest),
    }
}

/// The place of the column with the given name, counted from `at`.
pub open spec fn column_place(cs: Columns, name: usize, at: nat) -> Option<nat>
    decreases cs,
{
    match cs {
        Columns::Nil => None,
        Columns::Cons(c, rest) => if c.name == name {
            Some(at)
        } else {
            column_place(*rest, name, at + 1)
        },
    }
}

pub open spec fn column_named(cs: Columns, name: usize) -> Option<Column>
    decreases cs,
{
    match cs {
        Columns::Nil => None,
        Columns::Cons(c, rest) => if c.name == name {
            Some(c)
        } else {
            column_named(*rest, name)
        },
    }
}

pub open spec fn columns_append(a: Columns, b: Columns) -> Columns
    decreases a,
{
    match a {
        Columns::Nil => b,
        Columns::Cons(c, rest) => Columns::Cons(c, Box::new(columns_append(*rest, b))),
    }
}

impl Columns {
    pub fn copy(&self) -> (r: Columns)
        ensures
            r == *self,
        decreases self,
    {
        match self {
            Columns::Nil => Columns::Nil,
            Columns::Cons(c, rest) => Columns::Cons(*c, Box::new(rest.copy())),
        }
    }

    /// The column with the given name.
    pub fn named(&self, name: usize) -> (r: Option<Column>)
        ensures
            r == column_named(*self, name),
        decreases self,
    {
        match self {
            Columns::Nil => None,
            Columns::Cons(c, rest) => if c.name == name {
                Some(*c)
            } else {
                rest.named(name)
            },
        }
    }
}

impl Idents {
    pub fn copy(&self) -> (r: Idents)
        ensures
            r == *self,
        decreases self,
    {
        match self {
            Idents::Nil => Idents::Nil,
            Idents::Cons(n, rest) => Idents::Cons(*n, Box::new(rest.copy())),
        }
    }
}

impl Table {
    pub fn copy(&self) -> (r: Table)
        ensures
            r@ == self@,
    {
        Table {
            schema: self.schema,
            name: self.name,
            owner: self.owner,
            columns: self.columns.copy(),
            rows: relation::copy_rows(&self.rows),
        }
    }
}

/// A copy of a list of values.
pub fn copy_values<T: Copy>(v: &Vec<T>) -> (r: Vec<T>)
    ensures
        r@ == v@,
{
    let mut r: Vec<T> = Vec::new();
    let mut i: usize = 0;
    while i < v.len()
        invariant
            i <= v.len(),
            r@ =~= v@.take(i as int),
        decreases v.len() - i,
    {
        r.push(v[i]);
        i += 1;
    }
    r
}

/// The privileges of `a` and `b` together.
pub fn join_privileges(a: Privileges, b: Privileges) -> (r: Privileges)
    ensures
        r == both_privileges(a, b),
{
    Privileges {
        select: a.select || b.select,
        insert: a.insert || b.insert,
        update: a.update || b.update,
        delete: a.delete || b.delete,
        create: a.create || b.create,
    }
}

impl Db {
    /// A database with nothing in it but the schema `public`.
    pub fn new() -> (r: Db)
        ensures
            r@ == empty_db(),
    {
        let r: Db = Db {
            tables: Vec::new(),
            schemas: vec![symbols::PUBLIC],
            sequences: Vec::new(),
            roles: Vec::new(),
            grants: Vec::new(),
            members: Vec::new(),
            draws: Draws::Nil,
        };
        assert(r@ =~= empty_db());
        r
    }

    /// A copy of the database.
    pub fn copy(&self) -> (r: Db)
        ensures
            r@ == self@,
    {
        let mut tables: Vec<Table> = Vec::new();
        let mut i: usize = 0;
        while i < self.tables.len()
            invariant
                i <= self.tables.len(),
                tables_view(tables@) == tables_view(self.tables@).take(i as int),
            decreases self.tables.len() - i,
        {
            let ghost before = tables@;
            let t: Table = self.tables[i].copy();
            tables.push(t);
            proof {
                assert(tables_view(tables@) =~= tables_view(before).push(t@));
                assert(tables_view(self.tables@).take(i + 1) =~= tables_view(self.tables@).take(
                    i as int,
                ).push(t@));
            }
            i += 1;
        }
        let r: Db = Db {
            tables,
            schemas: copy_values(&self.schemas),
            sequences: copy_values(&self.sequences),
            roles: copy_values(&self.roles),
            grants: copy_values(&self.grants),
            members: copy_values(&self.members),
            draws: self.draws.copy(),
        };
        assert(r@ =~= self@);
        r
    }

    /// The place of the table with the given name.
    pub fn table(&self, schema: usize, name: usize) -> (r: Option<usize>)
        ensures
            r == table_place(self@.tables, schema, name, 0),
            r is Some ==> r.unwrap() < self.tables.len(),
    {
        let mut i: usize = 0;
        while i < self.tables.len()
            invariant
                i <= self.tables.len(),
                table_place(self@.tables, schema, name, 0) == table_place(
                    self@.tables,
                    schema,
                    name,
                    i as int,
                ),
            decreases self.tables.len() - i,
        {
            if self.tables[i].schema == schema && self.tables[i].name == name {
                return Some(i);
            }
            i += 1;
        }
        None
    }

    fn table_on_path(&self, path: &Idents, name: usize) -> (r: Option<usize>)
        ensures
            r == path_place(self@.tables, *path, name),
            r is Some ==> r.unwrap() < self.tables.len(),
        decreases path,
    {
        match path {
            Idents::Nil => None,
            Idents::Cons(schema, rest) => match self.table(*schema, name) {
                Some(i) => Some(i),
                None => self.table_on_path(rest, name),
            },
        }
    }

    /// The place of the table that a name means.
    pub fn resolve(&self, path: &Idents, n: Name) -> (r: Option<usize>)
        ensures
            r == resolved(self@.tables, *path, n),
            r is Some ==> r.unwrap() < self.tables.len(),
    {
        match n.schema {
            Some(schema) => self.table(schema, n.name),
            None => self.table_on_path(path, n.name),
        }
    }

    /// Whether there is a schema of the given name.
    pub fn has_schema(&self, name: usize) -> (r: bool)
        ensures
            r == self@.schemas.contains(name),
    {
        let mut i: usize = 0;
        while i < self.schemas.len()
            invariant
                i <= self.schemas.len(),
                forall|j: int| 0 <= j < i ==> self.schemas@[j] != name,
            decreases self.schemas.len() - i,
        {
            if self.schemas[i] == name {
                return true;
            }
            i += 1;
        }
        false
    }

    /// The schema that something new goes to when no schema is named.
    pub fn schema_for_new(&self, path: &Idents) -> (r: Option<usize>)
        ensures
            r == creation_schema(self@.schemas, *path),
        decreases path,
    {
        match path {
            Idents::Nil => None,
            Idents::Cons(schema, rest) => if self.has_schema(*schema) {
                Some(*schema)
            } else {
                self.schema_for_new(rest)
            },
        }
    }

    /// The place of a sequence.
    pub fn sequence(&self, s: Sequence) -> (r: Option<usize>)
        ensures
            r == sequence_place(self@.sequences, s, 0),
            r is Some ==> r.unwrap() < self.sequences.len(),
    {
        let mut i: usize = 0;
        while i < self.sequences.len()
            invariant
                i <= self.sequences.len(),
                sequence_place(self@.sequences, s, 0) == sequence_place(
                    self@.sequences,
                    s,
                    i as int,
                ),
            decreases self.sequences.len() - i,
        {
            if self.sequences[i] == s {
                return Some(i);
            }
            i += 1;
        }
        None
    }

    fn sequence_on_path(&self, path: &Idents, name: usize) -> (r: Option<usize>)
        ensures
            r == sequence_path_place(self@.sequences, *path, name),
            r is Some ==> r.unwrap() < self.sequences.len(),
        decreases path,
    {
        match path {
            Idents::Nil => None,
            Idents::Cons(schema, rest) => match self.sequence(Sequence { schema: *schema, name }) {
                Some(i) => Some(i),
                None => self.sequence_on_path(rest, name),
            },
        }
    }

    /// The place of the sequence that a name means.
    pub fn resolve_sequence(&self, path: &Idents, n: Name) -> (r: Option<usize>)
        ensures
            r == sequence_resolved(self@.sequences, *path, n),
            r is Some ==> r.unwrap() < self.sequences.len(),
    {
        match n.schema {
            Some(schema) => self.sequence(Sequence { schema, name: n.name }),
            None => self.sequence_on_path(path, n.name),
        }
    }

    /// The place of the role with the given name.
    pub fn role(&self, name: usize) -> (r: Option<usize>)
        ensures
            r == role_place(self@.roles, name, 0),
            r is Some ==> r.unwrap() < self.roles.len(),
    {
        let mut i: usize = 0;
        while i < self.roles.len()
            invariant
                i <= self.roles.len(),
                role_place(self@.roles, name, 0) == role_place(self@.roles, name, i as int),
            decreases self.roles.len() - i,
        {
            if self.roles[i].name == name {
                return Some(i);
            }
            i += 1;
        }
        None
    }

    /// Whether a role may administer roles and privileges.
    pub fn administers(&self, name: usize) -> (r: bool)
        ensures
            r == may_administer(self@.roles, name),
    {
        self.roles.len() == 0 || match self.role(name) {
            Some(i) => self.roles[i].superuser,
            None => false,
        }
    }

    fn grant_at(&self, role: usize, object: Object) -> (r: Option<usize>)
        ensures
            r == grant_place(self@.grants, role, object, 0),
            r is Some ==> r.unwrap() < self.grants.len(),
    {
        let mut i: usize = 0;
        while i < self.grants.len()
            invariant
                i <= self.grants.len(),
                grant_place(self@.grants, role, object, 0) == grant_place(
                    self@.grants,
                    role,
                    object,
                    i as int,
                ),
            decreases self.grants.len() - i,
        {
            if self.grants[i].role == role && self.grants[i].object == object {
                return Some(i);
            }
            i += 1;
        }
        None
    }

    /// Whether a role may do to the table at place `i` what `want` says.
    pub fn allows(&self, user: usize, i: usize, want: Privileges) -> (r: bool)
        requires
            i < self.tables.len(),
        ensures
            r == allowed(self@, user, self@.tables[i as int], want),
    {
        if self.administers(user) || self.tables[i].owner == user {
            return true;
        }
        let object: Object = Object::Table(self.tables[i].schema, self.tables[i].name);
        let have: Privileges = self.inherits(user, object, self.members.len());
        join_privileges(have, want) == have
    }

    /// The privileges on an object that a role holds itself.
    pub fn holds(&self, role: usize, object: Object) -> (r: Privileges)
        ensures
            r == held(self@.grants, role, object),
    {
        match self.grant_at(role, object) {
            Some(k) => self.grants[k].privileges,
            None => Privileges {
                select: false,
                insert: false,
                update: false,
                delete: false,
                create: false,
            },
        }
    }

    fn inherits(&self, role: usize, object: Object, fuel: usize) -> (r: Privileges)
        ensures
            r == inherited(self@.grants, self@.members, role, object, fuel as nat),
        decreases fuel,
    {
        let ghost gs = self@.grants;
        let ghost ms = self@.members;
        let mut have: Privileges = self.holds(role, object);
        let mut n: usize = 0;
        while n < self.members.len()
            invariant
                n <= self.members.len(),
                gs == self@.grants,
                ms == self@.members,
                have == inherited_from(gs, ms, role, object, fuel as nat, n as nat),
            decreases self.members.len() - n,
        {
            let m: Member = self.members[n];
            if m.member == role && fuel > 0 {
                have = join_privileges(have, self.inherits(m.role, object, fuel - 1));
            }
            n += 1;
        }
        have
    }

    /// Whether a role is another or a member of it, and so on.
    pub fn belongs_to(&self, role: usize, to: usize, fuel: usize) -> (r: bool)
        ensures
            r == belongs(self@.members, role, to, fuel as nat),
        decreases fuel,
    {
        let ghost ms = self@.members;
        if role == to {
            return true;
        }
        let mut found: bool = false;
        let mut n: usize = 0;
        while n < self.members.len()
            invariant
                n <= self.members.len(),
                ms == self@.members,
                found == belongs_from(ms, role, to, fuel as nat, n as nat),
            decreases self.members.len() - n,
        {
            let m: Member = self.members[n];
            if m.member == role && fuel > 0 {
                let more: bool = self.belongs_to(m.role, to, fuel - 1);
                found = found || more;
            }
            n += 1;
        }
        found
    }

    /// Grants privileges to a role.
    pub fn grant(&mut self, role: usize, object: Object, p: Privileges)
        ensures
            final(self)@ == (DbModel {
                grants: granted(old(self)@.grants, role, object, p),
                ..old(self)@
            }),
    {
        match self.grant_at(role, object) {
            Some(i) => {
                let privileges: Privileges = join_privileges(self.grants[i].privileges, p);
                self.grants.set(i, Grant { role, object, privileges });
            },
            None => {
                self.grants.push(Grant { role, object, privileges: p });
            },
        }
    }

    /// Takes privileges from a role.
    pub fn revoke(&mut self, role: usize, object: Object, p: Privileges)
        ensures
            final(self)@ == (DbModel {
                grants: revoked(old(self)@.grants, role, object, p),
                ..old(self)@
            }),
    {
        match self.grant_at(role, object) {
            Some(i) => {
                let a: Privileges = self.grants[i].privileges;
                let privileges: Privileges = Privileges {
                    select: a.select && !p.select,
                    insert: a.insert && !p.insert,
                    update: a.update && !p.update,
                    delete: a.delete && !p.delete,
                    create: a.create && !p.create,
                };
                self.grants.set(i, Grant { role, object, privileges });
            },
            None => {},
        }
    }

    /// Takes all privileges of a role away.
    pub fn forget_role(&mut self, name: usize)
        ensures
            final(self)@ == (DbModel {
                grants: without_role(old(self)@.grants, name),
                ..old(self)@
            }),
    {
        let mut kept: Vec<Grant> = Vec::new();
        let mut k: usize = 0;
        let ghost gs = self.grants@;
        while k < self.grants.len()
            invariant
                gs == self.grants@,
                k <= self.grants.len(),
                kept@ == without_role(gs.take(k as int), name),
            decreases self.grants.len() - k,
        {
            proof {
                assert(gs.take(k + 1).drop_last() =~= gs.take(k as int));
            }
            if self.grants[k].role != name {
                kept.push(self.grants[k]);
            }
            k += 1;
        }
        proof {
            assert(gs.take(k as int) =~= gs);
        }
        self.grants = kept;
    }

    /// Removes the role at place `i` and all its privileges.
    pub fn drop_role(&mut self, i: usize)
        requires
            i < old(self).roles.len(),
        ensures
            final(self)@ == (DbModel {
                roles: old(self)@.roles.remove(i as int),
                grants: without_role(old(self)@.grants, old(self)@.roles[i as int].name),
                members: without_memberships(
                    old(self)@.members,
                    old(self)@.roles[i as int].name,
                ),
                ..old(self)@
            }),
    {
        let name: usize = self.roles[i].name;
        self.roles.remove(i);
        self.forget_role(name);
        let ghost ms = self.members@;
        let mut kept: Vec<Member> = Vec::new();
        let mut k: usize = 0;
        while k < self.members.len()
            invariant
                ms == self.members@,
                k <= self.members.len(),
                kept@ == without_memberships(ms.take(k as int), name),
            decreases self.members.len() - k,
        {
            proof {
                assert(ms.take(k + 1).drop_last() =~= ms.take(k as int));
            }
            if self.members[k].role != name && self.members[k].member != name {
                kept.push(self.members[k]);
            }
            k += 1;
        }
        proof {
            assert(ms.take(k as int) =~= ms);
        }
        self.members = kept;
    }
}

proof fn lemma_grant_place(gs: Seq<Grant>, role: usize, object: Object, from: int)
    requires
        0 <= from <= gs.len(),
        gs.len() <= usize::MAX,
    ensures
        match grant_place(gs, role, object, from) {
            Some(i) => from <= i < gs.len() && gs[i as int].role == role && gs[i as int].object
                == object && forall|j: int|
                from <= j < i ==> !(gs[j].role == role && gs[j].object == object),
            None => forall|j: int|
                from <= j < gs.len() ==> !(gs[j].role == role && gs[j].object == object),
        },
    decreases gs.len() - from,
{
    if from < gs.len() && !(gs[from].role == role && gs[from].object == object) {
        lemma_grant_place(gs, role, object, from + 1);
    }
}

proof fn lemma_first_grant(gs: Seq<Grant>, role: usize, object: Object, from: int, i: int)
    requires
        0 <= from <= i < gs.len(),
        gs.len() <= usize::MAX,
        gs[i].role == role && gs[i].object == object,
        forall|j: int| from <= j < i ==> !(gs[j].role == role && gs[j].object == object),
    ensures
        grant_place(gs, role, object, from) == Some(i as usize),
    decreases i - from,
{
    if from < i {
        lemma_first_grant(gs, role, object, from + 1, i);
    }
}

/// A role that was granted privileges holds them, beside those that it had.
pub proof fn law_granted_is_held(gs: Seq<Grant>, role: usize, object: Object, p: Privileges)
    requires
        gs.len() < usize::MAX,
    ensures
        held(granted(gs, role, object, p), role, object) == both_privileges(
            held(gs, role, object),
            p,
        ),
        covers(held(granted(gs, role, object, p), role, object), p),
{
    lemma_grant_place(gs, role, object, 0);
    let after = granted(gs, role, object, p);
    match grant_place(gs, role, object, 0) {
        Some(i) => {
            lemma_first_grant(after, role, object, 0, i as int);
        },
        None => {
            lemma_first_grant(after, role, object, 0, gs.len() as int);
        },
    }
}

/// Granting the same privileges a second time changes nothing.
pub proof fn law_grant_idempotent(gs: Seq<Grant>, role: usize, object: Object, p: Privileges)
    requires
        gs.len() < usize::MAX,
    ensures
        granted(granted(gs, role, object, p), role, object, p) == granted(gs, role, object, p),
{
    lemma_grant_place(gs, role, object, 0);
    let once = granted(gs, role, object, p);
    match grant_place(gs, role, object, 0) {
        Some(i) => {
            lemma_first_grant(once, role, object, 0, i as int);
            assert(granted(once, role, object, p) =~= once);
        },
        None => {
            lemma_first_grant(once, role, object, 0, gs.len() as int);
            assert(granted(once, role, object, p) =~= once);
        },
    }
}

/// What was revoked is no longer held.
pub proof fn law_revoked_is_not_held(gs: Seq<Grant>, role: usize, object: Object, p: Privileges)
    requires
        gs.len() < usize::MAX,
    ensures
        held(revoked(gs, role, object, p), role, object) == without_privileges(
            held(gs, role, object),
            p,
        ),
{
    lemma_grant_place(gs, role, object, 0);
    match grant_place(gs, role, object, 0) {
        Some(i) => {
            lemma_first_grant(revoked(gs, role, object, p), role, object, 0, i as int);
        },
        None => {},
    }
}

/// A grant to one role leaves the privileges of every other role as they were.
pub proof fn law_grant_leaves_others(
    gs: Seq<Grant>,
    role: usize,
    object: Object,
    p: Privileges,
    other: usize,
    thing: Object,
)
    requires
        gs.len() < usize::MAX,
        other != role || thing != object,
    ensures
        held(granted(gs, role, object, p), other, thing) == held(gs, other, thing),
{
    lemma_grant_place(gs, role, object, 0);
    lemma_grant_place(gs, other, thing, 0);
    let after = granted(gs, role, object, p);
    lemma_grant_place(after, other, thing, 0);
    match grant_place(gs, other, thing, 0) {
        Some(i) => {
            lemma_first_grant(after, other, thing, 0, i as int);
        },
        None => {
            match grant_place(after, other, thing, 0) {
                Some(k) => {
                    assert(after[k as int].role == other && after[k as int].object == thing);
                    assert(k < gs.len() ==> gs[k as int].role == after[k as int].role && gs[k as int].object
                        == after[k as int].object);
                    assert(false);
                },
                None => {},
            }
        },
    }
}

/// Dropping a role takes all its privileges away.
pub proof fn law_dropped_role_holds_nothing(gs: Seq<Grant>, role: usize)
    ensures
        forall|i: int|
            0 <= i < without_role(gs, role).len() ==> (#[trigger] without_role(gs, role)[i]).role
                != role,
    decreases gs.len(),
{
    if gs.len() > 0 {
        law_dropped_role_holds_nothing(gs.drop_last(), role);
    }
}

} // verus!
