//! Laws of roles, memberships and privileges.

use vstd::prelude::*;
use crate::analyze::CxModel;
use crate::ast::Grantee;
use crate::ast::Privileges;
use crate::ast::RoleOptions;
use crate::ast::Target;
use crate::catalog;
use crate::catalog::DbModel;
use crate::catalog::Grant;
use crate::catalog::Member;
use crate::catalog::Object;
use crate::catalog::Role;
use crate::catalog::TableModel;
use crate::change;
use crate::objects;
use crate::security::SecurityConfig;

verus! {

/// One privilege.
pub enum Right {
    Select,
    Insert,
    Update,
    Delete,
    Create,
}

/// Whether a privilege is among some.
pub open spec fn includes(p: Privileges, r: Right) -> bool {
    match r {
        Right::Select => p.select,
        Right::Insert => p.insert,
        Right::Update => p.update,
        Right::Delete => p.delete,
        Right::Create => p.create,
    }
}

/// Privileges together are all of both, without some those that are not among them; and they
/// cover others if each of those is among them.
pub proof fn law_privileges(a: Privileges, b: Privileges, r: Right)
    ensures
        includes(catalog::both_privileges(a, b), r) <==> includes(a, r) || includes(b, r),
        includes(catalog::without_privileges(a, b), r) <==> includes(a, r) && !includes(b, r),
        catalog::covers(a, b) <==> forall|x: Right| includes(b, x) ==> #[trigger] includes(a, x),
        !includes(catalog::no_privileges(), r),
{
    if forall|x: Right| includes(b, x) ==> #[trigger] includes(a, x) {
        assert(includes(b, Right::Select) ==> includes(a, Right::Select));
        assert(includes(b, Right::Insert) ==> includes(a, Right::Insert));
        assert(includes(b, Right::Update) ==> includes(a, Right::Update));
        assert(includes(b, Right::Delete) ==> includes(a, Right::Delete));
        assert(includes(b, Right::Create) ==> includes(a, Right::Create));
    }
}

/// Whether a role is a member of another.
pub open spec fn is_member(ms: Seq<Member>, member: usize, role: usize) -> bool {
    exists|j: int| 0 <= j < ms.len() && (#[trigger] ms[j]).member == member && ms[j].role == role
}

/// Whether the role at a place of a chain is a member of the next one.
pub open spec fn is_linked(ms: Seq<Member>, s: Seq<usize>, i: int) -> bool {
    is_member(ms, s[i], s[i + 1])
}

/// A chain of roles of which each is a member of the next one.
pub open spec fn is_chain(ms: Seq<Member>, s: Seq<usize>, from: usize, to: usize) -> bool {
    &&& s.len() > 0
    &&& s[0] == from
    &&& s[s.len() - 1] == to
    &&& forall|i: int| 0 <= i < s.len() - 1 ==> #[trigger] is_linked(ms, s, i)
}

proof fn lemma_step(ms: Seq<Member>, role: usize, next: usize, to: usize, s: Seq<usize>)
    requires
        is_member(ms, role, next),
        is_chain(ms, s, next, to),
    ensures
        is_chain(ms, seq![role] + s, role, to),
{
    let t = seq![role] + s;
    assert forall|i: int| 0 <= i < t.len() - 1 implies #[trigger] is_linked(ms, t, i) by {
        if i > 0 {
            assert(is_linked(ms, s, i - 1));
            assert(t[i] == s[i - 1] && t[i + 1] == s[i]);
        } else {
            assert(t[1] == s[0]);
        }
    }
}

proof fn lemma_rest(ms: Seq<Member>, s: Seq<usize>, from: usize, to: usize)
    requires
        is_chain(ms, s, from, to),
        s.len() > 1,
    ensures
        is_member(ms, from, s[1]),
        is_chain(ms, s.skip(1), s[1], to),
{
    assert(is_linked(ms, s, 0));
    let t = s.skip(1);
    assert forall|i: int| 0 <= i < t.len() - 1 implies #[trigger] is_linked(ms, t, i) by {
        assert(is_linked(ms, s, i + 1));
        assert(t[i] == s[i + 1] && t[i + 1] == s[i + 2]);
    }
}

/// Whether a chain of at most `n` memberships leads from a role to another.
pub open spec fn leads_within(ms: Seq<Member>, from: usize, to: usize, n: nat) -> bool {
    exists|s: Seq<usize>| #[trigger] is_chain(ms, s, from, to) && s.len() <= n + 1
}

proof fn lemma_belongs_leads(ms: Seq<Member>, role: usize, to: usize, fuel: nat, n: nat)
    requires
        n <= ms.len(),
    ensures
        catalog::belongs_from(ms, role, to, fuel, n) ==> leads_within(ms, role, to, fuel),
    decreases fuel, n,
{
    if n > 0 {
        let m = ms[n - 1];
        lemma_belongs_leads(ms, role, to, fuel, (n - 1) as nat);
        if m.member == role && fuel > 0 {
            let less = (fuel - 1) as nat;
            lemma_belongs_leads(ms, m.role, to, less, ms.len());
            if catalog::belongs(ms, m.role, to, less) {
                assert(is_member(ms, role, m.role));
                if m.role == to {
                    assert(is_chain(ms, seq![to], to, to));
                    lemma_step(ms, role, to, to, seq![to]);
                } else {
                    let s = choose|s: Seq<usize>| #[trigger]
                        is_chain(ms, s, m.role, to) && s.len() <= less + 1;
                    lemma_step(ms, role, m.role, to, s);
                }
            }
        }
    }
}

proof fn lemma_belongs_by(ms: Seq<Member>, role: usize, to: usize, fuel: nat, n: nat, j: int)
    requires
        0 <= j < n <= ms.len(),
        ms[j].member == role,
        fuel > 0,
        catalog::belongs(ms, ms[j].role, to, (fuel - 1) as nat),
    ensures
        catalog::belongs_from(ms, role, to, fuel, n),
    decreases n,
{
    if j < n - 1 {
        lemma_belongs_by(ms, role, to, fuel, (n - 1) as nat, j);
    }
}

proof fn lemma_leads_belongs(
    ms: Seq<Member>,
    role: usize,
    to: usize,
    fuel: nat,
    s: Seq<usize>,
)
    requires
        is_chain(ms, s, role, to),
        s.len() <= fuel + 1,
    ensures
        catalog::belongs(ms, role, to, fuel),
    decreases fuel,
{
    if s.len() > 1 {
        lemma_rest(ms, s, role, to);
        lemma_leads_belongs(ms, s[1], to, (fuel - 1) as nat, s.skip(1));
        let j = choose|j: int|
            0 <= j < ms.len() && (#[trigger] ms[j]).member == role && ms[j].role == s[1];
        lemma_belongs_by(ms, role, to, fuel, ms.len(), j);
    }
}

/// A role belongs to another within some steps exactly if a chain of at most that many
/// memberships leads from the one to the other.
pub proof fn law_belongs(ms: Seq<Member>, role: usize, to: usize, fuel: nat)
    ensures
        catalog::belongs(ms, role, to, fuel) <==> leads_within(ms, role, to, fuel),
{
    lemma_belongs_leads(ms, role, to, fuel, ms.len());
    if role == to {
        assert(is_chain(ms, seq![role], role, to));
    }
    if leads_within(ms, role, to, fuel) {
        let s = choose|s: Seq<usize>| #[trigger]
            is_chain(ms, s, role, to) && s.len() <= fuel + 1;
        lemma_leads_belongs(ms, role, to, fuel, s);
    }
}

/// The membership by which a chain goes on at a place.
spec fn link_at(ms: Seq<Member>, s: Seq<usize>, i: int) -> int {
    choose|j: int| 0 <= j < ms.len() && (#[trigger] ms[j]).member == s[i] && ms[j].role == s[i + 1]
}

proof fn lemma_same_link(ms: Seq<Member>, s: Seq<usize>, from: usize, to: usize)
    requires
        is_chain(ms, s, from, to),
        s.len() > ms.len() + 1,
    ensures
        exists|a: int, b: int| 0 <= a < b < s.len() && #[trigger] s[a] == #[trigger] s[b],
{
    let n = (s.len() - 1) as nat;
    let links = Seq::new(n, |i: int| link_at(ms, s, i));
    assert forall|i: int| 0 <= i < n implies 0 <= #[trigger] links[i] < ms.len() && ms[links[i]].member
        == s[i] by {
        assert(is_linked(ms, s, i));
    }
    if links.no_duplicates() {
        links.unique_seq_to_set();
        let all = vstd::set_lib::set_int_range(0, ms.len() as int);
        vstd::set_lib::lemma_int_range(0, ms.len() as int);
        assert forall|x: int| links.to_set().contains(x) implies all.contains(x) by {
            let i = choose|i: int| 0 <= i < links.len() && links[i] == x;
            assert(0 <= links[i] < ms.len());
        }
        vstd::set_lib::lemma_len_subset(links.to_set(), all);
        assert(false);
    } else {
        let (i, j) = choose|i: int, j: int|
            0 <= i < links.len() && 0 <= j < links.len() && i != j && links[i] == links[j];
        assert(ms[links[i]].member == s[i] && ms[links[j]].member == s[j]);
        if i < j {
            assert(s[i] == s[j]);
        } else {
            assert(s[j] == s[i]);
        }
    }
}

/// A chain of memberships of any length can be had with as many steps as there are
/// memberships.
pub proof fn law_short_chain(ms: Seq<Member>, s: Seq<usize>, from: usize, to: usize)
    requires
        is_chain(ms, s, from, to),
    ensures
        leads_within(ms, from, to, ms.len()),
    decreases s.len(),
{
    if s.len() > ms.len() + 1 {
        lemma_same_link(ms, s, from, to);
        let (a, b) = choose|a: int, b: int|
            0 <= a < b < s.len() && #[trigger] s[a] == #[trigger] s[b];
        let t = s.take(a) + s.skip(b);
        assert(t[0] == from) by {
            if a == 0 {
                assert(t[0] == s[b]);
            }
        }
        assert(t[t.len() - 1] == s[s.len() - 1]);
        assert forall|i: int| 0 <= i < t.len() - 1 implies #[trigger] is_linked(ms, t, i) by {
            if i < a - 1 {
                assert(is_linked(ms, s, i));
                assert(t[i] == s[i] && t[i + 1] == s[i + 1]);
            } else if i == a - 1 {
                assert(is_linked(ms, s, i));
                assert(t[i] == s[i] && t[i + 1] == s[b]);
            } else {
                assert(is_linked(ms, s, i - a + b));
                assert(t[i] == s[i - a + b] && t[i + 1] == s[i - a + b + 1]);
            }
        }
        law_short_chain(ms, t, from, to);
    }
}

/// Whether a role that some memberships lead to holds a privilege itself.
pub open spec fn is_held_within(
    gs: Seq<Grant>,
    ms: Seq<Member>,
    role: usize,
    object: Object,
    r: Right,
    n: nat,
) -> bool {
    exists|to: usize|
        #[trigger] leads_within(ms, role, to, n) && includes(catalog::held(gs, to, object), r)
}

proof fn lemma_inherited_is_held(
    gs: Seq<Grant>,
    ms: Seq<Member>,
    role: usize,
    object: Object,
    r: Right,
    fuel: nat,
    n: nat,
)
    requires
        n <= ms.len(),
    ensures
        includes(catalog::inherited_from(gs, ms, role, object, fuel, n), r) ==> is_held_within(
            gs,
            ms,
            role,
            object,
            r,
            fuel,
        ),
    decreases fuel, n,
{
    assert(is_chain(ms, seq![role], role, role));
    assert(leads_within(ms, role, role, fuel));
    if n > 0 {
        let m = ms[n - 1];
        lemma_inherited_is_held(gs, ms, role, object, r, fuel, (n - 1) as nat);
        if m.member == role && fuel > 0 {
            let less = (fuel - 1) as nat;
            lemma_inherited_is_held(gs, ms, m.role, object, r, less, ms.len());
            if includes(catalog::inherited(gs, ms, m.role, object, less), r) {
                let to = choose|to: usize| #[trigger]
                    leads_within(ms, m.role, to, less) && includes(
                        catalog::held(gs, to, object),
                        r,
                    );
                let s = choose|s: Seq<usize>| #[trigger]
                    is_chain(ms, s, m.role, to) && s.len() <= less + 1;
                assert(is_member(ms, role, m.role));
                lemma_step(ms, role, m.role, to, s);
                assert(leads_within(ms, role, to, fuel));
            }
        }
    }
}

proof fn lemma_inherited_by(
    gs: Seq<Grant>,
    ms: Seq<Member>,
    role: usize,
    object: Object,
    r: Right,
    fuel: nat,
    n: nat,
    j: int,
)
    requires
        0 <= j < n <= ms.len(),
        ms[j].member == role,
        fuel > 0,
        includes(catalog::inherited(gs, ms, ms[j].role, object, (fuel - 1) as nat), r),
    ensures
        includes(catalog::inherited_from(gs, ms, role, object, fuel, n), r),
    decreases n,
{
    if j < n - 1 {
        lemma_inherited_by(gs, ms, role, object, r, fuel, (n - 1) as nat, j);
    }
}

proof fn lemma_own_is_inherited(
    gs: Seq<Grant>,
    ms: Seq<Member>,
    role: usize,
    object: Object,
    r: Right,
    fuel: nat,
    n: nat,
)
    requires
        n <= ms.len(),
        includes(catalog::held(gs, role, object), r),
    ensures
        includes(catalog::inherited_from(gs, ms, role, object, fuel, n), r),
    decreases n,
{
    if n > 0 {
        lemma_own_is_inherited(gs, ms, role, object, r, fuel, (n - 1) as nat);
    }
}

proof fn lemma_held_is_inherited(
    gs: Seq<Grant>,
    ms: Seq<Member>,
    role: usize,
    object: Object,
    r: Right,
    fuel: nat,
    to: usize,
    s: Seq<usize>,
)
    requires
        is_chain(ms, s, role, to),
        s.len() <= fuel + 1,
        includes(catalog::held(gs, to, object), r),
    ensures
        includes(catalog::inherited(gs, ms, role, object, fuel), r),
    decreases fuel,
{
    if s.len() == 1 {
        lemma_own_is_inherited(gs, ms, role, object, r, fuel, ms.len());
    } else {
        lemma_rest(ms, s, role, to);
        lemma_held_is_inherited(gs, ms, s[1], object, r, (fuel - 1) as nat, to, s.skip(1));
        let j = choose|j: int|
            0 <= j < ms.len() && (#[trigger] ms[j]).member == role && ms[j].role == s[1];
        lemma_inherited_by(gs, ms, role, object, r, fuel, ms.len(), j);
    }
}

/// A role has a privilege exactly if it holds it itself or a role that memberships lead to
/// holds it.
pub proof fn law_inherited(
    gs: Seq<Grant>,
    ms: Seq<Member>,
    role: usize,
    object: Object,
    r: Right,
    fuel: nat,
)
    ensures
        includes(catalog::inherited(gs, ms, role, object, fuel), r) <==> is_held_within(
            gs,
            ms,
            role,
            object,
            r,
            fuel,
        ),
{
    lemma_inherited_is_held(gs, ms, role, object, r, fuel, ms.len());
    if is_held_within(gs, ms, role, object, r, fuel) {
        let to = choose|to: usize| #[trigger]
            leads_within(ms, role, to, fuel) && includes(catalog::held(gs, to, object), r);
        let s = choose|s: Seq<usize>| #[trigger]
            is_chain(ms, s, role, to) && s.len() <= fuel + 1;
        lemma_held_is_inherited(gs, ms, role, object, r, fuel, to, s);
    }
}

/// Who may do something to a table: everyone as long as there is no role, a superuser, the
/// owner, and one who has each privilege that it takes, held itself or by a role that a chain
/// of memberships of any length leads to.
pub proof fn law_allowed(db: DbModel, user: usize, t: TableModel, want: Privileges)
    ensures
        catalog::allowed(db, user, t, want) <==> catalog::may_administer(db.roles, user)
            || t.owner == user || forall|r: Right| #[trigger]
            includes(want, r) ==> exists|to: usize, s: Seq<usize>| #[trigger]
                is_chain(db.members, s, user, to) && includes(
                    catalog::held(db.grants, to, Object::Table(t.schema, t.name)),
                    r,
                ),
{
    let n = db.members.len();
    let o = Object::Table(t.schema, t.name);
    let have = catalog::inherited(db.grants, db.members, user, o, n);
    law_privileges(have, want, Right::Select);
    if catalog::covers(have, want) {
        assert forall|r: Right| #[trigger] includes(want, r) implies exists|
            to: usize,
            s: Seq<usize>,
        | #[trigger]
            is_chain(db.members, s, user, to) && includes(
                catalog::held(db.grants, to, o),
                r,
            ) by {
            assert(includes(have, r));
            law_inherited(db.grants, db.members, user, o, r, n);
            let to = choose|to: usize| #[trigger]
                leads_within(db.members, user, to, n) && includes(
                    catalog::held(db.grants, to, o),
                    r,
                );
            let s = choose|s: Seq<usize>| #[trigger]
                is_chain(db.members, s, user, to) && s.len() <= n + 1;
            assert(is_chain(db.members, s, user, to));
        }
    }
    if forall|r: Right| #[trigger]
        includes(want, r) ==> exists|to: usize, s: Seq<usize>| #[trigger]
            is_chain(db.members, s, user, to) && includes(catalog::held(db.grants, to, o), r) {
        assert forall|r: Right| includes(want, r) implies #[trigger] includes(have, r) by {
            let (to, s) = choose|to: usize, s: Seq<usize>| #[trigger]
                is_chain(db.members, s, user, to) && includes(
                    catalog::held(db.grants, to, o),
                    r,
                );
            law_short_chain(db.members, s, user, to);
            assert(is_held_within(db.grants, db.members, user, o, r, n));
            law_inherited(db.grants, db.members, user, o, r, n);
        }
    }
}

/// A name means the first role that has it.
pub proof fn lemma_role_place(rs: Seq<Role>, name: usize, from: int)
    requires
        0 <= from,
        rs.len() <= usize::MAX,
    ensures
        match catalog::role_place(rs, name, from) {
            Some(i) => {
                &&& from <= i < rs.len()
                &&& rs[i as int].name == name
                &&& forall|k: int| from <= k < i ==> (#[trigger] rs[k]).name != name
            },
            None => forall|k: int| from <= k < rs.len() ==> (#[trigger] rs[k]).name != name,
        },
    decreases rs.len() - from,
{
    if from < rs.len() && rs[from].name != name {
        lemma_role_place(rs, name, from + 1);
    }
}

/// Whether there is a role of a name.
pub open spec fn has_role(rs: Seq<Role>, name: usize) -> bool {
    exists|k: int| 0 <= k < rs.len() && (#[trigger] rs[k]).name == name
}

/// Who may administer roles and privileges: everyone as long as there is no role, and
/// otherwise only one whose role is a superuser.
pub proof fn law_administrators(rs: Seq<Role>, name: usize)
    requires
        rs.len() <= usize::MAX,
        forall|a: int, b: int|
            0 <= a < b < rs.len() ==> (#[trigger] rs[a]).name != (#[trigger] rs[b]).name,
    ensures
        catalog::may_administer(rs, name) <==> rs.len() == 0 || exists|k: int|
            0 <= k < rs.len() && (#[trigger] rs[k]).name == name && rs[k].superuser,
{
    lemma_role_place(rs, name, 0);
    if exists|k: int| 0 <= k < rs.len() && (#[trigger] rs[k]).name == name && rs[k].superuser {
        let k = choose|k: int|
            0 <= k < rs.len() && (#[trigger] rs[k]).name == name && rs[k].superuser;
        let i = catalog::role_place(rs, name, 0)->Some_0;
        assert(rs[i as int].name == rs[k].name);
    }
}

/// CREATE ROLE adds a role that is a superuser, may log in and has a password only as far as
/// the command says so. It takes one who may administer, a new name and a password that is
/// accepted.
pub proof fn law_role_made(cx: CxModel, c: SecurityConfig, name: usize, o: RoleOptions)
    requires
        cx.db.roles.len() <= usize::MAX,
    ensures
        change::role_creation(cx, c, name, o) is Ok <==> catalog::may_administer(
            cx.db.roles,
            cx.user,
        ) && !has_role(cx.db.roles, name) && change::option_fault(cx.symbols, c, name, o) is None,
        change::role_creation(cx, c, name, o) matches Ok(x) ==> x.db == (DbModel {
            roles: cx.db.roles.push(
                Role {
                    name,
                    superuser: o.superuser == Some(true),
                    login: o.login == Some(true),
                    password: o.password,
                },
            ),
            ..cx.db
        }),
{
    lemma_role_place(cx.db.roles, name, 0);
}

/// ALTER ROLE changes of the role that is named what the command states, and nothing else.
pub proof fn law_role_altered(
    cx: CxModel,
    c: SecurityConfig,
    name: usize,
    o: RoleOptions,
    k: int,
)
    requires
        cx.db.roles.len() <= usize::MAX,
        0 <= k < cx.db.roles.len(),
        forall|a: int, b: int|
            0 <= a < b < cx.db.roles.len() ==> (#[trigger] cx.db.roles[a]).name != (
            #[trigger] cx.db.roles[b]).name,
    ensures
        change::role_alteration(cx, c, name, o) is Ok <==> catalog::may_administer(
            cx.db.roles,
            cx.user,
        ) && has_role(cx.db.roles, name) && change::option_fault(cx.symbols, c, name, o) is None,
        change::role_alteration(cx, c, name, o) matches Ok(x) ==> {
            let before = cx.db.roles[k];
            let after = x.db.roles[k];
            &&& x.db == (DbModel { roles: x.db.roles, ..cx.db })
            &&& x.db.roles.len() == cx.db.roles.len()
            &&& before.name != name ==> after == before
            &&& before.name == name ==> {
                &&& after.name == name
                &&& after.superuser == if o.superuser is Some {
                    o.superuser->Some_0
                } else {
                    before.superuser
                }
                &&& after.login == if o.login is Some {
                    o.login->Some_0
                } else {
                    before.login
                }
                &&& after.password == if o.password is Some {
                    o.password
                } else {
                    before.password
                }
            }
        },
{
    lemma_role_place(cx.db.roles, name, 0);
}

proof fn lemma_without_role(gs: Seq<Grant>, role: usize)
    ensures
        catalog::without_role(gs, role) == gs.filter(|g: Grant| g.role != role),
    decreases gs.len(),
{
    reveal(Seq::filter);
    if gs.len() > 0 {
        lemma_without_role(gs.drop_last(), role);
    }
}

proof fn lemma_without_memberships(ms: Seq<Member>, role: usize)
    ensures
        catalog::without_memberships(ms, role) == ms.filter(
            |m: Member| m.role != role && m.member != role,
        ),
    decreases ms.len(),
{
    reveal(Seq::filter);
    if ms.len() > 0 {
        lemma_without_memberships(ms.drop_last(), role);
    }
}

/// DROP ROLE takes away the role, its privileges and its memberships; those of other roles
/// stay.
pub proof fn law_role_dropped(cx: CxModel, name: usize, quiet: bool)
    requires
        cx.db.roles.len() <= usize::MAX,
        has_role(cx.db.roles, name),
    ensures
        change::role_removal(cx, name, quiet) is Ok <==> catalog::may_administer(
            cx.db.roles,
            cx.user,
        ),
        change::role_removal(cx, name, quiet) matches Ok(c) ==> exists|i: int|
            {
                &&& 0 <= i < cx.db.roles.len()
                &&& (#[trigger] cx.db.roles[i]).name == name
                &&& c.db == (DbModel {
                    roles: cx.db.roles.take(i) + cx.db.roles.skip(i + 1),
                    grants: cx.db.grants.filter(|g: Grant| g.role != name),
                    members: cx.db.members.filter(|m: Member| m.role != name && m.member != name),
                    ..cx.db
                })
            },
{
    lemma_role_place(cx.db.roles, name, 0);
    lemma_without_role(cx.db.grants, name);
    lemma_without_memberships(cx.db.members, name);
    let i = catalog::role_place(cx.db.roles, name, 0)->Some_0 as int;
    assert(cx.db.roles.remove(i) =~= cx.db.roles.take(i) + cx.db.roles.skip(i + 1));
    assert(cx.db.roles[i].name == name);
}

proof fn lemma_member_place(
    ms: Seq<Member>,
    role: usize,
    member: usize,
    grantor: usize,
    from: int,
)
    requires
        0 <= from,
    ensures
        match change::member_place(ms, role, member, grantor, from) {
            Some(i) => {
                &&& from <= i < ms.len()
                &&& ms[i].role == role && ms[i].member == member && ms[i].grantor == grantor
            },
            None => forall|k: int|
                from <= k < ms.len() ==> !((#[trigger] ms[k]).role == role && ms[k].member == member
                    && ms[k].grantor == grantor),
        },
    decreases ms.len() - from,
{
    if from < ms.len() && !(ms[from].role == role && ms[from].member == member && ms[from].grantor
        == grantor) {
        lemma_member_place(ms, role, member, grantor, from + 1);
    }
}

/// GRANT of a role makes the member one, with the right to make others members if that is
/// said, and keeps all memberships that there are. It is refused where memberships lead from
/// the role to the member, so that no role is a member of itself by way of others.
pub proof fn law_admission(
    cx: CxModel,
    role: usize,
    member: usize,
    admin: bool,
    by: Option<usize>,
    k: int,
    s: Seq<usize>,
)
    ensures
        change::admission(cx, role, member, admin, by) matches Ok(c) ==> {
            let ms = c.db.members;
            let grantor = if by is Some {
                by->Some_0
            } else {
                cx.user
            };
            &&& change::may_admit(cx.db, cx.user, role)
            &&& !is_chain(cx.db.members, s, role, member)
            &&& c.db == (DbModel { members: ms, ..cx.db })
            &&& exists|j: int|
                {
                    &&& 0 <= j < ms.len()
                    &&& (#[trigger] ms[j]).role == role && ms[j].member == member && ms[j].grantor
                        == grantor
                    &&& admin ==> ms[j].admin
                }
            &&& cx.db.members.len() <= ms.len() <= cx.db.members.len() + 1
            &&& 0 <= k < cx.db.members.len() ==> {
                &&& ms[k].role == cx.db.members[k].role
                &&& ms[k].member == cx.db.members[k].member
                &&& ms[k].grantor == cx.db.members[k].grantor
                &&& cx.db.members[k].admin ==> ms[k].admin
                &&& !admin ==> ms[k] == cx.db.members[k]
                &&& !(ms[k].role == role && ms[k].member == member && ms[k].grantor == grantor)
                    ==> ms[k] == cx.db.members[k]
            }
        },
{
    if let Ok(c) = change::admission(cx, role, member, admin, by) {
        let ms = c.db.members;
        let grantor = if by is Some {
            by->Some_0
        } else {
            cx.user
        };
        lemma_member_place(cx.db.members, role, member, grantor, 0);
        match change::member_place(cx.db.members, role, member, grantor, 0) {
            Some(i) => {
                assert(ms[i].role == role);
            },
            None => {
                assert(ms[cx.db.members.len() as int].role == role);
            },
        }
        if is_chain(cx.db.members, s, role, member) {
            law_short_chain(cx.db.members, s, role, member);
            law_belongs(cx.db.members, role, member, cx.db.members.len());
        }
    }
}

proof fn lemma_ended(
    ms: Seq<Member>,
    role: usize,
    member: usize,
    admin: bool,
    by: Option<usize>,
)
    ensures
        !admin ==> change::ended(ms, role, member, admin, by) == ms.filter(
            |m: Member| !change::is_meant(m, role, member, by),
        ),
        admin ==> change::ended(ms, role, member, admin, by) == ms.map_values(
            |m: Member|
                if change::is_meant(m, role, member, by) {
                    Member { admin: false, ..m }
                } else {
                    m
                },
        ),
    decreases ms.len(),
{
    reveal(Seq::filter);
    let f = |m: Member|
        if change::is_meant(m, role, member, by) {
            Member { admin: false, ..m }
        } else {
            m
        };
    if ms.len() > 0 {
        lemma_ended(ms.drop_last(), role, member, admin, by);
        assert(ms.map_values(f) =~= ms.drop_last().map_values(f).push(f(ms.last())));
    } else {
        assert(ms.map_values(f) =~= Seq::empty());
    }
}

/// REVOKE of a role ends the memberships of the member in it, those that one role gave if it
/// is named, and no others; with ADMIN OPTION they stay and only the right to make others
/// members goes.
pub proof fn law_dismissal(
    cx: CxModel,
    role: usize,
    member: usize,
    by: Option<usize>,
    k: int,
)
    ensures
        change::dismissal(cx, role, member, false, by) matches Ok(c) ==> c.db == (DbModel {
            members: cx.db.members.filter(
                |m: Member|
                    !(m.role == role && m.member == member && (by is None || by == Some(
                        m.grantor,
                    ))),
            ),
            ..cx.db
        }) && change::may_admit(cx.db, cx.user, role),
        change::dismissal(cx, role, member, true, by) matches Ok(c) ==> {
            let ms = c.db.members;
            &&& change::may_admit(cx.db, cx.user, role)
            &&& c.db == (DbModel { members: ms, ..cx.db })
            &&& ms.len() == cx.db.members.len()
            &&& 0 <= k < ms.len() ==> {
                let m = cx.db.members[k];
                ms[k] == if m.role == role && m.member == member && (by is None || by == Some(
                    m.grantor,
                )) {
                    Member { admin: false, ..m }
                } else {
                    m
                }
            }
        },
{
    lemma_ended(cx.db.members, role, member, false, by);
    lemma_ended(cx.db.members, role, member, true, by);
    let p = |m: Member| !change::is_meant(m, role, member, by);
    let q = |m: Member|
        !(m.role == role && m.member == member && (by is None || by == Some(m.grantor)));
    objects::lemma_filter_same(cx.db.members, p, q);
}

/// Who may make others members of a role: one who may administer, and a member of it that has
/// the right.
pub proof fn law_who_admits(db: DbModel, user: usize, role: usize)
    ensures
        change::may_admit(db, user, role) <==> catalog::may_administer(db.roles, user) || exists|
            i: int,
        |
            0 <= i < db.members.len() && (#[trigger] db.members[i]).role == role
                && db.members[i].member == user && db.members[i].admin,
{
}

/// REASSIGN OWNED gives the tables of one role to another and leaves all else.
pub proof fn law_reassigned(cx: CxModel, from: usize, to: usize, k: int)
    requires
        cx.db.roles.len() <= usize::MAX,
    ensures
        change::reassignment(cx, from, to) is Ok <==> has_role(cx.db.roles, from) && has_role(
            cx.db.roles,
            to,
        ) && catalog::may_administer(cx.db.roles, cx.user),
        change::reassignment(cx, from, to) matches Ok(c) ==> {
            &&& c.db == (DbModel { tables: c.db.tables, ..cx.db })
            &&& c.db.tables.len() == cx.db.tables.len()
            &&& 0 <= k < cx.db.tables.len() ==> c.db.tables[k] == (TableModel {
                owner: if cx.db.tables[k].owner == from {
                    to
                } else {
                    cx.db.tables[k].owner
                },
                ..cx.db.tables[k]
            })
        },
{
    lemma_role_place(cx.db.roles, from, 0);
    lemma_role_place(cx.db.roles, to, 0);
}

proof fn lemma_without_owned(db: DbModel, role: usize, n: int)
    requires
        0 <= n <= db.tables.len(),
    ensures
        ({
            let after = change::without_owned(db, role, n);
            &&& after == (DbModel { tables: after.tables, grants: after.grants, ..db })
            &&& after.tables == db.tables.take(n).filter(|t: TableModel| t.owner != role)
                + db.tables.skip(n)
        }),
    decreases n,
{
    reveal(Seq::filter);
    let p = |t: TableModel| t.owner != role;
    if n == 0 {
        assert(db.tables.take(0).filter(p) + db.tables.skip(0) =~= db.tables);
    } else {
        let t = db.tables[n - 1];
        assert(db.tables.take(n).drop_last() =~= db.tables.take(n - 1));
        assert(db.tables.take(n).last() == t);
        if t.owner == role {
            let next = change::without_table(db, n - 1);
            lemma_without_owned(next, role, n - 1);
            assert(next.tables.take(n - 1) =~= db.tables.take(n - 1));
            assert(next.tables.skip(n - 1) =~= db.tables.skip(n));
        } else {
            lemma_without_owned(db, role, n - 1);
            assert(db.tables.take(n - 1).filter(p) + db.tables.skip(n - 1) =~= db.tables.take(
                n,
            ).filter(p) + db.tables.skip(n));
        }
    }
}

/// DROP OWNED takes away the tables of a role, and no others. A role may do it for itself,
/// and one who may administer for all.
pub proof fn law_owned_dropped(cx: CxModel, role: usize)
    requires
        cx.db.roles.len() <= usize::MAX,
    ensures
        change::owned_removal(cx, role) is Ok <==> has_role(cx.db.roles, role) && (
        catalog::may_administer(cx.db.roles, cx.user) || role == cx.user),
        change::owned_removal(cx, role) matches Ok(c) ==> {
            &&& c.db == (DbModel { tables: c.db.tables, grants: c.db.grants, ..cx.db })
            &&& c.db.tables == cx.db.tables.filter(|t: TableModel| t.owner != role)
        },
{
    lemma_role_place(cx.db.roles, role, 0);
    let n = cx.db.tables.len() as int;
    lemma_without_owned(cx.db, role, n);
    let p = |t: TableModel| t.owner != role;
    assert(cx.db.tables.take(n) =~= cx.db.tables);
    assert(cx.db.tables.filter(p) + cx.db.tables.skip(n) =~= cx.db.tables.filter(p));
}

/// The object that a target of GRANT stands for, if it is there.
pub open spec fn is_target(cx: CxModel, target: Target, o: Object) -> bool {
    match target {
        Target::Table(n) => catalog::resolved(cx.db.tables, cx.path, n) matches Some(i) && o
            == Object::Table(cx.db.tables[i as int].schema, cx.db.tables[i as int].name),
        Target::Schema(s) => cx.db.schemas.contains(s) && o == Object::Schema(s),
    }
}

/// GRANT gives the role that is named, or the one who speaks, the privileges on the object,
/// beside those that it has; REVOKE takes them away. Nothing else changes.
pub proof fn law_grants(
    cx: CxModel,
    p: Privileges,
    target: Target,
    g: Grantee,
    o: Object,
    r: Right,
)
    requires
        cx.db.grants.len() < usize::MAX,
        cx.db.roles.len() <= usize::MAX,
        is_target(cx, target, o),
    ensures
        ({
            let role = match g {
                Grantee::CurrentUser => cx.user,
                Grantee::Role(name) => name,
            };
            let had = catalog::held(cx.db.grants, role, o);
            &&& change::grant_change(cx, true, p, target, g) matches Ok(c) ==> {
                &&& c.db == (DbModel { grants: c.db.grants, ..cx.db })
                &&& includes(catalog::held(c.db.grants, role, o), r) <==> includes(had, r)
                    || includes(p, r)
            }
            &&& change::grant_change(cx, false, p, target, g) matches Ok(c) ==> {
                &&& c.db == (DbModel { grants: c.db.grants, ..cx.db })
                &&& includes(catalog::held(c.db.grants, role, o), r) <==> includes(had, r)
                    && !includes(p, r)
            }
        }),
{
    let role = match g {
        Grantee::CurrentUser => cx.user,
        Grantee::Role(name) => name,
    };
    catalog::law_granted_is_held(cx.db.grants, role, o, p);
    catalog::law_revoked_is_not_held(cx.db.grants, role, o, p);
    let had = catalog::held(cx.db.grants, role, o);
    law_privileges(had, p, r);
}

/// Who may grant: the owner of a table and one who may administer; for a schema only the
/// latter.
pub proof fn law_who_grants(cx: CxModel, target: Target)
    ensures
        change::grant_object(cx, target) matches Ok(o) ==> is_target(cx, target, o) && match target {
            Target::Table(n) => catalog::may_administer(cx.db.roles, cx.user)
                || cx.db.tables[catalog::resolved(cx.db.tables, cx.path, n)->Some_0 as int].owner
                == cx.user,
            Target::Schema(_) => catalog::may_administer(cx.db.roles, cx.user),
        },
{
}

} // verus!
