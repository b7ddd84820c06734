//! Portals and cursors: rows that are handed out in parts.

use vstd::prelude::*;
use crate::analyze::Params;
use crate::ast::Direction;
use crate::datum::Tuple;
use crate::fields::Fields;

verus! {

/// How many prepared statements and portals a session may have.
#[derive(Clone, Copy, PartialEq, Eq, Debug, Structural)]
pub struct LimitsConfig {
    pub max_prepared_statements: u64,
    pub max_portals: u64,
}

/// The limits of an engine that was given none.
pub open spec fn default_limits() -> LimitsConfig {
    LimitsConfig { max_prepared_statements: 1000, max_portals: 1000 }
}

impl Default for LimitsConfig {
    fn default() -> (r: LimitsConfig)
        ensures
            r == default_limits(),
    {
        LimitsConfig { max_prepared_statements: 1000, max_portals: 1000 }
    }
}

/// What a portal holds: nothing before its statement was executed, the rows of the
/// statement, or nothing any more.
pub enum Content {
    Waiting,
    Rows(Fields, Vec<Tuple>),
    Finished,
}

pub enum ContentModel {
    Waiting,
    Rows(Fields, Seq<Tuple>),
    Finished,
}

impl View for Content {
    type V = ContentModel;

    open spec fn view(&self) -> ContentModel {
        match *self {
            Content::Waiting => ContentModel::Waiting,
            Content::Rows(fs, rows) => ContentModel::Rows(fs, rows@),
            Content::Finished => ContentModel::Finished,
        }
    }
}

/// A portal: its name, its number among the portals of its session, the prepared
/// statement it was bound to, the values of the parameters, what it holds and the
/// position in it. A cursor is a portal that is bound to no prepared statement.
///
/// Position 0 is before the first row, and position `i` is on the `i`-th row; one
/// more than the number of rows is behind the last.
pub struct Portal {
    pub name: usize,
    pub born: u64,
    pub statement: Option<usize>,
    pub params: Params,
    pub content: Content,
    pub at: u128,
}

pub struct PortalModel {
    pub name: usize,
    pub born: u64,
    pub statement: Option<usize>,
    pub params: Params,
    pub content: ContentModel,
    pub at: u128,
}

impl View for Portal {
    type V = PortalModel;

    open spec fn view(&self) -> PortalModel {
        PortalModel {
            name: self.name,
            born: self.born,
            statement: self.statement,
            params: self.params,
            content: self.content@,
            at: self.at,
        }
    }
}

pub open spec fn portals_view(v: Seq<Portal>) -> Seq<PortalModel> {
    v.map_values(|p: Portal| p@)
}

/// The first place at or after `from` of the portal with a given name.
pub open spec fn portal_place(ps: Seq<PortalModel>, name: usize, from: int) -> Option<int>
    decreases ps.len() - from,
{
    if from < 0 || from >= ps.len() {
        None
    } else if ps[from].name == name {
        Some(from)
    } else {
        portal_place(ps, name, from + 1)
    }
}

/// Where a portal is, if it is there.
pub proof fn lemma_portal_place(ps: Seq<PortalModel>, name: usize, from: int)
    requires
        0 <= from,
    ensures
        portal_place(ps, name, from) matches Some(i) ==> from <= i < ps.len() && ps[i].name == name,
    decreases ps.len() - from,
{
    if from < ps.len() && ps[from].name != name {
        lemma_portal_place(ps, name, from + 1);
    }
}

/// Finds the portal with a given name.
pub fn find_portal(ps: &Vec<Portal>, name: usize) -> (r: Option<usize>)
    ensures
        match r {
            Some(i) => i < ps.len() && ps@[i as int].name == name && portal_place(
                portals_view(ps@),
                name,
                0,
            ) == Some(i as int),
            None => portal_place(portals_view(ps@), name, 0) is None,
        },
{
    let mut i: usize = 0;
    while i < ps.len()
        invariant
            i <= ps.len(),
            portal_place(portals_view(ps@), name, 0) == portal_place(
                portals_view(ps@),
                name,
                i as int,
            ),
        decreases ps.len() - i,
    {
        if ps[i].name == name {
            return Some(i);
        }
        i += 1;
    }
    None
}

/// The place of the cursor with a given name.
pub open spec fn cursor_place(ps: Seq<PortalModel>, name: usize) -> Option<int> {
    match portal_place(ps, name, 0) {
        Some(i) => if ps[i].statement is None {
            Some(i)
        } else {
            None
        },
        None => None,
    }
}

/// Finds the cursor with a given name.
pub fn find_cursor(ps: &Vec<Portal>, name: usize) -> (r: Option<usize>)
    ensures
        match r {
            Some(i) => i < ps.len() && cursor_place(portals_view(ps@), name) == Some(i as int),
            None => cursor_place(portals_view(ps@), name) is None,
        },
{
    match find_portal(ps, name) {
        Some(i) => if ps[i].statement.is_none() {
            Some(i)
        } else {
            None
        },
        None => None,
    }
}

/// How many portals are cursors.
pub open spec fn cursor_count(ps: Seq<PortalModel>) -> nat
    decreases ps.len(),
{
    if ps.len() == 0 {
        0
    } else if ps.last().statement is None {
        cursor_count(ps.drop_last()) + 1
    } else {
        cursor_count(ps.drop_last())
    }
}

/// Counts the portals that are cursors.
pub fn count_cursors(ps: &Vec<Portal>) -> (r: usize)
    ensures
        r == cursor_count(portals_view(ps@)),
        r <= ps.len(),
{
    let mut n: usize = 0;
    let mut i: usize = 0;
    while i < ps.len()
        invariant
            i <= ps.len(),
            n <= i,
            n == cursor_count(portals_view(ps@).take(i as int)),
        decreases ps.len() - i,
    {
        assert(portals_view(ps@).take(i + 1).drop_last() =~= portals_view(ps@).take(i as int));
        if ps[i].statement.is_none() {
            n += 1;
        }
        i += 1;
    }
    assert(portals_view(ps@).take(i as int) =~= portals_view(ps@));
    n
}

/// The portals with a number below `mark`.
pub open spec fn older(ps: Seq<PortalModel>, mark: u64) -> Seq<PortalModel>
    decreases ps.len(),
{
    if ps.len() == 0 {
        Seq::empty()
    } else if ps.last().born < mark {
        older(ps.drop_last(), mark).push(ps.last())
    } else {
        older(ps.drop_last(), mark)
    }
}

/// Every portal that is left has a number below the mark.
pub proof fn lemma_older(ps: Seq<PortalModel>, mark: u64)
    ensures
        older(ps, mark).len() <= ps.len(),
        forall|i: int| 0 <= i < older(ps, mark).len() ==> (#[trigger] older(ps, mark)[i]).born < mark,
    decreases ps.len(),
{
    if ps.len() > 0 {
        lemma_older(ps.drop_last(), mark);
    }
}

/// Where all portals have numbers below the mark, all of them are left.
pub proof fn lemma_all_older(ps: Seq<PortalModel>, mark: u64)
    requires
        forall|i: int| 0 <= i < ps.len() ==> (#[trigger] ps[i]).born < mark,
    ensures
        older(ps, mark) == ps,
    decreases ps.len(),
{
    if ps.len() > 0 {
        assert(ps.last() == ps[ps.len() - 1]);
        assert forall|i: int| 0 <= i < ps.drop_last().len() implies (#[trigger] ps.drop_last()[i]).born
            < mark by {
            assert(ps.drop_last()[i] == ps[i]);
        }
        lemma_all_older(ps.drop_last(), mark);
        assert(ps.drop_last().push(ps.last()) =~= ps);
    } else {
        assert(older(ps, mark) =~= ps);
    }
}

/// Closes the portals with a number that is not below `mark`.
pub fn close_newer(ps: &mut Vec<Portal>, mark: u64)
    ensures
        portals_view(final(ps)@) == older(portals_view(old(ps)@), mark),
{
    let ghost all = portals_view(ps@);
    let mut i: usize = ps.len();
    assert(all.take(i as int) =~= all);
    assert(portals_view(ps@).skip(i as int) =~= Seq::<PortalModel>::empty());
    assert(older(all, mark) =~= older(all.take(i as int), mark) + portals_view(ps@).skip(i as int));
    while i > 0
        invariant
            i <= ps.len(),
            i <= all.len(),
            portals_view(ps@).take(i as int) =~= all.take(i as int),
            older(all, mark) == older(all.take(i as int), mark) + portals_view(ps@).skip(i as int),
        decreases i,
    {
        let ghost now = portals_view(ps@);
        let ghost tail = now.skip(i as int);
        assert(all.take(i as int).drop_last() =~= all.take(i - 1));
        assert(all.take(i as int).last() == now.take(i as int)[i - 1]);
        assert(now[i - 1] == ps@[i - 1]@);
        if ps[i - 1].born >= mark {
            let _: Portal = ps.remove(i - 1);
            assert(portals_view(ps@) =~= now.remove(i - 1));
            assert(portals_view(ps@).skip(i - 1) =~= tail);
        } else {
            assert(now.skip(i - 1) =~= seq![now[i - 1]] + tail);
            assert(older(all.take(i as int), mark) + tail =~= older(all.take(i - 1), mark) + (seq![
                now[i - 1],
            ] + tail));
        }
        assert(portals_view(ps@).take(i - 1) =~= now.take(i - 1));
        assert(now.take(i - 1) =~= now.take(i as int).take(i - 1));
        assert(all.take(i as int).take(i - 1) =~= all.take(i - 1));
        i -= 1;
    }
    assert(all.take(0) =~= Seq::<PortalModel>::empty());
    assert(portals_view(ps@).skip(0) =~= portals_view(ps@));
    assert(Seq::<PortalModel>::empty() + portals_view(ps@) =~= portals_view(ps@));
}

/// A step of a cursor: the rows from place `lo` up to place `hi` are handed out,
/// the last of them first if it goes back, and then it is at `at`.
pub struct Motion {
    pub lo: int,
    pub hi: int,
    pub back: bool,
    pub at: int,
}

/// Where a cursor over `n` rows at position `at` goes. No rows leave it where it
/// is; when the rows run out it is behind the last row, or before the first.
pub open spec fn motion(n: int, at: int, d: Direction) -> Motion {
    match d {
        Direction::Forward(k) => {
            let lo = if at < n {
                at
            } else {
                n
            };
            match k {
                Some(k) => if k == 0 {
                    Motion { lo, hi: lo, back: false, at }
                } else if lo + k <= n {
                    Motion { lo, hi: lo + k, back: false, at: lo + k }
                } else {
                    Motion { lo, hi: n, back: false, at: n + 1 }
                },
                None => Motion { lo, hi: n, back: false, at: n + 1 },
            }
        },
        Direction::Backward(k) => {
            let hi = if at > n {
                n
            } else if at > 0 {
                at - 1
            } else {
                0
            };
            match k {
                Some(k) => if k == 0 {
                    Motion { lo: hi, hi, back: true, at }
                } else if k <= hi {
                    Motion { lo: hi - k, hi, back: true, at: hi - k + 1 }
                } else {
                    Motion { lo: 0, hi, back: true, at: 0 }
                },
                None => Motion { lo: 0, hi, back: true, at: 0 },
            }
        },
        Direction::First => if n > 0 {
            Motion { lo: 0, hi: 1, back: false, at: 1 }
        } else {
            Motion { lo: 0, hi: 0, back: false, at: 1 }
        },
        Direction::Last => if n > 0 {
            Motion { lo: n - 1, hi: n, back: false, at: n }
        } else {
            Motion { lo: 0, hi: 0, back: false, at: 1 }
        },
    }
}

/// The rows that a step hands out, in their order.
pub open spec fn handed_out(rows: Seq<Tuple>, m: Motion) -> Seq<Tuple> {
    if m.back {
        rows.subrange(m.lo, m.hi).reverse()
    } else {
        rows.subrange(m.lo, m.hi)
    }
}

/// Whether a position is one of a cursor over `n` rows.
pub open spec fn is_position(n: int, at: int) -> bool {
    0 <= at <= n + 1
}

/// A cursor stays within its rows: it hands out rows that there are, and ends at a
/// position that there is.
pub proof fn law_cursor_stays_within(n: int, at: int, d: Direction)
    requires
        0 <= n,
        is_position(n, at),
    ensures
        is_position(n, motion(n, at, d).at),
        0 <= motion(n, at, d).lo <= motion(n, at, d).hi <= n,
{
}

/// Fetching rows in two steps gives the same rows, in the same order, as fetching
/// them in one, and the cursor ends at the same position.
pub proof fn law_fetch_in_parts(rows: Seq<Tuple>, at: int, a: u64, b: u64)
    requires
        is_position(rows.len() as int, at),
        a > 0,
        b > 0,
        a + b <= u64::MAX,
    ensures
        ({
            let n = rows.len() as int;
            let first = motion(n, at, Direction::Forward(Some(a)));
            let second = motion(n, first.at, Direction::Forward(Some(b)));
            let both = motion(n, at, Direction::Forward(Some((a + b) as u64)));
            &&& handed_out(rows, first) + handed_out(rows, second) == handed_out(rows, both)
            &&& second.at == both.at
        }),
{
    let n = rows.len() as int;
    let first = motion(n, at, Direction::Forward(Some(a)));
    let second = motion(n, first.at, Direction::Forward(Some(b)));
    let both = motion(n, at, Direction::Forward(Some((a + b) as u64)));
    assert(handed_out(rows, first) + handed_out(rows, second) =~= handed_out(rows, both));
}

/// A cursor before its first row hands out all rows, and backward from behind the
/// last row all of them in reverse.
pub proof fn law_fetch_all(rows: Seq<Tuple>)
    ensures
        handed_out(rows, motion(rows.len() as int, 0, Direction::Forward(None))) == rows,
        handed_out(
            rows,
            motion(rows.len() as int, (rows.len() + 1) as int, Direction::Backward(None)),
        ) == rows.reverse(),
{
    assert(rows.subrange(0, rows.len() as int) =~= rows);
}

/// Going forward over rows that there are and back by one less comes to the row
/// after the one that the cursor was on.
pub proof fn law_fetch_and_return(n: int, at: int, k: u64)
    requires
        is_position(n, at),
        k > 0,
        at + k <= n,
    ensures
        ({
            let there = motion(n, at, Direction::Forward(Some(k)));
            let back = motion(n, there.at, Direction::Backward(Some((k - 1) as u64)));
            back.at == at + 1
        }),
{
}

/// Hands out rows and moves a position.
pub fn advance(rows: &Vec<Tuple>, at: u128, d: Direction) -> (r: (Vec<Tuple>, u128))
    ensures
        ({
            let m = motion(rows@.len() as int, at as int, d);
            &&& r.0@ == handed_out(rows@, m)
            &&& r.1 == m.at
        }),
{
    let n: usize = rows.len();
    let end: u128 = n as u128 + 1;
    match d {
        Direction::Forward(k) => {
            let lo: usize = if at < n as u128 {
                at as usize
            } else {
                n
            };
            match k {
                Some(k) => if k == 0 {
                    (copy_span(rows, lo, lo), at)
                } else if k as u128 <= (n - lo) as u128 {
                    let hi: usize = lo + k as usize;
                    (copy_span(rows, lo, hi), hi as u128)
                } else {
                    (copy_span(rows, lo, n), end)
                },
                None => (copy_span(rows, lo, n), end),
            }
        },
        Direction::Backward(k) => {
            let hi: usize = if at > n as u128 {
                n
            } else if at > 0 {
                (at - 1) as usize
            } else {
                0
            };
            match k {
                Some(k) => if k == 0 {
                    (copy_back(rows, hi, hi), at)
                } else if k as u128 <= hi as u128 {
                    let lo: usize = hi - k as usize;
                    (copy_back(rows, lo, hi), lo as u128 + 1)
                } else {
                    (copy_back(rows, 0, hi), 0)
                },
                None => (copy_back(rows, 0, hi), 0),
            }
        },
        Direction::First => if n > 0 {
            (copy_span(rows, 0, 1), 1)
        } else {
            (copy_span(rows, 0, 0), 1)
        },
        Direction::Last => if n > 0 {
            (copy_span(rows, n - 1, n), n as u128)
        } else {
            (copy_span(rows, 0, 0), 1)
        },
    }
}

/// Copies the rows from place `lo` up to place `hi`.
fn copy_span(rows: &Vec<Tuple>, lo: usize, hi: usize) -> (r: Vec<Tuple>)
    requires
        lo <= hi <= rows.len(),
    ensures
        r@ == rows@.subrange(lo as int, hi as int),
{
    let mut out: Vec<Tuple> = Vec::new();
    let mut i: usize = lo;
    while i < hi
        invariant
            lo <= i <= hi <= rows.len(),
            out@ =~= rows@.subrange(lo as int, i as int),
        decreases hi - i,
    {
        out.push(rows[i].copy());
        i += 1;
    }
    out
}

/// Copies the rows from place `lo` up to place `hi`, the last of them first.
fn copy_back(rows: &Vec<Tuple>, lo: usize, hi: usize) -> (r: Vec<Tuple>)
    requires
        lo <= hi <= rows.len(),
    ensures
        r@ == rows@.subrange(lo as int, hi as int).reverse(),
{
    let mut out: Vec<Tuple> = Vec::new();
    let mut i: usize = hi;
    while i > lo
        invariant
            lo <= i <= hi <= rows.len(),
            out@ =~= rows@.subrange(i as int, hi as int).reverse(),
        decreases i,
    {
        i -= 1;
        out.push(rows[i].copy());
    }
    out
}

} // verus!
