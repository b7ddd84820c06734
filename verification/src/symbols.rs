//! The table of names and texts that statements and rows refer to by number.
//!
//! Every identifier and every text value is entered once, so two texts are
//! equal exactly if their numbers are.

use vstd::prelude::*;
use crate::datum;
use crate::datum::Rank;
use crate::text;

verus! {

/// A table of distinct texts; the number of a text is its place in the table.
pub struct Symbols {
    names: Vec<Vec<char>>,
}

/// The first place at or after `from` at which `t` holds `w`.
pub open spec fn place_from(t: Seq<Seq<char>>, w: Seq<char>, from: int) -> Option<usize>
    decreases t.len() - from,
{
    if from < 0 || from >= t.len() {
        None
    } else if t[from] == w {
        Some(from as usize)
    } else {
        place_from(t, w, from + 1)
    }
}

/// The number of `w` in `t`, if it has one.
pub open spec fn place(t: Seq<Seq<char>>, w: Seq<char>) -> Option<usize> {
    place_from(t, w, 0)
}

/// The table after `w` was entered.
pub open spec fn entered(t: Seq<Seq<char>>, w: Seq<char>) -> Seq<Seq<char>> {
    match place(t, w) {
        Some(_) => t,
        None => t.push(w),
    }
}

/// The number that `w` has once it was entered.
pub open spec fn number(t: Seq<Seq<char>>, w: Seq<char>) -> usize {
    match place(t, w) {
        Some(i) => i,
        None => t.len() as usize,
    }
}

/// The text with a given number; the empty text for a number that is not in the
/// table.
pub open spec fn text_at(t: Seq<Seq<char>>, i: usize) -> Seq<char> {
    if i < t.len() {
        t[i as int]
    } else {
        Seq::empty()
    }
}

/// The texts that are entered before any other, each with a fixed number.
pub open spec fn well_known() -> Seq<Seq<char>> {
    seq![
        "?column?"@,
        "count"@,
        "sum"@,
        "min"@,
        "max"@,
        "exists"@,
        "case"@,
        "coalesce"@,
        "public"@,
        "application_name"@,
        "excluded"@,
    ]
}

pub const ANONYMOUS: usize = 0;
pub const COUNT: usize = 1;
pub const SUM: usize = 2;
pub const MIN: usize = 3;
pub const MAX: usize = 4;
pub const EXISTS: usize = 5;
pub const CASE: usize = 6;
pub const COALESCE: usize = 7;
pub const PUBLIC: usize = 8;
pub const APPLICATION_NAME: usize = 9;
pub const EXCLUDED: usize = 10;

/// A search in a table finds the first place of a text, if it is there.
pub proof fn lemma_place(t: Seq<Seq<char>>, w: Seq<char>, from: int)
    requires
        0 <= from <= t.len(),
        t.len() <= usize::MAX,
    ensures
        match place_from(t, w, from) {
            Some(i) => from <= i < t.len() && t[i as int] == w && forall|j: int|
                from <= j < i ==> t[j] != w,
            None => forall|j: int| from <= j < t.len() ==> t[j] != w,
        },
    decreases t.len() - from,
{
    if from < t.len() && t[from] != w {
        lemma_place(t, w, from + 1);
    }
}

/// A table keeps its texts distinct when a text is entered, and the text is then
/// in it under its number.
pub proof fn law_entered(t: Seq<Seq<char>>, w: Seq<char>)
    requires
        t.no_duplicates(),
        t.len() < usize::MAX,
    ensures
        entered(t, w).no_duplicates(),
        number(t, w) < entered(t, w).len(),
        text_at(entered(t, w), number(t, w)) == w,
        t.is_prefix_of(entered(t, w)),
{
    lemma_place(t, w, 0);
}

impl View for Symbols {
    type V = Seq<Seq<char>>;

    closed spec fn view(&self) -> Seq<Seq<char>> {
        self.names@.map_values(|n: Vec<char>| n@)
    }
}

/// A table is distinct and starts with the texts that every table has.
pub open spec fn is_table(t: Seq<Seq<char>>) -> bool {
    &&& t.no_duplicates()
    &&& well_known().is_prefix_of(t)
}

impl Symbols {
    pub open spec fn wf(&self) -> bool {
        is_table(self@)
    }

    /// A table that holds the well-known texts alone.
    pub fn new() -> (r: Symbols)
        ensures
            r.wf(),
            r@ == well_known(),
    {
        let names: Vec<Vec<char>> = vec![
            text::chars_of("?column?"),
            text::chars_of("count"),
            text::chars_of("sum"),
            text::chars_of("min"),
            text::chars_of("max"),
            text::chars_of("exists"),
            text::chars_of("case"),
            text::chars_of("coalesce"),
            text::chars_of("public"),
            text::chars_of("application_name"),
            text::chars_of("excluded"),
        ];
        let r: Symbols = Symbols { names };
        proof {
            assert(r@ =~= well_known());
            lemma_well_known_distinct();
        }
        r
    }

    /// The number of `w` in the table, which is entered if it is not there yet.
    pub fn enter(&mut self, w: Vec<char>) -> (r: usize)
        requires
            old(self).wf(),
        ensures
            final(self).wf(),
            final(self)@ == entered(old(self)@, w@),
            r == number(old(self)@, w@),
    {
        let ghost t = self@;
        let mut i: usize = 0;
        while i < self.names.len()
            invariant
                i <= self.names.len(),
                self@ == t,
                self.wf(),
                place(t, w@) == place_from(t, w@, i as int),
            decreases self.names.len() - i,
        {
            assert(self@[i as int] == self.names@[i as int]@);
            if text::same_chars(&self.names[i], &w) {
                return i;
            }
            i += 1;
        }
        proof {
            lemma_place(t, w@, 0);
        }
        self.names.push(w);
        proof {
            assert(self@ =~= t.push(w@));
        }
        i
    }

    /// The number of `w` in the table, if it is there.
    pub fn find(&self, w: &Vec<char>) -> (r: Option<usize>)
        ensures
            r == place(self@, w@),
    {
        let mut i: usize = 0;
        while i < self.names.len()
            invariant
                i <= self.names.len(),
                place(self@, w@) == place_from(self@, w@, i as int),
            decreases self.names.len() - i,
        {
            assert(self@[i as int] == self.names@[i as int]@);
            if text::same_chars(&self.names[i], w) {
                return Some(i);
            }
            i += 1;
        }
        None
    }

    /// The text with the number `i`.
    pub fn text(&self, i: usize) -> (r: String)
        ensures
            r@ == text_at(self@, i),
    {
        if i < self.names.len() {
            text::string_of(&self.names[i])
        } else {
            String::new()
        }
    }

    /// The integer that one of the table's texts denotes.
    pub fn integer(&self, i: usize) -> (r: Option<i64>)
        ensures
            r == text::integer_of(text_at(self@, i)),
    {
        if i < self.names.len() {
            text::read_integer(&self.names[i])
        } else {
            None
        }
    }

    /// The order of two of the table's texts.
    pub fn rank_places(&self, i: usize, j: usize) -> (r: Rank)
        ensures
            r == datum::rank_texts(text_at(self@, i), text_at(self@, j)),
    {
        let none: Vec<char> = Vec::new();
        let a: &Vec<char> = if i < self.names.len() {
            &self.names[i]
        } else {
            &none
        };
        let b: &Vec<char> = if j < self.names.len() {
            &self.names[j]
        } else {
            &none
        };
        datum::rank_of_texts(a, b)
    }

    /// How many texts the table holds.
    pub fn len(&self) -> (r: usize)
        ensures
            r == self@.len(),
    {
        self.names.len()
    }
}

proof fn lemma_well_known_distinct()
    ensures
        well_known().no_duplicates(),
{
    reveal_strlit("?column?");
    reveal_strlit("count");
    reveal_strlit("sum");
    reveal_strlit("min");
    reveal_strlit("max");
    reveal_strlit("exists");
    reveal_strlit("case");
    reveal_strlit("coalesce");
    reveal_strlit("public");
    reveal_strlit("application_name");
    reveal_strlit("excluded");
    let t = well_known();
    // Texts of one length differ in the first character that is compared here.
    assert(t[0][0] == '?' && t[1][0] == 'c' && t[5][0] == 'e' && t[7][0] == 'c' && t[8][0] == 'p');
    assert(t[10][0] == 'e');
    assert(t[2][0] == 's' && t[3][1] == 'i' && t[4][1] == 'a');
    assert forall|i: int, j: int| 0 <= i < j < t.len() implies t[i] != t[j] by {
        assert(t[i].len() != t[j].len() || t[i][0] != t[j][0] || t[i][1] != t[j][1]);
    }
}

} // verus!
