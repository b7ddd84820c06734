//! Reading statements and queries out of a sqllogictest script.
//!
//! A script is a list of lines. A line `statement ok` opens a statement, which
//! goes on to the next empty line. A line that starts with `query ` opens a
//! query, which goes on to the next line `----`.

use vstd::prelude::*;
use crate::text;

verus! {

/// Drops a carriage return from the end of a line.
pub open spec fn without_cr(line: Seq<char>) -> Seq<char> {
    if line.len() > 0 && line.last() == '\r' {
        line.drop_last()
    } else {
        line
    }
}

/// The first line feed at or after `from`, or the end of the text.
pub open spec fn line_end(s: Seq<char>, from: int) -> int
    decreases s.len() - from,
{
    if 0 <= from < s.len() && s[from] != '\n' {
        line_end(s, from + 1)
    } else {
        from
    }
}

/// The lines of `s` from index `from` on. A line ends at a line feed, which may
/// have a carriage return before it, or at the end of the text; behind the last
/// line feed there is a line only if it has a character.
pub open spec fn lines_from(s: Seq<char>, from: int) -> Seq<Seq<char>>
    decreases s.len() - from,
    via lines_from_decreases
{
    if from < 0 || from >= s.len() {
        Seq::empty()
    } else {
        let end = line_end(s, from);
        if end < s.len() {
            seq![without_cr(s.subrange(from, end))] + lines_from(s, end + 1)
        } else {
            seq![s.subrange(from, end)]
        }
    }
}

#[via_fn]
proof fn lines_from_decreases(s: Seq<char>, from: int) {
    if 0 <= from < s.len() {
        lemma_line_end(s, from);
    }
}

proof fn lemma_line_end(s: Seq<char>, from: int)
    requires
        0 <= from <= s.len(),
    ensures
        from <= line_end(s, from) <= s.len(),
    decreases s.len() - from,
{
    if from < s.len() && s[from] != '\n' {
        lemma_line_end(s, from + 1);
    }
}

/// The lines of a text.
pub open spec fn lines_of(s: Seq<char>) -> Seq<Seq<char>> {
    lines_from(s, 0)
}

/// The texts of several lines, with a line feed between each two.
pub open spec fn join_lines(lines: Seq<Seq<char>>) -> Seq<char>
    decreases lines.len(),
{
    if lines.len() == 0 {
        Seq::empty()
    } else if lines.len() == 1 {
        lines[0]
    } else {
        join_lines(lines.drop_last()).push('\n') + lines.last()
    }
}

/// The first index at or after `from` whose line is `stop`, or the number of
/// lines.
pub open spec fn block_end(lines: Seq<Seq<char>>, from: int, stop: Seq<char>) -> int
    decreases lines.len() - from,
{
    if 0 <= from < lines.len() && lines[from] != stop {
        block_end(lines, from + 1, stop)
    } else {
        from
    }
}

proof fn lemma_block_end(lines: Seq<Seq<char>>, from: int, stop: Seq<char>)
    requires
        0 <= from,
    ensures
        from <= block_end(lines, from, stop),
        from <= lines.len() ==> block_end(lines, from, stop) <= lines.len(),
    decreases lines.len() - from,
{
    if from < lines.len() && lines[from] != stop {
        lemma_block_end(lines, from + 1, stop);
    }
}

/// What a script holds before the query whose first line has the number
/// `target` (lines count from one): the statements that come before it, in
/// order, and the text of the query. `None` where no query starts there.
pub open spec fn script_from(lines: Seq<Seq<char>>, at: int, target: int) -> Option<
    (Seq<Seq<char>>, Seq<char>),
>
    decreases lines.len() + 1 - at,
    via script_from_decreases
{
    if at < 0 || at >= lines.len() {
        None
    } else if lines[at] == "statement ok"@ {
        let end = block_end(lines, at + 1, ""@);
        let statement = join_lines(lines.subrange(at + 1, end));
        match script_from(lines, end + 1, target) {
            None => None,
            Some((rest, query)) => Some((seq![statement] + rest, query)),
        }
    } else if text::occurs_at(lines[at], 0, "query "@) {
        let end = block_end(lines, at + 1, "----"@);
        if at + 2 == target {
            Some((Seq::empty(), join_lines(lines.subrange(at + 1, end))))
        } else {
            script_from(lines, end + 1, target)
        }
    } else {
        script_from(lines, at + 1, target)
    }
}

#[via_fn]
proof fn script_from_decreases(lines: Seq<Seq<char>>, at: int, target: int) {
    if 0 <= at < lines.len() {
        lemma_block_end(lines, at + 1, ""@);
        lemma_block_end(lines, at + 1, "----"@);
    }
}

/// `script_from` on a whole text.
pub open spec fn script(contents: Seq<char>, target: int) -> Option<(Seq<Seq<char>>, Seq<char>)> {
    script_from(lines_of(contents), 0, target)
}

/// The lines that a sequence of character vectors holds.
pub open spec fn line_texts(v: Seq<Vec<char>>) -> Seq<Seq<char>> {
    v.map_values(|l: Vec<char>| l@)
}

fn copy_range(s: &Vec<char>, from: usize, to: usize) -> (r: Vec<char>)
    requires
        from <= to <= s.len(),
    ensures
        r@ == s@.subrange(from as int, to as int),
{
    let mut r: Vec<char> = Vec::new();
    let mut i: usize = from;
    while i < to
        invariant
            from <= i <= to <= s.len(),
            r@ == s@.subrange(from as int, i as int),
        decreases to - i,
    {
        proof {
            assert(s@.subrange(from as int, i as int).push(s@[i as int]) =~= s@.subrange(
                from as int,
                i + 1,
            ));
        }
        r.push(s[i]);
        i += 1;
    }
    r
}

fn split_lines(s: &Vec<char>) -> (r: Vec<Vec<char>>)
    ensures
        line_texts(r@) == lines_of(s@),
{
    let mut r: Vec<Vec<char>> = Vec::new();
    let mut from: usize = 0;
    proof {
        assert(line_texts(r@) + lines_from(s@, 0) =~= lines_of(s@));
    }
    while from < s.len()
        invariant
            from <= s.len(),
            lines_of(s@) == line_texts(r@) + lines_from(s@, from as int),
        decreases s.len() - from,
    {
        let mut end: usize = from;
        while end < s.len() && s[end] != '\n'
            invariant
                from <= end <= s.len(),
                line_end(s@, from as int) == line_end(s@, end as int),
            decreases s.len() - end,
        {
            end += 1;
        }
        let ghost before = r@;
        let ghost tail = lines_from(s@, from as int);
        if end < s.len() {
            let cut: usize = if end > from && s[end - 1] == '\r' {
                end - 1
            } else {
                end
            };
            let line: Vec<char> = copy_range(s, from, cut);
            proof {
                let whole = s@.subrange(from as int, end as int);
                if end > from {
                    assert(whole.last() == s@[end - 1]);
                    assert(whole.drop_last() =~= s@.subrange(from as int, end - 1));
                }
                assert(line@ =~= without_cr(whole));
            }
            r.push(line);
            proof {
                assert(line_texts(r@) =~= line_texts(before).push(line@));
                assert(line_texts(before) + tail =~= line_texts(r@) + lines_from(s@, end + 1));
            }
            from = end + 1;
        } else {
            let line: Vec<char> = copy_range(s, from, end);
            r.push(line);
            proof {
                assert(line_texts(r@) =~= line_texts(before).push(line@));
                assert(line_texts(before) + tail =~= line_texts(r@) + lines_from(s@, end as int));
            }
            from = end;
        }
    }
    proof {
        assert(line_texts(r@) + lines_from(s@, from as int) =~= line_texts(r@));
    }
    r
}

fn join_range(lines: &Vec<Vec<char>>, from: usize, to: usize) -> (r: String)
    requires
        from <= to <= lines.len(),
    ensures
        r@ == join_lines(line_texts(lines@).subrange(from as int, to as int)),
{
    let ghost all = line_texts(lines@);
    let mut r: Vec<char> = Vec::new();
    let mut i: usize = from;
    while i < to
        invariant
            from <= i <= to <= lines.len(),
            all == line_texts(lines@),
            r@ == join_lines(all.subrange(from as int, i as int)),
        decreases to - i,
    {
        let ghost sofar = all.subrange(from as int, i as int);
        let ghost upto = all.subrange(from as int, i + 1);
        proof {
            assert(upto.drop_last() =~= sofar);
            assert(upto.last() == lines@[i as int]@);
        }
        if i > from {
            r.push('\n');
        }
        text::extend_chars(&mut r, &lines[i]);
        proof {
            if i == from {
                assert(sofar =~= Seq::empty());
                assert(r@ =~= upto[0]);
            }
            assert(r@ =~= join_lines(upto));
        }
        i += 1;
    }
    text::string_of(&r)
}

fn find_line(lines: &Vec<Vec<char>>, from: usize, stop: &str) -> (r: usize)
    requires
        from <= lines.len(),
    ensures
        from <= r <= lines.len(),
        r == block_end(line_texts(lines@), from as int, stop@),
{
    let mut i: usize = from;
    while i < lines.len()
        invariant
            from <= i <= lines.len(),
            block_end(line_texts(lines@), from as int, stop@) == block_end(
                line_texts(lines@),
                i as int,
                stop@,
            ),
        decreases lines.len() - i,
    {
        if text::spells(&lines[i], stop) {
            return i;
        }
        i += 1;
    }
    i
}

/// The statements of a script that come before the query whose first line has
/// the number `target_query_line`, and the text of that query; `None` where no
/// query starts at that line.
pub fn load_sqllogictest_setup_and_query(contents: &str, target_query_line: usize) -> (r: Option<
    (Vec<String>, String),
>)
    ensures
        match r {
            Some((statements, query)) => script(contents@, target_query_line as int) == Some(
                (text::texts(statements@), query@),
            ),
            None => script(contents@, target_query_line as int) is None,
        },
{
    let all: Vec<char> = text::chars_of(contents);
    let lines: Vec<Vec<char>> = split_lines(&all);
    let mark: Vec<char> = text::chars_of("query ");
    let ghost ls = line_texts(lines@);
    let ghost target = target_query_line as int;
    let mut statements: Vec<String> = Vec::new();
    let mut at: usize = 0;
    proof {
        assert(text::texts(statements@) =~= Seq::empty());
        if let Some((rest, _)) = script_from(ls, 0, target) {
            assert(Seq::<Seq<char>>::empty() + rest =~= rest);
        }
    }
    while at < lines.len()
        invariant
            ls == line_texts(lines@),
            mark@ == "query "@,
            target == target_query_line,
            script(contents@, target) == (match script_from(ls, at as int, target) {
                None => None,
                Some((rest, query)) => Some((text::texts(statements@) + rest, query)),
            }),
        decreases lines.len() - at,
    {
        if text::spells(&lines[at], "statement ok") {
            let end: usize = find_line(&lines, at + 1, "");
            let statement: String = join_range(&lines, at + 1, end);
            let ghost before = statements@;
            statements.push(statement);
            proof {
                assert(text::texts(statements@) =~= text::texts(before).push(statement@));
                if let Some((rest, _)) = script_from(ls, end + 1, target) {
                    assert(text::texts(before) + (seq![statement@] + rest) =~= text::texts(
                        statements@,
                    ) + rest);
                }
            }
            if end == lines.len() {
                assert(script_from(ls, end + 1, target) is None);
                return None;
            }
            at = end + 1;
        } else if text::has_at(&lines[at], 0, &mark) {
            let end: usize = find_line(&lines, at + 1, "----");
            if target_query_line >= 2 && at == target_query_line - 2 {
                let query: String = join_range(&lines, at + 1, end);
                proof {
                    assert(text::texts(statements@) + Seq::<Seq<char>>::empty() =~= text::texts(
                        statements@,
                    ));
                }
                return Some((statements, query));
            }
            if end == lines.len() {
                assert(script_from(ls, end + 1, target) is None);
                return None;
            }
            at = end + 1;
        } else {
            at += 1;
        }
    }
    None
}

/// The text of the query whose first line has the number `target_query_line`;
/// `None` where no query starts at that line.
pub fn load_sqllogictest_query(contents: &str, target_query_line: usize) -> (r: Option<String>)
    ensures
        match r {
            Some(query) => script(contents@, target_query_line as int) is Some && script(
                contents@,
                target_query_line as int,
            ).unwrap().1 == query@,
            None => script(contents@, target_query_line as int) is None,
        },
{
    match load_sqllogictest_setup_and_query(contents, target_query_line) {
        None => None,
        Some((_, query)) => Some(query),
    }
}

} // verus!
