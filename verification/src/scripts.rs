//! Laws of scripts of statements and queries.

use vstd::prelude::*;
use crate::clients;
use crate::logictest;
use crate::text;

verus! {

proof fn lemma_join_front(ls: Seq<Seq<char>>)
    requires
        ls.len() >= 2,
    ensures
        logictest::join_lines(ls) == ls[0].push('\n') + logictest::join_lines(ls.skip(1)),
    decreases ls.len(),
{
    let rest = ls.skip(1);
    if ls.len() == 2 {
        assert(ls.drop_last().len() == 1);
        assert(logictest::join_lines(ls.drop_last()) == ls[0]);
        assert(logictest::join_lines(rest) == rest[0]);
    } else {
        lemma_join_front(ls.drop_last());
        assert(ls.drop_last().skip(1) =~= rest.drop_last());
        let front = logictest::join_lines(rest.drop_last());
        assert(logictest::join_lines(rest) == front.push('\n') + rest.last());
        assert((ls[0].push('\n') + front).push('\n') + ls.last() =~= ls[0].push('\n') + (
        front.push('\n') + ls.last()));
    }
}

/// Lines that are joined and taken apart again are the lines that they were, if the last one
/// is not empty.
pub proof fn law_lines_joined(ls: Seq<Seq<char>>)
    requires
        ls.len() > 0,
        ls.last().len() > 0,
        forall|i: int, k: int|
            0 <= i < ls.len() && 0 <= k < ls[i].len() ==> #[trigger] ls[i][k] != '\n',
        forall|i: int|
            0 <= i < ls.len() ==> (#[trigger] ls[i]).len() == 0 || ls[i].last() != '\r',
    ensures
        logictest::lines_of(logictest::join_lines(ls)) == ls,
    decreases ls.len(),
{
    if ls.len() == 1 {
        clients::law_lines(ls[0], Seq::empty());
        assert(seq![ls[0]] =~= ls);
    } else {
        let rest = ls.skip(1);
        lemma_join_front(ls);
        assert forall|i: int, k: int|
            0 <= i < rest.len() && 0 <= k < rest[i].len() implies #[trigger] rest[i][k] != '\n' by {
            assert(rest[i] == ls[i + 1]);
            assert(ls[i + 1][k] != '\n');
        }
        assert forall|i: int| 0 <= i < rest.len() implies (#[trigger] rest[i]).len() == 0
            || rest[i].last() != '\r' by {
            assert(rest[i] == ls[i + 1]);
        }
        law_lines_joined(rest);
        clients::law_lines(ls[0], logictest::join_lines(rest));
        assert(seq![ls[0]] + rest =~= ls);
    }
}

proof fn lemma_block_end(p: Seq<Seq<char>>, l: Seq<Seq<char>>, from: int, stop: Seq<char>)
    requires
        0 <= from,
    ensures
        logictest::block_end(p + l, p.len() + from, stop) == p.len() + logictest::block_end(
            l,
            from,
            stop,
        ),
        from <= logictest::block_end(l, from, stop),
        from <= l.len() ==> logictest::block_end(l, from, stop) <= l.len(),
    decreases l.len() - from,
{
    if from < l.len() {
        assert((p + l)[p.len() + from] == l[from]);
        if l[from] != stop {
            lemma_block_end(p, l, from + 1, stop);
        }
    }
}

proof fn lemma_script(p: Seq<Seq<char>>, l: Seq<Seq<char>>, at: int, target: int)
    requires
        0 <= at,
    ensures
        logictest::script_from(p + l, p.len() + at, p.len() + target) == logictest::script_from(
            l,
            at,
            target,
        ),
    decreases l.len() + 1 - at,
{
    let all = p + l;
    let n = p.len() as int;
    if at < l.len() {
        assert(all[n + at] == l[at]);
        assert(n + at + 1 == n + (at + 1));
        if l[at] == "statement ok"@ {
            lemma_block_end(p, l, at + 1, ""@);
            let end = logictest::block_end(l, at + 1, ""@);
            assert(all.subrange(n + at + 1, n + end) =~= l.subrange(at + 1, end));
            lemma_script(p, l, end + 1, target);
            assert(n + end + 1 == n + (end + 1));
        } else if text::occurs_at(l[at], 0, "query "@) {
            lemma_block_end(p, l, at + 1, "----"@);
            let end = logictest::block_end(l, at + 1, "----"@);
            assert(all.subrange(n + at + 1, n + end) =~= l.subrange(at + 1, end));
            lemma_script(p, l, end + 1, target);
            assert(n + end + 1 == n + (end + 1));
        } else {
            lemma_script(p, l, at + 1, target);
        }
    }
}

proof fn lemma_block(body: Seq<Seq<char>>, stop: Seq<char>, rest: Seq<Seq<char>>, i: int)
    requires
        0 <= i <= body.len(),
        forall|k: int| 0 <= k < body.len() ==> #[trigger] body[k] != stop,
    ensures
        logictest::block_end(body.push(stop) + rest, i, stop) == body.len(),
    decreases body.len() - i,
{
    let all = body.push(stop) + rest;
    if i < body.len() {
        assert(all[i] == body[i]);
        lemma_block(body, stop, rest, i + 1);
    } else {
        assert(all[i] == stop);
    }
}

/// The lines behind `statement ok`, up to an empty one, are a statement, and it comes before
/// those of the rest of the script.
pub proof fn law_statement_block(body: Seq<Seq<char>>, rest: Seq<Seq<char>>, target: int)
    requires
        forall|k: int| 0 <= k < body.len() ==> #[trigger] body[k] != ""@,
    ensures
        logictest::script_from(
            seq!["statement ok"@] + (body.push(""@) + rest),
            0,
            body.len() + 2 + target,
        ) == match logictest::script_from(rest, 0, target) {
            None => None,
            Some((sts, query)) => Some((seq![logictest::join_lines(body)] + sts, query)),
        },
{
    let head = seq!["statement ok"@];
    let tail = body.push(""@) + rest;
    let all = head + tail;
    let n = body.len() as int;
    assert(all[0] == "statement ok"@);
    lemma_block(body, ""@, rest, 0);
    lemma_block_end(head, tail, 0, ""@);
    assert(all.subrange(1, n + 1) =~= body);
    let front = head + body.push(""@);
    assert(all =~= front + rest);
    lemma_script(front, rest, 0, target);
    assert(front.len() == n + 2);
}

/// The lines behind a line that begins with `query`, up to one of four hyphens, are a query:
/// the one that is asked for if its first line has the number, and otherwise it is passed over.
pub proof fn law_query_block(
    head: Seq<char>,
    body: Seq<Seq<char>>,
    rest: Seq<Seq<char>>,
    target: int,
)
    requires
        text::occurs_at(head, 0, "query "@),
        head != "statement ok"@,
        forall|k: int| 0 <= k < body.len() ==> #[trigger] body[k] != "----"@,
    ensures
        logictest::script_from(seq![head] + (body.push("----"@) + rest), 0, 2) == Some(
            (Seq::<Seq<char>>::empty(), logictest::join_lines(body)),
        ),
        body.len() + target != 0 ==> logictest::script_from(
            seq![head] + (body.push("----"@) + rest),
            0,
            body.len() + 2 + target,
        ) == logictest::script_from(rest, 0, target),
{
    let first = seq![head];
    let tail = body.push("----"@) + rest;
    let all = first + tail;
    let n = body.len() as int;
    assert(all[0] == head);
    lemma_block(body, "----"@, rest, 0);
    lemma_block_end(first, tail, 0, "----"@);
    assert(all.subrange(1, n + 1) =~= body);
    let front = first + body.push("----"@);
    assert(all =~= front + rest);
    lemma_script(front, rest, 0, target);
    assert(front.len() == n + 2);
}

} // verus!
