//! Laws of how a text is taken apart into tokens.

use vstd::prelude::*;
use crate::keyword;
use crate::keyword::Kw;
use crate::lexer;
use crate::lexer::Lexed;
use crate::lexer::Tok;
use crate::symbols;
use crate::text;

verus! {

proof fn lemma_word_end(p: Seq<char>, s: Seq<char>, from: int)
    requires
        0 <= from,
    ensures
        lexer::word_end(p + s, p.len() + from) == p.len() + lexer::word_end(s, from),
        from <= lexer::word_end(s, from),
        from <= s.len() ==> lexer::word_end(s, from) <= s.len(),
        from < s.len() && lexer::continues_word(s[from]) ==> from < lexer::word_end(s, from),
    decreases s.len() - from,
{
    if from < s.len() {
        assert((p + s)[p.len() + from] == s[from]);
        if lexer::continues_word(s[from]) {
            lemma_word_end(p, s, from + 1);
        }
    }
}

proof fn lemma_digits_end(p: Seq<char>, s: Seq<char>, from: int)
    requires
        0 <= from,
    ensures
        text::digits_end(p + s, p.len() + from) == p.len() + text::digits_end(s, from),
        from <= text::digits_end(s, from),
        from <= s.len() ==> text::digits_end(s, from) <= s.len(),
        from < s.len() && text::is_digit(s[from]) ==> from < text::digits_end(s, from),
    decreases s.len() - from,
{
    if from < s.len() {
        assert((p + s)[p.len() + from] == s[from]);
        if text::is_digit(s[from]) {
            lemma_digits_end(p, s, from + 1);
        }
    }
}

proof fn lemma_comment_end(p: Seq<char>, s: Seq<char>, from: int)
    requires
        0 <= from,
    ensures
        lexer::comment_end(p + s, p.len() + from) == p.len() + lexer::comment_end(s, from),
        from <= lexer::comment_end(s, from),
        from <= s.len() ==> lexer::comment_end(s, from) <= s.len(),
    decreases s.len() - from,
{
    if from < s.len() {
        assert((p + s)[p.len() + from] == s[from]);
        if s[from] != '\n' {
            lemma_comment_end(p, s, from + 1);
        }
    }
}

proof fn lemma_block_comment_end(p: Seq<char>, s: Seq<char>, from: int)
    requires
        0 <= from,
    ensures
        match lexer::block_comment_end(s, from) {
            Some(end) => {
                &&& lexer::block_comment_end(p + s, p.len() + from) == Some(p.len() + end)
                &&& from + 2 <= end <= s.len()
            },
            None => lexer::block_comment_end(p + s, p.len() + from) is None,
        },
    decreases s.len() - from,
{
    if from + 1 < s.len() {
        assert((p + s)[p.len() + from] == s[from]);
        assert((p + s)[p.len() + from + 1] == s[from + 1]);
        if !(s[from] == '*' && s[from + 1] == '/') {
            lemma_block_comment_end(p, s, from + 1);
        }
    }
}

proof fn lemma_quoted_rest(p: Seq<char>, s: Seq<char>, from: int, q: char, acc: Seq<char>)
    requires
        0 <= from,
    ensures
        match lexer::quoted_rest(s, from, q, acc) {
            Some((w, end)) => {
                &&& lexer::quoted_rest(p + s, p.len() + from, q, acc) == Some((w, p.len() + end))
                &&& from < end <= s.len()
            },
            None => lexer::quoted_rest(p + s, p.len() + from, q, acc) is None,
        },
    decreases s.len() - from,
{
    if from < s.len() {
        assert((p + s)[p.len() + from] == s[from]);
        if s[from] == q {
            if from + 1 < s.len() {
                assert((p + s)[p.len() + from + 1] == s[from + 1]);
                if s[from + 1] == q {
                    lemma_quoted_rest(p, s, from + 2, q, acc.push(q));
                }
            }
        } else {
            lemma_quoted_rest(p, s, from + 1, q, acc.push(s[from]));
        }
    }
}

proof fn lemma_mark_at(p: Seq<char>, s: Seq<char>, at: int)
    requires
        0 <= at < s.len(),
    ensures
        lexer::mark_at(p + s, p.len() + at) == lexer::mark_at(s, at),
        lexer::mark_at(s, at) matches Some((_, n)) ==> 1 <= n && at + n <= s.len(),
{
    assert((p + s)[p.len() + at] == s[at]);
    if at + 1 < s.len() {
        assert((p + s)[p.len() + at + 1] == s[at + 1]);
    }
}

/// What stands in front of a text does not matter for the tokens behind it.
#[verifier::rlimit(40)]
proof fn lemma_shift(t: Seq<Seq<char>>, p: Seq<char>, s: Seq<char>, at: int, acc: Seq<Tok>)
    requires
        0 <= at,
    ensures
        lexer::lex_from(t, p + s, p.len() + at, acc) == lexer::lex_from(t, s, at, acc),
    decreases s.len() - at,
{
    let all = p + s;
    let n = p.len() as int;
    if at < s.len() {
        assert(all[n + at] == s[at]);
        if at + 1 < s.len() {
            assert(all[n + at + 1] == s[at + 1]);
        }
        if lexer::is_blank(s[at]) {
            lemma_shift(t, p, s, at + 1, acc);
        } else if s[at] == '-' && at + 1 < s.len() && s[at + 1] == '-' {
            lemma_comment_end(p, s, at + 2);
            lemma_shift(t, p, s, lexer::comment_end(s, at + 2), acc);
        } else if s[at] == '/' && at + 1 < s.len() && s[at + 1] == '*' {
            lemma_block_comment_end(p, s, at + 2);
            if let Some(end) = lexer::block_comment_end(s, at + 2) {
                lemma_shift(t, p, s, end, acc);
            }
        } else if lexer::starts_word(s[at]) {
            lemma_word_end(p, s, at);
            let end = lexer::word_end(s, at);
            assert(all.subrange(n + at, n + end) =~= s.subrange(at, end));
            let w = lexer::lowered(s.subrange(at, end));
            lemma_shift(
                symbols::entered(t, w),
                p,
                s,
                end,
                acc.push(Tok::Word(keyword::keyword(w), symbols::number(t, w))),
            );
        } else if text::is_digit(s[at]) {
            lemma_digits_end(p, s, at);
            let end = text::digits_end(s, at);
            assert(all.subrange(n + at, n + end) =~= s.subrange(at, end));
            let k = text::number_of(s.subrange(at, end));
            if end < s.len() {
                assert(all[n + end] == s[end]);
            }
            if end + 1 < s.len() {
                assert(all[n + end + 1] == s[end + 1]);
            }
            if k <= u64::MAX && !(end + 1 < s.len() && s[end] == '.' && text::is_digit(
                s[end + 1],
            )) {
                lemma_shift(t, p, s, end, acc.push(Tok::Num(k as u64)));
            }
        } else if s[at] == '$' && at + 1 < s.len() && text::is_digit(s[at + 1]) {
            lemma_digits_end(p, s, at + 1);
            let end = text::digits_end(s, at + 1);
            assert(all.subrange(n + at + 1, n + end) =~= s.subrange(at + 1, end));
            let k = text::number_of(s.subrange(at + 1, end));
            if k <= u64::MAX {
                lemma_shift(t, p, s, end, acc.push(Tok::Param(k as u64)));
            }
        } else if s[at] == '\'' {
            lemma_quoted_rest(p, s, at + 1, '\'', Seq::empty());
            if let Some((w, end)) = lexer::quoted_rest(s, at + 1, '\'', Seq::empty()) {
                lemma_shift(
                    symbols::entered(t, w),
                    p,
                    s,
                    end,
                    acc.push(Tok::Text(symbols::number(t, w))),
                );
            }
        } else if s[at] == '"' {
            lemma_quoted_rest(p, s, at + 1, '"', Seq::empty());
            if let Some((w, end)) = lexer::quoted_rest(s, at + 1, '"', Seq::empty()) {
                lemma_shift(
                    symbols::entered(t, w),
                    p,
                    s,
                    end,
                    acc.push(Tok::Word(Kw::Plain, symbols::number(t, w))),
                );
            }
        } else {
            lemma_mark_at(p, s, at);
            if let Some((m, k)) = lexer::mark_at(s, at) {
                lemma_shift(t, p, s, at + k, acc.push(Tok::Mark(m)));
            }
        }
    }
}

/// Tokens, and behind them others, unless those end in a fault.
pub open spec fn and_so_on(acc: Seq<Tok>, l: Lexed) -> Lexed {
    Lexed {
        table: l.table,
        tokens: match l.tokens {
            Ok(ts) => Ok(acc + ts),
            Err(f) => Err(f),
        },
    }
}

proof fn lemma_and_so_on(acc: Seq<Tok>, x: Tok, l: Lexed)
    ensures
        and_so_on(acc.push(x), l) == and_so_on(acc, and_so_on(seq![x], l)),
{
    if let Ok(ts) = l.tokens {
        assert(acc.push(x) + ts =~= acc + (seq![x] + ts));
    }
}

/// The tokens that are there come first.
#[verifier::rlimit(40)]
proof fn lemma_behind(t: Seq<Seq<char>>, s: Seq<char>, at: int, acc: Seq<Tok>)
    requires
        0 <= at,
    ensures
        lexer::lex_from(t, s, at, acc) == and_so_on(
            acc,
            lexer::lex_from(t, s, at, Seq::empty()),
        ),
    decreases s.len() - at, 0int,
{
    let none = Seq::<Tok>::empty();
    if at < s.len() {
        if lexer::is_blank(s[at]) {
            lemma_behind(t, s, at + 1, acc);
        } else if s[at] == '-' && at + 1 < s.len() && s[at + 1] == '-' {
            lemma_comment_end(Seq::empty(), s, at + 2);
            lemma_behind(t, s, lexer::comment_end(s, at + 2), acc);
        } else if s[at] == '/' && at + 1 < s.len() && s[at + 1] == '*' {
            lemma_block_comment_end(Seq::empty(), s, at + 2);
            if let Some(end) = lexer::block_comment_end(s, at + 2) {
                lemma_behind(t, s, end, acc);
            }
        } else if lexer::starts_word(s[at]) {
            lemma_word_end(Seq::empty(), s, at);
            let end = lexer::word_end(s, at);
            let w = lexer::lowered(s.subrange(at, end));
            let x = Tok::Word(keyword::keyword(w), symbols::number(t, w));
            lemma_one_more(symbols::entered(t, w), s, end, acc, x);
        } else if text::is_digit(s[at]) {
            lemma_digits_end(Seq::empty(), s, at);
            let end = text::digits_end(s, at);
            let k = text::number_of(s.subrange(at, end));
            if k <= u64::MAX && !(end + 1 < s.len() && s[end] == '.' && text::is_digit(
                s[end + 1],
            )) {
                lemma_one_more(t, s, end, acc, Tok::Num(k as u64));
            }
        } else if s[at] == '$' && at + 1 < s.len() && text::is_digit(s[at + 1]) {
            lemma_digits_end(Seq::empty(), s, at + 1);
            let end = text::digits_end(s, at + 1);
            let k = text::number_of(s.subrange(at + 1, end));
            if k <= u64::MAX {
                lemma_one_more(t, s, end, acc, Tok::Param(k as u64));
            }
        } else if s[at] == '\'' {
            lemma_quoted_rest(Seq::empty(), s, at + 1, '\'', Seq::empty());
            if let Some((w, end)) = lexer::quoted_rest(s, at + 1, '\'', Seq::empty()) {
                lemma_one_more(
                    symbols::entered(t, w),
                    s,
                    end,
                    acc,
                    Tok::Text(symbols::number(t, w)),
                );
            }
        } else if s[at] == '"' {
            lemma_quoted_rest(Seq::empty(), s, at + 1, '"', Seq::empty());
            if let Some((w, end)) = lexer::quoted_rest(s, at + 1, '"', Seq::empty()) {
                lemma_one_more(
                    symbols::entered(t, w),
                    s,
                    end,
                    acc,
                    Tok::Word(Kw::Plain, symbols::number(t, w)),
                );
            }
        } else {
            lemma_mark_at(Seq::empty(), s, at);
            if let Some((m, k)) = lexer::mark_at(s, at) {
                lemma_one_more(t, s, at + k, acc, Tok::Mark(m));
            }
        }
    } else {
        assert(acc + none =~= acc);
    }
}

proof fn lemma_one_more(t: Seq<Seq<char>>, s: Seq<char>, at: int, acc: Seq<Tok>, x: Tok)
    requires
        0 < at <= s.len(),
    ensures
        lexer::lex_from(t, s, at, acc.push(x)) == and_so_on(
            acc,
            lexer::lex_from(t, s, at, Seq::<Tok>::empty().push(x)),
        ),
    decreases s.len() - at, 1int,
{
    let none = Seq::<Tok>::empty();
    lemma_behind(t, s, at, acc.push(x));
    lemma_behind(t, s, at, none.push(x));
    assert(none.push(x) =~= seq![x]);
    lemma_and_so_on(acc, x, lexer::lex_from(t, s, at, none));
}

/// The tokens of a text that goes on with `s` at place `p.len()`.
proof fn lemma_rest(t: Seq<Seq<char>>, p: Seq<char>, s: Seq<char>, x: Tok)
    ensures
        lexer::lex_from(t, p + s, p.len() as int, Seq::<Tok>::empty().push(x)) == and_so_on(
            seq![x],
            lexer::lexed(t, s),
        ),
{
    lemma_shift(t, p, s, 0, Seq::<Tok>::empty().push(x));
    lemma_behind(t, s, 0, Seq::<Tok>::empty().push(x));
    assert(Seq::<Tok>::empty().push(x) =~= seq![x]);
}

/// A blank in front of a text does not matter.
pub proof fn law_blank(t: Seq<Seq<char>>, c: char, s: Seq<char>)
    requires
        c == ' ' || c == '\t' || c == '\n' || c == '\r',
    ensures
        lexer::lexed(t, seq![c] + s) == lexer::lexed(t, s),
{
    assert((seq![c] + s)[0] == c);
    lemma_shift(t, seq![c], s, 0, Seq::empty());
}

proof fn lemma_comment_line(c: Seq<char>, s: Seq<char>, i: int)
    requires
        0 <= i <= c.len(),
        forall|k: int| 0 <= k < c.len() ==> #[trigger] c[k] != '\n',
    ensures
        lexer::comment_end(c.push('\n') + s, i) == c.len(),
    decreases c.len() - i,
{
    let all = c.push('\n') + s;
    if i < c.len() {
        assert(all[i] == c[i]);
        lemma_comment_line(c, s, i + 1);
    } else {
        assert(all[i] == '\n');
    }
}

/// What stands between two hyphens and the end of the line does not matter.
pub proof fn law_line_comment(t: Seq<Seq<char>>, c: Seq<char>, s: Seq<char>)
    requires
        forall|k: int| 0 <= k < c.len() ==> #[trigger] c[k] != '\n',
    ensures
        lexer::lexed(t, seq!['-', '-'] + (c.push('\n') + s)) == lexer::lexed(t, s),
{
    let p = seq!['-', '-'];
    let body = c.push('\n') + s;
    let all = p + body;
    assert(all[0] == '-' && all[1] == '-');
    lemma_comment_line(c, s, 0);
    lemma_comment_end(p, body, 0);
    let none = Seq::<Tok>::empty();
    assert(lexer::lexed(t, all) == lexer::lex_from(t, all, (2 + c.len()) as int, none));
    assert(all =~= (p + c) + (seq!['\n'] + s));
    lemma_shift(t, p + c, seq!['\n'] + s, 0, none);
    law_blank(t, '\n', s);
}

proof fn lemma_comment_block(c: Seq<char>, s: Seq<char>, i: int)
    requires
        0 <= i <= c.len(),
        forall|k: int| 0 <= k < c.len() - 1 ==> !(#[trigger] c[k] == '*' && c[k + 1] == '/'),
    ensures
        lexer::block_comment_end(c + (seq!['*', '/'] + s), i) == Some(c.len() as int + 2),
    decreases c.len() - i,
{
    let all = c + (seq!['*', '/'] + s);
    if i < c.len() {
        assert(all[i] == c[i]);
        if i + 1 < c.len() {
            assert(all[i + 1] == c[i + 1]);
        } else {
            assert(all[i + 1] == '*');
        }
        lemma_comment_block(c, s, i + 1);
    } else {
        assert(all[i] == '*' && all[i + 1] == '/');
    }
}

/// What stands between `/*` and the next `*/` does not matter.
pub proof fn law_block_comment(t: Seq<Seq<char>>, c: Seq<char>, s: Seq<char>)
    requires
        forall|k: int| 0 <= k < c.len() - 1 ==> !(#[trigger] c[k] == '*' && c[k + 1] == '/'),
    ensures
        lexer::lexed(t, seq!['/', '*'] + (c + (seq!['*', '/'] + s))) == lexer::lexed(t, s),
{
    let p = seq!['/', '*'];
    let body = c + (seq!['*', '/'] + s);
    let all = p + body;
    assert(all[0] == '/' && all[1] == '*');
    lemma_comment_block(c, s, 0);
    lemma_block_comment_end(p, body, 0);
    let none = Seq::<Tok>::empty();
    assert(lexer::lexed(t, all) == lexer::lex_from(t, all, (c.len() + 4) as int, none));
    let front = p + c + seq!['*', '/'];
    assert(all =~= front + s);
    lemma_shift(t, front, s, 0, none);
}

proof fn lemma_whole_word(w: Seq<char>, s: Seq<char>, i: int)
    requires
        0 <= i <= w.len(),
        forall|k: int| 0 <= k < w.len() ==> lexer::continues_word(#[trigger] w[k]),
        s.len() > 0 ==> !lexer::continues_word(s[0]),
    ensures
        lexer::word_end(w + s, i) == w.len(),
    decreases w.len() - i,
{
    if i < w.len() {
        assert((w + s)[i] == w[i]);
        lemma_whole_word(w, s, i + 1);
    } else if s.len() > 0 {
        assert((w + s)[i] == s[0]);
    }
}

/// Letters, digits and the like that begin with a letter are one word, in lower case, up to
/// the first character that does not go on with it.
pub proof fn law_word(t: Seq<Seq<char>>, w: Seq<char>, s: Seq<char>)
    requires
        w.len() > 0,
        lexer::starts_word(w[0]),
        forall|k: int| 0 <= k < w.len() ==> lexer::continues_word(#[trigger] w[k]),
        s.len() > 0 ==> !lexer::continues_word(s[0]),
    ensures
        ({
            let l = lexer::lowered(w);
            lexer::lexed(t, w + s) == and_so_on(
                seq![Tok::Word(keyword::keyword(l), symbols::number(t, l))],
                lexer::lexed(symbols::entered(t, l), s),
            )
        }),
{
    let all = w + s;
    let l = lexer::lowered(w);
    assert(all[0] == w[0]);
    lemma_whole_word(w, s, 0);
    assert(all.subrange(0, w.len() as int) =~= w);
    lemma_rest(
        symbols::entered(t, l),
        w,
        s,
        Tok::Word(keyword::keyword(l), symbols::number(t, l)),
    );
}

proof fn lemma_whole_number(w: Seq<char>, s: Seq<char>, i: int)
    requires
        0 <= i <= w.len(),
        forall|k: int| 0 <= k < w.len() ==> text::is_digit(#[trigger] w[k]),
        s.len() > 0 ==> !text::is_digit(s[0]),
    ensures
        text::digits_end(w + s, i) == w.len(),
    decreases w.len() - i,
{
    if i < w.len() {
        assert((w + s)[i] == w[i]);
        lemma_whole_number(w, s, i + 1);
    } else if s.len() > 0 {
        assert((w + s)[i] == s[0]);
    }
}

/// Digits up to the first character that is none are one number, the one that they denote, if
/// it is not too large and no point with digits follows it.
pub proof fn law_number(t: Seq<Seq<char>>, w: Seq<char>, s: Seq<char>)
    requires
        w.len() > 0,
        forall|k: int| 0 <= k < w.len() ==> text::is_digit(#[trigger] w[k]),
        s.len() > 0 ==> !text::is_digit(s[0]),
        !(s.len() > 1 && s[0] == '.' && text::is_digit(s[1])),
        text::number_of(w) <= u64::MAX,
    ensures
        lexer::lexed(t, w + s) == and_so_on(
            seq![Tok::Num(text::number_of(w) as u64)],
            lexer::lexed(t, s),
        ),
{
    let all = w + s;
    let n = w.len() as int;
    assert(all[0] == w[0]);
    lemma_whole_number(w, s, 0);
    assert(all.subrange(0, n) =~= w);
    if s.len() > 0 {
        assert(all[n] == s[0]);
    }
    if s.len() > 1 {
        assert(all[n + 1] == s[1]);
    }
    let x = Tok::Num(text::number_of(w) as u64);
    lemma_rest(t, w, s, x);
    assert(lexer::lexed(t, all) == lexer::lex_from(t, all, n, Seq::<Tok>::empty().push(x)));
}

/// Digits with a dollar sign before them are the number of a parameter.
pub proof fn law_parameter_number(t: Seq<Seq<char>>, w: Seq<char>, s: Seq<char>)
    requires
        w.len() > 0,
        forall|k: int| 0 <= k < w.len() ==> text::is_digit(#[trigger] w[k]),
        s.len() > 0 ==> !text::is_digit(s[0]),
        text::number_of(w) <= u64::MAX,
    ensures
        lexer::lexed(t, seq!['$'] + (w + s)) == and_so_on(
            seq![Tok::Param(text::number_of(w) as u64)],
            lexer::lexed(t, s),
        ),
{
    let n = w.len() as int;
    let d = seq!['$'];
    let all = d + (w + s);
    assert(all[0] == '$' && all[1] == w[0]);
    lemma_whole_number(w, s, 0);
    lemma_digits_end(d, w + s, 0);
    assert(all.subrange(1, n + 1) =~= w);
    assert(all =~= (d + w) + s);
    let x = Tok::Param(text::number_of(w) as u64);
    lemma_rest(t, d + w, s, x);
    assert(lexer::lexed(t, all) == lexer::lex_from(t, all, n + 1, Seq::<Tok>::empty().push(x)));
}

/// A text with each of its quotes doubled.
pub open spec fn doubled(w: Seq<char>, q: char) -> Seq<char>
    decreases w.len(),
{
    if w.len() == 0 {
        Seq::empty()
    } else {
        (if w[0] == q {
            seq![q, q]
        } else {
            seq![w[0]]
        }) + doubled(w.skip(1), q)
    }
}

proof fn lemma_doubled(p: Seq<char>, w: Seq<char>, q: char, s: Seq<char>, acc: Seq<char>)
    requires
        s.len() > 0 ==> s[0] != q,
    ensures
        lexer::quoted_rest(p + doubled(w, q).push(q) + s, p.len() as int, q, acc) == Some(
            (acc + w, p.len() as int + doubled(w, q).len() + 1),
        ),
    decreases w.len(),
{
    let all = p + doubled(w, q).push(q) + s;
    let at = p.len() as int;
    if w.len() == 0 {
        assert(all[at] == q);
        if s.len() > 0 {
            assert(all[at + 1] == s[0]);
        }
        assert(acc + w =~= acc);
    } else {
        let c = w[0];
        let front = if c == q {
            seq![q, q]
        } else {
            seq![c]
        };
        let rest = doubled(w.skip(1), q);
        assert(doubled(w, q) == front + rest);
        assert(all =~= (p + front) + rest.push(q) + s);
        lemma_doubled(p + front, w.skip(1), q, s, acc.push(c));
        assert(acc.push(c) + w.skip(1) =~= acc + w);
        assert(all[at] == c);
        if c == q {
            assert(all[at + 1] == q);
        }
    }
}

/// A text between quotes, with its own quotes doubled, is that text.
pub proof fn law_quoted_text(t: Seq<Seq<char>>, w: Seq<char>, s: Seq<char>)
    requires
        s.len() > 0 ==> s[0] != '\'',
    ensures
        lexer::lexed(t, seq!['\''] + doubled(w, '\'').push('\'') + s) == and_so_on(
            seq![Tok::Text(symbols::number(t, w))],
            lexer::lexed(symbols::entered(t, w), s),
        ),
{
    let q = '\'';
    let p = seq![q];
    let front = p + doubled(w, q).push(q);
    let all = front + s;
    assert(all[0] == q);
    lemma_doubled(p, w, q, s, Seq::empty());
    assert(Seq::<char>::empty() + w =~= w);
    lemma_rest(symbols::entered(t, w), front, s, Tok::Text(symbols::number(t, w)));
}

/// A name between double quotes, with its own doubled, is that name as it stands, and no
/// keyword.
pub proof fn law_quoted_name(t: Seq<Seq<char>>, w: Seq<char>, s: Seq<char>)
    requires
        s.len() > 0 ==> s[0] != '"',
    ensures
        lexer::lexed(t, seq!['"'] + doubled(w, '"').push('"') + s) == and_so_on(
            seq![Tok::Word(Kw::Plain, symbols::number(t, w))],
            lexer::lexed(symbols::entered(t, w), s),
        ),
{
    let q = '"';
    let p = seq![q];
    let front = p + doubled(w, q).push(q);
    let all = front + s;
    assert(all[0] == q);
    lemma_doubled(p, w, q, s, Seq::empty());
    assert(Seq::<char>::empty() + w =~= w);
    lemma_rest(symbols::entered(t, w), front, s, Tok::Word(Kw::Plain, symbols::number(t, w)));
}

} // verus!
