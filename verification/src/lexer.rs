//! Cutting statement text into tokens.

use vstd::prelude::*;
use crate::fault::Fault;
use crate::keyword;
use crate::keyword::Kw;
use crate::symbols;
use crate::symbols::Symbols;
use crate::text;

verus! {

/// Marks and operators.
#[derive(Clone, Copy, PartialEq, Eq, Debug, Structural)]
pub enum Punct {
    LParen,
    RParen,
    Comma,
    Semicolon,
    Dot,
    Star,
    Plus,
    Minus,
    Slash,
    Percent,
    Eq,
    Ne,
    Lt,
    Le,
    Gt,
    Ge,
    DoubleColon,
    Bars,
    Becomes,
    Dollars,
}

/// One token. Words, quoted names and texts refer to the table of symbols.
#[derive(Clone, Copy, PartialEq, Eq, Debug, Structural)]
pub enum Tok {
    Word(Kw, usize),
    Text(usize),
    Num(u64),
    Mark(Punct),
    Param(u64),
    End,
}

/// What a text was cut into: the table with all names and texts entered, and the
/// tokens.
pub struct Lexed {
    pub table: Seq<Seq<char>>,
    pub tokens: Result<Seq<Tok>, Fault>,
}

pub open spec fn is_blank(c: char) -> bool {
    c == ' ' || c == '\t' || c == '\n' || c == '\r'
}

pub open spec fn starts_word(c: char) -> bool {
    ('a' <= c && c <= 'z') || ('A' <= c && c <= 'Z') || c == '_' || c >= '\u{80}'
}

pub open spec fn continues_word(c: char) -> bool {
    starts_word(c) || text::is_digit(c) || c == '$'
}

pub open spec fn lower(c: char) -> char {
    if 'A' <= c && c <= 'Z' {
        ((c as int) + 32) as char
    } else {
        c
    }
}

/// A text in lower case; only the letters A to Z have another form.
pub open spec fn lowered(s: Seq<char>) -> Seq<char> {
    s.map_values(|c: char| lower(c))
}

/// The end of the word that goes on at `from`.
pub open spec fn word_end(s: Seq<char>, from: int) -> int
    decreases s.len() - from,
{
    if 0 <= from < s.len() && continues_word(s[from]) {
        word_end(s, from + 1)
    } else {
        from
    }
}

/// The end of the line that `from` lies in.
pub open spec fn comment_end(s: Seq<char>, from: int) -> int
    decreases s.len() - from,
{
    if 0 <= from < s.len() && s[from] != '\n' {
        comment_end(s, from + 1)
    } else {
        from
    }
}

/// The place behind the first `*/` at or after `from`.
pub open spec fn block_comment_end(s: Seq<char>, from: int) -> Option<int>
    decreases s.len() - from,
{
    if from < 0 || from + 1 >= s.len() {
        None
    } else if s[from] == '*' && s[from + 1] == '/' {
        Some(from + 2)
    } else {
        block_comment_end(s, from + 1)
    }
}

/// The rest of a quoted text from `from` on: what it holds behind `acc`, and the
/// place behind its closing quote. A doubled quote stands for one.
pub open spec fn quoted_rest(s: Seq<char>, from: int, q: char, acc: Seq<char>) -> Option<
    (Seq<char>, int),
>
    decreases s.len() - from,
{
    if from < 0 || from >= s.len() {
        None
    } else if s[from] == q {
        if from + 1 < s.len() && s[from + 1] == q {
            quoted_rest(s, from + 2, q, acc.push(q))
        } else {
            Some((acc, from + 1))
        }
    } else {
        quoted_rest(s, from + 1, q, acc.push(s[from]))
    }
}

/// The mark that stands at `at`, and how many characters it has.
pub open spec fn mark_at(s: Seq<char>, at: int) -> Option<(Punct, int)> {
    let c = s[at];
    let d = if at + 1 < s.len() {
        s[at + 1]
    } else {
        ' '
    };
    if c == '(' {
        Some((Punct::LParen, 1))
    } else if c == ')' {
        Some((Punct::RParen, 1))
    } else if c == ',' {
        Some((Punct::Comma, 1))
    } else if c == ';' {
        Some((Punct::Semicolon, 1))
    } else if c == '.' {
        Some((Punct::Dot, 1))
    } else if c == '*' {
        Some((Punct::Star, 1))
    } else if c == '+' {
        Some((Punct::Plus, 1))
    } else if c == '-' {
        Some((Punct::Minus, 1))
    } else if c == '/' {
        Some((Punct::Slash, 1))
    } else if c == '%' {
        Some((Punct::Percent, 1))
    } else if c == '=' {
        Some((Punct::Eq, 1))
    } else if c == '<' && d == '>' {
        Some((Punct::Ne, 2))
    } else if c == '<' && d == '=' {
        Some((Punct::Le, 2))
    } else if c == '<' {
        Some((Punct::Lt, 1))
    } else if c == '>' && d == '=' {
        Some((Punct::Ge, 2))
    } else if c == '>' {
        Some((Punct::Gt, 1))
    } else if c == '!' && d == '=' {
        Some((Punct::Ne, 2))
    } else if c == ':' && d == ':' {
        Some((Punct::DoubleColon, 2))
    } else if c == '|' && d == '|' {
        Some((Punct::Bars, 2))
    } else if c == ':' && d == '=' {
        Some((Punct::Becomes, 2))
    } else if c == '$' && d == '$' {
        Some((Punct::Dollars, 2))
    } else {
        None
    }
}

/// The tokens of `s` from `at` on, behind those in `acc`, with every name and
/// text entered in the table `t`.
pub open spec fn lex_from(t: Seq<Seq<char>>, s: Seq<char>, at: int, acc: Seq<Tok>) -> Lexed
    decreases s.len() - at,
    via lex_from_decreases
{
    if at < 0 || at >= s.len() {
        Lexed { table: t, tokens: Ok(acc) }
    } else if is_blank(s[at]) {
        lex_from(t, s, at + 1, acc)
    } else if s[at] == '-' && at + 1 < s.len() && s[at + 1] == '-' {
        lex_from(t, s, comment_end(s, at + 2), acc)
    } else if s[at] == '/' && at + 1 < s.len() && s[at + 1] == '*' {
        match block_comment_end(s, at + 2) {
            None => Lexed { table: t, tokens: Err(Fault::UnterminatedComment) },
            Some(end) => lex_from(t, s, end, acc),
        }
    } else if starts_word(s[at]) {
        let end = word_end(s, at);
        let w = lowered(s.subrange(at, end));
        lex_from(
            symbols::entered(t, w),
            s,
            end,
            acc.push(Tok::Word(keyword::keyword(w), symbols::number(t, w))),
        )
    } else if text::is_digit(s[at]) {
        let end = text::digits_end(s, at);
        let n = text::number_of(s.subrange(at, end));
        if n > u64::MAX {
            Lexed { table: t, tokens: Err(Fault::NumberTooLarge) }
        } else if end + 1 < s.len() && s[end] == '.' && text::is_digit(s[end + 1]) {
            Lexed { table: t, tokens: Err(Fault::DecimalNumber) }
        } else {
            lex_from(t, s, end, acc.push(Tok::Num(n as u64)))
        }
    } else if s[at] == '$' && at + 1 < s.len() && text::is_digit(s[at + 1]) {
        let end = text::digits_end(s, at + 1);
        let n = text::number_of(s.subrange(at + 1, end));
        if n > u64::MAX {
            Lexed { table: t, tokens: Err(Fault::NumberTooLarge) }
        } else {
            lex_from(t, s, end, acc.push(Tok::Param(n as u64)))
        }
    } else if s[at] == '\'' {
        match quoted_rest(s, at + 1, '\'', Seq::empty()) {
            None => Lexed { table: t, tokens: Err(Fault::UnterminatedQuote) },
            Some((w, end)) => lex_from(
                symbols::entered(t, w),
                s,
                end,
                acc.push(Tok::Text(symbols::number(t, w))),
            ),
        }
    } else if s[at] == '"' {
        match quoted_rest(s, at + 1, '"', Seq::empty()) {
            None => Lexed { table: t, tokens: Err(Fault::UnterminatedQuote) },
            Some((w, end)) => lex_from(
                symbols::entered(t, w),
                s,
                end,
                acc.push(Tok::Word(Kw::Plain, symbols::number(t, w))),
            ),
        }
    } else {
        match mark_at(s, at) {
            None => Lexed { table: t, tokens: Err(Fault::UnexpectedCharacter) },
            Some((p, n)) => lex_from(t, s, at + n, acc.push(Tok::Mark(p))),
        }
    }
}

#[via_fn]
proof fn lex_from_decreases(t: Seq<Seq<char>>, s: Seq<char>, at: int, acc: Seq<Tok>) {
    if 0 <= at < s.len() {
        lemma_ends(s, at);
        if at + 1 < s.len() {
            lemma_ends(s, at + 1);
        }
        if at + 2 <= s.len() {
            lemma_ends(s, at + 2);
        }
        lemma_quoted_rest(s, at + 1, '\'', Seq::empty());
        lemma_quoted_rest(s, at + 1, '"', Seq::empty());
    }
}

proof fn lemma_ends(s: Seq<char>, from: int)
    requires
        0 <= from <= s.len(),
    ensures
        from <= word_end(s, from) <= s.len(),
        from < s.len() && continues_word(s[from]) ==> from < word_end(s, from),
        from <= text::digits_end(s, from) <= s.len(),
        from < s.len() && text::is_digit(s[from]) ==> from < text::digits_end(s, from),
        from <= comment_end(s, from) <= s.len(),
        match block_comment_end(s, from) {
            None => true,
            Some(end) => from < end <= s.len(),
        },
    decreases s.len() - from,
{
    if from < s.len() {
        lemma_ends(s, from + 1);
    }
}

proof fn lemma_quoted_rest(s: Seq<char>, from: int, q: char, acc: Seq<char>)
    requires
        0 <= from,
    ensures
        match quoted_rest(s, from, q, acc) {
            None => true,
            Some((_, end)) => from < end <= s.len(),
        },
    decreases s.len() - from,
{
    if from < s.len() {
        if s[from] == q {
            if from + 1 < s.len() && s[from + 1] == q {
                lemma_quoted_rest(s, from + 2, q, acc.push(q));
            }
        } else {
            lemma_quoted_rest(s, from + 1, q, acc.push(s[from]));
        }
    }
}

/// The tokens of a text.
pub open spec fn lexed(t: Seq<Seq<char>>, s: Seq<char>) -> Lexed {
    lex_from(t, s, 0, Seq::empty())
}

fn can_start_word(c: char) -> (r: bool)
    ensures
        r == starts_word(c),
{
    ('a' <= c && c <= 'z') || ('A' <= c && c <= 'Z') || c == '_' || c >= '\u{80}'
}

fn can_continue_word(c: char) -> (r: bool)
    ensures
        r == continues_word(c),
{
    can_start_word(c) || ('0' <= c && c <= '9') || c == '$'
}

/// A character in lower case.
pub fn to_lower(c: char) -> (r: char)
    ensures
        r == lower(c),
{
    if 'A' <= c && c <= 'Z' {
        ((c as u8) + 32) as char
    } else {
        c
    }
}

fn read_word(s: &Vec<char>, from: usize) -> (r: (Vec<char>, usize))
    requires
        from <= s.len(),
    ensures
        r.1 == word_end(s@, from as int),
        from <= r.1 <= s.len(),
        r.0@ == lowered(s@.subrange(from as int, r.1 as int)),
{
    let mut w: Vec<char> = Vec::new();
    let mut end: usize = from;
    while end < s.len() && can_continue_word(s[end])
        invariant
            from <= end <= s.len(),
            word_end(s@, from as int) == word_end(s@, end as int),
            w@ =~= lowered(s@.subrange(from as int, end as int)),
        decreases s.len() - end,
    {
        proof {
            assert(s@.subrange(from as int, end + 1) =~= s@.subrange(from as int, end as int).push(
                s@[end as int],
            ));
        }
        w.push(to_lower(s[end]));
        end += 1;
    }
    (w, end)
}

fn read_quoted(s: &Vec<char>, from: usize, q: char) -> (r: Option<(Vec<char>, usize)>)
    requires
        from <= s.len(),
    ensures
        match r {
            None => quoted_rest(s@, from as int, q, Seq::empty()) is None,
            Some((w, end)) => quoted_rest(s@, from as int, q, Seq::empty()) == Some(
                (w@, end as int),
            ) && end <= s.len(),
        },
{
    let mut w: Vec<char> = Vec::new();
    let mut i: usize = from;
    while i < s.len()
        invariant
            from <= i <= s.len(),
            quoted_rest(s@, from as int, q, Seq::empty()) == quoted_rest(s@, i as int, q, w@),
        decreases s.len() - i,
    {
        if s[i] == q {
            if i + 1 < s.len() && s[i + 1] == q {
                w.push(q);
                i += 2;
            } else {
                return Some((w, i + 1));
            }
        } else {
            w.push(s[i]);
            i += 1;
        }
    }
    None
}

fn skip_line(s: &Vec<char>, from: usize) -> (r: usize)
    requires
        from <= s.len(),
    ensures
        r == comment_end(s@, from as int),
        from <= r <= s.len(),
{
    let mut i: usize = from;
    while i < s.len() && s[i] != '\n'
        invariant
            from <= i <= s.len(),
            comment_end(s@, from as int) == comment_end(s@, i as int),
        decreases s.len() - i,
    {
        i += 1;
    }
    i
}

fn skip_block(s: &Vec<char>, from: usize) -> (r: Option<usize>)
    requires
        from <= s.len(),
    ensures
        match r {
            None => block_comment_end(s@, from as int) is None,
            Some(end) => block_comment_end(s@, from as int) == Some(end as int) && end <= s.len(),
        },
{
    let mut i: usize = from;
    while i < s.len() && s.len() - i >= 2
        invariant
            from <= i <= s.len(),
            block_comment_end(s@, from as int) == block_comment_end(s@, i as int),
        decreases s.len() - i,
    {
        if s[i] == '*' && s[i + 1] == '/' {
            return Some(i + 2);
        }
        i += 1;
    }
    None
}

fn read_mark(s: &Vec<char>, at: usize) -> (r: Option<(Punct, usize)>)
    requires
        at < s.len(),
    ensures
        match r {
            None => mark_at(s@, at as int) is None,
            Some((p, n)) => mark_at(s@, at as int) == Some((p, n as int)) && 1 <= n && at + n
                <= s.len(),
        },
{
    let c: char = s[at];
    let d: char = if s.len() - at >= 2 {
        s[at + 1]
    } else {
        ' '
    };
    if c == '(' {
        Some((Punct::LParen, 1))
    } else if c == ')' {
        Some((Punct::RParen, 1))
    } else if c == ',' {
        Some((Punct::Comma, 1))
    } else if c == ';' {
        Some((Punct::Semicolon, 1))
    } else if c == '.' {
        Some((Punct::Dot, 1))
    } else if c == '*' {
        Some((Punct::Star, 1))
    } else if c == '+' {
        Some((Punct::Plus, 1))
    } else if c == '-' {
        Some((Punct::Minus, 1))
    } else if c == '/' {
        Some((Punct::Slash, 1))
    } else if c == '%' {
        Some((Punct::Percent, 1))
    } else if c == '=' {
        Some((Punct::Eq, 1))
    } else if c == '<' && d == '>' {
        Some((Punct::Ne, 2))
    } else if c == '<' && d == '=' {
        Some((Punct::Le, 2))
    } else if c == '<' {
        Some((Punct::Lt, 1))
    } else if c == '>' && d == '=' {
        Some((Punct::Ge, 2))
    } else if c == '>' {
        Some((Punct::Gt, 1))
    } else if c == '!' && d == '=' {
        Some((Punct::Ne, 2))
    } else if c == ':' && d == ':' {
        Some((Punct::DoubleColon, 2))
    } else if c == '|' && d == '|' {
        Some((Punct::Bars, 2))
    } else if c == ':' && d == '=' {
        Some((Punct::Becomes, 2))
    } else if c == '$' && d == '$' {
        Some((Punct::Dollars, 2))
    } else {
        None
    }
}

/// The tokens of a result, as a sequence.
pub open spec fn tokens_view(r: Result<Vec<Tok>, Fault>) -> Result<Seq<Tok>, Fault> {
    match r {
        Ok(v) => Ok(v@),
        Err(f) => Err(f),
    }
}

/// Cuts a text into tokens and enters its names and texts in the table.
pub fn lex(t: &mut Symbols, s: &Vec<char>) -> (r: Result<Vec<Tok>, Fault>)
    requires
        old(t).wf(),
    ensures
        final(t).wf(),
        final(t)@ == lexed(old(t)@, s@).table,
        tokens_view(r) == lexed(old(t)@, s@).tokens,
{
    let ghost goal = lexed(t@, s@);
    let mut acc: Vec<Tok> = Vec::new();
    let mut at: usize = 0;
    while at < s.len()
        invariant
            at <= s.len(),
            t.wf(),
            goal == lexed(old(t)@, s@),
            goal == lex_from(t@, s@, at as int, acc@),
        decreases s.len() - at,
    {
        let c: char = s[at];
        let more: bool = s.len() - at >= 2;
        proof {
            lemma_ends(s@, at as int);
            if at + 1 < s.len() {
                lemma_ends(s@, at + 1);
            }
        }
        if c == ' ' || c == '\t' || c == '\n' || c == '\r' {
            at += 1;
        } else if c == '-' && more && s[at + 1] == '-' {
            at = skip_line(s, at + 2);
        } else if c == '/' && more && s[at + 1] == '*' {
            proof {
                lemma_ends(s@, at + 2);
            }
            match skip_block(s, at + 2) {
                None => {
                    return Err(Fault::UnterminatedComment);
                },
                Some(end) => {
                    at = end;
                },
            }
        } else if can_start_word(c) {
            let (w, end): (Vec<char>, usize) = read_word(s, at);
            let kw: Kw = keyword::keyword_of(&w);
            let name: usize = t.enter(w);
            acc.push(Tok::Word(kw, name));
            at = end;
        } else if '0' <= c && c <= '9' {
            let (n, end): (Option<u64>, usize) = text::read_digits(s, at);
            match n {
                None => {
                    return Err(Fault::NumberTooLarge);
                },
                Some(n) => {
                    if s.len() - end >= 2 && s[end] == '.' && '0' <= s[end + 1] && s[end + 1] <= '9' {
                        return Err(Fault::DecimalNumber);
                    }
                    acc.push(Tok::Num(n));
                },
            }
            at = end;
        } else if c == '$' && more && '0' <= s[at + 1] && s[at + 1] <= '9' {
            let (n, end): (Option<u64>, usize) = text::read_digits(s, at + 1);
            match n {
                None => {
                    return Err(Fault::NumberTooLarge);
                },
                Some(n) => {
                    acc.push(Tok::Param(n));
                },
            }
            at = end;
        } else if c == '\'' {
            proof {
                lemma_quoted_rest(s@, at + 1, '\'', Seq::empty());
            }
            match read_quoted(s, at + 1, '\'') {
                None => {
                    return Err(Fault::UnterminatedQuote);
                },
                Some((w, end)) => {
                    let name: usize = t.enter(w);
                    acc.push(Tok::Text(name));
                    at = end;
                },
            }
        } else if c == '"' {
            proof {
                lemma_quoted_rest(s@, at + 1, '"', Seq::empty());
            }
            match read_quoted(s, at + 1, '"') {
                None => {
                    return Err(Fault::UnterminatedQuote);
                },
                Some((w, end)) => {
                    let name: usize = t.enter(w);
                    acc.push(Tok::Word(Kw::Plain, name));
                    at = end;
                },
            }
        } else {
            match read_mark(s, at) {
                None => {
                    return Err(Fault::UnexpectedCharacter);
                },
                Some((p, n)) => {
                    acc.push(Tok::Mark(p));
                    at += n;
                },
            }
        }
    }
    Ok(acc)
}

} // verus!
