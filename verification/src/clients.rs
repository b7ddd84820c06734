//! Laws of what clients meet with: passwords and logins, settings, and results as they are
//! handed out.

use vstd::prelude::*;
use crate::auth;
use crate::auth::Attempts;
use crate::catalog;
use crate::catalog::DbModel;
use crate::datum;
use crate::datum::Datum;
use crate::datum::Tuple;
use crate::fault::Fault;
use crate::fields;
use crate::fields::Fields;
use crate::harness;
use crate::lexer;
use crate::logictest;
use crate::rights;
use crate::security;
use crate::security::CharClass;
use crate::security::SecurityConfig;
use crate::settings;
use crate::settings::Modes;
use crate::ast::Setting;
use crate::settings::SettingKind;
use crate::settings::Settings;
use crate::settings::Vars;
use crate::symbols;
use crate::text;
use crate::value;
use crate::value::ColumnModel;
use crate::value::ResultModel;
use crate::value::ValueModel;

verus! {

/// A client may start a session as a role exactly if the role may log in and either it has a
/// password and the client gives that one, or neither has one. As a user that is no role it
/// may only where that is open to all, and without a password.
pub proof fn law_login(
    db: DbModel,
    t: Seq<Seq<char>>,
    open: bool,
    user: usize,
    password: Option<Seq<char>>,
    k: int,
)
    requires
        db.roles.len() <= usize::MAX,
        forall|a: int, b: int|
            0 <= a < b < db.roles.len() ==> (#[trigger] db.roles[a]).name != (
            #[trigger] db.roles[b]).name,
    ensures
        0 <= k < db.roles.len() && db.roles[k].name == user ==> (auth::login_fault(
            db,
            t,
            open,
            user,
            password,
        ) is None <==> db.roles[k].login && match (password, db.roles[k].password) {
            (None, None) => true,
            (Some(p), Some(w)) => symbols::text_at(t, w) == p,
            _ => false,
        }),
        !rights::has_role(db.roles, user) ==> (auth::login_fault(
            db,
            t,
            open,
            user,
            password,
        ) is None <==> open && password is None),
{
    rights::lemma_role_place(db.roles, user, 0);
    if 0 <= k < db.roles.len() && db.roles[k].name == user {
        let i = catalog::role_place(db.roles, user, 0)->Some_0;
        if i != k {
            assert(db.roles[i as int].name == db.roles[k].name);
        }
    }
}

/// Over a network a refusal does not tell why.
pub proof fn law_told(f: Fault, g: Fault, over_tls: bool)
    ensures
        auth::told_fault(f, Some(over_tls)) == auth::told_fault(g, Some(over_tls)),
        auth::told_fault(f, None) == f,
{
}

/// A password is accepted exactly if it is long enough and, as far as the settings ask for
/// it, is not the name of the role in whatever case and holds a lower case letter, an upper
/// case letter, a digit and another character.
pub proof fn law_password(t: Seq<Seq<char>>, c: SecurityConfig, role: usize, password: usize)
    ensures
        ({
            let w = symbols::text_at(t, password);
            let name = symbols::text_at(t, role);
            security::password_fault(t, c, role, password) is None <==> {
                &&& w.len() >= c.password_min_length
                &&& c.reject_role_name_as_password ==> w.len() != name.len() || exists|i: int|
                    0 <= i < w.len() && lexer::lower(#[trigger] w[i]) != lexer::lower(name[i])
                &&& c.password_require_lowercase ==> exists|i: int|
                    0 <= i < w.len() && 'a' <= #[trigger] w[i] && w[i] <= 'z'
                &&& c.password_require_uppercase ==> exists|i: int|
                    0 <= i < w.len() && 'A' <= #[trigger] w[i] && w[i] <= 'Z'
                &&& c.password_require_digit ==> exists|i: int|
                    0 <= i < w.len() && '0' <= #[trigger] w[i] && w[i] <= '9'
                &&& c.password_require_symbol ==> exists|i: int|
                    0 <= i < w.len() && !('a' <= #[trigger] w[i] && w[i] <= 'z') && !('A' <= w[i]
                        && w[i] <= 'Z') && !('0' <= w[i] && w[i] <= '9')
            }
        }),
{
    let w = symbols::text_at(t, password);
    let name = symbols::text_at(t, role);
    lemma_folded(w, name);
    lemma_class(w);
}

proof fn lemma_folded(a: Seq<char>, b: Seq<char>)
    ensures
        security::same_folded(a, b) <==> a.len() == b.len() && forall|i: int|
            0 <= i < a.len() ==> lexer::lower(#[trigger] a[i]) == lexer::lower(b[i]),
{
    let x = lexer::lowered(a);
    let y = lexer::lowered(b);
    if security::same_folded(a, b) {
        assert(x.len() == y.len());
        assert forall|i: int| 0 <= i < a.len() implies lexer::lower(#[trigger] a[i])
            == lexer::lower(b[i]) by {
            assert(x[i] == y[i]);
        }
    } else if a.len() == b.len() && forall|i: int|
        0 <= i < a.len() ==> lexer::lower(#[trigger] a[i]) == lexer::lower(b[i]) {
        assert(x =~= y);
    }
}

proof fn lemma_class(w: Seq<char>)
    ensures
        security::has_class(w, CharClass::Lowercase) <==> exists|i: int|
            0 <= i < w.len() && 'a' <= #[trigger] w[i] && w[i] <= 'z',
        security::has_class(w, CharClass::Uppercase) <==> exists|i: int|
            0 <= i < w.len() && 'A' <= #[trigger] w[i] && w[i] <= 'Z',
        security::has_class(w, CharClass::Digit) <==> exists|i: int|
            0 <= i < w.len() && '0' <= #[trigger] w[i] && w[i] <= '9',
        security::has_class(w, CharClass::Symbol) <==> exists|i: int|
            0 <= i < w.len() && !('a' <= #[trigger] w[i] && w[i] <= 'z') && !('A' <= w[i] && w[i]
                <= 'Z') && !('0' <= w[i] && w[i] <= '9'),
{
    if security::has_class(w, CharClass::Lowercase) {
        let i = choose|i: int|
            0 <= i < w.len() && security::in_class(#[trigger] w[i], CharClass::Lowercase);
        assert('a' <= w[i] && w[i] <= 'z');
    }
    if security::has_class(w, CharClass::Uppercase) {
        let i = choose|i: int|
            0 <= i < w.len() && security::in_class(#[trigger] w[i], CharClass::Uppercase);
        assert('A' <= w[i] && w[i] <= 'Z');
    }
    if security::has_class(w, CharClass::Digit) {
        let i = choose|i: int|
            0 <= i < w.len() && security::in_class(#[trigger] w[i], CharClass::Digit);
        assert('0' <= w[i] && w[i] <= '9');
    }
    if security::has_class(w, CharClass::Symbol) {
        let i = choose|i: int|
            0 <= i < w.len() && security::in_class(#[trigger] w[i], CharClass::Symbol);
        assert(!('a' <= w[i] && w[i] <= 'z'));
    }
}

proof fn lemma_attempts_place(v: Seq<Attempts>, user: usize, from: int)
    requires
        0 <= from,
        v.len() <= usize::MAX,
    ensures
        match auth::attempts_place(v, user, from) {
            Some(i) => {
                &&& from <= i < v.len()
                &&& v[i as int].user == user
                &&& forall|k: int| from <= k < i ==> (#[trigger] v[k]).user != user
            },
            None => forall|k: int| from <= k < v.len() ==> (#[trigger] v[k]).user != user,
        },
    decreases v.len() - from,
{
    if from < v.len() && v[from].user != user {
        lemma_attempts_place(v, user, from + 1);
    }
}

proof fn lemma_attempts_at(v: Seq<Attempts>, user: usize, from: int, i: int)
    requires
        0 <= from <= i < v.len() <= usize::MAX,
        v[i].user == user,
        forall|k: int| from <= k < i ==> (#[trigger] v[k]).user != user,
    ensures
        auth::attempts_place(v, user, from) == Some(i as usize),
    decreases i - from,
{
    if from < i {
        lemma_attempts_at(v, user, from + 1, i);
    }
}

/// A failure of a user who has none that counts is counted until the window has passed, and
/// no longer.
pub proof fn law_failure_counts_for_a_while(
    v: Seq<Attempts>,
    user: usize,
    now: u64,
    later: u64,
    window: u64,
)
    requires
        v.len() < usize::MAX,
        auth::attempts_place(v, user, 0) matches Some(i) ==> v[i as int].since + window < now,
        now <= later,
    ensures
        auth::recent_failures(auth::with_failure(v, user, now, window), user, later, window)
            == if later <= now + window {
            1u32
        } else {
            0u32
        },
{
    lemma_attempts_place(v, user, 0);
    let after = auth::with_failure(v, user, now, window);
    match auth::attempts_place(v, user, 0) {
        Some(i) => lemma_attempts_at(after, user, 0, i as int),
        None => lemma_attempts_at(after, user, 0, v.len() as int),
    }
}

/// Each failure within the window counts one more, up to the largest number, and those of
/// other users do not count; a success of one user leaves the failures of others.
pub proof fn law_failures(
    v: Seq<Attempts>,
    user: usize,
    other: usize,
    now: u64,
    window: u64,
)
    requires
        v.len() < usize::MAX,
    ensures
        ({
            let had = auth::recent_failures(v, user, now, window);
            auth::recent_failures(auth::with_failure(v, user, now, window), user, now, window)
                == if had < u32::MAX {
                had + 1
            } else {
                u32::MAX as int
            }
        }),
        other != user ==> auth::recent_failures(
            auth::with_failure(v, user, now, window),
            other,
            now,
            window,
        ) == auth::recent_failures(v, other, now, window),
        other != user ==> auth::recent_failures(
            auth::without_failures(v, user),
            other,
            now,
            window,
        ) == auth::recent_failures(v, other, now, window),
{
    lemma_attempts_place(v, user, 0);
    lemma_attempts_place(v, other, 0);
    let after = auth::with_failure(v, user, now, window);
    let clear = auth::without_failures(v, user);
    match auth::attempts_place(v, user, 0) {
        Some(i) => lemma_attempts_at(after, user, 0, i as int),
        None => lemma_attempts_at(after, user, 0, v.len() as int),
    }
    if other != user {
        lemma_attempts_place(after, other, 0);
        lemma_attempts_place(clear, other, 0);
        if let Some(j) = auth::attempts_place(v, other, 0) {
            assert forall|k: int| 0 <= k < j implies (#[trigger] after[k]).user != other by {
                assert(v[k].user != other);
            }
            assert forall|k: int| 0 <= k < j implies (#[trigger] clear[k]).user != other by {
                assert(v[k].user != other);
            }
            lemma_attempts_at(after, other, 0, j as int);
            lemma_attempts_at(clear, other, 0, j as int);
        } else {
            assert forall|k: int| 0 <= k < after.len() implies (#[trigger] after[k]).user
                != other by {
                if k < v.len() {
                    assert(v[k].user != other);
                }
            }
            assert forall|k: int| 0 <= k < clear.len() implies (#[trigger] clear[k]).user
                != other by {
                assert(v[k].user != other);
            }
        }
    }
}

/// Whether no setting is in a list twice.
pub open spec fn are_single(s: Settings) -> bool
    decreases s,
{
    match s {
        Settings::Nil => true,
        Settings::Cons(n, _, rest) => settings::setting_of(*rest, n) is None && are_single(*rest),
    }
}

/// Giving a setting a value and taking it away leaves no setting in the list twice; one that
/// was taken away has no value, and the others keep theirs.
pub proof fn law_settings_stay_single(s: Settings, name: usize, value: Setting, other: usize)
    requires
        are_single(s),
    ensures
        are_single(settings::with_setting(s, name, value)),
        are_single(settings::without_setting(s, name)),
        settings::setting_of(settings::without_setting(s, name), name) is None,
        other != name ==> settings::setting_of(settings::without_setting(s, name), other)
            == settings::setting_of(s, other),
    decreases s,
{
    if let Settings::Cons(n, _, rest) = s {
        law_settings_stay_single(*rest, name, value, other);
        law_settings_stay_single(*rest, name, value, n);
        if n != name {
            settings::law_setting_leaves_others(*rest, name, value, n);
        }
    }
}

/// A setting shows the value that it was given, and the other settings show what they did.
pub proof fn law_set_and_show(
    t: Seq<Seq<char>>,
    initial: Vars,
    v: Vars,
    m: Modes,
    name: usize,
    value: Setting,
    other: usize,
)
    requires
        !(value is Default),
    ensures
        settings::assigned_var(t, initial, v, name, value) matches Ok(w) ==> {
            &&& match settings::setting_kind(symbols::text_at(t, name)) {
                SettingKind::SearchPath => settings::path_of(name, value) matches Ok(p)
                    && settings::shown(t, w, m, name) == Ok::<Seq<char>, Fault>(
                    settings::words_text(t, p),
                ),
                SettingKind::StatementTimeout => settings::timeout_of(t, name, value) matches Ok(n)
                    && settings::shown(t, w, m, name) == Ok::<Seq<char>, Fault>(
                    text::decimal(n as nat),
                ),
                _ => settings::shown(t, w, m, name) == Ok::<Seq<char>, Fault>(
                    settings::value_text(t, value),
                ),
            }
            &&& symbols::text_at(t, other) != symbols::text_at(t, name) ==> settings::shown(
                t,
                w,
                m,
                other,
            ) == settings::shown(t, v, m, other)
            &&& w.modes == v.modes && w.acting == v.acting && w.defined == v.defined
        },
{
    reveal(settings::assigned_var);
    reveal(settings::shown);
    settings::law_setting_read_back(v.settings, name, value);
    if other != name {
        settings::law_setting_leaves_others(v.settings, name, value, other);
    }
    lemma_kinds_differ(symbols::text_at(t, name), symbols::text_at(t, other));
}

proof fn lemma_kinds_differ(a: Seq<char>, b: Seq<char>)
    ensures
        settings::setting_kind(a) == settings::setting_kind(b) && a != b
            ==> settings::setting_kind(a) == SettingKind::Other,
{
    reveal_strlit("search_path");
    reveal_strlit("statement_timeout");
    reveal_strlit("datestyle");
    reveal_strlit("timezone");
    reveal_strlit("intervalstyle");
    reveal_strlit("transaction_isolation");
    reveal_strlit("transaction_read_only");
    reveal_strlit("transaction_deferrable");
}

/// A setting that is reset shows what it showed in the beginning.
pub proof fn law_reset_and_show(t: Seq<Seq<char>>, initial: Vars, v: Vars, m: Modes, name: usize)
    requires
        are_single(v.settings),
    ensures
        settings::reset_var(t, initial, v, name) matches Ok(w) ==> settings::shown(t, w, m, name)
            == settings::shown(t, initial, m, name),
        settings::assigned_var(t, initial, v, name, Setting::Default) == settings::reset_var(
            t,
            initial,
            v,
            name,
        ),
{
    reveal(settings::assigned_var);
    reveal(settings::shown);
    match settings::setting_of(initial.settings, name) {
        Some(x) => settings::law_setting_read_back(v.settings, name, x),
        None => law_settings_stay_single(v.settings, name, Setting::Default, name),
    }
}

/// A time limit is the number that is given, be it as a number or as a text of one, and none
/// is below zero.
pub proof fn law_timeout(t: Seq<Seq<char>>, name: usize, n: u64, w: usize)
    ensures
        settings::timeout_of(t, name, Setting::Number(n)) == Ok::<u64, Fault>(n),
        match text::integer_of(symbols::text_at(t, w)) {
            Some(k) => if k >= 0 {
                settings::timeout_of(t, name, Setting::Word(w)) == Ok::<u64, Fault>(k as u64)
            } else {
                settings::timeout_of(t, name, Setting::Word(w)) is Err
            },
            None => settings::timeout_of(t, name, Setting::Word(w)) is Err,
        },
{
}

/// The case of its letters does not matter for the name of a time zone or of an interval
/// style.
pub proof fn law_case_of_values(a: Seq<char>, b: Seq<char>)
    requires
        lexer::lowered(a) == lexer::lowered(b),
    ensures
        settings::word_fits(SettingKind::TimeZone, a) == settings::word_fits(
            SettingKind::TimeZone,
            b,
        ),
        settings::word_fits(SettingKind::IntervalStyle, a) == settings::word_fits(
            SettingKind::IntervalStyle,
            b,
        ),
{
}

proof fn lemma_style_shift(p: Seq<char>, s: Seq<char>, i: int, piece: Seq<char>)
    requires
        0 <= i,
    ensures
        settings::is_style_list(p + s, p.len() + i, piece) == settings::is_style_list(s, i, piece),
    decreases s.len() - i,
{
    if i < s.len() {
        assert((p + s)[p.len() + i] == s[i]);
        assert(p.len() + i + 1 == p.len() + (i + 1));
        if s[i] == ',' {
            lemma_style_shift(p, s, i + 1, Seq::empty());
        } else if s[i] == ' ' && piece.len() == 0 {
            lemma_style_shift(p, s, i + 1, piece);
        } else {
            lemma_style_shift(p, s, i + 1, piece.push(lexer::lower(s[i])));
        }
    }
}

proof fn lemma_style_join(a: Seq<char>, b: Seq<char>, i: int, piece: Seq<char>)
    requires
        0 <= i <= a.len(),
    ensures
        settings::is_style_list(a.push(',') + b, i, piece) == (settings::is_style_list(a, i, piece)
            && settings::is_style_list(b, 0, Seq::empty())),
    decreases a.len() - i,
{
    let all = a.push(',') + b;
    if i < a.len() {
        assert(all[i] == a[i]);
        if a[i] == ',' {
            lemma_style_join(a, b, i + 1, Seq::empty());
        } else if a[i] == ' ' && piece.len() == 0 {
            lemma_style_join(a, b, i + 1, piece);
        } else {
            lemma_style_join(a, b, i + 1, piece.push(lexer::lower(a[i])));
        }
    } else {
        assert(all[i] == ',');
        lemma_style_shift(a.push(','), b, 0, Seq::empty());
    }
}

/// A date style with a comma in it is one exactly if what is before and what is behind the
/// comma are.
pub proof fn law_date_styles(a: Seq<char>, b: Seq<char>)
    ensures
        settings::word_fits(SettingKind::DateStyle, a.push(',') + b) <==> settings::word_fits(
            SettingKind::DateStyle,
            a,
        ) && settings::word_fits(SettingKind::DateStyle, b),
{
    lemma_style_join(a, b, 0, Seq::empty());
}

proof fn lemma_rendered_row(t: Seq<Seq<char>>, row: Tuple, acc: Seq<ValueModel>, k: int)
    ensures
        ({
            let out = value::rendered_row(t, row, acc);
            &&& out.len() == acc.len() + datum::tuple_len(row)
            &&& 0 <= k < acc.len() ==> out[k] == acc[k]
            &&& acc.len() <= k < out.len() ==> out[k] == value::rendered_value(
                t,
                datum::cell(row, (k - acc.len()) as nat),
            )
        }),
    decreases row,
{
    if let Tuple::Cons(d, rest) = row {
        lemma_rendered_row(t, *rest, acc.push(value::rendered_value(t, d)), k);
        if k > acc.len() {
            assert(datum::cell(row, (k - acc.len()) as nat) == datum::cell(
                *rest,
                (k - acc.len() - 1) as nat,
            ));
        }
    }
}

/// A client sees each row with one value for each cell, in their order: the same number, the
/// same truth value, the text that is entered, or null.
pub proof fn law_rows_as_seen(t: Seq<Seq<char>>, rows: Seq<Tuple>, r: int, k: int)
    requires
        0 <= r < rows.len(),
        0 <= k < datum::tuple_len(rows[r]),
    ensures
        ({
            let out = value::rendered_rows(t, rows);
            &&& out.len() == rows.len()
            &&& out[r].len() == datum::tuple_len(rows[r])
            &&& match datum::cell(rows[r], k as nat) {
                Datum::Null => out[r][k] == ValueModel::Null,
                Datum::Int(n) => out[r][k] == ValueModel::Int(n),
                Datum::Big(n) => out[r][k] == ValueModel::BigInt(n),
                Datum::Bool(b) => out[r][k] == ValueModel::Boolean(b),
                Datum::Text(s) => out[r][k] == ValueModel::Text(symbols::text_at(t, s)),
            }
        }),
{
    lemma_rendered_row(t, rows[r], Seq::empty(), k);
}

proof fn lemma_rendered_columns(t: Seq<Seq<char>>, fs: Fields, acc: Seq<ColumnModel>, k: int)
    ensures
        ({
            let out = value::rendered_columns(t, fs, acc);
            &&& out.len() == acc.len() + fields::fields_len(fs)
            &&& 0 <= k < acc.len() ==> out[k] == acc[k]
            &&& acc.len() <= k < out.len() ==> (fields::field_at(fs, (k - acc.len()) as nat)
                matches Some(f) && out[k] == value::rendered_column(t, f))
        }),
    decreases fs,
{
    if let Fields::Cons(f, rest) = fs {
        lemma_rendered_columns(t, *rest, acc.push(value::rendered_column(t, f)), k);
        if k > acc.len() {
            assert(fields::field_at(fs, (k - acc.len()) as nat) == fields::field_at(
                *rest,
                (k - acc.len() - 1) as nat,
            ));
        }
    }
}

/// A client sees the name and the type of each column of a query, in their order.
pub proof fn law_columns_as_seen(t: Seq<Seq<char>>, fs: Fields, k: int)
    requires
        0 <= k < fields::fields_len(fs),
    ensures
        ({
            let out = value::described(t, fs);
            &&& out.len() == fields::fields_len(fs)
            &&& fields::field_at(fs, k as nat) matches Some(f) && out[k].name == symbols::text_at(
                t,
                f.name,
            ) && out[k].nullable == f.nullable && (f.ty matches Some(ty) ==> out[k].data_type == ty)
        }),
{
    lemma_rendered_columns(t, fs, Seq::empty(), k);
}

/// The rows that several statements hand back are those of the last query among them.
pub proof fn law_last_rows(rs: Seq<ResultModel>, n: int)
    requires
        0 <= n <= rs.len(),
    ensures
        match harness::last_rows(rs, n) {
            Some(rows) => exists|k: int|
                {
                    &&& 0 <= k < n
                    &&& (#[trigger] rs[k]) is Query && rs[k]->rows == rows
                    &&& forall|j: int| k < j < n ==> !((#[trigger] rs[j]) is Query)
                },
            None => forall|j: int| 0 <= j < n ==> !((#[trigger] rs[j]) is Query),
        },
    decreases n,
{
    if n > 0 && !(rs[n - 1] is Query) {
        law_last_rows(rs, n - 1);
        if harness::last_rows(rs, n) is Some {
            let rows = harness::last_rows(rs, n)->Some_0;
            let k = choose|k: int|
                {
                    &&& 0 <= k < n - 1
                    &&& (#[trigger] rs[k]) is Query && rs[k]->rows == rows
                    &&& forall|j: int| k < j < n - 1 ==> !((#[trigger] rs[j]) is Query)
                };
            assert(rs[k] is Query);
        }
    } else if n > 0 {
        assert(rs[n - 1] is Query);
    }
}

/// Texts are ordered by the first character in which they differ, and one that goes on
/// another comes behind it: any two are in order, and both ways only if they are equal.
pub proof fn law_order_of_texts(a: Seq<char>, b: Seq<char>, i: int)
    requires
        0 <= i <= a.len(),
        i <= b.len(),
        a.take(i) == b.take(i),
    ensures
        harness::text_le(a, b, i) || harness::text_le(b, a, i),
        harness::text_le(a, b, i) && harness::text_le(b, a, i) ==> a == b,
        a.len() < b.len() && a == b.take(a.len() as int) ==> !harness::text_le(b, a, i),
    decreases a.len() - i,
{
    if i < a.len() && i < b.len() {
        if a[i] == b[i] {
            assert(a.take(i + 1) =~= a.take(i).push(a[i]));
            assert(b.take(i + 1) =~= b.take(i).push(b[i]));
            law_order_of_texts(a, b, i + 1);
        } else {
            assert(a[i] as int != b[i] as int);
            if a.len() < b.len() && a == b.take(a.len() as int) {
                assert(b.take(a.len() as int)[i] == b[i]);
            }
        }
    } else if i >= a.len() && i >= b.len() {
        assert(a.take(i) =~= a);
        assert(b.take(i) =~= b);
    }
}

proof fn lemma_line_end(l: Seq<char>, rest: Seq<char>, from: int)
    requires
        0 <= from <= l.len(),
        forall|k: int| 0 <= k < l.len() ==> #[trigger] l[k] != '\n',
    ensures
        logictest::line_end(l.push('\n') + rest, from) == l.len(),
        logictest::line_end(l, from) == l.len(),
    decreases l.len() - from,
{
    let all = l.push('\n') + rest;
    if from < l.len() {
        assert(all[from] == l[from]);
        lemma_line_end(l, rest, from + 1);
    } else {
        assert(all[from] == '\n');
    }
}

proof fn lemma_line_end_shift(p: Seq<char>, s: Seq<char>, from: int)
    requires
        0 <= from,
    ensures
        logictest::line_end(p + s, p.len() + from) == p.len() + logictest::line_end(s, from),
        logictest::line_end(s, from) >= from,
        from <= s.len() ==> logictest::line_end(s, from) <= s.len(),
    decreases s.len() - from,
{
    if from < s.len() {
        assert((p + s)[p.len() + from] == s[from]);
        if s[from] != '\n' {
            lemma_line_end_shift(p, s, from + 1);
        }
    }
}

proof fn lemma_lines_shift(p: Seq<char>, s: Seq<char>, from: int)
    requires
        0 <= from,
    ensures
        logictest::lines_from(p + s, p.len() + from) == logictest::lines_from(s, from),
    decreases s.len() - from,
{
    if from < s.len() {
        lemma_line_end_shift(p, s, from);
        let end = logictest::line_end(s, from);
        assert((p + s).subrange(p.len() + from, p.len() + end) =~= s.subrange(from, end));
        if end < s.len() {
            lemma_lines_shift(p, s, end + 1);
            assert(p.len() + end + 1 == p.len() + (end + 1));
        }
    }
}

/// The first line of a text goes up to its first line feed, without a carriage return at its
/// end, and what is behind the line feed are the other lines. A text without a line feed is
/// one line, if it is not empty.
pub proof fn law_lines(l: Seq<char>, rest: Seq<char>)
    requires
        forall|k: int| 0 <= k < l.len() ==> #[trigger] l[k] != '\n',
    ensures
        logictest::lines_of(l.push('\n') + rest) == seq![
            if l.len() > 0 && l.last() == '\r' {
                l.drop_last()
            } else {
                l
            },
        ] + logictest::lines_of(rest),
        l.len() > 0 ==> logictest::lines_of(l) == seq![l],
        logictest::lines_of(Seq::empty()).len() == 0,
{
    let all = l.push('\n') + rest;
    lemma_line_end(l, rest, 0);
    lemma_lines_shift(l.push('\n'), rest, 0);
    assert(all.subrange(0, l.len() as int) =~= l);
    assert(l.subrange(0, l.len() as int) =~= l);
}

} // verus!
