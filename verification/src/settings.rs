//! The settings of a session.

use vstd::prelude::*;
use vstd::string::StringExecFns;
use crate::ast::Idents;
use crate::ast::IsolationLevel;
use crate::ast::Setting;
use crate::ast::TxnModes;
use crate::defined;
use crate::defined::Defined;
use crate::fault::Fault;
use crate::lexer;
use crate::symbols;
use crate::symbols::Symbols;
use crate::text;

verus! {

/// How a transaction runs.
#[derive(Clone, Copy, PartialEq, Eq, Debug, Structural)]
pub struct Modes {
    pub isolation: IsolationLevel,
    pub read_only: bool,
    pub deferrable: bool,
}

/// Settings by name.
#[derive(Debug)]
pub enum Settings {
    Nil,
    Cons(usize, Setting, Box<Settings>),
}

/// What a session has set: its settings, the schemas that it looks names up in,
/// the time in milliseconds that a statement may take, how its transactions run, and
/// the role that it acts as, if that is not the one that started it, and what it has
/// defined.
#[derive(Debug)]
pub struct Vars {
    pub settings: Settings,
    pub path: Idents,
    pub timeout: u64,
    pub modes: Modes,
    pub acting: Option<usize>,
    pub defined: Defined,
}

/// The settings that have a meaning of their own.
#[derive(Clone, Copy, PartialEq, Eq, Debug, Structural)]
pub enum SettingKind {
    SearchPath,
    StatementTimeout,
    DateStyle,
    TimeZone,
    IntervalStyle,
    TransactionIsolation,
    TransactionReadOnly,
    TransactionDeferrable,
    Other,
}

/// The kind of the setting with a given name.
pub open spec fn setting_kind(name: Seq<char>) -> SettingKind {
    if name == "search_path"@ {
        SettingKind::SearchPath
    } else if name == "statement_timeout"@ {
        SettingKind::StatementTimeout
    } else if name == "datestyle"@ {
        SettingKind::DateStyle
    } else if name == "timezone"@ {
        SettingKind::TimeZone
    } else if name == "intervalstyle"@ {
        SettingKind::IntervalStyle
    } else if name == "transaction_isolation"@ {
        SettingKind::TransactionIsolation
    } else if name == "transaction_read_only"@ {
        SettingKind::TransactionReadOnly
    } else if name == "transaction_deferrable"@ {
        SettingKind::TransactionDeferrable
    } else {
        SettingKind::Other
    }
}

fn kind_of(t: &Symbols, name: usize) -> (r: SettingKind)
    ensures
        r == setting_kind(symbols::text_at(t@, name)),
{
    let w: Vec<char> = text::chars_of(t.text(name).as_str());
    if text::spells(&w, "search_path") {
        SettingKind::SearchPath
    } else if text::spells(&w, "statement_timeout") {
        SettingKind::StatementTimeout
    } else if text::spells(&w, "datestyle") {
        SettingKind::DateStyle
    } else if text::spells(&w, "timezone") {
        SettingKind::TimeZone
    } else if text::spells(&w, "intervalstyle") {
        SettingKind::IntervalStyle
    } else if text::spells(&w, "transaction_isolation") {
        SettingKind::TransactionIsolation
    } else if text::spells(&w, "transaction_read_only") {
        SettingKind::TransactionReadOnly
    } else if text::spells(&w, "transaction_deferrable") {
        SettingKind::TransactionDeferrable
    } else {
        SettingKind::Other
    }
}

/// Whether a word in lower case is an element of a date style.
pub open spec fn is_style(w: Seq<char>) -> bool {
    ||| w == "iso"@
    ||| w == "postgres"@
    ||| w == "sql"@
    ||| w == "german"@
    ||| w == "mdy"@
    ||| w == "dmy"@
    ||| w == "ymd"@
    ||| w == "us"@
    ||| w == "european"@
    ||| w == "noneuropean"@
    ||| w == "euro"@
    ||| w == "noneuro"@
    ||| w == "default"@
}

fn spells_style(w: &Vec<char>) -> (r: bool)
    ensures
        r == is_style(w@),
{
    text::spells(w, "iso")
        || text::spells(w, "postgres")
        || text::spells(w, "sql")
        || text::spells(w, "german")
        || text::spells(w, "mdy")
        || text::spells(w, "dmy")
        || text::spells(w, "ymd")
        || text::spells(w, "us")
        || text::spells(w, "european")
        || text::spells(w, "noneuropean")
        || text::spells(w, "euro")
        || text::spells(w, "noneuro")
        || text::spells(w, "default")
}

/// Whether a text in lower case names a time zone.
pub open spec fn is_zone(w: Seq<char>) -> bool {
    ||| w == "utc"@
    ||| w == "gmt"@
    ||| w == "est5edt"@
    ||| w == "cst6cdt"@
    ||| w == "mst7mdt"@
    ||| w == "pst8pdt"@
    ||| w == "america/new_york"@
    ||| w == "america/chicago"@
    ||| w == "america/denver"@
    ||| w == "america/los_angeles"@
    ||| w == "europe/london"@
    ||| w == "europe/paris"@
    ||| w == "europe/berlin"@
    ||| w == "asia/tokyo"@
    ||| w == "asia/kolkata"@
    ||| w == "australia/sydney"@
}

fn spells_zone(w: &Vec<char>) -> (r: bool)
    ensures
        r == is_zone(w@),
{
    text::spells(w, "utc")
        || text::spells(w, "gmt")
        || text::spells(w, "est5edt")
        || text::spells(w, "cst6cdt")
        || text::spells(w, "mst7mdt")
        || text::spells(w, "pst8pdt")
        || text::spells(w, "america/new_york")
        || text::spells(w, "america/chicago")
        || text::spells(w, "america/denver")
        || text::spells(w, "america/los_angeles")
        || text::spells(w, "europe/london")
        || text::spells(w, "europe/paris")
        || text::spells(w, "europe/berlin")
        || text::spells(w, "asia/tokyo")
        || text::spells(w, "asia/kolkata")
        || text::spells(w, "australia/sydney")
}

/// Whether a text in lower case names an interval style.
pub open spec fn is_interval_style(w: Seq<char>) -> bool {
    ||| w == "postgres"@
    ||| w == "postgres_verbose"@
    ||| w == "sql_standard"@
    ||| w == "iso_8601"@
}

fn spells_interval_style(w: &Vec<char>) -> (r: bool)
    ensures
        r == is_interval_style(w@),
{
    text::spells(w, "postgres")
        || text::spells(w, "postgres_verbose")
        || text::spells(w, "sql_standard")
        || text::spells(w, "iso_8601")
}

/// A text without the blanks at its end.
pub open spec fn without_trailing(w: Seq<char>) -> Seq<char>
    decreases w.len(),
{
    if w.len() > 0 && w.last() == ' ' {
        without_trailing(w.drop_last())
    } else {
        w
    }
}

fn trim_end(w: Vec<char>) -> (r: Vec<char>)
    ensures
        r@ == without_trailing(w@),
{
    let mut v: Vec<char> = w;
    while v.len() > 0 && v[v.len() - 1] == ' '
        invariant
            without_trailing(v@) == without_trailing(w@),
        decreases v.len(),
    {
        let ghost before = v@;
        let _: Option<char> = v.pop();
        assert(v@ =~= before.drop_last());
    }
    v
}

/// Whether a text from place `i` on, behind the beginning `piece` of an element, is
/// a list of elements of a date style with commas between them.
pub open spec fn is_style_list(s: Seq<char>, i: int, piece: Seq<char>) -> bool
    decreases s.len() - i,
{
    if i < 0 || i >= s.len() {
        is_style(without_trailing(piece))
    } else if s[i] == ',' {
        is_style(without_trailing(piece)) && is_style_list(s, i + 1, Seq::empty())
    } else if s[i] == ' ' && piece.len() == 0 {
        is_style_list(s, i + 1, piece)
    } else {
        is_style_list(s, i + 1, piece.push(lexer::lower(s[i])))
    }
}

fn spells_style_list(s: &Vec<char>) -> (r: bool)
    ensures
        r == is_style_list(s@, 0, Seq::empty()),
{
    let mut piece: Vec<char> = Vec::new();
    let mut i: usize = 0;
    while i < s.len()
        invariant
            i <= s.len(),
            is_style_list(s@, 0, Seq::empty()) == is_style_list(s@, i as int, piece@),
        decreases s.len() - i,
    {
        if s[i] == ',' {
            if !spells_style(&trim_end(piece)) {
                return false;
            }
            piece = Vec::new();
        } else if s[i] == ' ' && piece.len() == 0 {
        } else {
            piece.push(lexer::to_lower(s[i]));
        }
        i += 1;
    }
    spells_style(&trim_end(piece))
}

fn lower_all(s: &Vec<char>) -> (r: Vec<char>)
    ensures
        r@ == lexer::lowered(s@),
{
    let mut r: Vec<char> = Vec::new();
    let mut i: usize = 0;
    while i < s.len()
        invariant
            i <= s.len(),
            r@ =~= lexer::lowered(s@.take(i as int)),
        decreases s.len() - i,
    {
        r.push(lexer::to_lower(s[i]));
        i += 1;
        assert(lexer::lowered(s@.take(i as int)) =~= lexer::lowered(s@.take(i - 1)).push(
            lexer::lower(s@[i - 1]),
        ));
    }
    assert(s@.take(i as int) =~= s@);
    r
}

/// Whether a text is a value for a setting.
pub open spec fn word_fits(k: SettingKind, w: Seq<char>) -> bool {
    match k {
        SettingKind::DateStyle => is_style_list(w, 0, Seq::empty()),
        SettingKind::TimeZone => is_zone(lexer::lowered(w)),
        SettingKind::IntervalStyle => is_interval_style(lexer::lowered(w)),
        _ => true,
    }
}

fn fits(t: &Symbols, k: SettingKind, word: usize) -> (r: bool)
    ensures
        r == word_fits(k, symbols::text_at(t@, word)),
{
    let w: Vec<char> = text::chars_of(t.text(word).as_str());
    match k {
        SettingKind::DateStyle => spells_style_list(&w),
        SettingKind::TimeZone => spells_zone(&lower_all(&w)),
        SettingKind::IntervalStyle => spells_interval_style(&lower_all(&w)),
        _ => true,
    }
}

/// The first of some words that is no value for a setting.
pub open spec fn misfit(t: Seq<Seq<char>>, k: SettingKind, words: Idents) -> Option<usize>
    decreases words,
{
    match words {
        Idents::Nil => None,
        Idents::Cons(w, rest) => if word_fits(k, symbols::text_at(t, w)) {
            misfit(t, k, *rest)
        } else {
            Some(w)
        },
    }
}

fn find_misfit(t: &Symbols, k: SettingKind, words: &Idents) -> (r: Option<usize>)
    ensures
        r == misfit(t@, k, *words),
    decreases words,
{
    match words {
        Idents::Nil => None,
        Idents::Cons(w, rest) => if fits(t, k, *w) {
            find_misfit(t, k, rest)
        } else {
            Some(*w)
        },
    }
}

/// The value of a setting.
pub open spec fn setting_of(s: Settings, name: usize) -> Option<Setting>
    decreases s,
{
    match s {
        Settings::Nil => None,
        Settings::Cons(n, v, rest) => if n == name {
            Some(v)
        } else {
            setting_of(*rest, name)
        },
    }
}

/// The settings after one got a value.
pub open spec fn with_setting(s: Settings, name: usize, value: Setting) -> Settings
    decreases s,
{
    match s {
        Settings::Nil => Settings::Cons(name, value, Box::new(Settings::Nil)),
        Settings::Cons(n, v, rest) => if n == name {
            Settings::Cons(n, value, rest)
        } else {
            Settings::Cons(n, v, Box::new(with_setting(*rest, name, value)))
        },
    }
}

/// The settings without one.
pub open spec fn without_setting(s: Settings, name: usize) -> Settings
    decreases s,
{
    match s {
        Settings::Nil => Settings::Nil,
        Settings::Cons(n, v, rest) => if n == name {
            *rest
        } else {
            Settings::Cons(n, v, Box::new(without_setting(*rest, name)))
        },
    }
}

impl Setting {
    pub fn copy(&self) -> (r: Setting)
        ensures
            r == *self,
    {
        match self {
            Setting::Default => Setting::Default,
            Setting::Word(w) => Setting::Word(*w),
            Setting::Number(n) => Setting::Number(*n),
            Setting::Words(ws) => Setting::Words(Box::new(ws.copy())),
        }
    }
}

impl Settings {
    pub fn copy(&self) -> (r: Settings)
        ensures
            r == *self,
        decreases self,
    {
        match self {
            Settings::Nil => Settings::Nil,
            Settings::Cons(n, v, rest) => Settings::Cons(*n, v.copy(), Box::new(rest.copy())),
        }
    }

    /// The value of a setting.
    pub fn get(&self, name: usize) -> (r: Option<Setting>)
        ensures
            r == setting_of(*self, name),
        decreases self,
    {
        match self {
            Settings::Nil => None,
            Settings::Cons(n, v, rest) => if *n == name {
                Some(v.copy())
            } else {
                rest.get(name)
            },
        }
    }

    fn with(&self, name: usize, value: Setting) -> (r: Settings)
        ensures
            r == with_setting(*self, name, value),
        decreases self,
    {
        match self {
            Settings::Nil => Settings::Cons(name, value, Box::new(Settings::Nil)),
            Settings::Cons(n, v, rest) => if *n == name {
                Settings::Cons(*n, value, Box::new(rest.copy()))
            } else {
                Settings::Cons(*n, v.copy(), Box::new(rest.with(name, value)))
            },
        }
    }

    fn without(&self, name: usize) -> (r: Settings)
        ensures
            r == without_setting(*self, name),
        decreases self,
    {
        match self {
            Settings::Nil => Settings::Nil,
            Settings::Cons(n, v, rest) => if *n == name {
                rest.copy()
            } else {
                Settings::Cons(*n, v.copy(), Box::new(rest.without(name)))
            },
        }
    }
}

impl Vars {
    pub fn copy(&self) -> (r: Vars)
        ensures
            r == *self,
    {
        proof {
            defined::lemma_duplicate(self.defined);
        }
        Vars {
            settings: self.settings.copy(),
            path: self.path.copy(),
            timeout: self.timeout,
            modes: self.modes,
            acting: self.acting,
            defined: defined::define_duplicate(&self.defined),
        }
    }
}

/// The modes that nothing was said about.
pub open spec fn default_modes() -> Modes {
    Modes { isolation: IsolationLevel::ReadCommitted, read_only: false, deferrable: false }
}

/// Modes after some of them were set.
pub open spec fn with_modes(m: Modes, o: TxnModes) -> Modes {
    Modes {
        isolation: match o.isolation {
            Some(i) => i,
            None => m.isolation,
        },
        read_only: match o.read_only {
            Some(b) => b,
            None => m.read_only,
        },
        deferrable: match o.deferrable {
            Some(b) => b,
            None => m.deferrable,
        },
    }
}

impl Modes {
    /// Modes after some of them were set.
    pub fn with(&self, o: TxnModes) -> (r: Modes)
        ensures
            r == with_modes(*self, o),
    {
        Modes {
            isolation: match o.isolation {
                Some(i) => i,
                None => self.isolation,
            },
            read_only: match o.read_only {
                Some(b) => b,
                None => self.read_only,
            },
            deferrable: match o.deferrable {
                Some(b) => b,
                None => self.deferrable,
            },
        }
    }
}

/// What a session has set when nothing was set but the name of its application. Names
/// are looked up in the schema named like its user, and then in the public one.
pub open spec fn initial_vars(user: usize, application: Option<usize>) -> Vars {
    Vars {
        settings: match application {
            None => Settings::Nil,
            Some(w) => Settings::Cons(
                symbols::APPLICATION_NAME,
                Setting::Word(w),
                Box::new(Settings::Nil),
            ),
        },
        path: Idents::Cons(
            user,
            Box::new(Idents::Cons(symbols::PUBLIC, Box::new(Idents::Nil))),
        ),
        timeout: 0,
        modes: default_modes(),
        acting: None,
        defined: defined::nothing(),
    }
}

impl Vars {
    /// What a session has set when nothing was set but the name of its
    /// application.
    pub fn initial(user: usize, application: Option<usize>) -> (r: Vars)
        ensures
            r == initial_vars(user, application),
    {
        Vars {
            settings: match application {
                None => Settings::Nil,
                Some(w) => Settings::Cons(
                    symbols::APPLICATION_NAME,
                    Setting::Word(w),
                    Box::new(Settings::Nil),
                ),
            },
            path: Idents::Cons(
                user,
                Box::new(Idents::Cons(symbols::PUBLIC, Box::new(Idents::Nil))),
            ),
            timeout: 0,
            modes: Modes {
                isolation: IsolationLevel::ReadCommitted,
                read_only: false,
                deferrable: false,
            },
            acting: None,
            defined: defined::no_definitions(),
        }
    }
}

/// What is set after a setting got its initial value back.
pub open spec fn reset_var(t: Seq<Seq<char>>, initial: Vars, v: Vars, name: usize) -> Result<
    Vars,
    Fault,
> {
    match setting_kind(symbols::text_at(t, name)) {
        SettingKind::SearchPath => Ok(Vars { path: initial.path, ..v }),
        SettingKind::StatementTimeout => Ok(Vars { timeout: initial.timeout, ..v }),
        SettingKind::TransactionIsolation => Err(Fault::ModeSetting { name }),
        SettingKind::TransactionReadOnly => Err(Fault::ModeSetting { name }),
        SettingKind::TransactionDeferrable => Err(Fault::ModeSetting { name }),
        _ => Ok(
            Vars {
                settings: match setting_of(initial.settings, name) {
                    Some(value) => with_setting(v.settings, name, value),
                    None => without_setting(v.settings, name),
                },
                ..v
            },
        ),
    }
}

/// The time limit that a value stands for.
pub open spec fn timeout_of(t: Seq<Seq<char>>, name: usize, value: Setting) -> Result<u64, Fault> {
    match value {
        Setting::Number(n) => Ok(n),
        Setting::Word(w) => match text::integer_of(symbols::text_at(t, w)) {
            Some(n) => if n >= 0 {
                Ok(n as u64)
            } else {
                Err(Fault::InvalidSetting { name, value: w })
            },
            None => Err(Fault::InvalidSetting { name, value: w }),
        },
        Setting::Words(ws) => match *ws {
            Idents::Cons(w, _) => Err(Fault::InvalidSetting { name, value: w }),
            Idents::Nil => Err(Fault::InvalidSettingNumber { name, number: 0 }),
        },
        Setting::Default => Ok(0),
    }
}

fn read_timeout(t: &Symbols, name: usize, value: &Setting) -> (r: Result<u64, Fault>)
    ensures
        r == timeout_of(t@, name, *value),
{
    match value {
        Setting::Number(n) => Ok(*n),
        Setting::Word(w) => match t.integer(*w) {
            Some(n) => if n >= 0 {
                Ok(n as u64)
            } else {
                Err(Fault::InvalidSetting { name, value: *w })
            },
            None => Err(Fault::InvalidSetting { name, value: *w }),
        },
        Setting::Words(ws) => match &**ws {
            Idents::Cons(w, _) => Err(Fault::InvalidSetting { name, value: *w }),
            Idents::Nil => Err(Fault::InvalidSettingNumber { name, number: 0 }),
        },
        Setting::Default => Ok(0),
    }
}

/// The search path that a value stands for.
pub open spec fn path_of(name: usize, value: Setting) -> Result<Idents, Fault> {
    match value {
        Setting::Word(w) => Ok(Idents::Cons(w, Box::new(Idents::Nil))),
        Setting::Words(ws) => Ok(*ws),
        Setting::Number(n) => Err(Fault::InvalidSettingNumber { name, number: n }),
        Setting::Default => Ok(Idents::Nil),
    }
}

fn read_path(name: usize, value: &Setting) -> (r: Result<Idents, Fault>)
    ensures
        r == path_of(name, *value),
{
    match value {
        Setting::Word(w) => Ok(Idents::Cons(*w, Box::new(Idents::Nil))),
        Setting::Words(ws) => Ok(ws.copy()),
        Setting::Number(n) => Err(Fault::InvalidSettingNumber { name, number: *n }),
        Setting::Default => Ok(Idents::Nil),
    }
}

/// Whether a value is one for a setting whose values are words.
pub open spec fn value_fault(
    t: Seq<Seq<char>>,
    k: SettingKind,
    name: usize,
    value: Setting,
) -> Option<
    Fault,
> {
    match value {
        Setting::Word(w) => if word_fits(k, symbols::text_at(t, w)) {
            None
        } else {
            Some(Fault::InvalidSetting { name, value: w })
        },
        Setting::Words(ws) => match misfit(t, k, *ws) {
            Some(w) => Some(Fault::InvalidSetting { name, value: w }),
            None => None,
        },
        Setting::Number(n) => if k == SettingKind::Other {
            None
        } else {
            Some(Fault::InvalidSettingNumber { name, number: n })
        },
        Setting::Default => None,
    }
}

fn check_value(t: &Symbols, k: SettingKind, name: usize, value: &Setting) -> (r: Option<Fault>)
    ensures
        r == value_fault(t@, k, name, *value),
{
    match value {
        Setting::Word(w) => if fits(t, k, *w) {
            None
        } else {
            Some(Fault::InvalidSetting { name, value: *w })
        },
        Setting::Words(ws) => match find_misfit(t, k, ws) {
            Some(w) => Some(Fault::InvalidSetting { name, value: w }),
            None => None,
        },
        Setting::Number(n) => if k == SettingKind::Other {
            None
        } else {
            Some(Fault::InvalidSettingNumber { name, number: *n })
        },
        Setting::Default => None,
    }
}

/// What is set after a setting got a value.
#[verifier::opaque]
pub open spec fn assigned_var(
    t: Seq<Seq<char>>,
    initial: Vars,
    v: Vars,
    name: usize,
    value: Setting,
) -> Result<Vars, Fault> {
    if value is Default {
        reset_var(t, initial, v, name)
    } else {
        match setting_kind(symbols::text_at(t, name)) {
            SettingKind::SearchPath => match path_of(name, value) {
                Ok(path) => Ok(Vars { path, ..v }),
                Err(f) => Err(f),
            },
            SettingKind::StatementTimeout => match timeout_of(t, name, value) {
                Ok(timeout) => Ok(Vars { timeout, ..v }),
                Err(f) => Err(f),
            },
            SettingKind::TransactionIsolation => Err(Fault::ModeSetting { name }),
            SettingKind::TransactionReadOnly => Err(Fault::ModeSetting { name }),
            SettingKind::TransactionDeferrable => Err(Fault::ModeSetting { name }),
            k => match value_fault(t, k, name, value) {
                Some(f) => Err(f),
                None => Ok(Vars { settings: with_setting(v.settings, name, value), ..v }),
            },
        }
    }
}

impl Vars {
    /// What is set after a setting got its initial value back.
    pub fn reset(&self, t: &Symbols, initial: &Vars, name: usize) -> (r: Result<Vars, Fault>)
        ensures
            r == reset_var(t@, *initial, *self, name),
    {
        let mut v: Vars = self.copy();
        match kind_of(t, name) {
            SettingKind::SearchPath => {
                v.path = initial.path.copy();
            },
            SettingKind::StatementTimeout => {
                v.timeout = initial.timeout;
            },
            SettingKind::TransactionIsolation => {
                return Err(Fault::ModeSetting { name });
            },
            SettingKind::TransactionReadOnly => {
                return Err(Fault::ModeSetting { name });
            },
            SettingKind::TransactionDeferrable => {
                return Err(Fault::ModeSetting { name });
            },
            _ => {
                v.settings =
                match initial.settings.get(name) {
                    Some(value) => self.settings.with(name, value),
                    None => self.settings.without(name),
                };
            },
        }
        Ok(v)
    }

    /// What is set after a setting got a value.
    pub fn assigned(&self, t: &Symbols, initial: &Vars, name: usize, value: &Setting) -> (r: Result<
        Vars,
        Fault,
    >)
        ensures
            r == assigned_var(t@, *initial, *self, name, *value),
    {
        proof {
            reveal(assigned_var);
        }
        if matches!(value, Setting::Default) {
            return self.reset(t, initial, name);
        }
        let mut v: Vars = self.copy();
        let k: SettingKind = kind_of(t, name);
        match k {
            SettingKind::SearchPath => {
                v.path = read_path(name, value)?;
            },
            SettingKind::StatementTimeout => {
                v.timeout = read_timeout(t, name, value)?;
            },
            SettingKind::TransactionIsolation => {
                return Err(Fault::ModeSetting { name });
            },
            SettingKind::TransactionReadOnly => {
                return Err(Fault::ModeSetting { name });
            },
            SettingKind::TransactionDeferrable => {
                return Err(Fault::ModeSetting { name });
            },
            _ => match check_value(t, k, name, value) {
                Some(f) => {
                    return Err(f);
                },
                None => {
                    v.settings = self.settings.with(name, value.copy());
                },
            },
        }
        Ok(v)
    }
}

/// Words with commas between them.
pub open spec fn words_text(t: Seq<Seq<char>>, ws: Idents) -> Seq<char>
    decreases ws,
{
    match ws {
        Idents::Nil => Seq::empty(),
        Idents::Cons(w, rest) => match *rest {
            Idents::Nil => symbols::text_at(t, w),
            _ => symbols::text_at(t, w) + ", "@ + words_text(t, *rest),
        },
    }
}

fn words_string(t: &Symbols, ws: &Idents) -> (r: String)
    ensures
        r@ == words_text(t@, *ws),
    decreases ws,
{
    match ws {
        Idents::Nil => {
            let s: String = String::new();
            assert(s@ =~= Seq::<char>::empty());
            s
        },
        Idents::Cons(w, rest) => match &**rest {
            Idents::Nil => t.text(*w),
            _ => {
                let mut s: String = t.text(*w);
                s.append(", ");
                s.append(words_string(t, rest).as_str());
                assert(s@ =~= words_text(t@, *ws));
                s
            },
        },
    }
}

/// The text of a value.
pub open spec fn value_text(t: Seq<Seq<char>>, v: Setting) -> Seq<char> {
    match v {
        Setting::Word(w) => symbols::text_at(t, w),
        Setting::Words(ws) => words_text(t, *ws),
        Setting::Number(n) => text::decimal(n as nat),
        Setting::Default => Seq::empty(),
    }
}

fn decimal_string(n: u64) -> (r: String)
    ensures
        r@ == text::decimal(n as nat),
{
    let mut s: String = String::new();
    text::push_decimal(&mut s, n);
    assert(s@ =~= text::decimal(n as nat));
    s
}

fn value_string(t: &Symbols, v: &Setting) -> (r: String)
    ensures
        r@ == value_text(t@, *v),
{
    match v {
        Setting::Word(w) => t.text(*w),
        Setting::Words(ws) => words_string(t, ws),
        Setting::Number(n) => decimal_string(*n),
        Setting::Default => {
            let s: String = String::new();
            assert(s@ =~= Seq::<char>::empty());
            s
        },
    }
}

/// The name of an isolation level.
pub open spec fn level_text(i: IsolationLevel) -> Seq<char> {
    match i {
        IsolationLevel::ReadCommitted => "read committed"@,
        IsolationLevel::SnapshotIsolation => "snapshot isolation"@,
        IsolationLevel::Serializable => "serializable"@,
    }
}

fn level_name(i: IsolationLevel) -> (r: &'static str)
    ensures
        r@ == level_text(i),
{
    match i {
        IsolationLevel::ReadCommitted => "read committed",
        IsolationLevel::SnapshotIsolation => "snapshot isolation",
        IsolationLevel::Serializable => "serializable",
    }
}

pub open spec fn switch_text(on: bool) -> Seq<char> {
    if on {
        "on"@
    } else {
        "off"@
    }
}

fn switch_name(on: bool) -> (r: &'static str)
    ensures
        r@ == switch_text(on),
{
    if on {
        "on"
    } else {
        "off"
    }
}

/// The text under which a setting is shown; `m` are the modes of the transaction.
#[verifier::opaque]
pub open spec fn shown(t: Seq<Seq<char>>, v: Vars, m: Modes, name: usize) -> Result<
    Seq<char>,
    Fault,
> {
    match setting_kind(symbols::text_at(t, name)) {
        SettingKind::SearchPath => Ok(words_text(t, v.path)),
        SettingKind::StatementTimeout => Ok(text::decimal(v.timeout as nat)),
        SettingKind::TransactionIsolation => Ok(level_text(m.isolation)),
        SettingKind::TransactionReadOnly => Ok(switch_text(m.read_only)),
        SettingKind::TransactionDeferrable => Ok(switch_text(m.deferrable)),
        k => match setting_of(v.settings, name) {
            Some(value) => Ok(value_text(t, value)),
            None => match k {
                SettingKind::DateStyle => Ok("ISO, MDY"@),
                SettingKind::TimeZone => Ok("UTC"@),
                SettingKind::IntervalStyle => Ok("postgres"@),
                _ => Err(Fault::UndefinedSetting { name }),
            },
        },
    }
}

/// Whether an answer of `show` is the one that is stated.
pub open spec fn text_is(r: Result<String, Fault>, s: Result<Seq<char>, Fault>) -> bool {
    match (r, s) {
        (Ok(x), Ok(y)) => x@ == y,
        (Err(f), Err(g)) => f == g,
        _ => false,
    }
}

impl Vars {
    /// The text under which a setting is shown.
    pub fn show(&self, t: &Symbols, m: Modes, name: usize) -> (r: Result<String, Fault>)
        ensures
            text_is(r, shown(t@, *self, m, name)),
    {
        proof {
            reveal(shown);
        }
        let k: SettingKind = kind_of(t, name);
        match k {
            SettingKind::SearchPath => Ok(words_string(t, &self.path)),
            SettingKind::StatementTimeout => Ok(decimal_string(self.timeout)),
            SettingKind::TransactionIsolation => Ok(text::owned(level_name(m.isolation))),
            SettingKind::TransactionReadOnly => Ok(text::owned(switch_name(m.read_only))),
            SettingKind::TransactionDeferrable => Ok(text::owned(switch_name(m.deferrable))),
            _ => match self.settings.get(name) {
                Some(value) => Ok(value_string(t, &value)),
                None => match k {
                    SettingKind::DateStyle => Ok(text::owned("ISO, MDY")),
                    SettingKind::TimeZone => Ok(text::owned("UTC")),
                    SettingKind::IntervalStyle => Ok(text::owned("postgres")),
                    _ => Err(Fault::UndefinedSetting { name }),
                },
            },
        }
    }
}

/// A setting has the value that it was given last.
pub proof fn law_setting_read_back(s: Settings, name: usize, value: Setting)
    ensures
        setting_of(with_setting(s, name, value), name) == Some(value),
    decreases s,
{
    match s {
        Settings::Nil => {},
        Settings::Cons(n, _, rest) => {
            if n != name {
                law_setting_read_back(*rest, name, value);
            }
        },
    }
}

/// A new value for one setting leaves all others as they are.
pub proof fn law_setting_leaves_others(s: Settings, name: usize, value: Setting, other: usize)
    requires
        other != name,
    ensures
        setting_of(with_setting(s, name, value), other) == setting_of(s, other),
    decreases s,
{
    match s {
        Settings::Nil => {},
        Settings::Cons(n, _, rest) => {
            if n != name {
                law_setting_leaves_others(*rest, name, value, other);
            }
        },
    }
}

} // verus!
