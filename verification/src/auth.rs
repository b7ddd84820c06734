//! Who may start a session.

use vstd::prelude::*;
use crate::catalog;
use crate::catalog::Db;
use crate::catalog::DbModel;
use crate::catalog::Role;
use crate::fault::Fault;
use crate::security::SecurityConfig;
use crate::symbols;
use crate::symbols::Symbols;
use crate::text;

verus! {

/// A text that is not shown by accident.
pub struct SecretString {
    secret: String,
}

impl View for SecretString {
    type V = Seq<char>;

    closed spec fn view(&self) -> Seq<char> {
        self.secret@
    }
}

impl SecretString {
    pub fn new(secret: String) -> (r: SecretString)
        ensures
            r@ == secret@,
    {
        SecretString { secret }
    }

    /// The text itself.
    pub fn expose(&self) -> (r: &str)
        ensures
            r@ == self@,
    {
        self.secret.as_str()
    }
}

/// How a client says who it is.
pub enum Credential {
    Anonymous { user: String },
    CleartextPassword { user: String, password: SecretString },
}

/// How a client is connected.
#[derive(Debug)]
pub enum TransportKind {
    InProcess,
    Network { tls: bool, peer_addr: Option<String> },
}

#[derive(Debug)]
pub struct TransportInfo {
    pub kind: TransportKind,
}

impl TransportInfo {
    /// The connection of a client in the same process.
    pub fn in_process() -> (r: TransportInfo)
        ensures
            r.kind == TransportKind::InProcess,
    {
        TransportInfo { kind: TransportKind::InProcess }
    }
}

/// What a client sends to start a session.
pub struct StartupParams {
    pub database: String,
    pub application_name: Option<String>,
    pub options: Vec<(String, String)>,
    pub credential: Credential,
    pub transport: TransportInfo,
}

/// The part of it that counts: the user, the password if one is given, the name of
/// the application, and whether a connection over a network is encrypted.
pub struct StartupModel {
    pub user: Seq<char>,
    pub password: Option<Seq<char>>,
    pub application: Option<Seq<char>>,
    pub network: Option<bool>,
}

impl View for StartupParams {
    type V = StartupModel;

    open spec fn view(&self) -> StartupModel {
        StartupModel {
            user: match self.credential {
                Credential::Anonymous { user } => user@,
                Credential::CleartextPassword { user, .. } => user@,
            },
            password: match self.credential {
                Credential::Anonymous { .. } => None,
                Credential::CleartextPassword { password, .. } => Some(password@),
            },
            application: match self.application_name {
                None => None,
                Some(a) => Some(a@),
            },
            network: match self.transport.kind {
                TransportKind::InProcess => None,
                TransportKind::Network { tls, .. } => Some(tls),
            },
        }
    }
}

/// The failures of a user that follow each other: how many, and when the first was.
#[derive(Clone, Copy, PartialEq, Eq, Debug, Structural)]
pub struct Attempts {
    pub user: usize,
    pub count: u32,
    pub since: u64,
}

/// The failures of users that are kept at a path.
pub struct LockoutState {
    pub path: Vec<char>,
    pub attempts: Vec<Attempts>,
}

pub struct LockoutModel {
    pub path: Seq<char>,
    pub attempts: Seq<Attempts>,
}

impl View for LockoutState {
    type V = LockoutModel;

    open spec fn view(&self) -> LockoutModel {
        LockoutModel { path: self.path@, attempts: self.attempts@ }
    }
}

pub open spec fn states_view(v: Seq<LockoutState>) -> Seq<LockoutModel> {
    v.map_values(|s: LockoutState| s@)
}

/// The path at which an engine keeps the failures of its users, if it keeps them.
pub open spec fn kept_at(c: SecurityConfig) -> Option<Seq<char>> {
    if c.durable_auth_lockout {
        match c.auth_lockout_state_path {
            None => None,
            Some(p) => Some(p@),
        }
    } else {
        None
    }
}

/// The first place at or after `from` of what is kept at a path.
pub open spec fn state_place(v: Seq<LockoutModel>, path: Seq<char>, from: int) -> Option<int>
    decreases v.len() - from,
{
    if from < 0 || from >= v.len() {
        None
    } else if v[from].path == path {
        Some(from)
    } else {
        state_place(v, path, from + 1)
    }
}

/// The failures that are kept at a path; none if nothing is.
pub open spec fn kept_attempts(v: Seq<LockoutModel>, path: Option<Seq<char>>) -> Seq<Attempts> {
    match path {
        None => Seq::empty(),
        Some(p) => match state_place(v, p, 0) {
            None => Seq::empty(),
            Some(i) => v[i].attempts,
        },
    }
}

/// What is kept at all paths after failures were kept at one.
pub open spec fn with_kept(
    v: Seq<LockoutModel>,
    path: Option<Seq<char>>,
    attempts: Seq<Attempts>,
) -> Seq<LockoutModel> {
    match path {
        None => v,
        Some(p) => match state_place(v, p, 0) {
            None => v.push(LockoutModel { path: p, attempts }),
            Some(i) => v.update(i, LockoutModel { path: p, attempts }),
        },
    }
}

fn path_of(c: &SecurityConfig) -> (r: Option<Vec<char>>)
    ensures
        match r {
            None => kept_at(*c) is None,
            Some(p) => kept_at(*c) == Some(p@),
        },
{
    if c.durable_auth_lockout {
        match &c.auth_lockout_state_path {
            None => None,
            Some(p) => Some(text::chars_of(p.as_str())),
        }
    } else {
        None
    }
}

fn find_state(v: &Vec<LockoutState>, path: &Vec<char>) -> (r: Option<usize>)
    ensures
        match r {
            None => state_place(states_view(v@), path@, 0) is None,
            Some(i) => state_place(states_view(v@), path@, 0) == Some(i as int) && i < v.len(),
        },
{
    let mut i: usize = 0;
    while i < v.len()
        invariant
            i <= v.len(),
            state_place(states_view(v@), path@, 0) == state_place(
                states_view(v@),
                path@,
                i as int,
            ),
        decreases v.len() - i,
    {
        assert(states_view(v@)[i as int] == v@[i as int]@);
        if text::same_chars(&v[i].path, path) {
            return Some(i);
        }
        i += 1;
    }
    None
}

/// The failures that an engine with given settings starts with.
pub fn load_attempts(v: &Vec<LockoutState>, c: &SecurityConfig) -> (r: Vec<Attempts>)
    ensures
        r@ == kept_attempts(states_view(v@), kept_at(*c)),
{
    match path_of(c) {
        None => Vec::new(),
        Some(p) => match find_state(v, &p) {
            None => Vec::new(),
            Some(i) => {
                assert(states_view(v@)[i as int] == v@[i as int]@);
                catalog::copy_values(&v[i].attempts)
            },
        },
    }
}

/// Keeps the failures of an engine with given settings.
pub fn save_attempts(v: Vec<LockoutState>, c: &SecurityConfig, attempts: Vec<Attempts>) -> (r: Vec<
    LockoutState,
>)
    ensures
        states_view(r@) == with_kept(states_view(v@), kept_at(*c), attempts@),
{
    match path_of(c) {
        None => v,
        Some(p) => {
            let place: Option<usize> = find_state(&v, &p);
            let ghost before = states_view(v@);
            let mut v = v;
            let state: LockoutState = LockoutState { path: p, attempts };
            let ghost kept = state@;
            match place {
                None => {
                    v.push(state);
                    assert(states_view(v@) =~= before.push(kept));
                },
                Some(i) => {
                    v.set(i, state);
                    assert(states_view(v@) =~= before.update(i as int, kept));
                },
            }
            v
        },
    }
}

/// What is kept at a path is found there again, and what is kept at others stays.
pub proof fn law_kept_at_its_path(
    v: Seq<LockoutModel>,
    path: Seq<char>,
    attempts: Seq<Attempts>,
    other: Seq<char>,
)
    ensures
        kept_attempts(with_kept(v, Some(path), attempts), Some(path)) == attempts,
        other != path ==> kept_attempts(with_kept(v, Some(path), attempts), Some(other))
            == kept_attempts(v, Some(other)),
{
    lemma_kept(v, path, attempts, other, 0);
}

proof fn lemma_kept(
    v: Seq<LockoutModel>,
    path: Seq<char>,
    attempts: Seq<Attempts>,
    other: Seq<char>,
    from: int,
)
    requires
        0 <= from <= v.len(),
        state_place(v, path, 0) == state_place(v, path, from),
    ensures
        ({
            let after = with_kept(v, Some(path), attempts);
            &&& match state_place(after, path, from) {
                None => false,
                Some(i) => 0 <= i < after.len() && after[i].attempts == attempts,
            }
            &&& other != path ==> match (state_place(after, other, from), state_place(v, other, from)) {
                (None, None) => true,
                (Some(i), Some(j)) => i == j && 0 <= i < v.len() && after[i] == v[i],
                _ => false,
            }
        }),
    decreases v.len() - from,
{
    let after = with_kept(v, Some(path), attempts);
    lemma_state_place(v, path, from);
    if from < v.len() {
        if v[from].path != path {
            lemma_kept(v, path, attempts, other, from + 1);
        } else if other != path {
            lemma_others(v, path, attempts, other, from, from + 1);
        }
    } else {
        reveal_with_fuel(state_place, 2);
    }
}

proof fn lemma_others(
    v: Seq<LockoutModel>,
    path: Seq<char>,
    attempts: Seq<Attempts>,
    other: Seq<char>,
    i: int,
    from: int,
)
    requires
        0 <= i < from <= v.len(),
        v[i].path == path,
        other != path,
    ensures
        ({
            let after = v.update(i, LockoutModel { path, attempts });
            match (state_place(after, other, from), state_place(v, other, from)) {
                (None, None) => true,
                (Some(j), Some(k)) => j == k && from <= j < v.len() && after[j] == v[j],
                _ => false,
            }
        }),
    decreases v.len() - from,
{
    if from < v.len() && v[from].path != other {
        lemma_others(v, path, attempts, other, i, from + 1);
    }
}

proof fn lemma_state_place(v: Seq<LockoutModel>, path: Seq<char>, from: int)
    requires
        0 <= from,
    ensures
        state_place(v, path, from) matches Some(i) ==> from <= i < v.len() && v[i].path == path,
    decreases v.len() - from,
{
    if from < v.len() && v[from].path != path {
        lemma_state_place(v, path, from + 1);
    }
}

/// The first place at or after `from` of the failures of a user.
pub open spec fn attempts_place(v: Seq<Attempts>, user: usize, from: int) -> Option<usize>
    decreases v.len() - from,
{
    if from < 0 || from >= v.len() {
        None
    } else if v[from].user == user {
        Some(from as usize)
    } else {
        attempts_place(v, user, from + 1)
    }
}

fn find_attempts(v: &Vec<Attempts>, user: usize) -> (r: Option<usize>)
    ensures
        r == attempts_place(v@, user, 0),
        r is Some ==> r.unwrap() < v.len(),
{
    let mut i: usize = 0;
    while i < v.len()
        invariant
            i <= v.len(),
            attempts_place(v@, user, 0) == attempts_place(v@, user, i as int),
        decreases v.len() - i,
    {
        if v[i].user == user {
            return Some(i);
        }
        i += 1;
    }
    None
}

/// Whether failures that began at `since` still count.
pub open spec fn counts_still(since: u64, now: u64, window: u64) -> bool {
    now <= since + window
}

/// The number of failures of a user that count.
pub open spec fn recent_failures(v: Seq<Attempts>, user: usize, now: u64, window: u64) -> u32 {
    match attempts_place(v, user, 0) {
        None => 0,
        Some(i) => if counts_still(v[i as int].since, now, window) {
            v[i as int].count
        } else {
            0
        },
    }
}

fn still_counts(since: u64, now: u64, window: u64) -> (r: bool)
    ensures
        r == counts_still(since, now, window),
{
    now <= since || now - since <= window
}

/// The number of failures of a user that count.
pub fn count_failures(v: &Vec<Attempts>, user: usize, now: u64, window: u64) -> (r: u32)
    ensures
        r == recent_failures(v@, user, now, window),
{
    match find_attempts(v, user) {
        None => 0,
        Some(i) => if still_counts(v[i].since, now, window) {
            v[i].count
        } else {
            0
        },
    }
}

/// Whether a user is locked out.
pub open spec fn is_locked(v: Seq<Attempts>, c: SecurityConfig, user: usize, now: u64) -> bool {
    c.max_auth_failures > 0 && recent_failures(v, user, now, c.auth_lockout_window)
        >= c.max_auth_failures
}

/// Whether a user is locked out.
pub fn locked(v: &Vec<Attempts>, c: &SecurityConfig, user: usize, now: u64) -> (r: bool)
    ensures
        r == is_locked(v@, *c, user, now),
{
    c.max_auth_failures > 0 && count_failures(v, user, now, c.auth_lockout_window)
        >= c.max_auth_failures
}

/// The failures of a user after one more.
pub open spec fn one_failure_more(
    v: Seq<Attempts>,
    user: usize,
    now: u64,
    window: u64,
) -> Attempts {
    match attempts_place(v, user, 0) {
        None => Attempts { user, count: 1, since: now },
        Some(i) => if counts_still(v[i as int].since, now, window) {
            Attempts {
                user,
                count: if v[i as int].count < u32::MAX {
                    (v[i as int].count + 1) as u32
                } else {
                    u32::MAX
                },
                since: v[i as int].since,
            }
        } else {
            Attempts { user, count: 1, since: now }
        },
    }
}

/// The failures of all users after one of `user`.
pub open spec fn with_failure(
    v: Seq<Attempts>,
    user: usize,
    now: u64,
    window: u64,
) -> Seq<Attempts> {
    match attempts_place(v, user, 0) {
        None => v.push(one_failure_more(v, user, now, window)),
        Some(i) => v.update(i as int, one_failure_more(v, user, now, window)),
    }
}

/// Takes note of a failure.
pub fn note_failure(v: &mut Vec<Attempts>, user: usize, now: u64, window: u64)
    ensures
        final(v)@ == with_failure(old(v)@, user, now, window),
{
    match find_attempts(v, user) {
        None => {
            v.push(Attempts { user, count: 1, since: now });
        },
        Some(i) => {
            let a: Attempts = v[i];
            if still_counts(a.since, now, window) {
                let count: u32 = if a.count < u32::MAX {
                    a.count + 1
                } else {
                    a.count
                };
                v.set(i, Attempts { user, count, since: a.since });
            } else {
                v.set(i, Attempts { user, count: 1, since: now });
            }
        },
    }
}

/// The failures of all users after `user` succeeded.
pub open spec fn without_failures(v: Seq<Attempts>, user: usize) -> Seq<Attempts> {
    match attempts_place(v, user, 0) {
        None => v,
        Some(i) => v.update(i as int, (Attempts { user, count: 0, since: 0 })),
    }
}

/// Forgets the failures of a user.
pub fn forget_failures(v: &mut Vec<Attempts>, user: usize)
    ensures
        final(v)@ == without_failures(old(v)@, user),
{
    match find_attempts(v, user) {
        None => {},
        Some(i) => {
            v.set(i, Attempts { user, count: 0, since: 0 });
        },
    }
}

/// Why a client may not start a session, if it may not. Where `open`, a user that
/// is no role may, without a password.
pub open spec fn login_fault(
    db: DbModel,
    t: Seq<Seq<char>>,
    open: bool,
    user: usize,
    password: Option<Seq<char>>,
) -> Option<Fault> {
    match catalog::role_place(db.roles, user, 0) {
        None => if open && password is None {
            None
        } else {
            Some(Fault::LoginWithoutRole { name: user })
        },
        Some(i) => {
            let r = db.roles[i as int];
            if !r.login {
                Some(Fault::LoginNotPermitted { name: user })
            } else {
                match password {
                    None => match r.password {
                        None => None,
                        Some(_) => Some(Fault::LoginRefused),
                    },
                    Some(p) => match r.password {
                        None => Some(Fault::LoginWithoutPassword { name: user }),
                        Some(w) => if symbols::text_at(t, w) == p {
                            None
                        } else {
                            Some(Fault::LoginRefused)
                        },
                    },
                }
            }
        },
    }
}

/// Why a client may not start a session, if it may not.
pub fn check_login(
    db: &Db,
    t: &Symbols,
    open: bool,
    user: usize,
    password: &Option<SecretString>,
) -> (r: Option<Fault>)
    ensures
        r == login_fault(
            db@,
            t@,
            open,
            user,
            match *password {
                None => None,
                Some(p) => Some(p@),
            },
        ),
{
    match db.role(user) {
        None => if open && password.is_none() {
            None
        } else {
            Some(Fault::LoginWithoutRole { name: user })
        },
        Some(i) => {
            let role: Role = db.roles[i];
            if !role.login {
                return Some(Fault::LoginNotPermitted { name: user });
            }
            match password {
                None => match role.password {
                    None => None,
                    Some(_) => Some(Fault::LoginRefused),
                },
                Some(p) => match role.password {
                    None => Some(Fault::LoginWithoutPassword { name: user }),
                    Some(w) => {
                        let have: Vec<char> = text::chars_of(t.text(w).as_str());
                        let given: Vec<char> = text::chars_of(p.expose());
                        if text::same_chars(&have, &given) {
                            None
                        } else {
                            Some(Fault::LoginRefused)
                        }
                    },
                },
            }
        },
    }
}

/// The reason that a client is told: over a network it is always the same.
pub open spec fn told_fault(f: Fault, network: Option<bool>) -> Fault {
    match network {
        None => f,
        Some(_) => Fault::LoginRefused,
    }
}

/// A user is locked out after as many failures within the window as the settings
/// allow, and not before.
pub proof fn law_lockout(v: Seq<Attempts>, c: SecurityConfig, user: usize, now: u64)
    requires
        c.max_auth_failures > 0,
        v.len() < usize::MAX,
    ensures
        is_locked(with_failure(v, user, now, c.auth_lockout_window), c, user, now) <==> {
            ||| is_locked(v, c, user, now)
            ||| recent_failures(v, user, now, c.auth_lockout_window) + 1 >= c.max_auth_failures
        },
{
    let w = with_failure(v, user, now, c.auth_lockout_window);
    lemma_attempts(v, user, 0);
    lemma_attempts(w, user, 0);
    match attempts_place(v, user, 0) {
        None => {
            assert(w[v.len() as int].user == user);
        },
        Some(i) => {
            assert(w[i as int].user == user);
        },
    }
}

/// After a success a user has no failures.
pub proof fn law_success_clears(v: Seq<Attempts>, user: usize, now: u64, window: u64)
    requires
        v.len() < usize::MAX,
    ensures
        recent_failures(without_failures(v, user), user, now, window) == 0,
{
    let w = without_failures(v, user);
    lemma_attempts(v, user, 0);
    lemma_attempts(w, user, 0);
    match attempts_place(v, user, 0) {
        None => {},
        Some(i) => {
            assert(w[i as int].user == user);
        },
    }
}

proof fn lemma_attempts(v: Seq<Attempts>, user: usize, from: int)
    requires
        0 <= from <= v.len(),
        v.len() <= usize::MAX,
    ensures
        match attempts_place(v, user, from) {
            Some(i) => from <= i < v.len() && v[i as int].user == user && forall|j: int|
                from <= j < i ==> (#[trigger] v[j]).user != user,
            None => forall|j: int| from <= j < v.len() ==> (#[trigger] v[j]).user != user,
        },
    decreases v.len() - from,
{
    if from < v.len() && v[from].user != user {
        lemma_attempts(v, user, from + 1);
    }
}

} // verus!
