//! How clients prove who they are, and which passwords a role may have.

use vstd::prelude::*;
use crate::fault::Fault;
use crate::lexer;
use crate::portal;
use crate::portal::LimitsConfig;
use crate::symbols;
use crate::symbols::Symbols;
use crate::text;

verus! {

/// A set of defaults for the security settings.
#[derive(Clone, Copy, PartialEq, Eq, Debug, Structural)]
pub enum SecurityProfile {
    Development,
}

/// The security settings of an engine. After `max_auth_failures` failures within
/// `auth_lockout_window` seconds a user is locked out; 0 failures stands for no
/// limit.
#[derive(Debug)]
pub struct SecurityConfig {
    pub max_auth_failures: u32,
    pub auth_lockout_window: u64,
    pub durable_auth_lockout: bool,
    pub auth_lockout_state_path: Option<String>,
    pub require_tls_for_password: bool,
    pub password_min_length: usize,
    pub reject_role_name_as_password: bool,
    pub password_require_lowercase: bool,
    pub password_require_uppercase: bool,
    pub password_require_digit: bool,
    pub password_require_symbol: bool,
}

/// The settings of an engine.
#[derive(Debug)]
pub struct RuntimeConfig {
    pub security: SecurityConfig,
    pub limits: LimitsConfig,
}

/// The settings of a profile. The development profile asks nothing of a password
/// and of a connection, and locks nobody out.
pub open spec fn profile_settings(p: SecurityProfile, c: SecurityConfig) -> bool {
    match p {
        SecurityProfile::Development => {
            &&& c.max_auth_failures == 0
            &&& c.auth_lockout_window == 0
            &&& !c.durable_auth_lockout
            &&& c.auth_lockout_state_path is None
            &&& !c.require_tls_for_password
            &&& c.password_min_length == 0
            &&& !c.reject_role_name_as_password
            &&& !c.password_require_lowercase
            &&& !c.password_require_uppercase
            &&& !c.password_require_digit
            &&& !c.password_require_symbol
        },
    }
}

impl SecurityConfig {
    /// The settings of a profile.
    pub fn from_profile(profile: SecurityProfile) -> (r: SecurityConfig)
        ensures
            profile_settings(profile, r),
    {
        match profile {
            SecurityProfile::Development => SecurityConfig {
                max_auth_failures: 0,
                auth_lockout_window: 0,
                durable_auth_lockout: false,
                auth_lockout_state_path: None,
                require_tls_for_password: false,
                password_min_length: 0,
                reject_role_name_as_password: false,
                password_require_lowercase: false,
                password_require_uppercase: false,
                password_require_digit: false,
                password_require_symbol: false,
            },
        }
    }
}

impl Default for RuntimeConfig {
    fn default() -> (r: RuntimeConfig)
        ensures
            profile_settings(SecurityProfile::Development, r.security),
            r.limits == portal::default_limits(),
    {
        RuntimeConfig {
            security: SecurityConfig::from_profile(SecurityProfile::Development),
            limits: LimitsConfig::default(),
        }
    }
}

/// The classes of characters that a password may have to hold.
#[derive(Clone, Copy, PartialEq, Eq, Debug, Structural)]
pub enum CharClass {
    Lowercase,
    Uppercase,
    Digit,
    Symbol,
}

pub open spec fn in_class(c: char, k: CharClass) -> bool {
    match k {
        CharClass::Lowercase => 'a' <= c && c <= 'z',
        CharClass::Uppercase => 'A' <= c && c <= 'Z',
        CharClass::Digit => '0' <= c && c <= '9',
        CharClass::Symbol => !('a' <= c && c <= 'z') && !('A' <= c && c <= 'Z') && !('0' <= c && c
            <= '9'),
    }
}

/// Whether a text holds a character of a class.
pub open spec fn has_class(w: Seq<char>, k: CharClass) -> bool {
    exists|i: int| 0 <= i < w.len() && in_class(#[trigger] w[i], k)
}

fn class_in(w: &Vec<char>, k: CharClass) -> (r: bool)
    ensures
        r == has_class(w@, k),
{
    let mut i: usize = 0;
    while i < w.len()
        invariant
            i <= w.len(),
            forall|j: int| 0 <= j < i ==> !in_class(#[trigger] w@[j], k),
        decreases w.len() - i,
    {
        let c: char = w[i];
        let found: bool = match k {
            CharClass::Lowercase => 'a' <= c && c <= 'z',
            CharClass::Uppercase => 'A' <= c && c <= 'Z',
            CharClass::Digit => '0' <= c && c <= '9',
            CharClass::Symbol => !('a' <= c && c <= 'z') && !('A' <= c && c <= 'Z') && !('0' <= c
                && c <= '9'),
        };
        if found {
            assert(in_class(w@[i as int], k));
            return true;
        }
        i += 1;
    }
    false
}

/// Whether two texts are equal but for the case of their letters.
pub open spec fn same_folded(a: Seq<char>, b: Seq<char>) -> bool {
    lexer::lowered(a) == lexer::lowered(b)
}

fn folded_same(a: &Vec<char>, b: &Vec<char>) -> (r: bool)
    ensures
        r == same_folded(a@, b@),
{
    if a.len() != b.len() {
        assert(lexer::lowered(a@).len() != lexer::lowered(b@).len());
        return false;
    }
    let mut i: usize = 0;
    while i < a.len()
        invariant
            i <= a.len(),
            a.len() == b.len(),
            forall|j: int| 0 <= j < i ==> lexer::lower(a@[j]) == lexer::lower(#[trigger] b@[j]),
        decreases a.len() - i,
    {
        if lexer::to_lower(a[i]) != lexer::to_lower(b[i]) {
            assert(lexer::lowered(a@)[i as int] != lexer::lowered(b@)[i as int]);
            return false;
        }
        i += 1;
    }
    assert(lexer::lowered(a@) =~= lexer::lowered(b@));
    true
}

/// What is wrong with a password for a role, if anything is. The length is looked
/// at first, then the role's name, then lower case, upper case, digits and other
/// characters.
pub open spec fn password_fault(
    t: Seq<Seq<char>>,
    c: SecurityConfig,
    role: usize,
    password: usize,
) -> Option<Fault> {
    let w = symbols::text_at(t, password);
    if w.len() < c.password_min_length {
        Some(Fault::PasswordTooShort { least: c.password_min_length })
    } else if c.reject_role_name_as_password && same_folded(w, symbols::text_at(t, role)) {
        Some(Fault::PasswordIsRoleName)
    } else if c.password_require_lowercase && !has_class(w, CharClass::Lowercase) {
        Some(Fault::PasswordNeedsLowercase)
    } else if c.password_require_uppercase && !has_class(w, CharClass::Uppercase) {
        Some(Fault::PasswordNeedsUppercase)
    } else if c.password_require_digit && !has_class(w, CharClass::Digit) {
        Some(Fault::PasswordNeedsDigit)
    } else if c.password_require_symbol && !has_class(w, CharClass::Symbol) {
        Some(Fault::PasswordNeedsSymbol)
    } else {
        None
    }
}

/// What is wrong with a password for a role, if anything is.
pub fn check_password(t: &Symbols, c: &SecurityConfig, role: usize, password: usize) -> (r: Option<
    Fault,
>)
    ensures
        r == password_fault(t@, *c, role, password),
{
    let w: Vec<char> = text::chars_of(t.text(password).as_str());
    let name: Vec<char> = text::chars_of(t.text(role).as_str());
    if w.len() < c.password_min_length {
        Some(Fault::PasswordTooShort { least: c.password_min_length })
    } else if c.reject_role_name_as_password && folded_same(&w, &name) {
        Some(Fault::PasswordIsRoleName)
    } else if c.password_require_lowercase && !class_in(&w, CharClass::Lowercase) {
        Some(Fault::PasswordNeedsLowercase)
    } else if c.password_require_uppercase && !class_in(&w, CharClass::Uppercase) {
        Some(Fault::PasswordNeedsUppercase)
    } else if c.password_require_digit && !class_in(&w, CharClass::Digit) {
        Some(Fault::PasswordNeedsDigit)
    } else if c.password_require_symbol && !class_in(&w, CharClass::Symbol) {
        Some(Fault::PasswordNeedsSymbol)
    } else {
        None
    }
}

/// A password that is accepted meets all that the settings ask for.
pub proof fn law_accepted_password(
    t: Seq<Seq<char>>,
    c: SecurityConfig,
    role: usize,
    password: usize,
)
    requires
        password_fault(t, c, role, password) is None,
    ensures
        symbols::text_at(t, password).len() >= c.password_min_length,
        c.reject_role_name_as_password ==> !same_folded(
            symbols::text_at(t, password),
            symbols::text_at(t, role),
        ),
        c.password_require_lowercase ==> has_class(
            symbols::text_at(t, password),
            CharClass::Lowercase,
        ),
        c.password_require_uppercase ==> has_class(
            symbols::text_at(t, password),
            CharClass::Uppercase,
        ),
        c.password_require_digit ==> has_class(symbols::text_at(t, password), CharClass::Digit),
        c.password_require_symbol ==> has_class(symbols::text_at(t, password), CharClass::Symbol),
{
}

} // verus!
