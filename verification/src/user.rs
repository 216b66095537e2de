//! Who is logged in, and what that allows: the login state that pages
//! consult, and the decisions that admit a caller to the namespace.

use vstd::prelude::*;
use vstd::string::*;
use crate::ids::{hyphenated, random_uuid, uuid_text};

verus! {

/// The level of an account.
#[derive(Debug, Clone, Copy, PartialEq, Eq, Structural)]
pub enum AccountLevel {
    User,
    Admin,
}

impl Default for AccountLevel {
    fn default() -> (level: AccountLevel)
        ensures
            level == AccountLevel::User,
    {
        AccountLevel::User
    }
}

/// The level that a level name stands for: `admin` is the admin level,
/// every other name the user level.
pub open spec fn level_named(name: Seq<char>) -> AccountLevel {
    if name == "admin"@ {
        AccountLevel::Admin
    } else {
        AccountLevel::User
    }
}

impl From<String> for AccountLevel {
    fn from(value: String) -> (level: AccountLevel) {
        if value == String::from_str("admin") {
            AccountLevel::Admin
        } else {
            AccountLevel::User
        }
    }
}

impl vstd::std_specs::convert::FromSpecImpl<String> for AccountLevel {
    open spec fn obeys_from_spec() -> bool {
        true
    }

    open spec fn from_spec(value: String) -> AccountLevel {
        level_named(value@)
    }
}

/// What is known of the login of the one who looks at a page: nothing yet,
/// logged out, or logged in with the account's number, the session token
/// and the account's level.
#[derive(Debug, Clone)]
pub enum LoginState {
    Unverified,
    LoggedOut,
    LoggedIn(i32, String, AccountLevel),
}

impl Default for LoginState {
    fn default() -> (state: LoginState)
        ensures
            state is Unverified,
    {
        LoginState::Unverified
    }
}

/// The login state as pages are given it.
#[derive(Debug, Clone)]
pub struct LoginContext {
    pub login_state: LoginState,
}

/// Whether a login state is that of someone logged in; unknown while the
/// state is unverified.
pub open spec fn logged_in(state: LoginState) -> Option<bool> {
    match state {
        LoginState::Unverified => None,
        LoginState::LoggedOut => Some(false),
        LoginState::LoggedIn(_, _, _) => Some(true),
    }
}

/// Whether a login state is that of an admin; unknown while the state is
/// unverified.
pub open spec fn is_admin(state: LoginState) -> Option<bool> {
    match state {
        LoginState::Unverified => None,
        LoginState::LoggedOut => Some(false),
        LoginState::LoggedIn(_, _, level) => Some(level == AccountLevel::Admin),
    }
}

/// Whether someone is logged in, by the given context or, where none is
/// given, by the one provided to the page.
pub fn check_login(login_ctx: Option<&LoginContext>, provided: &LoginContext) -> (r: Option<bool>)
    ensures
        r == logged_in(
            match login_ctx {
                Some(ctx) => ctx.login_state,
                None => provided.login_state,
            },
        ),
{
    let ctx = match login_ctx {
        Some(ctx) => ctx,
        None => provided,
    };
    match &ctx.login_state {
        LoginState::Unverified => None,
        LoginState::LoggedOut => Some(false),
        LoginState::LoggedIn(_, _, _) => Some(true),
    }
}

/// Whether someone is logged in, by the context provided to the page.
pub fn check_login_raw(provided: &LoginContext) -> (r: Option<bool>)
    ensures
        r == logged_in(provided.login_state),
{
    check_login(None, provided)
}

/// Whether an admin is logged in, by the context provided to the page.
pub fn check_admin(provided: &LoginContext) -> (r: Option<bool>)
    ensures
        r == is_admin(provided.login_state),
{
    match &provided.login_state {
        LoginState::Unverified => None,
        LoginState::LoggedOut => Some(false),
        LoginState::LoggedIn(_, _, account_level) => Some(
            match account_level {
                AccountLevel::Admin => true,
                AccountLevel::User => false,
            },
        ),
    }
}

/// Why a caller was turned away.
#[derive(Debug, Clone, Copy, PartialEq, Eq, Structural)]
pub enum LocalAuthError {
    NotAuthenticated,
    Forbidden,
    Invalid,
    Expired,
    AlreadyLoggedIn,
    NoKeyChain,
    InvalidUserLevel,
    AdminLevelNotInDb,
}

/// How many minutes a session lasts from its last use.
pub const SESSION_LENGTH: i64 = 30;

/// A session as it is stored: whose it is, and until when it is good, in
/// microseconds since the epoch.
#[derive(Debug, Clone, Copy)]
pub struct SessionRow {
    pub user_id: i32,
    pub expires_at: i64,
}

/// What is made of a session token at time `now`: without a stored
/// session the caller is not authenticated, after its expiry the session
/// has expired, and otherwise the caller is the session's user.
pub open spec fn token_outcome(session: Option<SessionRow>, now: i64) -> Result<
    i32,
    LocalAuthError,
> {
    match session {
        None => Err(LocalAuthError::NotAuthenticated),
        Some(row) => if now > row.expires_at {
            Err(LocalAuthError::Expired)
        } else {
            Ok(row.user_id)
        },
    }
}

/// Decides whether a session token is good. See `token_outcome`.
pub fn check_token_validity(session: Option<SessionRow>, now: i64) -> (r: Result<
    i32,
    LocalAuthError,
>)
    ensures
        r == token_outcome(session, now),
{
    match session {
        None => Err(LocalAuthError::NotAuthenticated),
        Some(row) => {
            if now > row.expires_at {
                Err(LocalAuthError::Expired)
            } else {
                Ok(row.user_id)
            }
        },
    }
}

/// The time until which a session used at `now` is good: `SESSION_LENGTH`
/// minutes later, or the latest time there is where that lies beyond it.
pub fn get_next_expiry_time(now: i64) -> (t: i64)
    ensures
        t == if now + SESSION_LENGTH * 60_000_000 > i64::MAX {
            i64::MAX as int
        } else {
            now + SESSION_LENGTH * 60_000_000
        },
{
    let length: i64 = SESSION_LENGTH * 60_000_000;
    if now > i64::MAX - length {
        i64::MAX
    } else {
        now + length
    }
}

/// A key that lets its holder register: its name, how often it may still
/// be used, and the level that it gives.
#[derive(Debug, Clone)]
pub struct UserKeyChain {
    pub key_name: String,
    pub uses: i16,
    pub entry_level: i16,
}

/// The name of a new key: the given one, or else the text of the
/// identifier `fallback`.
pub open spec fn keychain_name(name: Option<String>, fallback: u128) -> Seq<char> {
    match name {
        Some(n) => n@,
        None => hyphenated(fallback),
    }
}

/// How often a new key may be used: as often as given, or else once.
pub open spec fn keychain_uses(uses: Option<i16>) -> i16 {
    match uses {
        Some(u) => u,
        None => 1,
    }
}

/// A new key with the given entry level. Without a name it is called by
/// the text of the identifier `fallback`; without a count of uses it can
/// be used once.
pub fn keychain_with(name: Option<String>, uses: Option<i16>, entry_level: i16, fallback: u128)
    -> (key: UserKeyChain)
    ensures
        key.key_name@ == keychain_name(name, fallback),
        key.uses == keychain_uses(uses),
        key.entry_level == entry_level,
{
    let key_name = match name {
        Some(n) => n,
        None => uuid_text(fallback),
    };
    let uses = match uses {
        Some(u) => u,
        None => 1,
    };
    UserKeyChain { key_name, uses, entry_level }
}

/// A new key with the given entry level; without a name it is called by
/// the text of a freshly drawn identifier.
pub fn generate_keychain(name: Option<String>, uses: Option<i16>, entry_level: i16) -> (key:
    UserKeyChain)
    ensures
        exists|fallback: u128| key.key_name@ == #[trigger] keychain_name(name, fallback),
        key.uses == keychain_uses(uses),
        key.entry_level == entry_level,
{
    let fallback = random_uuid();
    keychain_with(name, uses, entry_level, fallback)
}

/// The count of uses after one more use. It stops at the lowest count
/// there is.
pub open spec fn uses_after(uses: i16) -> i16 {
    if uses == i16::MIN {
        i16::MIN
    } else {
        (uses - 1) as i16
    }
}

/// Uses a key once: without the key there is `NoKeyChain`; with it, the
/// key with one use less, and the level that it gives.
pub fn use_keychain(keychain: Option<UserKeyChain>) -> (r: Result<(UserKeyChain, i16), LocalAuthError>)
    ensures
        match keychain {
            None => r == Err::<(UserKeyChain, i16), LocalAuthError>(LocalAuthError::NoKeyChain),
            Some(k) => r is Ok && ({
                let used = r->Ok_0;
                &&& used.0.key_name == k.key_name
                &&& used.0.uses == uses_after(k.uses)
                &&& used.0.entry_level == k.entry_level
                &&& used.1 == k.entry_level
            }),
        },
{
    match keychain {
        None => Err(LocalAuthError::NoKeyChain),
        Some(k) => {
            let uses: i16 = if k.uses == i16::MIN {
                i16::MIN
            } else {
                k.uses - 1
            };
            let level = k.entry_level;
            Ok((UserKeyChain { key_name: k.key_name, uses, entry_level: level }, level))
        },
    }
}

/// Decides whether a login may go ahead: not for a caller whose session is
/// still good.
pub fn check_not_logged_in(session: Option<SessionRow>, now: i64) -> (r: Result<(), LocalAuthError>)
    ensures
        r == if token_outcome(session, now) is Ok {
            Err::<(), LocalAuthError>(LocalAuthError::AlreadyLoggedIn)
        } else {
            Ok::<(), LocalAuthError>(())
        },
{
    match check_token_validity(session, now) {
        Ok(_) => Err(LocalAuthError::AlreadyLoggedIn),
        Err(_) => Ok(()),
    }
}

/// What is remembered of the admin level, so that it is looked up in the
/// store of levels once and not on every request.
#[derive(Debug, Clone, Copy)]
pub struct AdminLevelCache {
    level: Option<i32>,
}

impl AdminLevelCache {
    /// The level that is remembered, if any.
    pub closed spec fn view(&self) -> Option<i32> {
        self.level
    }

    /// A cache that remembers nothing.
    pub fn new() -> (cache: AdminLevelCache)
        ensures
            cache@ is None,
    {
        AdminLevelCache { level: None }
    }

    /// The level that is remembered, if any. Where none is, the level has
    /// to be looked up and handed to `fill`.
    pub fn lookup(&self) -> (level: Option<i32>)
        ensures
            level == self@,
    {
        self.level
    }

    /// Takes what looking up the admin level gave, where nothing was
    /// remembered, and answers the admin level: the remembered one if there
    /// is one, else the one looked up, which is remembered from now on. If
    /// neither is there, the store of levels has no admin level.
    pub fn fill(&mut self, looked_up: Option<i32>) -> (r: Result<i32, LocalAuthError>)
        ensures
            match old(self)@ {
                Some(level) => r == Ok::<i32, LocalAuthError>(level) && final(self)@ == old(self)@,
                None => match looked_up {
                    Some(level) => r == Ok::<i32, LocalAuthError>(level) && final(self)@ == Some(
                        level,
                    ),
                    None => r == Err::<i32, LocalAuthError>(LocalAuthError::AdminLevelNotInDb)
                        && final(self)@ is None,
                },
            },
    {
        match self.level {
            Some(level) => Ok(level),
            None => match looked_up {
                Some(level) => {
                    self.level = Some(level);
                    Ok(level)
                },
                None => Err(LocalAuthError::AdminLevelNotInDb),
            },
        }
    }

    /// Forgets the remembered level, so that it is looked up anew.
    pub fn invalidate(&mut self)
        ensures
            final(self)@ is None,
    {
        self.level = None;
    }
}

/// Decides whether a user of the given level may do what admins may:
/// `Forbidden` below the admin level.
pub fn require_admin(user_level: i32, admin_level: i32) -> (r: Result<(), LocalAuthError>)
    ensures
        r == if user_level >= admin_level {
            Ok::<(), LocalAuthError>(())
        } else {
            Err::<(), LocalAuthError>(LocalAuthError::Forbidden)
        },
{
    if user_level >= admin_level {
        Ok(())
    } else {
        Err(LocalAuthError::Forbidden)
    }
}

} // verus!
