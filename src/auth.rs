use crate::accounts::{
    has_email, has_username, index_of_id, valid_id, Account, AccountError, AccountTable,
};
use crate::password::{acceptable_password, password_verifies, verify_password, CredentialHasher};
use crate::session::{new_session, SessionStore};
use crate::token::{is_token_text, lemma_cookie_round_trip, token_text_value, SessionToken};
use rand_chacha::ChaCha8Rng;
use vstd::prelude::*;

verus! {

/// The name of the cookie that carries the session token.
pub const USER_COOKIE_NAME: &'static str = "user_token";

/// The role given to an authenticated user whose account has no type.
pub const DEFAULT_ACCOUNT_TYPE: i32 = 1;

/// The credentials of a login request.
pub struct LoginInfo {
    pub name: String,
    pub password: String,
}

/// The fields of a signup request.
pub struct SignupInfo {
    pub name: String,
    pub password: String,
    pub email: String,
    pub user_type: i32,
}

/// The identity that the guard hands to a handler.
#[derive(Clone, Copy, Debug, PartialEq, Eq, Structural)]
pub struct UserAuth {
    pub user_id: i32,
    pub account_type: i32,
}

/// The failures of the authentication flows. Whatever made a cookie fail,
/// the guard reports `Unauthorized`; whatever made a login fail, it is
/// `InvalidCredentials`.
#[derive(Clone, Copy, Debug, PartialEq, Eq, Structural)]
pub enum AuthError {
    /// Unknown username or wrong password.
    InvalidCredentials,
    /// No cookie, a malformed cookie, or a token with no session.
    Unauthorized,
    /// A new password that is empty or too long.
    InvalidPassword,
    /// The username or email of a signup is taken.
    AccountExists,
    /// The session could not be recorded.
    StoreUnavailable,
}

/// The token that a cookie carries, if the cookie is there and well formed.
pub open spec fn cookie_token(cookie: Option<&str>) -> Option<SessionToken> {
    match cookie {
        Some(c) => if is_token_text(c@) {
            Some(SessionToken(token_text_value(c@) as u128))
        } else {
            None
        },
        None => None,
    }
}

/// The user whose session the cookie names.
pub open spec fn cookie_user(cookie: Option<&str>, sessions: Map<u128, i32>) -> Option<i32> {
    match cookie_token(cookie) {
        Some(t) => if sessions.contains_key(t.0) {
            Some(sessions[t.0])
        } else {
            None
        },
        None => None,
    }
}

/// The role of user `id`: the account's type, or the default when the
/// account or its type is missing.
pub open spec fn role_of(accounts: Seq<Account>, id: i32) -> i32 {
    if valid_id(accounts, id) && accounts[index_of_id(accounts, id)].account_type is Some {
        accounts[index_of_id(accounts, id)].account_type->Some_0
    } else {
        DEFAULT_ACCOUNT_TYPE
    }
}

/// Account `id` exists and `password` verifies against its stored record.
pub open spec fn current_password_ok(accounts: Seq<Account>, id: i32, password: Seq<char>) -> bool {
    valid_id(accounts, id) && password_verifies(
        password,
        accounts[index_of_id(accounts, id)].password_hash@,
    )
}

/// What the guard decides for a request with this cookie.
pub open spec fn guard_outcome(
    cookie: Option<&str>,
    sessions: Map<u128, i32>,
    accounts: Seq<Account>,
) -> Option<UserAuth> {
    match cookie_user(cookie, sessions) {
        Some(u) => Some(UserAuth { user_id: u, account_type: role_of(accounts, u) }),
        None => None,
    }
}

/// The user that `name` and `password` log in as: the account with that
/// username, when the password verifies against its stored record.
pub open spec fn login_user(accounts: Seq<Account>, name: Seq<char>, password: Seq<char>) -> Option<
    i32,
> {
    if has_username(accounts, name) {
        let i = choose|i: int| 0 <= i < accounts.len() && #[trigger] accounts[i].username@ == name;
        if password_verifies(password, accounts[i].password_hash@) {
            Some(accounts[i].id)
        } else {
            None
        }
    } else {
        None
    }
}

/// The token of a cookie: `None` when there is no cookie or when it is not
/// the text of a token.
pub fn session_token_of_cookie(cookie: Option<&str>) -> (r: Option<SessionToken>)
    ensures
        r == cookie_token(cookie),
{
    match cookie {
        Some(c) => match SessionToken::from_cookie_value(c) {
            Ok(t) => Some(t),
            Err(_) => None,
        },
        None => None,
    }
}

/// The identity for a session lookup's result: no user is no identity; a
/// user whose account type is unknown gets the default role.
pub fn identity_of(user_id: Option<i32>, account_type: Option<i32>) -> (r: Option<UserAuth>)
    ensures
        user_id is None ==> r is None,
        user_id matches Some(u) ==> r == Some(
            UserAuth {
                user_id: u,
                account_type: match account_type {
                    Some(a) => a,
                    None => DEFAULT_ACCOUNT_TYPE,
                },
            },
        ),
{
    match user_id {
        Some(u) => {
            let account_type = match account_type {
                Some(a) => a,
                None => DEFAULT_ACCOUNT_TYPE,
            };
            Some(UserAuth { user_id: u, account_type })
        },
        None => None,
    }
}

/// The user logged in with this cookie, if any.
pub fn get_logged_in_user_id(cookie: Option<&str>, sessions: &SessionStore) -> (r: Option<i32>)
    requires
        sessions.wf(),
    ensures
        r == cookie_user(cookie, sessions@),
{
    match session_token_of_cookie(cookie) {
        Some(t) => sessions.resolve(t),
        None => None,
    }
}

/// The request guard: the identity of the session that the cookie names.
/// A missing cookie, a malformed one and an unknown token all give the same
/// `Unauthorized`.
pub fn authenticate(cookie: Option<&str>, sessions: &SessionStore, accounts: &AccountTable) -> (r:
    Result<UserAuth, AuthError>)
    requires
        sessions.wf(),
        accounts.wf(),
    ensures
        r is Err ==> r == Err::<UserAuth, AuthError>(AuthError::Unauthorized),
        guard_outcome(cookie, sessions@, accounts@) matches Some(u) ==> r == Ok::<
            UserAuth,
            AuthError,
        >(u),
        guard_outcome(cookie, sessions@, accounts@) is None ==> r is Err,
{
    let user_id = get_logged_in_user_id(cookie, sessions);
    let account_type = match user_id {
        Some(u) => accounts.account_type_of(u),
        None => None,
    };
    match identity_of(user_id, account_type) {
        Some(u) => Ok(u),
        None => Err(AuthError::Unauthorized),
    }
}

/// The login decision on the account found for the username: its id when
/// the password verifies against its stored record.
pub fn check_credentials(password: &str, stored: Option<(i32, String)>) -> (r: Result<
    i32,
    AuthError,
>)
    ensures
        r == (match stored {
            Some(c) => if password_verifies(password@, c.1@) {
                Ok::<i32, AuthError>(c.0)
            } else {
                Err(AuthError::InvalidCredentials)
            },
            None => Err(AuthError::InvalidCredentials),
        }),
{
    match stored {
        Some((id, record)) => if verify_password(password, record.as_str()) {
            Ok(id)
        } else {
            Err(AuthError::InvalidCredentials)
        },
        None => Err(AuthError::InvalidCredentials),
    }
}

/// Logs in: checks the credentials, opens a session under a fresh token and
/// returns the cookie text of that token. Unknown usernames and wrong
/// passwords fail alike and open no session.
pub fn login(
    info: &LoginInfo,
    accounts: &AccountTable,
    sessions: &mut SessionStore,
    random: &mut ChaCha8Rng,
) -> (r: Result<String, AuthError>)
    requires
        accounts.wf(),
        old(sessions).wf(),
    ensures
        final(sessions).wf(),
        r == Err::<String, AuthError>(AuthError::InvalidCredentials) <==> login_user(
            accounts@,
            info.name@,
            info.password@,
        ) is None,
        r is Err ==> final(sessions)@ == old(sessions)@,
        r is Err ==> r == Err::<String, AuthError>(AuthError::InvalidCredentials) || r == Err::<
            String,
            AuthError,
        >(AuthError::StoreUnavailable),
        r == Err::<String, AuthError>(AuthError::StoreUnavailable) ==> exists|t: SessionToken|
            #[trigger] old(sessions)@.contains_key(t.0),
        login_user(accounts@, info.name@, info.password@) is Some && old(sessions)@ == Map::<
            u128,
            i32,
        >::empty() ==> r is Ok,
        login_user(accounts@, info.name@, info.password@) is None ==> *final(random) == *old(
            random,
        ),
        r matches Ok(cookie) ==> exists|t: SessionToken|
            {
                &&& cookie@ == t.cookie_view()
                &&& !old(sessions)@.contains_key(t.0)
                &&& final(sessions)@ == old(sessions)@.insert(
                    t.0,
                    login_user(accounts@, info.name@, info.password@)->Some_0,
                )
            },
{
    let stored = accounts.credentials(info.name.as_str());
    proof {
        if has_username(accounts@, info.name@) {
            let c = stored->Some_0;
            let i = choose|i: int|
                0 <= i < accounts@.len() && #[trigger] accounts@[i].username@ == info.name@;
            let k = index_of_id(accounts@, c.0);
            if i != k {
                if i < k {
                    assert(accounts@[i].username@ != accounts@[k].username@);
                } else {
                    assert(accounts@[k].username@ != accounts@[i].username@);
                }
            }
        }
    }
    let user_id = match check_credentials(info.password.as_str(), stored) {
        Ok(id) => id,
        Err(e) => {
            return Err(e);
        },
    };
    match new_session(random, user_id, sessions) {
        Ok(token) => Ok(token.into_cookie_value()),
        Err(_) => Err(AuthError::StoreUnavailable),
    }
}

/// Logs the user out of every session. A user who has no session left is
/// already logged out, which is no error.
pub fn logout(user: &UserAuth, sessions: &mut SessionStore) -> (r: Result<(), AuthError>)
    requires
        old(sessions).wf(),
    ensures
        final(sessions).wf(),
        r is Ok,
        forall|k: u128|
            #[trigger] final(sessions)@.contains_key(k) <==> old(sessions)@.contains_key(k) && old(
                sessions,
            )@[k] != user.user_id,
        forall|k: u128| #[trigger]
            final(sessions)@.contains_key(k) ==> final(sessions)@[k] == old(sessions)@[k],
{
    sessions.revoke_user(user.user_id);
    Ok(())
}

/// Stores the hash of `new_password` under the random bytes `salt` as the
/// record of account `user_id`. An unknown account and an unacceptable
/// password are refused, and the table is then unchanged; otherwise the
/// change is made.
pub fn set_new_password(
    user_id: i32,
    new_password: &str,
    accounts: &mut AccountTable,
    hasher: &CredentialHasher,
    salt: &[u8; 16],
) -> (r: Result<(), AuthError>)
    requires
        old(accounts).wf(),
    ensures
        final(accounts).wf(),
        !valid_id(old(accounts)@, user_id) ==> r == Err::<(), AuthError>(
            AuthError::InvalidCredentials,
        ),
        valid_id(old(accounts)@, user_id) && !acceptable_password(new_password@) ==> r == Err::<
            (),
            AuthError,
        >(AuthError::InvalidPassword),
        valid_id(old(accounts)@, user_id) && acceptable_password(new_password@) ==> r is Ok,
        r is Err ==> final(accounts)@ == old(accounts)@,
        r is Ok ==> {
            let k = index_of_id(old(accounts)@, user_id);
            &&& final(accounts)@.len() == old(accounts)@.len()
            &&& forall|j: int|
                0 <= j < old(accounts)@.len() && j != k ==> #[trigger] final(accounts)@[j] == old(
                    accounts,
                )@[j]
            &&& password_verifies(new_password@, final(accounts)@[k].password_hash@)
            &&& final(accounts)@[k].id == old(accounts)@[k].id
            &&& final(accounts)@[k].username@ == old(accounts)@[k].username@
            &&& final(accounts)@[k].email@ == old(accounts)@[k].email@
            &&& final(accounts)@[k].account_type == old(accounts)@[k].account_type
        },
{
    if !(1 <= user_id && (user_id as usize) <= accounts.len()) {
        return Err(AuthError::InvalidCredentials);
    }
    let record = match hasher.hash_with_salt(new_password, salt) {
        Ok(record) => record,
        Err(_) => {
            return Err(AuthError::InvalidPassword);
        },
    };
    accounts.set_password_hash(user_id, record);
    Ok(())
}

/// The decision of a password change on the stored record of the user:
/// the new record to store, hashed under the random bytes `salt`, when the
/// current password verifies against the stored one and the new password is
/// acceptable.
pub fn prepare_password_change(
    stored: Option<String>,
    current_password: &str,
    new_password: &str,
    hasher: &CredentialHasher,
    salt: &[u8; 16],
) -> (r: Result<String, AuthError>)
    ensures
        !(stored matches Some(h) && password_verifies(current_password@, h@)) ==> r == Err::<
            String,
            AuthError,
        >(AuthError::InvalidCredentials),
        (stored matches Some(h) && password_verifies(current_password@, h@))
            && !acceptable_password(new_password@) ==> r == Err::<String, AuthError>(
            AuthError::InvalidPassword,
        ),
        (stored matches Some(h) && password_verifies(current_password@, h@)) && acceptable_password(
            new_password@,
        ) ==> r is Ok,
        r matches Ok(record) ==> password_verifies(new_password@, record@),
{
    let verified = match stored {
        Some(h) => verify_password(current_password, h.as_str()),
        None => false,
    };
    if !verified {
        return Err(AuthError::InvalidCredentials);
    }
    match hasher.hash_with_salt(new_password, salt) {
        Ok(record) => Ok(record),
        Err(_) => Err(AuthError::InvalidPassword),
    }
}

/// Changes the password of the logged-in user, hashing the new one under
/// the random bytes `salt`. The current password must verify against the
/// stored record and the new one must be acceptable; on a failure the table
/// is unchanged. Sessions stay open: changing a password does not log the
/// user out.
pub fn reset_password(
    user: &UserAuth,
    current_password: &str,
    new_password: &str,
    accounts: &mut AccountTable,
    hasher: &CredentialHasher,
    salt: &[u8; 16],
) -> (r: Result<(), AuthError>)
    requires
        old(accounts).wf(),
    ensures
        final(accounts).wf(),
        !current_password_ok(old(accounts)@, user.user_id, current_password@) ==> r == Err::<
            (),
            AuthError,
        >(AuthError::InvalidCredentials),
        current_password_ok(old(accounts)@, user.user_id, current_password@)
            && !acceptable_password(new_password@) ==> r == Err::<(), AuthError>(
            AuthError::InvalidPassword,
        ),
        current_password_ok(old(accounts)@, user.user_id, current_password@) && acceptable_password(
            new_password@,
        ) ==> r is Ok,
        r is Err ==> final(accounts)@ == old(accounts)@,
        r is Ok ==> {
            let k = index_of_id(old(accounts)@, user.user_id);
            &&& final(accounts)@.len() == old(accounts)@.len()
            &&& forall|j: int|
                0 <= j < old(accounts)@.len() && j != k ==> #[trigger] final(accounts)@[j] == old(
                    accounts,
                )@[j]
            &&& password_verifies(new_password@, final(accounts)@[k].password_hash@)
            &&& final(accounts)@[k].id == old(accounts)@[k].id
            &&& final(accounts)@[k].username@ == old(accounts)@[k].username@
            &&& final(accounts)@[k].email@ == old(accounts)@[k].email@
            &&& final(accounts)@[k].account_type == old(accounts)@[k].account_type
        },
{
    let stored = accounts.password_hash_of(user.user_id);
    match prepare_password_change(stored, current_password, new_password, hasher, salt) {
        Ok(record) => {
            accounts.set_password_hash(user.user_id, record);
            Ok(())
        },
        Err(e) => Err(e),
    }
}

/// Registers an account whose stored record is the hash of the password
/// under the random bytes `salt`. It does not log the new user in.
pub fn signup(
    info: &SignupInfo,
    accounts: &mut AccountTable,
    hasher: &CredentialHasher,
    salt: &[u8; 16],
) -> (r: Result<i32, AuthError>)
    requires
        old(accounts).wf(),
        old(accounts)@.len() + 1 < i32::MAX,
    ensures
        final(accounts).wf(),
        !acceptable_password(info.password@) ==> r == Err::<i32, AuthError>(
            AuthError::InvalidPassword,
        ),
        acceptable_password(info.password@) && (has_username(old(accounts)@, info.name@)
            || has_email(old(accounts)@, info.email@)) ==> r == Err::<i32, AuthError>(
            AuthError::AccountExists,
        ),
        acceptable_password(info.password@) && !(has_username(old(accounts)@, info.name@)
            || has_email(old(accounts)@, info.email@)) ==> r is Ok,
        r is Err ==> final(accounts)@ == old(accounts)@,
        r matches Ok(id) ==> {
            &&& id == old(accounts)@.len() + 1
            &&& final(accounts)@.len() == old(accounts)@.len() + 1
            &&& final(accounts)@.take(old(accounts)@.len() as int) == old(accounts)@
            &&& final(accounts)@.last().id == id
            &&& final(accounts)@.last().username@ == info.name@
            &&& final(accounts)@.last().email@ == info.email@
            &&& password_verifies(info.password@, final(accounts)@.last().password_hash@)
            &&& final(accounts)@.last().account_type == Some(info.user_type)
        },
{
    let n = info.password.as_str().unicode_len();
    if n == 0 || n > crate::password::MAX_PASSWORD_CHARS {
        return Err(AuthError::InvalidPassword);
    }
    if accounts.is_taken(info.name.as_str(), info.email.as_str()) {
        return Err(AuthError::AccountExists);
    }
    let record = match hasher.hash_with_salt(info.password.as_str(), salt) {
        Ok(record) => record,
        Err(_) => {
            return Err(AuthError::InvalidPassword);
        },
    };
    match accounts.register(info.name.as_str(), info.email.as_str(), record, Some(info.user_type)) {
        Ok(id) => Ok(id),
        Err(AccountError::AccountExists) => Err(AuthError::AccountExists),
    }
}

/// The cookie that a successful login hands out passes the guard as the
/// user who logged in, with that user's role.
pub proof fn lemma_login_cookie_resolves(
    cookie: &str,
    before: Map<u128, i32>,
    after: Map<u128, i32>,
    user_id: i32,
    accounts: Seq<Account>,
)
    requires
        exists|t: SessionToken|
            {
                &&& cookie@ == t.cookie_view()
                &&& !before.contains_key(t.0)
                &&& after == before.insert(t.0, user_id)
            },
    ensures
        cookie_user(Some(cookie), after) == Some(user_id),
        guard_outcome(Some(cookie), after, accounts) == Some(
            UserAuth { user_id, account_type: role_of(accounts, user_id) },
        ),
{
    let t = choose|t: SessionToken|
        {
            &&& cookie@ == t.cookie_view()
            &&& !before.contains_key(t.0)
            &&& after == before.insert(t.0, user_id)
        };
    lemma_cookie_round_trip(t);
}

/// After every session of a user has been revoked, the guard refuses each
/// cookie that named one of them.
pub proof fn lemma_revoked_cookie_refused(
    cookie: Option<&str>,
    before: Map<u128, i32>,
    after: Map<u128, i32>,
    user_id: i32,
    accounts: Seq<Account>,
)
    requires
        cookie_user(cookie, before) == Some(user_id),
        forall|k: u128| #[trigger]
            after.contains_key(k) <==> before.contains_key(k) && before[k] != user_id,
    ensures
        cookie_user(cookie, after) is None,
        guard_outcome(cookie, after, accounts) is None,
{
    let t = cookie_token(cookie)->Some_0;
    assert(before.contains_key(t.0));
}

} // verus!
