//! The auth authority: accounts, credentials, and the operations that hand
//! out, rotate and revoke sessions.
//!
//! Whatever needs randomness or a clock is done by the caller: the authority
//! is handed fresh ids, a salt drawn at random, the tokens and the current
//! instant, and decides. Before anything is stored, a password is hashed
//! with Argon2id and a token with HMAC-SHA-256 under the authority's pepper.

use vstd::prelude::*;
use vstd::utf8::encode_utf8;
use crate::errors::ErrorKind;
use crate::primitives::{argon2id, argon2id_hash, hmac_sha256, hmac_sha256_tag};
use crate::sessions::{SelectorView, SessionStore, SessionView, StoreView};
use crate::text::{email_accepted, is_email};

verus! {

/// Lifetimes and tolerances of the authority.
#[derive(Debug, Clone, Copy, PartialEq, Eq, Structural)]
pub struct AuthConfig {
    /// Seconds for which an access token is good.
    pub access_ttl_secs: i64,
    /// Seconds for which a refresh token, and with it a session, is good.
    pub refresh_ttl_secs: i64,
    /// Seconds by which two clocks may differ.
    pub clock_skew_secs: i64,
    /// Longest public key material that registration accepts, in characters.
    pub max_key_len: usize,
}

impl AuthConfig {
    /// Access tokens of 15 minutes, sessions of 30 days, 30 seconds of clock
    /// skew.
    pub fn standard() -> (config: AuthConfig)
        ensures
            config == (AuthConfig {
                access_ttl_secs: 900,
                refresh_ttl_secs: 2_592_000,
                clock_skew_secs: 30,
                max_key_len: 1024,
            }),
    {
        AuthConfig {
            access_ttl_secs: 900,
            refresh_ttl_secs: 2_592_000,
            clock_skew_secs: 30,
            max_key_len: 1024,
        }
    }
}

/// What a signed token carries.
#[derive(Debug)]
pub struct TokenClaims {
    /// The user.
    pub sub: u128,
    /// The instant after which the token is no longer good.
    pub exp: i64,
    /// The instant at which the token was issued.
    pub iat: i64,
    pub device_id: String,
    pub session_id: u128,
}

/// Whether a token issued at `iat` and good until `exp` is accepted at
/// `now` by a verifier whose clock may be off by `skew` seconds either way.
pub open spec fn token_in_time(iat: i64, exp: i64, now: i64, skew: i64) -> bool {
    iat - skew <= now && now <= exp + skew
}

impl TokenClaims {
    /// The claims of a token for `user` on `device_id` in session
    /// `session_id`, issued at `now` and good for `ttl` seconds. There are
    /// none where the end cannot be represented.
    pub fn issue(user: u128, session_id: u128, device_id: String, now: i64, ttl: i64) -> (claims:
        Option<TokenClaims>)
        ensures
            claims is Some <==> 0 <= ttl && now + ttl <= i64::MAX,
            claims matches Some(c) ==> c.sub == user && c.session_id == session_id && c.device_id@
                == device_id@ && c.iat == now && c.exp == now + ttl,
    {
        if ttl < 0 || now > i64::MAX - ttl {
            return None;
        }
        Some(TokenClaims { sub: user, exp: now + ttl, iat: now, device_id, session_id })
    }

    /// Checks the instants of a token whose signature has been verified.
    /// A token that is used too early or too late is refused.
    pub fn validate(&self, now: i64, skew: i64) -> (result: Result<(), ErrorKind>)
        ensures
            result == if token_in_time(self.iat, self.exp, now, skew) {
                Ok::<(), ErrorKind>(())
            } else {
                Err::<(), ErrorKind>(ErrorKind::Unauthorized)
            },
    {
        let early = match self.iat.checked_sub(skew) {
            Some(t) => now < t,
            None => skew < 0,
        };
        let late = match self.exp.checked_add(skew) {
            Some(t) => now > t,
            None => skew < 0,
        };
        if early || late {
            Err(ErrorKind::Unauthorized)
        } else {
            Ok(())
        }
    }
}

/// An account with its credential verifier.
#[derive(Debug)]
pub struct UserRecord {
    pub id: u128,
    pub username: String,
    pub email: String,
    /// The derived hash of the password.
    pub password_hash: Vec<u8>,
    /// The salt of the derivation, chosen at random for every user.
    pub salt: Vec<u8>,
    /// Key material of the client, stored as it came.
    pub public_key: String,
    pub dh_public_key: String,
    pub is_active: bool,
    pub is_admin: bool,
    pub created_at: i64,
    pub last_seen: Option<i64>,
}

/// An account as mathematical values.
pub struct UserRecordView {
    pub id: u128,
    pub username: Seq<char>,
    pub email: Seq<char>,
    pub password_hash: Seq<u8>,
    pub salt: Seq<u8>,
    pub public_key: Seq<char>,
    pub dh_public_key: Seq<char>,
    pub is_active: bool,
    pub is_admin: bool,
    pub created_at: i64,
    pub last_seen: Option<i64>,
}

impl View for UserRecord {
    type V = UserRecordView;

    open spec fn view(&self) -> UserRecordView {
        UserRecordView {
            id: self.id,
            username: self.username@,
            email: self.email@,
            password_hash: self.password_hash@,
            salt: self.salt@,
            public_key: self.public_key@,
            dh_public_key: self.dh_public_key@,
            is_active: self.is_active,
            is_admin: self.is_admin,
            created_at: self.created_at,
            last_seen: self.last_seen,
        }
    }
}

/// Length of a salt in bytes.
pub const SALT_LEN: usize = 16;

/// What somebody who registers sends.
#[derive(Debug)]
pub struct RegisterRequest {
    pub username: String,
    pub email: String,
    pub password: String,
    pub public_key: String,
    pub dh_public_key: String,
}

impl RegisterRequest {
    /// Whether the request is acceptable in form, once it is known whether
    /// the email address is one: a user name of 3 to 32 characters, a
    /// password of 8 to 100, an email address, and key material of at most
    /// `max_key_len` characters.
    pub open spec fn acceptable_form(&self, email_ok: bool, max_key_len: usize) -> bool {
        &&& 3 <= self.username@.len() <= 32
        &&& 8 <= self.password@.len() <= 100
        &&& email_ok
        &&& self.public_key@.len() <= max_key_len
        &&& self.dh_public_key@.len() <= max_key_len
    }

    /// Whether the request is acceptable in form.
    pub open spec fn acceptable(&self, max_key_len: usize) -> bool {
        self.acceptable_form(email_accepted(self.email@), max_key_len)
    }

    /// Checks the form of the request, given whether the email address is
    /// one.
    pub fn validate_form(&self, email_ok: bool, max_key_len: usize) -> (result: Result<
        (),
        ErrorKind,
    >)
        ensures
            result == if self.acceptable_form(email_ok, max_key_len) {
                Ok::<(), ErrorKind>(())
            } else {
                Err::<(), ErrorKind>(ErrorKind::Validation)
            },
    {
        let name_len = self.username.as_str().unicode_len();
        let password_len = self.password.as_str().unicode_len();
        let key_len = self.public_key.as_str().unicode_len();
        let dh_len = self.dh_public_key.as_str().unicode_len();
        if 3 <= name_len && name_len <= 32 && 8 <= password_len && password_len <= 100 && email_ok
            && key_len <= max_key_len && dh_len <= max_key_len {
            Ok(())
        } else {
            Err(ErrorKind::Validation)
        }
    }

    /// Checks the form of the request.
    pub fn validate(&self, max_key_len: usize) -> (result: Result<(), ErrorKind>)
        ensures
            result == if self.acceptable(max_key_len) {
                Ok::<(), ErrorKind>(())
            } else {
                Err::<(), ErrorKind>(ErrorKind::Validation)
            },
    {
        self.validate_form(is_email(self.email.as_str()), max_key_len)
    }
}

/// The accounts as mathematical values.
pub struct DirectoryView {
    pub users: Seq<UserRecordView>,
}

impl DirectoryView {
    /// Whether user `u` goes by `identifier`: it is the user name or the
    /// email address.
    pub open spec fn goes_by(u: UserRecordView, identifier: Seq<char>) -> bool {
        u.username == identifier || u.email == identifier
    }

    /// The place of the first user at or after `from` who goes by
    /// `identifier`; the number of users where there is none.
    pub open spec fn first_from(self, identifier: Seq<char>, from: int) -> int
        decreases self.users.len() - from,
    {
        if from < 0 || from >= self.users.len() {
            self.users.len() as int
        } else if Self::goes_by(self.users[from], identifier) {
            from
        } else {
            self.first_from(identifier, from + 1)
        }
    }

    /// The user who goes by `identifier`, if there is one.
    pub open spec fn lookup(self, identifier: Seq<char>) -> Option<int> {
        let i = self.first_from(identifier, 0);
        if i < self.users.len() {
            Some(i)
        } else {
            None
        }
    }

    /// Whether the user name or the email address is taken.
    pub open spec fn taken(self, username: Seq<char>, email: Seq<char>) -> bool {
        exists|i: int|
            0 <= i < self.users.len() && (self.users[i].username == username
                || self.users[i].email == email)
    }

    /// Whether a user has this id.
    pub open spec fn has_id(self, id: u128) -> bool {
        exists|i: int| 0 <= i < self.users.len() && self.users[i].id == id
    }

    /// The place of the user with this id.
    pub open spec fn index_of_id(self, id: u128) -> int {
        choose|i: int| 0 <= i < self.users.len() && self.users[i].id == id
    }

    /// The directory's invariant: ids, user names and email addresses each
    /// identify a user.
    pub open spec fn valid(self) -> bool {
        &&& forall|i: int, j: int|
            0 <= i < j < self.users.len() ==> self.users[i].id != self.users[j].id
        &&& forall|i: int, j: int|
            0 <= i < j < self.users.len() ==> self.users[i].username != self.users[j].username
        &&& forall|i: int, j: int|
            0 <= i < j < self.users.len() ==> self.users[i].email != self.users[j].email
    }

    /// What the attempt to create user `u` is answered.
    pub open spec fn create_result(self, u: UserRecordView) -> Result<(), ErrorKind> {
        if self.taken(u.username, u.email) || self.has_id(u.id) {
            Err(ErrorKind::Conflict)
        } else {
            Ok(())
        }
    }

    /// What a login is answered as far as the account decides it: nobody
    /// goes by the identifier, or the account is deactivated, or the
    /// password is wrong; or the user at this place may log in.
    pub open spec fn check_login(self, identifier: Seq<char>, password_hash: Seq<u8>) -> Result<
        int,
        ErrorKind,
    > {
        match self.lookup(identifier) {
            None => Err(ErrorKind::Unauthorized),
            Some(i) => if !self.users[i].is_active {
                Err(ErrorKind::Forbidden)
            } else if self.users[i].password_hash != password_hash {
                Err(ErrorKind::Unauthorized)
            } else {
                Ok(i)
            },
        }
    }
}

impl DirectoryView {
    /// What a login with a password is answered as far as the account
    /// decides it: nobody goes by the identifier, or the account is
    /// deactivated, or the hash that is derived from the password with the
    /// user's salt is not the stored one; or the user at this place may log
    /// in.
    pub open spec fn check_password(self, identifier: Seq<char>, password: Seq<u8>) -> Result<
        int,
        ErrorKind,
    > {
        match self.lookup(identifier) {
            None => Err(ErrorKind::Unauthorized),
            Some(i) => if !self.users[i].is_active {
                Err(ErrorKind::Forbidden)
            } else {
                match argon2id_hash(password, self.users[i].salt) {
                    None => Err(ErrorKind::Unauthorized),
                    Some(h) => self.check_login(identifier, h),
                }
            },
        }
    }
}

/// The accounts.
#[derive(Debug)]
pub struct UserDirectory {
    users: Vec<UserRecord>,
}

impl View for UserDirectory {
    type V = DirectoryView;

    closed spec fn view(&self) -> DirectoryView {
        DirectoryView { users: Seq::new(self.users@.len(), |i: int| self.users@[i]@) }
    }
}

impl UserDirectory {
    /// Whether the directory's invariant holds.
    pub open spec fn wf(&self) -> bool {
        self@.valid()
    }

    /// A directory without accounts.
    pub fn new() -> (d: UserDirectory)
        ensures
            d.wf(),
            d@.users.len() == 0,
    {
        UserDirectory { users: Vec::new() }
    }

    /// Number of accounts.
    pub fn len(&self) -> (n: usize)
        ensures
            n == self@.users.len(),
    {
        self.users.len()
    }

    /// Adds an account. Fails with a conflict where the id, the user name
    /// or the email address is taken.
    pub fn create_user(&mut self, user: UserRecord) -> (result: Result<(), ErrorKind>)
        requires
            old(self).wf(),
        ensures
            final(self).wf(),
            result == old(self)@.create_result(user@),
            final(self)@.users == match result {
                Ok(_) => old(self)@.users.push(user@),
                Err(_) => old(self)@.users,
            },
    {
        let mut i: usize = 0;
        while i < self.users.len()
            invariant
                self.wf(),
                self.users == old(self).users,
                i <= self.users.len(),
                forall|j: int|
                    0 <= j < i ==> self@.users[j].username != user@.username && self@.users[j].email
                        != user@.email && self@.users[j].id != user@.id,
            decreases self.users.len() - i,
        {
            if self.users[i].username == user.username || self.users[i].email == user.email
                || self.users[i].id == user.id {
                assert(self@.users[i as int] == self.users@[i as int]@);
                return Err(ErrorKind::Conflict);
            }
            i = i + 1;
        }
        let ghost added = user@;
        self.users.push(user);
        proof {
            let s = old(self)@;
            assert(self@.users =~= s.users.push(added));
            assert forall|a: int, b: int| 0 <= a < b < self@.users.len() implies self@.users[a].id
                != self@.users[b].id && self@.users[a].username != self@.users[b].username
                && self@.users[a].email != self@.users[b].email by {
                if b < s.users.len() {
                    assert(s.users[a].id != s.users[b].id);
                } else {
                    assert(s.users[a].id != added.id);
                }
            }
        }
        Ok(())
    }

    /// Finds the user who goes by `identifier`, a user name or an email
    /// address.
    pub fn find_user_by_identifier(&self, identifier: &String) -> (found: Option<&UserRecord>)
        ensures
            match found {
                Some(u) => self@.lookup(identifier@) is Some && u@
                    == self@.users[self@.lookup(identifier@)->0],
                None => self@.lookup(identifier@) is None,
            },
    {
        match self.find(identifier) {
            Some(i) => Some(&self.users[i]),
            None => None,
        }
    }

    fn find(&self, identifier: &String) -> (found: Option<usize>)
        ensures
            found is Some <==> self@.lookup(identifier@) is Some,
            found matches Some(i) ==> i < self.users@.len() && self@.lookup(identifier@) == Some(
                i as int,
            ),
    {
        let mut i: usize = 0;
        while i < self.users.len()
            invariant
                i <= self.users.len(),
                self@.first_from(identifier@, 0) == self@.first_from(identifier@, i as int),
            decreases self.users.len() - i,
        {
            assert(self@.users[i as int] == self.users@[i as int]@);
            if self.users[i].username == *identifier || self.users[i].email == *identifier {
                return Some(i);
            }
            i = i + 1;
        }
        None
    }

    /// The user with this id.
    pub fn user(&self, id: u128) -> (found: Option<&UserRecord>)
        requires
            self.wf(),
        ensures
            match found {
                Some(u) => self@.has_id(id) && u@ == self@.users[self@.index_of_id(id)],
                None => !self@.has_id(id),
            },
    {
        let mut i: usize = 0;
        while i < self.users.len()
            invariant
                self.wf(),
                i <= self.users.len(),
                forall|j: int| 0 <= j < i ==> self@.users[j].id != id,
            decreases self.users.len() - i,
        {
            if self.users[i].id == id {
                proof {
                    let k = self@.index_of_id(id);
                    assert(self@.users[i as int].id == id);
                    if k < i {
                        assert(self@.users[k].id != self@.users[i as int].id);
                    } else if i < k {
                        assert(self@.users[i as int].id != self@.users[k].id);
                    }
                }
                return Some(&self.users[i]);
            }
            i = i + 1;
        }
        None
    }

    /// Compares the derived hash of a presented password with the stored
    /// one. The time taken does not depend on where the two differ.
    pub fn verify_credential(user: &UserRecord, password_hash: &Vec<u8>) -> (same: bool)
        ensures
            same == (user.password_hash@ == password_hash@),
    {
        constant_time_eq(&user.password_hash, password_hash)
    }

    /// Decides a login as far as the account decides it.
    pub fn check_login(&self, identifier: &String, password_hash: &Vec<u8>) -> (result: Result<
        usize,
        ErrorKind,
    >)
        ensures
            match result {
                Ok(i) => self@.check_login(identifier@, password_hash@) == Ok::<int, ErrorKind>(
                    i as int,
                ) && i < self@.users.len(),
                Err(e) => self@.check_login(identifier@, password_hash@) == Err::<int, ErrorKind>(e),
            },
    {
        match self.find(identifier) {
            None => Err(ErrorKind::Unauthorized),
            Some(i) => {
                assert(self@.users[i as int] == self.users@[i as int]@);
                if !self.users[i].is_active {
                    Err(ErrorKind::Forbidden)
                } else if !Self::verify_credential(&self.users[i], password_hash) {
                    Err(ErrorKind::Unauthorized)
                } else {
                    Ok(i)
                }
            },
        }
    }

    /// Decides a login with a password as far as the account decides it.
    /// The hash is derived from the password with the user's salt and
    /// compared with the stored one in constant time. Where nobody goes by
    /// the identifier, a hash is derived all the same and thrown away.
    pub fn check_password(&self, identifier: &String, password: &str) -> (result: Result<
        usize,
        ErrorKind,
    >)
        ensures
            match result {
                Ok(i) => self@.check_password(identifier@, encode_utf8(password@)) == Ok::<
                    int,
                    ErrorKind,
                >(i as int) && i < self@.users.len(),
                Err(e) => self@.check_password(identifier@, encode_utf8(password@)) == Err::<
                    int,
                    ErrorKind,
                >(e),
            },
    {
        match self.find(identifier) {
            None => {
                let decoy = [0u8; 16];
                let _ = argon2id(password.as_bytes(), decoy.as_slice());
                Err(ErrorKind::Unauthorized)
            },
            Some(i) => {
                assert(self@.users[i as int] == self.users@[i as int]@);
                if !self.users[i].is_active {
                    return Err(ErrorKind::Forbidden);
                }
                match argon2id(password.as_bytes(), self.users[i].salt.as_slice()) {
                    None => Err(ErrorKind::Unauthorized),
                    Some(hash) => self.check_login(identifier, &hash),
                }
            },
        }
    }

    /// Says what the attempt to create `user` would be answered, without
    /// changing anything.
    pub fn check_create(&self, user: &UserRecord) -> (result: Result<(), ErrorKind>)
        ensures
            result == self@.create_result(user@),
    {
        let mut i: usize = 0;
        while i < self.users.len()
            invariant
                i <= self.users.len(),
                forall|j: int|
                    0 <= j < i ==> self@.users[j].username != user@.username && self@.users[j].email
                        != user@.email && self@.users[j].id != user@.id,
            decreases self.users.len() - i,
        {
            if self.users[i].username == user.username || self.users[i].email == user.email
                || self.users[i].id == user.id {
                assert(self@.users[i as int] == self.users@[i as int]@);
                return Err(ErrorKind::Conflict);
            }
            i = i + 1;
        }
        Ok(())
    }

    /// Notes that the user at place `index` was seen at `now`.
    pub fn mark_seen(&mut self, index: usize, now: i64)
        requires
            old(self).wf(),
            index < old(self)@.users.len(),
        ensures
            final(self).wf(),
            final(self)@.users == old(self)@.users.update(
                index as int,
                UserRecordView { last_seen: Some(now), ..old(self)@.users[index as int] },
            ),
    {
        let ghost before = self@;
        self.users[index].last_seen = Some(now);
        proof {
            assert(self@.users =~= before.users.update(
                index as int,
                UserRecordView { last_seen: Some(now), ..before.users[index as int] },
            ));
            assert forall|a: int, b: int| 0 <= a < b < self@.users.len() implies self@.users[a].id
                != self@.users[b].id && self@.users[a].username != self@.users[b].username
                && self@.users[a].email != self@.users[b].email by {
                assert(before.users[a].id != before.users[b].id);
            }
        }
    }

    /// The id of the user at place `index`, and whether the user is an
    /// administrator.
    pub fn identity_at(&self, index: usize) -> (who: (u128, bool))
        requires
            index < self@.users.len(),
        ensures
            who.0 == self@.users[index as int].id,
            who.1 == self@.users[index as int].is_admin,
    {
        (self.users[index].id, self.users[index].is_admin)
    }

    /// Deactivates or reactivates the account with this id. Returns
    /// whether there is such an account.
    pub fn set_active(&mut self, id: u128, active: bool) -> (found: bool)
        requires
            old(self).wf(),
        ensures
            final(self).wf(),
            found == old(self)@.has_id(id),
            final(self)@.users.len() == old(self)@.users.len(),
            forall|i: int|
                0 <= i < old(self)@.users.len() ==> #[trigger] final(self)@.users[i] == if old(
                    self,
                )@.users[i].id == id {
                    UserRecordView { is_active: active, ..old(self)@.users[i] }
                } else {
                    old(self)@.users[i]
                },
    {
        let mut i: usize = 0;
        while i < self.users.len()
            invariant
                self.wf(),
                self.users == old(self).users,
                i <= self.users.len(),
                forall|j: int| 0 <= j < i ==> self@.users[j].id != id,
            decreases self.users.len() - i,
        {
            if self.users[i].id == id {
                let ghost before = self@;
                assert(before.users[i as int].id == id);
                self.users[i].is_active = active;
                proof {
                    assert forall|a: int| 0 <= a < before.users.len() implies #[trigger] self@.users[a]
                        == if before.users[a].id == id {
                        UserRecordView { is_active: active, ..before.users[a] }
                    } else {
                        before.users[a]
                    } by {
                        if a != i {
                            if a < i {
                                assert(before.users[a].id != before.users[i as int].id);
                            } else {
                                assert(before.users[i as int].id != before.users[a].id);
                            }
                        }
                    }
                    assert forall|a: int, b: int|
                        0 <= a < b < self@.users.len() implies self@.users[a].id
                        != self@.users[b].id && self@.users[a].username != self@.users[b].username
                        && self@.users[a].email != self@.users[b].email by {
                        assert(before.users[a].id != before.users[b].id);
                    }
                }
                return true;
            }
            i = i + 1;
        }
        false
    }
}

/// What a client gets when a session was handed out. The tokens themselves
/// are made and signed by the caller.
#[derive(Debug, Clone, Copy, PartialEq, Eq, Structural)]
pub struct SessionGrant {
    pub user_id: u128,
    pub session_id: u128,
    /// Seconds for which the access token is good.
    pub expires_in: i64,
}

/// The authority as mathematical values.
pub struct AuthorityView {
    pub config: AuthConfig,
    /// The secret under which tokens are hashed before they are stored.
    pub pepper: Seq<u8>,
    pub users: DirectoryView,
    pub sessions: StoreView,
}

/// The account that a request to register asks for.
pub open spec fn requested_account(
    request: RegisterRequest,
    user_id: u128,
    password_hash: Seq<u8>,
    salt: Seq<u8>,
    now: i64,
) -> UserRecordView {
    UserRecordView {
        id: user_id,
        username: request.username@,
        email: request.email@,
        password_hash,
        salt,
        public_key: request.public_key@,
        dh_public_key: request.dh_public_key@,
        is_active: true,
        is_admin: false,
        created_at: now,
        last_seen: None,
    }
}

impl AuthorityView {
    /// The hash under which a token is stored: never the token itself.
    pub open spec fn stored_hash(self, token: Seq<u8>) -> Seq<u8> {
        hmac_sha256_tag(self.pepper, token)
    }

    /// The session that is handed out at `now` for the two tokens.
    pub open spec fn granted_session(
        self,
        id: u128,
        user_id: u128,
        device_id: Seq<char>,
        access_token: Seq<u8>,
        refresh_token: Seq<u8>,
        now: i64,
    ) -> SessionView {
        SessionView {
            id,
            user_id,
            device_id,
            access_token_hash: self.stored_hash(access_token),
            refresh_token_hash: self.stored_hash(refresh_token),
            created_at: now,
            expires_at: (now + self.config.refresh_ttl_secs) as i64,
            revoked_at: None,
        }
    }

    /// The grant that goes with a session of `user_id`.
    pub open spec fn grant(self, user_id: u128, session_id: u128) -> SessionGrant {
        SessionGrant { user_id, session_id, expires_in: self.config.access_ttl_secs }
    }

    /// What a request to register is answered: a refusal where the form is
    /// not acceptable, the salt has not 16 bytes or the password cannot be
    /// hashed; a conflict where the id, the user name or the email address
    /// is taken; what the session store says of the first session
    /// otherwise.
    pub open spec fn register_result(
        self,
        request: RegisterRequest,
        user_id: u128,
        salt: Seq<u8>,
        session_id: u128,
        refresh_token: Seq<u8>,
        now: i64,
    ) -> Result<SessionGrant, ErrorKind> {
        if !request.acceptable(self.config.max_key_len) || salt.len() != SALT_LEN {
            Err(ErrorKind::Validation)
        } else {
            match argon2id_hash(encode_utf8(request.password@), salt) {
                None => Err(ErrorKind::Validation),
                Some(hash) => if self.users.create_result(
                    requested_account(request, user_id, hash, salt, now),
                ) is Err {
                    Err(ErrorKind::Conflict)
                } else {
                    match self.sessions.create_result(
                        session_id,
                        self.stored_hash(refresh_token),
                        now,
                        self.config.refresh_ttl_secs,
                    ) {
                        Err(e) => Err(e),
                        Ok(_) => Ok(self.grant(user_id, session_id)),
                    }
                },
            }
        }
    }

    /// What a login is answered.
    pub open spec fn login_result(
        self,
        identifier: Seq<char>,
        password: Seq<u8>,
        session_id: u128,
        refresh_token: Seq<u8>,
        now: i64,
    ) -> Result<SessionGrant, ErrorKind> {
        match self.users.check_password(identifier, password) {
            Err(e) => Err(e),
            Ok(i) => match self.sessions.create_result(
                session_id,
                self.stored_hash(refresh_token),
                now,
                self.config.refresh_ttl_secs,
            ) {
                Err(e) => Err(e),
                Ok(_) => Ok(self.grant(self.users.users[i].id, session_id)),
            },
        }
    }

    /// What a refresh is answered.
    pub open spec fn refresh_result(
        self,
        presented: Seq<u8>,
        session_id: u128,
        refresh_token: Seq<u8>,
        now: i64,
    ) -> Result<SessionGrant, ErrorKind> {
        match self.sessions.rotate_result(
            self.stored_hash(presented),
            session_id,
            self.stored_hash(refresh_token),
            now,
            self.config.refresh_ttl_secs,
        ) {
            Err(e) => Err(e),
            Ok(_) => Ok(
                self.grant(
                    self.sessions.sessions[self.sessions.index_of_refresh(
                        self.stored_hash(presented),
                    )].user_id,
                    session_id,
                ),
            ),
        }
    }

    /// What a request of `caller` to revoke session `session_id` is
    /// answered. Somebody without an account is not heard.
    pub open spec fn revoke_result(self, session_id: u128, caller: u128) -> Result<(), ErrorKind> {
        if !self.users.has_id(caller) {
            Err(ErrorKind::Unauthorized)
        } else {
            self.sessions.revoke_result(
                session_id,
                caller,
                self.users.users[self.users.index_of_id(caller)].is_admin,
            )
        }
    }
}

/// The auth authority.
#[derive(Debug)]
pub struct AuthAuthority {
    config: AuthConfig,
    pepper: Vec<u8>,
    users: UserDirectory,
    sessions: SessionStore,
}

impl View for AuthAuthority {
    type V = AuthorityView;

    closed spec fn view(&self) -> AuthorityView {
        AuthorityView {
            config: self.config,
            pepper: self.pepper@,
            users: self.users@,
            sessions: self.sessions@,
        }
    }
}

impl AuthAuthority {
    /// Whether the invariants of the accounts and of the sessions hold.
    pub open spec fn wf(&self) -> bool {
        self@.users.valid() && self@.sessions.valid()
    }

    /// Whether the authority is set up as before: config and pepper are the
    /// same.
    pub open spec fn same_setup(&self, other: &AuthAuthority) -> bool {
        self@.config == other@.config && self@.pepper == other@.pepper
    }

    /// An authority without accounts or sessions, which hashes tokens under
    /// `pepper`.
    pub fn new(config: AuthConfig, pepper: Vec<u8>) -> (authority: AuthAuthority)
        ensures
            authority.wf(),
            authority@.config == config,
            authority@.pepper == pepper@,
            authority@.users.users.len() == 0,
            authority@.sessions.sessions.len() == 0,
    {
        AuthAuthority { config, pepper, users: UserDirectory::new(), sessions: SessionStore::new() }
    }

    /// The accounts.
    pub fn users(&self) -> (users: &UserDirectory)
        ensures
            users@ == self@.users,
    {
        &self.users
    }

    /// The sessions.
    pub fn sessions(&self) -> (sessions: &SessionStore)
        ensures
            sessions@ == self@.sessions,
    {
        &self.sessions
    }

    /// The hash under which a token is stored.
    pub fn hash_token(&self, token: &[u8]) -> (hash: Vec<u8>)
        ensures
            hash@ == self@.stored_hash(token@),
    {
        hmac_sha256(self.pepper.as_slice(), token)
    }

    /// Registers an account and hands out its first session, both or
    /// neither. The password is hashed with `salt`, which the caller has
    /// drawn at random; the tokens are stored as hashes.
    pub fn register(
        &mut self,
        request: &RegisterRequest,
        user_id: u128,
        salt: Vec<u8>,
        device_id: String,
        session_id: u128,
        access_token: &[u8],
        refresh_token: &[u8],
        now: i64,
    ) -> (result: Result<SessionGrant, ErrorKind>)
        requires
            old(self).wf(),
        ensures
            final(self).wf(),
            final(self).same_setup(old(self)),
            result == old(self)@.register_result(
                *request,
                user_id,
                salt@,
                session_id,
                refresh_token@,
                now,
            ),
            result is Err ==> final(self)@ == old(self)@,
            result is Ok ==> final(self)@.users.users == old(self)@.users.users.push(
                requested_account(
                    *request,
                    user_id,
                    argon2id_hash(encode_utf8(request.password@), salt@)->0,
                    salt@,
                    now,
                ),
            ) && final(self)@.sessions == old(self)@.sessions.after_create(
                old(self)@.granted_session(
                    session_id,
                    user_id,
                    device_id@,
                    access_token@,
                    refresh_token@,
                    now,
                ),
            ),
    {
        if request.validate(self.config.max_key_len).is_err() || salt.len() != SALT_LEN {
            return Err(ErrorKind::Validation);
        }
        let password_hash = match argon2id(request.password.as_str().as_bytes(), salt.as_slice()) {
            Some(hash) => hash,
            None => {
                return Err(ErrorKind::Validation);
            },
        };
        let account = UserRecord {
            id: user_id,
            username: request.username.clone(),
            email: request.email.clone(),
            password_hash,
            salt,
            public_key: request.public_key.clone(),
            dh_public_key: request.dh_public_key.clone(),
            is_active: true,
            is_admin: false,
            created_at: now,
            last_seen: None,
        };
        if self.users.check_create(&account).is_err() {
            return Err(ErrorKind::Conflict);
        }
        let access_hash = self.hash_token(access_token);
        let refresh_hash = self.hash_token(refresh_token);
        match self.sessions.check_create(
            session_id,
            &refresh_hash,
            now,
            self.config.refresh_ttl_secs,
        ) {
            Err(e) => {
                return Err(e);
            },
            Ok(_) => {},
        }
        let _ = self.users.create_user(account);
        let _ = self.sessions.create_session(
            session_id,
            user_id,
            device_id,
            access_hash,
            refresh_hash,
            now,
            self.config.refresh_ttl_secs,
        );
        Ok(SessionGrant { user_id, session_id, expires_in: self.config.access_ttl_secs })
    }

    /// Logs a user in on a device. Whatever session the user had on that
    /// device is revoked as the new one is created.
    pub fn login(
        &mut self,
        identifier: &String,
        password: &str,
        device_id: String,
        session_id: u128,
        access_token: &[u8],
        refresh_token: &[u8],
        now: i64,
    ) -> (result: Result<SessionGrant, ErrorKind>)
        requires
            old(self).wf(),
        ensures
            final(self).wf(),
            final(self).same_setup(old(self)),
            result == old(self)@.login_result(
                identifier@,
                encode_utf8(password@),
                session_id,
                refresh_token@,
                now,
            ),
            result is Err ==> final(self)@ == old(self)@,
            result matches Ok(grant) ==> final(self)@.sessions == old(self)@.sessions.after_create(
                old(self)@.granted_session(
                    session_id,
                    grant.user_id,
                    device_id@,
                    access_token@,
                    refresh_token@,
                    now,
                ),
            ) && ({
                let i = old(self)@.users.check_password(identifier@, encode_utf8(password@))->Ok_0;
                final(self)@.users.users == old(self)@.users.users.update(
                    i,
                    UserRecordView { last_seen: Some(now), ..old(self)@.users.users[i] },
                )
            }),
    {
        let index = match self.users.check_password(identifier, password) {
            Err(e) => {
                return Err(e);
            },
            Ok(i) => i,
        };
        let access_hash = self.hash_token(access_token);
        let refresh_hash = self.hash_token(refresh_token);
        match self.sessions.check_create(
            session_id,
            &refresh_hash,
            now,
            self.config.refresh_ttl_secs,
        ) {
            Err(e) => {
                return Err(e);
            },
            Ok(_) => {},
        }
        let (user_id, _) = self.users.identity_at(index);
        let _ = self.sessions.create_session(
            session_id,
            user_id,
            device_id,
            access_hash,
            refresh_hash,
            now,
            self.config.refresh_ttl_secs,
        );
        self.users.mark_seen(index, now);
        Ok(SessionGrant { user_id, session_id, expires_in: self.config.access_ttl_secs })
    }

    /// Exchanges a refresh token for a new session. The session of the
    /// presented token is revoked as the new one is created. A token that
    /// was used before is refused, and every session of its user is revoked.
    pub fn refresh(
        &mut self,
        presented: &[u8],
        session_id: u128,
        access_token: &[u8],
        refresh_token: &[u8],
        now: i64,
    ) -> (result: Result<SessionGrant, ErrorKind>)
        requires
            old(self).wf(),
        ensures
            final(self).wf(),
            final(self).same_setup(old(self)),
            final(self)@.users == old(self)@.users,
            result == old(self)@.refresh_result(presented@, session_id, refresh_token@, now),
            final(self)@.sessions == old(self)@.sessions.after_rotate(
                old(self)@.stored_hash(presented@),
                session_id,
                old(self)@.stored_hash(access_token@),
                old(self)@.stored_hash(refresh_token@),
                now,
                old(self)@.config.refresh_ttl_secs,
            ),
    {
        let presented_hash = self.hash_token(presented);
        let access_hash = self.hash_token(access_token);
        let refresh_hash = self.hash_token(refresh_token);
        let owner = match self.sessions.get_session_by_refresh_hash(&presented_hash) {
            Some(s) => s.user_id,
            None => 0,
        };
        match self.sessions.rotate_session_tokens(
            &presented_hash,
            session_id,
            access_hash,
            refresh_hash,
            now,
            self.config.refresh_ttl_secs,
        ) {
            Err(e) => Err(e),
            Ok(_) => Ok(
                SessionGrant {
                    user_id: owner,
                    session_id,
                    expires_in: self.config.access_ttl_secs,
                },
            ),
        }
    }

    /// Revokes a session on behalf of `caller`, who must own it or be an
    /// administrator.
    pub fn revoke(&mut self, session_id: u128, caller: u128, now: i64) -> (result: Result<
        (),
        ErrorKind,
    >)
        requires
            old(self).wf(),
        ensures
            final(self).wf(),
            final(self).same_setup(old(self)),
            final(self)@.users == old(self)@.users,
            result == old(self)@.revoke_result(session_id, caller),
            final(self)@.sessions == match result {
                Ok(_) => old(self)@.sessions.revoke_all(SelectorView::Session(session_id), now),
                Err(_) => old(self)@.sessions,
            },
    {
        let is_admin = match self.users.user(caller) {
            Some(u) => u.is_admin,
            None => {
                return Err(ErrorKind::Unauthorized);
            },
        };
        self.sessions.revoke_session(session_id, caller, is_admin, now)
    }

    /// Ends the session that bears this access token.
    pub fn logout(&mut self, access_token: &[u8], now: i64) -> (result: Result<(), ErrorKind>)
        requires
            old(self).wf(),
        ensures
            final(self).wf(),
            final(self).same_setup(old(self)),
            final(self)@.users == old(self)@.users,
            final(self)@.sessions == old(self)@.sessions.revoke_all(
                SelectorView::AccessToken(old(self)@.stored_hash(access_token@)),
                now,
            ),
            result is Ok <==> old(self)@.sessions.count_active(
                SelectorView::AccessToken(old(self)@.stored_hash(access_token@)),
            ) > 0,
            result matches Err(e) ==> e == ErrorKind::Unauthorized,
    {
        let hash = self.hash_token(access_token);
        self.sessions.logout(hash, now)
    }

    /// Says whom a request with this access token at `now` is from: the
    /// user of the session `session_id`, as long as that session is in use
    /// and bears the token.
    pub fn authorize(&self, session_id: u128, access_token: &[u8], now: i64) -> (result: Result<
        u128,
        ErrorKind,
    >)
        requires
            self.wf(),
        ensures
            result == if self@.sessions.authorized(session_id, now) is Ok
                && self@.sessions.sessions[self@.sessions.index_of_id(
                session_id,
            )].access_token_hash == self@.stored_hash(access_token@) {
                self@.sessions.authorized(session_id, now)
            } else {
                Err::<u128, ErrorKind>(ErrorKind::Unauthorized)
            },
    {
        let user = match self.sessions.authorize(session_id, now) {
            Ok(user) => user,
            Err(e) => {
                return Err(e);
            },
        };
        let hash = self.hash_token(access_token);
        match self.sessions.session(session_id) {
            Some(s) => if constant_time_eq(&s.access_token_hash, &hash) {
                Ok(user)
            } else {
                Err(ErrorKind::Unauthorized)
            },
            None => Err(ErrorKind::Unauthorized),
        }
    }
}

/// Whether two byte strings are equal. Strings of one length are compared
/// byte by byte to the end, whatever is found on the way.
pub fn constant_time_eq(a: &Vec<u8>, b: &Vec<u8>) -> (same: bool)
    ensures
        same == (a@ == b@),
{
    if a.len() != b.len() {
        return false;
    }
    let mut diff: u8 = 0;
    let mut i: usize = 0;
    assert(a@.take(0) =~= b@.take(0));
    while i < a.len()
        invariant
            i <= a.len(),
            a.len() == b.len(),
            diff == 0 <==> a@.take(i as int) == b@.take(i as int),
        decreases a.len() - i,
    {
        let x = a[i] ^ b[i];
        proof {
            let (p, q) = (a[i as int], b[i as int]);
            assert((p ^ q == 0) <==> p == q) by (bit_vector);
            assert(((diff | x) == 0) <==> (diff == 0 && x == 0)) by (bit_vector);
            assert(a@.take(i as int + 1) =~= a@.take(i as int).push(a@[i as int]));
            assert(b@.take(i as int + 1) =~= b@.take(i as int).push(b@[i as int]));
            if a@.take(i as int + 1) == b@.take(i as int + 1) {
                assert(a@.take(i as int + 1).drop_last() =~= a@.take(i as int));
                assert(b@.take(i as int + 1).drop_last() =~= b@.take(i as int));
                assert(a@.take(i as int + 1).last() == b@.take(i as int + 1).last());
            }
        }
        diff = diff | x;
        i = i + 1;
    }
    proof {
        assert(a@.take(a.len() as int) =~= a@);
        assert(b@.take(b.len() as int) =~= b@);
    }
    diff == 0
}

} // verus!
