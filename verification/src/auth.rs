//! The authentication service: the account database keyed by a keyed hash
//! of the user name, and the handling of authentication requests.
//!
//! Requests that need outside work (asking the session manager about a
//! token, creating a home directory) are handled in steps: the service
//! answers with an `AuthStep` naming the work, and the caller feeds the
//! outcome back through the matching `resume_*` method.
use vstd::prelude::*;

use crate::crypto::{argon2_hash, argon2_verifies, argon2_verify, hex_encode, hex_lower, hmac_sha256,
    hmac_sha256_of, new_uuid};
use crate::ipc::{AuthRequest, AuthResponse, SessionResponse};
use crate::paths::{home_of, user_home};
use crate::strs::{self, clone_strings, has_prefix, owned, str_eq, views};
use vstd::utf8::encode_utf8;

verus! {

/// A stored account. The user name itself is never stored: only its keyed
/// hash `userid_hash`.
#[derive(Debug)]
pub struct UserRecord {
    pub internal_id: String,
    pub userid_hash: String,
    pub display_name: String,
    pub password_hash: String,
    pub role: String,
    pub capabilities: Vec<String>,
    pub state: String,
}

/// An account in the database format that predates internal IDs.
#[derive(Debug)]
pub struct LegacyUserRecord {
    pub username: String,
    pub display_name: String,
    pub uid: u32,
    pub password_hash: String,
    pub home_dir: String,
    pub shell: String,
    pub role: String,
    pub capabilities: Vec<String>,
    pub state: String,
}

/// What the session manager answered about a session token.
#[derive(Debug)]
pub enum SessionLookup {
    /// The session manager could not be reached.
    Unavailable,
    /// The token does not name a live session.
    Invalid,
    /// The token names a live session of this account.
    Valid { internal_id: String },
}

/// The next thing the caller has to do for the service.
#[derive(Debug)]
pub enum AuthStep {
    /// Send `response`. Before that, delete the directory tree `remove_home`
    /// if present, then save the database if `persist` is set.
    Reply { response: AuthResponse, persist: bool, remove_home: Option<String> },
    /// Ask the session manager whether `token` is an administrator's
    /// session, then call `resume_admin_check`.
    CheckAdmin { token: String },
    /// Ask the session manager which account `token` belongs to, then call
    /// `resume_session_identity`.
    IdentifySession { token: String },
    /// Create the directories `dirs`, in order, then call
    /// `resume_home_created`.
    CreateHome { dirs: Vec<String> },
}

/// What the service is waiting for before it can go on.
#[derive(Debug, Clone, Copy, PartialEq, Eq, Structural)]
pub enum Awaiting {
    Nothing,
    AdminCheck,
    SessionIdentity,
    HomeCreation,
}

/// A request waiting for the outcome of outside work.
#[derive(Debug)]
pub enum AuthPending {
    CreateUser { username: String, password: String, display_name: String, role: String },
    StoreUser { record: UserRecord },
    DeleteUser { internal_id: String },
    ConfirmDeletion { password: String },
    ListUsers,
}

pub struct AuthService {
    users: Vec<(String, UserRecord)>,
    system_secret: Vec<u8>,
    pending: Option<AuthPending>,
}

// ---------------------------------------------------------------------
// Model
// ---------------------------------------------------------------------

/// The database key of a user name: lowercase hex of HMAC-SHA256 of the
/// name's UTF-8 bytes under the system secret.
pub open spec fn user_key(secret: Seq<u8>, username: Seq<char>) -> Seq<char> {
    hex_lower(hmac_sha256_of(secret, encode_utf8(username)))
}

/// No two entries share a key.
pub open spec fn keys_unique(entries: Seq<(String, UserRecord)>) -> bool {
    forall|i: int, j: int|
        0 <= i < entries.len() && 0 <= j < entries.len() && i != j ==> entries[i].0@
            != entries[j].0@
}

pub open spec fn has_key(entries: Seq<(String, UserRecord)>, k: Seq<char>) -> bool {
    exists|i: int| 0 <= i < entries.len() && entries[i].0@ == k
}

/// The position of the entry with key `k` (meaningful when `has_key`).
pub open spec fn key_pos(entries: Seq<(String, UserRecord)>, k: Seq<char>) -> int {
    choose|i: int| 0 <= i < entries.len() && entries[i].0@ == k
}

/// `i` is the first position holding an account with this internal ID.
pub open spec fn first_with_id(entries: Seq<(String, UserRecord)>, id: Seq<char>, i: int) -> bool {
    &&& 0 <= i < entries.len()
    &&& entries[i].1.internal_id@ == id
    &&& forall|j: int| 0 <= j < i ==> entries[j].1.internal_id@ != id
}

pub open spec fn has_id(entries: Seq<(String, UserRecord)>, id: Seq<char>) -> bool {
    exists|i: int| 0 <= i < entries.len() && entries[i].1.internal_id@ == id
}

/// The account that `username` / `password` log in to, if any.
pub open spec fn login_outcome(
    entries: Seq<(String, UserRecord)>,
    secret: Seq<u8>,
    username: Seq<char>,
    password: Seq<char>,
) -> Option<UserRecord> {
    let k = user_key(secret, username);
    if has_key(entries, k) && argon2_verifies(
        password,
        entries[key_pos(entries, k)].1.password_hash@,
    ) {
        Some(entries[key_pos(entries, k)].1)
    } else {
        None
    }
}

/// The capabilities granted to a new account of the given role.
pub open spec fn caps_for(role: Seq<char>) -> Seq<Seq<char>> {
    if role == "Administrator"@ {
        seq![
            "FsRead"@,
            "FsWrite"@,
            "NetworkManage"@,
            "ServiceManage"@,
            "Admin"@,
            "DeviceAccess"@,
        ]
    } else {
        seq!["FsRead"@, "FsWrite"@]
    }
}

/// The subdirectories created in every new home directory.
pub open spec fn home_subdirs() -> Seq<Seq<char>> {
    seq!["Desktop"@, "Documents"@, "Downloads"@, "Pictures"@, "Music"@, "Videos"@, "Config"@]
}

/// The directories making up a new home: the home itself, then each
/// standard subdirectory.
pub open spec fn home_dir_list(home: Seq<char>) -> Seq<Seq<char>> {
    seq![home] + home_subdirs().map_values(|d: Seq<char>| home + "/"@ + d)
}

pub open spec fn is_username_char(c: char) -> bool {
    ('a' <= c <= 'z') || ('A' <= c <= 'Z') || ('0' <= c <= '9') || c == '_' || c == '-'
}

/// Why a user name is refused, if it is.
pub open spec fn username_problem(u: Seq<char>) -> Option<Seq<char>> {
    if u.len() == 0 {
        Some("Username cannot be empty"@)
    } else if u.len() > 32 {
        Some("Username must be at most 32 characters"@)
    } else if exists|i: int| 0 <= i < u.len() && !is_username_char(#[trigger] u[i]) {
        Some("Username may only contain letters, digits, '_' and '-'"@)
    } else {
        None
    }
}

/// `step` sends the error `msg` and nothing else.
pub open spec fn is_error(step: AuthStep, msg: Seq<char>) -> bool {
    step matches AuthStep::Reply { response: AuthResponse::Error(e), persist: false, remove_home: None }
        && e@ == msg
}

/// `step` sends `response` and nothing else.
pub open spec fn is_plain_reply(step: AuthStep, response: AuthResponse) -> bool {
    step == AuthStep::Reply { response, persist: false, remove_home: None }
}

/// `response` is the login answer for the account `rec` reached as `username`.
pub open spec fn is_authenticated(response: AuthResponse, rec: UserRecord, username: Seq<char>) -> bool {
    response matches AuthResponse::Authenticated { internal_id, username: u, display_name, role, capabilities }
        && internal_id@ == rec.internal_id@ && u@ == username && display_name@ == rec.display_name@
        && role@ == rec.role@ && capabilities@ == rec.capabilities@
}

/// The outcome of the first part of account creation, once permission is
/// settled.
pub open spec fn create_started(
    entries: Seq<(String, UserRecord)>,
    secret: Seq<u8>,
    username: String,
    password: String,
    display_name: String,
    role: String,
    step: AuthStep,
    pending: Option<AuthPending>,
) -> bool {
    let k = user_key(secret, username@);
    match username_problem(username@) {
        Some(msg) => is_error(step, msg) && pending is None,
        None => if has_key(entries, k) {
            is_error(step, "User already exists"@) && pending is None
        } else {
            ||| (step matches AuthStep::Reply {
                response: AuthResponse::Error(e),
                persist: false,
                remove_home: None,
            } && has_prefix(e@, "Failed to hash password: "@) && pending is None
                && password@.len() * 4 > u32::MAX)
            ||| (pending matches Some(AuthPending::StoreUser { record }) && step matches AuthStep::CreateHome { dirs }
                && record.userid_hash@ == k && record.display_name == display_name && record.role
                == role && views(record.capabilities@) == caps_for(role@) && record.state@ == "active"@
                && argon2_verifies(password@, record.password_hash@) && record.internal_id@.len() == 36
                && record.userid_hash@.len() == 64
                && record.password_hash@.len() > 0 && record.password_hash@[0] == '$'
                && views(dirs@) == home_dir_list(home_of(record.internal_id@)))
        },
    }
}

/// The answer to a password change, and the accounts afterwards.
pub open spec fn change_outcome(
    entries: Seq<(String, UserRecord)>,
    secret: Seq<u8>,
    username: Seq<char>,
    old_password: Seq<char>,
    new_password: Seq<char>,
    step: AuthStep,
    new_entries: Seq<(String, UserRecord)>,
) -> bool {
    let k = user_key(secret, username);
    if has_key(entries, k) && argon2_verifies(old_password, entries[key_pos(entries, k)].1.password_hash@) {
        let i = key_pos(entries, k);
        let old = entries[i].1;
        let new = new_entries[i].1;
        &&& step == AuthStep::Reply { response: AuthResponse::Success, persist: true, remove_home: None }
        &&& new_entries.len() == entries.len()
        &&& forall|j: int| 0 <= j < entries.len() && j != i ==> new_entries[j] == entries[j]
        &&& new_entries[i].0 == entries[i].0
        &&& new.internal_id == old.internal_id && new.userid_hash == old.userid_hash
        &&& new.display_name == old.display_name && new.role == old.role
        &&& new.capabilities == old.capabilities && new.state == old.state
        &&& new_password.len() * 4 <= u32::MAX ==> argon2_verifies(new_password, new.password_hash@)
        &&& new_password.len() * 4 > u32::MAX
            ==> (new.password_hash == old.password_hash || argon2_verifies(new_password, new.password_hash@))
    } else {
        is_error(step, "Authentication failed."@) && new_entries == entries
    }
}

/// The answer to a confirmed account deletion for the session's account
/// `id`, and the accounts afterwards.
pub open spec fn confirm_outcome(
    entries: Seq<(String, UserRecord)>,
    id: Seq<char>,
    password: Seq<char>,
    step: AuthStep,
    new_entries: Seq<(String, UserRecord)>,
) -> bool {
    if !has_id(entries, id) {
        is_error(step, "User not found"@) && new_entries == entries
    } else {
        exists|i: int|
            #![trigger first_with_id(entries, id, i)]
            first_with_id(entries, id, i) && if entries[i].1.state@ != "pending_deletion"@ {
                is_error(step, "Deletion not pending for this account"@) && new_entries == entries
            } else if !argon2_verifies(password, entries[i].1.password_hash@) {
                is_error(step, "Authentication failed."@) && new_entries == entries
            } else {
                &&& new_entries == entries.remove(i)
                &&& step matches AuthStep::Reply {
                    response: AuthResponse::Success,
                    persist: true,
                    remove_home: Some(h),
                }
                &&& h@ == home_of(id)
            }
    }
}

/// The answer to an administrator's deletion request, and the accounts
/// afterwards: the first account with the ID is marked for deletion.
pub open spec fn mark_outcome(
    entries: Seq<(String, UserRecord)>,
    id: Seq<char>,
    step: AuthStep,
    new_entries: Seq<(String, UserRecord)>,
) -> bool {
    if !has_id(entries, id) {
        is_error(step, "User not found"@) && new_entries == entries
    } else {
        exists|i: int|
            #![trigger first_with_id(entries, id, i)]
            first_with_id(entries, id, i) && {
                let old = entries[i].1;
                let new = new_entries[i].1;
                &&& step == AuthStep::Reply { response: AuthResponse::Success, persist: true, remove_home: None }
                &&& new_entries.len() == entries.len()
                &&& forall|j: int| 0 <= j < entries.len() && j != i ==> new_entries[j] == entries[j]
                &&& new_entries[i].0 == entries[i].0
                &&& new.internal_id == old.internal_id && new.userid_hash == old.userid_hash
                &&& new.display_name == old.display_name && new.role == old.role
                &&& new.capabilities == old.capabilities && new.password_hash == old.password_hash
                &&& new.state@ == "pending_deletion"@
            }
    }
}

/// The account stored under key `k`, if any.
pub open spec fn record_of(entries: Seq<(String, UserRecord)>, k: Seq<char>) -> Option<UserRecord> {
    if has_key(entries, k) {
        Some(entries[key_pos(entries, k)].1)
    } else {
        None
    }
}

/// The record of the last entry with key `k` in a list of entries, if any.
pub open spec fn last_with_key(entries: Seq<(String, UserRecord)>, k: Seq<char>) -> Option<UserRecord>
    decreases entries.len(),
{
    if entries.len() == 0 {
        None
    } else if entries.last().0@ == k {
        Some(entries.last().1)
    } else {
        last_with_key(entries.drop_last(), k)
    }
}

/// `r` is the migrated form of the legacy account `legacy`, stored under
/// `key`: everything but the user name, home and shell is kept, and it has
/// a fresh internal ID.
pub open spec fn migrated(r: UserRecord, legacy: LegacyUserRecord, key: Seq<char>) -> bool {
    &&& r.userid_hash@ == key
    &&& r.internal_id@.len() == 36
    &&& r.display_name == legacy.display_name
    &&& r.password_hash == legacy.password_hash
    &&& r.role == legacy.role
    &&& r.capabilities == legacy.capabilities
    &&& r.state == legacy.state
}

/// `p` is the home directory of some 36-character internal ID.
pub open spec fn is_fresh_home(p: Seq<char>) -> bool {
    exists|id: Seq<char>| id.len() == 36 && p == home_of(id)
}

/// No legacy account after position `j` (and before `n`) has the same key
/// as the one at `j`.
pub open spec fn last_legacy_with_key(legacy: Seq<(String, LegacyUserRecord)>, n: int, secret: Seq<u8>, j: int) -> bool {
    forall|j2: int| j < j2 < n ==> user_key(secret, #[trigger] legacy[j2].0@) != user_key(secret, legacy[j].0@)
}

/// With unique keys, the entry holding key `k` is the one `key_pos` picks.
pub proof fn lemma_key_pos(entries: Seq<(String, UserRecord)>, k: Seq<char>, i: int)
    requires
        keys_unique(entries),
        0 <= i < entries.len(),
        entries[i].0@ == k,
    ensures
        has_key(entries, k),
        key_pos(entries, k) == i,
{
    assert(has_key(entries, k));
    let p = key_pos(entries, k);
    if p != i {
        assert(entries[p].0@ != entries[i].0@);
    }
}

/// `k` is the key of one of the first `n` legacy accounts.
pub open spec fn is_legacy_key(legacy: Seq<(String, LegacyUserRecord)>, n: int, secret: Seq<u8>, k: Seq<char>) -> bool {
    exists|j: int| 0 <= j < n && k == user_key(secret, #[trigger] legacy[j].0@)
}

/// The display names of all accounts, in database order.
pub open spec fn display_names(entries: Seq<(String, UserRecord)>) -> Seq<Seq<char>> {
    entries.map_values(|e: (String, UserRecord)| e.1.display_name@)
}

// ---------------------------------------------------------------------
// Pure helpers
// ---------------------------------------------------------------------

/// Checks that a user name is acceptable for a new account.
pub fn validate_username(username: &str) -> (r: Result<(), String>)
    ensures
        username_problem(username@) matches Some(msg) ==> (r matches Err(e) && e@ == msg),
        username_problem(username@) is None ==> r is Ok,
{
    let cs = strs::chars_of(username);
    if cs.len() == 0 {
        return Err(owned("Username cannot be empty"));
    }
    if cs.len() > 32 {
        return Err(owned("Username must be at most 32 characters"));
    }
    for i in 0..cs.len()
        invariant
            cs@ == username@,
            0 < cs@.len() <= 32,
            forall|j: int| 0 <= j < i ==> is_username_char(#[trigger] cs@[j]),
    {
        let c = cs[i];
        if !(('a' <= c && c <= 'z') || ('A' <= c && c <= 'Z') || ('0' <= c && c <= '9') || c == '_'
            || c == '-') {
            assert(!is_username_char(username@[i as int]));
            assert(exists|j: int| 0 <= j < username@.len() && !is_username_char(#[trigger] username@[j]));
            return Err(owned("Username may only contain letters, digits, '_' and '-'"));
        }
    }
    Ok(())
}

/// The capabilities given to a new account with this role.
pub fn capabilities_for_role(role: &str) -> (caps: Vec<String>)
    ensures
        views(caps@) == caps_for(role@),
{
    let mut caps: Vec<String> = Vec::new();
    caps.push(owned("FsRead"));
    caps.push(owned("FsWrite"));
    if str_eq(role, "Administrator") {
        caps.push(owned("NetworkManage"));
        caps.push(owned("ServiceManage"));
        caps.push(owned("Admin"));
        caps.push(owned("DeviceAccess"));
    }
    assert(views(caps@) =~= caps_for(role@));
    caps
}

/// The directories to create for a new home directory `home`.
pub fn home_dirs(home: &str) -> (dirs: Vec<String>)
    ensures
        views(dirs@) == home_dir_list(home@),
{
    let mut dirs: Vec<String> = Vec::new();
    dirs.push(owned(home));
    dirs.push(strs::concat3(home, "/", "Desktop"));
    dirs.push(strs::concat3(home, "/", "Documents"));
    dirs.push(strs::concat3(home, "/", "Downloads"));
    dirs.push(strs::concat3(home, "/", "Pictures"));
    dirs.push(strs::concat3(home, "/", "Music"));
    dirs.push(strs::concat3(home, "/", "Videos"));
    dirs.push(strs::concat3(home, "/", "Config"));
    assert(views(dirs@) =~= home_dir_list(home@));
    dirs
}


fn error_step(msg: &str) -> (step: AuthStep)
    ensures
        is_error(step, msg@),
{
    AuthStep::Reply { response: AuthResponse::Error(owned(msg)), persist: false, remove_home: None }
}

fn reply_step(response: AuthResponse) -> (step: AuthStep)
    ensures
        is_plain_reply(step, response),
{
    AuthStep::Reply { response, persist: false, remove_home: None }
}

// ---------------------------------------------------------------------
// The service
// ---------------------------------------------------------------------

impl AuthService {
    pub closed spec fn entries(self) -> Seq<(String, UserRecord)> {
        self.users@
    }

    pub closed spec fn secret(self) -> Seq<u8> {
        self.system_secret@
    }

    pub closed spec fn pending(self) -> Option<AuthPending> {
        self.pending
    }

    /// The service's invariant: keys are unique, and an account waiting to
    /// be stored does not collide with a stored one.
    pub open spec fn wf(self) -> bool {
        &&& keys_unique(self.entries())
        &&& (self.pending() matches Some(AuthPending::StoreUser { record }) ==> !has_key(
            self.entries(),
            record.userid_hash@,
        ))
    }

    pub open spec fn awaits_admin_check(self) -> bool {
        self.pending() matches Some(p) && (p is CreateUser || p is DeleteUser || p is ListUsers)
    }

    pub open spec fn awaits_session_identity(self) -> bool {
        self.pending() matches Some(AuthPending::ConfirmDeletion { .. })
    }

    pub open spec fn awaits_home(self) -> bool {
        self.pending() matches Some(AuthPending::StoreUser { .. })
    }

    /// A service over the database loaded from disk: entries are inserted
    /// in order, a later entry replacing an earlier one with the same key.
    pub fn new(system_secret: Vec<u8>, users: Vec<(String, UserRecord)>) -> (s: Self)
        ensures
            s.wf(),
            s.secret() == system_secret@,
            s.pending() is None,
            forall|k: Seq<char>| has_key(s.entries(), k) <==> has_key(users@, k),
            forall|k: Seq<char>| #[trigger] record_of(s.entries(), k) == last_with_key(users@, k),
            s.entries().len() <= users@.len(),
    {
        let mut s = AuthService { users: Vec::new(), system_secret, pending: None };
        let mut users = users;
        let ghost all = users@;
        let ghost mut done: int = 0;
        while users.len() > 0
            invariant
                keys_unique(s.users@),
                s.pending is None,
                s.system_secret@ == system_secret@,
                0 <= done <= all.len(),
                users@ == all.subrange(done, all.len() as int),
                forall|k: Seq<char>| has_key(s.users@, k) <==> has_key(all.subrange(0, done), k),
                forall|k: Seq<char>| #[trigger] record_of(s.users@, k) == last_with_key(all.subrange(0, done), k),
                s.users@.len() <= done,
            decreases users@.len(),
        {
            let (k, rec) = users.remove(0);
            assert(all[done] == (k, rec));
            let ghost before = s.users@;
            s.insert_entry(k, rec);
            proof {
                let prev = all.subrange(0, done);
                let next = all.subrange(0, done + 1);
                assert(next.drop_last() =~= prev);
                assert(next.last() == all[done]);
                assert forall|key: Seq<char>| #[trigger] record_of(s.users@, key) == last_with_key(next, key) by {
                    assert(record_of(s.users@, key) == if key == all[done].0@ {
                        Some(all[done].1)
                    } else {
                        record_of(before, key)
                    });
                    assert(record_of(before, key) == last_with_key(prev, key));
                }
            }
            proof {
                let prev = all.subrange(0, done);
                let next = all.subrange(0, done + 1);
                assert forall|key: Seq<char>| has_key(next, key) <==> (has_key(prev, key) || key == all[done].0@) by {
                    if has_key(next, key) {
                        let j = choose|j: int| 0 <= j < next.len() && next[j].0@ == key;
                        if j < done {
                            assert(prev[j] == next[j]);
                        }
                    }
                    if has_key(prev, key) {
                        let j = choose|j: int| 0 <= j < prev.len() && prev[j].0@ == key;
                        assert(prev[j] == next[j]);
                    }
                    if key == all[done].0@ {
                        assert(next[done] == all[done]);
                    }
                }
                done = done + 1;
                assert(users@ =~= all.subrange(done, all.len() as int));
            }
        }
        assert(all.subrange(0, done) =~= all);
        s
    }

    /// Map insertion: replaces the entry with key `k`, or appends.
    fn insert_entry(&mut self, k: String, rec: UserRecord)
        requires
            keys_unique(old(self).users@),
        ensures
            keys_unique(final(self).users@),
            final(self).pending == old(self).pending,
            final(self).system_secret == old(self).system_secret,
            forall|key: Seq<char>| has_key(final(self).users@, key) <==> (has_key(old(self).users@, key) || key == k@),
            final(self).users@.len() <= old(self).users@.len() + 1,
            forall|key: Seq<char>| #[trigger] record_of(final(self).users@, key) == if key == k@ {
                Some(rec)
            } else {
                record_of(old(self).users@, key)
            },
    {
        match self.find_key(&k) {
            Some(i) => {
                let ghost before = self.users@;
                let ghost kv = k@;
                let ghost rv = rec;
                self.users[i] = (k, rec);
                assert forall|key: Seq<char>| has_key(self.users@, key) <==> (has_key(before, key) || key == self.users@[i as int].0@) by {
                    if has_key(before, key) {
                        let j = choose|j: int| 0 <= j < before.len() && before[j].0@ == key;
                        if j != i {
                            assert(self.users@[j] == before[j]);
                        }
                    }
                    if has_key(self.users@, key) {
                        let j = choose|j: int| 0 <= j < self.users@.len() && self.users@[j].0@ == key;
                        if j != i {
                            assert(self.users@[j] == before[j]);
                        }
                    }
                }
                assert(keys_unique(self.users@)) by {
                    assert forall|a: int, b: int|
                        0 <= a < self.users@.len() && 0 <= b < self.users@.len() && a != b implies
                        self.users@[a].0@ != self.users@[b].0@ by {
                        if a != i {
                            assert(self.users@[a] == before[a]);
                        }
                        if b != i {
                            assert(self.users@[b] == before[b]);
                        }
                    }
                }
                assert forall|key: Seq<char>| #[trigger] record_of(self.users@, key) == if key == kv {
                    Some(rv)
                } else {
                    record_of(before, key)
                } by {
                    if key == kv {
                        lemma_key_pos(self.users@, key, i as int);
                    } else if has_key(before, key) {
                        let p = key_pos(before, key);
                        assert(before[p].0@ == key);
                        assert(p != i);
                        assert(self.users@[p] == before[p]);
                        lemma_key_pos(self.users@, key, p);
                    }
                }
            },
            None => {
                let ghost before = self.users@;
                let ghost kv = k@;
                let ghost rv = rec;
                self.users.push((k, rec));
                assert forall|key: Seq<char>| has_key(self.users@, key) <==> (has_key(before, key) || key == self.users@[before.len() as int].0@) by {
                    if has_key(before, key) {
                        let j = choose|j: int| 0 <= j < before.len() && before[j].0@ == key;
                        assert(self.users@[j] == before[j]);
                    }
                    if has_key(self.users@, key) {
                        let j = choose|j: int| 0 <= j < self.users@.len() && self.users@[j].0@ == key;
                        if j < before.len() {
                            assert(self.users@[j] == before[j]);
                        }
                    }
                }
                assert(keys_unique(self.users@)) by {
                    assert forall|a: int, b: int|
                        0 <= a < self.users@.len() && 0 <= b < self.users@.len() && a != b implies
                        self.users@[a].0@ != self.users@[b].0@ by {
                        if a < before.len() && b < before.len() {
                            assert(self.users@[a] == before[a]);
                            assert(self.users@[b] == before[b]);
                        } else if a < before.len() {
                            assert(self.users@[a] == before[a]);
                            assert(!has_key(before, kv));
                        } else {
                            assert(self.users@[b] == before[b]);
                            assert(!has_key(before, kv));
                        }
                    }
                }
                assert forall|key: Seq<char>| #[trigger] record_of(self.users@, key) == if key == kv {
                    Some(rv)
                } else {
                    record_of(before, key)
                } by {
                    if key == kv {
                        lemma_key_pos(self.users@, key, before.len() as int);
                    } else if has_key(before, key) {
                        let p = key_pos(before, key);
                        assert(before[p].0@ == key);
                        assert(self.users@[p] == before[p]);
                        lemma_key_pos(self.users@, key, p);
                    }
                }
            },
        }
    }

    fn find_key(&self, k: &String) -> (r: Option<usize>)
        requires
            keys_unique(self.users@),
        ensures
            r matches Some(i) ==> i < self.users@.len() && self.users@[i as int].0@ == k@ && key_pos(
                self.users@,
                k@,
            ) == i,
            r is None ==> !has_key(self.users@, k@),
    {
        for i in 0..self.users.len()
            invariant
                keys_unique(self.users@),
                forall|j: int| 0 <= j < i ==> self.users@[j].0@ != k@,
        {
            if self.users[i].0 == *k {
                assert(has_key(self.users@, k@));
                let ghost p = key_pos(self.users@, k@);
                assert(self.users@[p].0@ == k@);
                assert(self.users@[i as int].0@ == k@);
                proof {
                    if p != i as int {
                        assert(self.users@[p].0@ != self.users@[i as int].0@);
                    }
                }
                return Some(i);
            }
        }
        None
    }

    fn find_internal_id(&self, id: &String) -> (r: Option<usize>)
        ensures
            r matches Some(i) ==> first_with_id(self.users@, id@, i as int),
            r is None ==> !has_id(self.users@, id@),
    {
        for i in 0..self.users.len()
            invariant
                forall|j: int| 0 <= j < i ==> self.users@[j].1.internal_id@ != id@,
        {
            if self.users[i].1.internal_id == *id {
                return Some(i);
            }
        }
        None
    }

    /// Whether the session manager's answer about a token shows an
    /// administrator's session: the answer must be a valid session whose role
    /// is "Administrator".
    pub fn validate_admin_token(&self, reply: Option<SessionResponse>) -> (admin: bool)
        ensures
            admin == (reply matches Some(SessionResponse::Valid { role, .. }) && role@ == "Administrator"@),
    {
        match reply {
            Some(SessionResponse::Valid { role, .. }) => str_eq(role.as_str(), "Administrator"),
            _ => false,
        }
    }

    /// The database key of a user name.
    pub fn key_of(&self, username: &str) -> (k: String)
        ensures
            k@ == user_key(self.secret(), username@),
            k@.len() == 64,
    {
        let tag = hmac_sha256(self.system_secret.as_slice(), username.as_bytes());
        proof {
            lemma_hex_len(tag@);
        }
        hex_encode(tag.as_slice())
    }

    /// Number of accounts.
    pub fn user_count(&self) -> (n: usize)
        ensures
            n == self.entries().len(),
    {
        self.users.len()
    }

    /// The accounts, for saving the database.
    pub fn users(&self) -> (u: &Vec<(String, UserRecord)>)
        ensures
            u@ == self.entries(),
    {
        &self.users
    }

    fn start_create(
        &mut self,
        username: String,
        password: String,
        display_name: String,
        role: String,
    ) -> (step: AuthStep)
        requires
            old(self).wf(),
        ensures
            final(self).wf(),
            final(self).entries() == old(self).entries(),
            final(self).secret() == old(self).secret(),
            create_started(old(self).entries(), old(self).secret(), username, password, display_name, role, step, final(self).pending()),
    {
        self.pending = None;
        if let Err(e) = validate_username(username.as_str()) {
            return AuthStep::Reply { response: AuthResponse::Error(e), persist: false, remove_home: None };
        }
        let k = self.key_of(username.as_str());
        if self.find_key(&k).is_some() {
            return error_step("User already exists");
        }
        let password_hash = match argon2_hash(password.as_str()) {
            Ok(h) => h,
            Err(e) => {
                let msg = strs::concat2("Failed to hash password: ", e.as_str());
                assert(msg@.subrange(0, "Failed to hash password: "@.len() as int) =~= "Failed to hash password: "@);
                return AuthStep::Reply { response: AuthResponse::Error(msg), persist: false, remove_home: None };
            },
        };
        let internal_id = new_uuid();
        let capabilities = capabilities_for_role(role.as_str());
        let home = user_home(internal_id.as_str());
        let dirs = home_dirs(home.as_str());
        let record = UserRecord {
            internal_id,
            userid_hash: k,
            display_name,
            password_hash,
            role,
            capabilities,
            state: owned("active"),
        };
        self.pending = Some(AuthPending::StoreUser { record });
        AuthStep::CreateHome { dirs }
    }

    /// Converts accounts of the legacy database into the current format and
    /// stores them: each gets a fresh internal ID and is keyed by the keyed
    /// hash of its user name. Returns, for each legacy account in order, the
    /// old home directory (named by the user name) and the new one (named by
    /// the internal ID), for the caller to move if the old one exists; the
    /// caller then saves the database.
    pub fn migrate_db(&mut self, legacy: Vec<(String, LegacyUserRecord)>) -> (moves: Vec<(String, String)>)
        requires
            old(self).wf(),
            old(self).pending() is None,
        ensures
            final(self).wf(),
            final(self).secret() == old(self).secret(),
            final(self).pending() is None,
            moves@.len() == legacy@.len(),
            forall|j: int| 0 <= j < legacy@.len() ==> #[trigger] moves@[j].0@ == home_of(legacy@[j].0@),
            forall|k: Seq<char>| has_key(final(self).entries(), k) <==> (has_key(old(self).entries(), k)
                || is_legacy_key(legacy@, legacy@.len() as int, old(self).secret(), k)),
            forall|j: int| 0 <= j < legacy@.len() ==> is_fresh_home(#[trigger] moves@[j].1@),
            forall|j: int| #![trigger legacy@[j]]
                0 <= j < legacy@.len() && last_legacy_with_key(legacy@, legacy@.len() as int, old(self).secret(), j)
                    ==> (record_of(final(self).entries(), user_key(old(self).secret(), legacy@[j].0@)) matches Some(r)
                    && migrated(r, legacy@[j].1, user_key(old(self).secret(), legacy@[j].0@))
                    && moves@[j].1@ == home_of(r.internal_id@)),
            forall|k: Seq<char>| !is_legacy_key(legacy@, legacy@.len() as int, old(self).secret(), k)
                ==> #[trigger] record_of(final(self).entries(), k) == record_of(old(self).entries(), k),
    {
        let mut legacy = legacy;
        let ghost all = legacy@;
        let ghost start = self.users@;
        let ghost mut done: int = 0;
        let ghost mut ids: Seq<Seq<char>> = Seq::empty();
        let ghost sec = self.system_secret@;
        let mut moves: Vec<(String, String)> = Vec::new();
        while legacy.len() > 0
            invariant
                sec == self.system_secret@,
                ids.len() == done,
                forall|j: int| 0 <= j < done ==> (#[trigger] ids[j]).len() == 36 && moves@[j].1@ == home_of(ids[j]),
                forall|j: int| #![trigger all[j]]
                    0 <= j < done && last_legacy_with_key(all, done, sec, j)
                        ==> (record_of(self.users@, user_key(sec, all[j].0@)) matches Some(r)
                        && migrated(r, all[j].1, user_key(sec, all[j].0@)) && r.internal_id@ == ids[j]),
                forall|k: Seq<char>| !is_legacy_key(all, done, sec, k)
                    ==> #[trigger] record_of(self.users@, k) == record_of(start, k),
                keys_unique(self.users@),
                self.system_secret@ == old(self).system_secret@,
                self.pending is None,
                self.system_secret@ == old(self).system_secret@,
                0 <= done <= all.len(),
                legacy@ == all.subrange(done, all.len() as int),
                moves@.len() == done,
                forall|j: int| 0 <= j < done ==> #[trigger] moves@[j].0@ == home_of(all[j].0@),
                forall|k: Seq<char>| has_key(self.users@, k) <==> (has_key(start, k) || is_legacy_key(all, done, self.system_secret@, k)),
            decreases legacy@.len(),
        {
            let ghost at_start = self.users@;
            assert(forall|k: Seq<char>| has_key(at_start, k) <==> (has_key(start, k) || is_legacy_key(all, done, self.system_secret@, k)));
            let (username, old_rec) = legacy.remove(0);
            assert(all[done] == (username, old_rec));
            let internal_id = new_uuid();
            let ghost id = internal_id@;
            let userid_hash = self.key_of(username.as_str());
            let old_home = strs::concat3(crate::paths::USERS_ROOT, "/", username.as_str());
            let new_home = user_home(internal_id.as_str());
            let record = UserRecord {
                internal_id,
                userid_hash: userid_hash.clone(),
                display_name: old_rec.display_name,
                password_hash: old_rec.password_hash,
                role: old_rec.role,
                capabilities: old_rec.capabilities,
                state: old_rec.state,
            };
            let ghost before = self.users@;
            assert(before == at_start);
            let ghost key = userid_hash@;
            let ghost rv = record;
            assert(migrated(rv, all[done].1, key));
            self.insert_entry(userid_hash, record);
            moves.push((old_home, new_home));
            proof {
                let ids2 = ids.push(id);
                assert forall|j: int| 0 <= j < done + 1 implies (#[trigger] ids2[j]).len() == 36 && moves@[j].1@ == home_of(ids2[j]) by {
                    if j < done {
                        assert(ids2[j] == ids[j]);
                    }
                }
                assert forall|j: int| #![trigger all[j]]
                    0 <= j < done + 1 && last_legacy_with_key(all, done + 1, sec, j)
                        implies (record_of(self.users@, user_key(sec, all[j].0@)) matches Some(r)
                        && migrated(r, all[j].1, user_key(sec, all[j].0@)) && r.internal_id@ == ids2[j]) by {
                    let kj = user_key(sec, all[j].0@);
                    assert(record_of(self.users@, kj) == if kj == key { Some(rv) } else { record_of(before, kj) });
                    if j < done {
                        assert(user_key(sec, all[done].0@) != kj);
                        assert(last_legacy_with_key(all, done, sec, j));
                        assert(ids2[j] == ids[j]);
                    } else {
                        assert(kj == key);
                    }
                }
                assert forall|k: Seq<char>| !is_legacy_key(all, done + 1, sec, k)
                    implies #[trigger] record_of(self.users@, k) == record_of(start, k) by {
                    assert(record_of(self.users@, k) == if k == key { Some(rv) } else { record_of(before, k) });
                    if k == key {
                        assert(0 <= done < done + 1 && k == user_key(sec, all[done].0@));
                    }
                    if is_legacy_key(all, done, sec, k) {
                        let j = choose|j: int| 0 <= j < done && k == user_key(sec, #[trigger] all[j].0@);
                        assert(0 <= j < done + 1 && k == user_key(sec, all[j].0@));
                    }
                }
                ids = ids2;
            }
            proof {
                assert forall|k: Seq<char>| has_key(self.users@, k) <==> (has_key(start, k) || is_legacy_key(all, done + 1, self.system_secret@, k)) by {
                    assert(key == user_key(self.system_secret@, all[done].0@));
                    assert(has_key(self.users@, k) <==> (has_key(before, k) || k == key));
                    assert(has_key(before, k) <==> (has_key(start, k) || is_legacy_key(all, done, self.system_secret@, k)));
                    if is_legacy_key(all, done + 1, self.system_secret@, k) {
                        let j = choose|j: int| 0 <= j < done + 1 && k == user_key(self.system_secret@, #[trigger] all[j].0@);
                        if j < done {
                            assert(is_legacy_key(all, done, self.system_secret@, k));
                        } else {
                            assert(k == key);
                        }
                    }
                    if is_legacy_key(all, done, self.system_secret@, k) {
                        let j = choose|j: int| 0 <= j < done && k == user_key(self.system_secret@, #[trigger] all[j].0@);
                        assert(0 <= j < done + 1 && k == user_key(self.system_secret@, all[j].0@));
                    }
                    if k == key {
                        assert(0 <= done < done + 1 && k == user_key(self.system_secret@, all[done].0@));
                    }
                }
                done = done + 1;
                assert(legacy@ =~= all.subrange(done, all.len() as int));
            }
        }
        proof {
            assert(done == all.len());
            assert forall|j: int| 0 <= j < all.len() implies is_fresh_home(#[trigger] moves@[j].1@) by {
                assert(ids[j].len() == 36 && moves@[j].1@ == home_of(ids[j]));
            }
            assert forall|j: int| #![trigger all[j]]
                0 <= j < all.len() && last_legacy_with_key(all, all.len() as int, sec, j)
                    implies (record_of(self.users@, user_key(sec, all[j].0@)) matches Some(r)
                    && migrated(r, all[j].1, user_key(sec, all[j].0@))
                    && moves@[j].1@ == home_of(r.internal_id@)) by {
                assert(ids[j].len() == 36 && moves@[j].1@ == home_of(ids[j]));
            }
        }
        moves
    }

    /// What the service is waiting for.
    pub fn awaiting(&self) -> (w: Awaiting)
        ensures
            w == Awaiting::AdminCheck <==> self.awaits_admin_check(),
            w == Awaiting::SessionIdentity <==> self.awaits_session_identity(),
            w == Awaiting::HomeCreation <==> self.awaits_home(),
            w == Awaiting::Nothing <==> self.pending() is None,
    {
        match &self.pending {
            None => Awaiting::Nothing,
            Some(AuthPending::CreateUser { .. }) => Awaiting::AdminCheck,
            Some(AuthPending::DeleteUser { .. }) => Awaiting::AdminCheck,
            Some(AuthPending::ListUsers) => Awaiting::AdminCheck,
            Some(AuthPending::ConfirmDeletion { .. }) => Awaiting::SessionIdentity,
            Some(AuthPending::StoreUser { .. }) => Awaiting::HomeCreation,
        }
    }

    fn mark_for_deletion(&mut self, internal_id: String) -> (step: AuthStep)
        requires
            keys_unique(old(self).users@),
        ensures
            keys_unique(final(self).users@),
            final(self).pending == old(self).pending,
            final(self).system_secret == old(self).system_secret,
            mark_outcome(old(self).users@, internal_id@, step, final(self).users@),
    {
        match self.find_internal_id(&internal_id) {
            Some(i) => {
                let ghost before = self.users@;
                let (key, mut rec) = self.users.remove(i);
                rec.state = owned("pending_deletion");
                self.users.insert(i, (key, rec));
                assert(self.users@ =~= before.update(i as int, self.users@[i as int]));
                assert forall|a: int, b: int|
                    0 <= a < self.users@.len() && 0 <= b < self.users@.len() && a != b implies
                    self.users@[a].0@ != self.users@[b].0@ by {
                    assert(self.users@[a].0 == before[a].0);
                    assert(self.users@[b].0 == before[b].0);
                }
                assert(first_with_id(before, internal_id@, i as int));
                AuthStep::Reply { response: AuthResponse::Success, persist: true, remove_home: None }
            },
            None => error_step("User not found"),
        }
    }

    /// Continues the waiting request with the session manager's verdict on
    /// whether the request's token is an administrator's.
    pub fn resume_admin_check(&mut self, is_admin: bool) -> (step: AuthStep)
        requires
            old(self).wf(),
            old(self).awaits_admin_check(),
        ensures
            final(self).wf(),
            final(self).secret() == old(self).secret(),
            !is_admin ==> is_error(step, "Permission denied: Administrator only"@) && final(self).pending() is None
                && final(self).entries() == old(self).entries(),
            is_admin ==> match old(self).pending() {
                Some(AuthPending::CreateUser { username, password, display_name, role }) =>
                    final(self).entries() == old(self).entries() && create_started(
                        old(self).entries(),
                        old(self).secret(),
                        username,
                        password,
                        display_name,
                        role,
                        step,
                        final(self).pending(),
                    ),
                Some(AuthPending::DeleteUser { internal_id }) => final(self).pending() is None
                    && mark_outcome(old(self).entries(), internal_id@, step, final(self).entries()),
                Some(AuthPending::ListUsers) => final(self).pending() is None && final(self).entries()
                    == old(self).entries() && (step matches AuthStep::Reply {
                    response: AuthResponse::UserList(names),
                    persist: false,
                    remove_home: None,
                } && views(names@) == display_names(old(self).entries())),
                _ => false,
            },
    {
        let pending = self.pending.take();
        if !is_admin {
            return error_step("Permission denied: Administrator only");
        }
        match pending {
            Some(AuthPending::CreateUser { username, password, display_name, role }) => {
                self.start_create(username, password, display_name, role)
            },
            Some(AuthPending::DeleteUser { internal_id }) => self.mark_for_deletion(internal_id),
            Some(AuthPending::ListUsers) => {
                let mut names: Vec<String> = Vec::new();
                for i in 0..self.users.len()
                    invariant
                        names@.len() == i,
                        forall|j: int| 0 <= j < i ==> names@[j]@ == self.users@[j].1.display_name@,
                {
                    names.push(self.users[i].1.display_name.clone());
                }
                assert(views(names@) =~= display_names(self.users@));
                reply_step(AuthResponse::UserList(names))
            },
            _ => error_step("Permission denied: Administrator only"),
        }
    }

    /// Continues a waiting deletion confirmation with the session manager's
    /// answer about the request's token.
    pub fn resume_session_identity(&mut self, lookup: SessionLookup) -> (step: AuthStep)
        requires
            old(self).wf(),
            old(self).awaits_session_identity(),
        ensures
            final(self).wf(),
            final(self).secret() == old(self).secret(),
            final(self).pending() is None,
            old(self).pending() matches Some(AuthPending::ConfirmDeletion { password }) && match lookup {
                SessionLookup::Unavailable => is_error(step, "Session service unavailable"@)
                    && final(self).entries() == old(self).entries(),
                SessionLookup::Invalid => is_error(step, "Invalid session"@) && final(self).entries()
                    == old(self).entries(),
                SessionLookup::Valid { internal_id } => confirm_outcome(
                    old(self).entries(),
                    internal_id@,
                    password@,
                    step,
                    final(self).entries(),
                ),
            },
    {
        let pending = self.pending.take();
        let password = match pending {
            Some(AuthPending::ConfirmDeletion { password }) => password,
            _ => {
                return error_step("Invalid session");
            },
        };
        let internal_id = match lookup {
            SessionLookup::Unavailable => {
                return error_step("Session service unavailable");
            },
            SessionLookup::Invalid => {
                return error_step("Invalid session");
            },
            SessionLookup::Valid { internal_id } => internal_id,
        };
        match self.find_internal_id(&internal_id) {
            None => error_step("User not found"),
            Some(i) => {
                assert(first_with_id(self.users@, internal_id@, i as int));
                if !str_eq(self.users[i].1.state.as_str(), "pending_deletion") {
                    return error_step("Deletion not pending for this account");
                }
                if !argon2_verify(password.as_str(), self.users[i].1.password_hash.as_str()) {
                    return error_step("Authentication failed.");
                }
                let ghost before = self.users@;
                let _ = self.users.remove(i);
                assert forall|a: int, b: int|
                    0 <= a < self.users@.len() && 0 <= b < self.users@.len() && a != b implies
                    self.users@[a].0@ != self.users@[b].0@ by {
                    let a0 = if a < i { a } else { a + 1 };
                    let b0 = if b < i { b } else { b + 1 };
                    assert(self.users@[a] == before[a0]);
                    assert(self.users@[b] == before[b0]);
                }
                let home = user_home(internal_id.as_str());
                AuthStep::Reply { response: AuthResponse::Success, persist: true, remove_home: Some(home) }
            },
        }
    }

    /// Finishes account creation once the home directory was (or could not
    /// be) created: on success the account is stored.
    pub fn resume_home_created(&mut self, created: Result<(), String>) -> (step: AuthStep)
        requires
            old(self).wf(),
            old(self).awaits_home(),
        ensures
            final(self).wf(),
            final(self).secret() == old(self).secret(),
            final(self).pending() is None,
            old(self).pending() matches Some(AuthPending::StoreUser { record }) && match created {
                Err(e) => final(self).entries() == old(self).entries() && (step matches AuthStep::Reply {
                    response: AuthResponse::Error(msg),
                    persist: false,
                    remove_home: None,
                } && msg@ == "Failed to create home directory: "@ + e@),
                Ok(_) => final(self).entries() == old(self).entries().push((record.userid_hash, record))
                    && step == AuthStep::Reply { response: AuthResponse::Success, persist: true, remove_home: None },
            },
    {
        let pending = self.pending.take();
        let record = match pending {
            Some(AuthPending::StoreUser { record }) => record,
            _ => {
                return error_step("Failed to create home directory: ");
            },
        };
        match created {
            Err(e) => {
                let msg = strs::concat2("Failed to create home directory: ", e.as_str());
                AuthStep::Reply { response: AuthResponse::Error(msg), persist: false, remove_home: None }
            },
            Ok(_) => {
                let ghost before = self.users@;
                let key = record.userid_hash.clone();
                self.users.push((key, record));
                assert forall|a: int, b: int|
                    0 <= a < self.users@.len() && 0 <= b < self.users@.len() && a != b implies
                    self.users@[a].0@ != self.users@[b].0@ by {
                    if a < before.len() && b < before.len() {
                        assert(self.users@[a] == before[a]);
                        assert(self.users@[b] == before[b]);
                    } else if a < before.len() {
                        assert(self.users@[a] == before[a]);
                    } else {
                        assert(self.users@[b] == before[b]);
                    }
                }
                AuthStep::Reply { response: AuthResponse::Success, persist: true, remove_home: None }
            },
        }
    }

    /// Handles one request. The session token of the request's header is
    /// `session_id`. A request that was still waiting is abandoned.
    pub fn handle_request(&mut self, request: AuthRequest, session_id: Option<String>) -> (step: AuthStep)
        requires
            old(self).wf(),
        ensures
            final(self).wf(),
            final(self).secret() == old(self).secret(),
            ({
                let entries = old(self).entries();
                let secret = old(self).secret();
                match request {
                    AuthRequest::Login { username, password } => {
                        &&& final(self).entries() == entries
                        &&& final(self).pending() is None
                        &&& match login_outcome(entries, secret, username@, password@) {
                            Some(rec) => step matches AuthStep::Reply { response, persist: false, remove_home: None }
                                && is_authenticated(response, rec, username@),
                            None => is_error(step, "Authentication failed."@),
                        }
                    },
                    AuthRequest::ChangePassword { username, old_password, new_password } => {
                        &&& final(self).pending() is None
                        &&& change_outcome(entries, secret, username@, old_password@, new_password@, step, final(self).entries())
                    },
                    AuthRequest::CreateUser { username, password, display_name, role } => {
                        &&& final(self).entries() == entries
                        &&& if entries.len() == 0 {
                            create_started(entries, secret, username, password, display_name, role, step, final(self).pending())
                        } else {
                            match session_id {
                                None => is_error(step, "Missing session token"@) && final(self).pending() is None,
                                Some(t) => step == AuthStep::CheckAdmin { token: t } && final(self).pending()
                                    == Some(AuthPending::CreateUser { username, password, display_name, role }),
                            }
                        }
                    },
                    AuthRequest::DeleteUser { internal_id } => {
                        &&& final(self).entries() == entries
                        &&& match session_id {
                            None => is_error(step, "Missing session token"@) && final(self).pending() is None,
                            Some(t) => step == AuthStep::CheckAdmin { token: t } && final(self).pending()
                                == Some(AuthPending::DeleteUser { internal_id }),
                        }
                    },
                    AuthRequest::ConfirmDeletion { password } => {
                        &&& final(self).entries() == entries
                        &&& match session_id {
                            None => is_error(step, "Missing session token"@) && final(self).pending() is None,
                            Some(t) => step == AuthStep::IdentifySession { token: t } && final(self).pending()
                                == Some(AuthPending::ConfirmDeletion { password }),
                        }
                    },
                    AuthRequest::ListUsers => {
                        &&& final(self).entries() == entries
                        &&& match session_id {
                            None => is_error(step, "Missing session token"@) && final(self).pending() is None,
                            Some(t) => step == AuthStep::CheckAdmin { token: t } && final(self).pending()
                                == Some(AuthPending::ListUsers),
                        }
                    },
                    AuthRequest::CountUsers => {
                        &&& final(self).entries() == entries
                        &&& final(self).pending() is None
                        &&& is_plain_reply(step, AuthResponse::UserCount(entries.len() as usize))
                    },
                }
            }),
    {
        self.pending = None;
        match request {
            AuthRequest::Login { username, password } => {
                let k = self.key_of(username.as_str());
                match self.find_key(&k) {
                    Some(i) => {
                        if argon2_verify(password.as_str(), self.users[i].1.password_hash.as_str()) {
                            let rec = &self.users[i].1;
                            reply_step(AuthResponse::Authenticated {
                                internal_id: rec.internal_id.clone(),
                                username,
                                display_name: rec.display_name.clone(),
                                role: rec.role.clone(),
                                capabilities: clone_strings(&rec.capabilities),
                            })
                        } else {
                            error_step("Authentication failed.")
                        }
                    },
                    None => error_step("Authentication failed."),
                }
            },
            AuthRequest::ChangePassword { username, old_password, new_password } => {
                let k = self.key_of(username.as_str());
                match self.find_key(&k) {
                    Some(i) => {
                        if argon2_verify(old_password.as_str(), self.users[i].1.password_hash.as_str()) {
                            let ghost before = self.users@;
                            let (key, mut rec) = self.users.remove(i);
                            match argon2_hash(new_password.as_str()) {
                                Ok(h) => {
                                    rec.password_hash = h;
                                },
                                Err(_) => {},
                            }
                            self.users.insert(i, (key, rec));
                            assert(self.users@ =~= before.update(i as int, self.users@[i as int]));
                            assert forall|j: int| 0 <= j < before.len() && j != i implies self.users@[j] == before[j] by {
                                if j < i {
                                } else {
                                }
                            }
                            assert forall|a: int, b: int|
                                0 <= a < self.users@.len() && 0 <= b < self.users@.len() && a != b implies
                                self.users@[a].0@ != self.users@[b].0@ by {
                                assert(self.users@[a].0 == before[a].0);
                                assert(self.users@[b].0 == before[b].0);
                            }
                            AuthStep::Reply { response: AuthResponse::Success, persist: true, remove_home: None }
                        } else {
                            error_step("Authentication failed.")
                        }
                    },
                    None => error_step("Authentication failed."),
                }
            },
            AuthRequest::CreateUser { username, password, display_name, role } => {
                if self.users.len() == 0 {
                    self.start_create(username, password, display_name, role)
                } else {
                    match session_id {
                        None => error_step("Missing session token"),
                        Some(t) => {
                            self.pending = Some(AuthPending::CreateUser { username, password, display_name, role });
                            AuthStep::CheckAdmin { token: t }
                        },
                    }
                }
            },
            AuthRequest::DeleteUser { internal_id } => {
                match session_id {
                    None => error_step("Missing session token"),
                    Some(t) => {
                        self.pending = Some(AuthPending::DeleteUser { internal_id });
                        AuthStep::CheckAdmin { token: t }
                    },
                }
            },
            AuthRequest::ConfirmDeletion { password } => {
                match session_id {
                    None => error_step("Missing session token"),
                    Some(t) => {
                        self.pending = Some(AuthPending::ConfirmDeletion { password });
                        AuthStep::IdentifySession { token: t }
                    },
                }
            },
            AuthRequest::ListUsers => {
                match session_id {
                    None => error_step("Missing session token"),
                    Some(t) => {
                        self.pending = Some(AuthPending::ListUsers);
                        AuthStep::CheckAdmin { token: t }
                    },
                }
            },
            AuthRequest::CountUsers => reply_step(AuthResponse::UserCount(self.users.len())),
        }
    }
}

// ---------------------------------------------------------------------
// Laws
// ---------------------------------------------------------------------

/// Hex encoding doubles the length.
proof fn lemma_hex_len(bytes: Seq<u8>)
    ensures
        hex_lower(bytes).len() == 2 * bytes.len(),
    decreases bytes.len(),
{
    if bytes.len() > 0 {
        lemma_hex_len(bytes.drop_first());
    }
}

/// Accounts are stored under the keyed hash of the user name, never under
/// the name itself: the key of an acceptable user name (at most 32
/// characters) has 64 hexadecimal digits, given the 32-byte HMAC-SHA256 tag.
pub proof fn lemma_key_hides_name(secret: Seq<u8>, username: Seq<char>)
    requires
        username_problem(username) is None,
        hmac_sha256_of(secret, encode_utf8(username)).len() == 32,
    ensures
        user_key(secret, username).len() == 64,
        user_key(secret, username) != username,
{
    lemma_hex_len(hmac_sha256_of(secret, encode_utf8(username)));
}

/// An account stored by a completed creation logs in with the user name and
/// password it was created with.
pub proof fn lemma_created_account_logs_in(
    entries: Seq<(String, UserRecord)>,
    secret: Seq<u8>,
    record: UserRecord,
    username: Seq<char>,
    password: Seq<char>,
)
    requires
        keys_unique(entries),
        !has_key(entries, record.userid_hash@),
        record.userid_hash@ == user_key(secret, username),
        argon2_verifies(password, record.password_hash@),
    ensures
        login_outcome(entries.push((record.userid_hash, record)), secret, username, password) == Some(record),
{
    let e2 = entries.push((record.userid_hash, record));
    let k = user_key(secret, username);
    assert(e2[entries.len() as int].0@ == k);
    assert(has_key(e2, k));
    let p = key_pos(e2, k);
    if p != entries.len() as int {
        assert(e2[p] == entries[p]);
        assert(has_key(entries, k));
    }
}

/// A user name without an account never logs in.
pub proof fn lemma_unknown_user_denied(
    entries: Seq<(String, UserRecord)>,
    secret: Seq<u8>,
    username: Seq<char>,
    password: Seq<char>,
)
    requires
        !has_key(entries, user_key(secret, username)),
    ensures
        login_outcome(entries, secret, username, password) is None,
{
}

/// A wrong password never logs in.
pub proof fn lemma_wrong_password_denied(
    entries: Seq<(String, UserRecord)>,
    secret: Seq<u8>,
    username: Seq<char>,
    password: Seq<char>,
)
    requires
        has_key(entries, user_key(secret, username)),
        !argon2_verifies(password, entries[key_pos(entries, user_key(secret, username))].1.password_hash@),
    ensures
        login_outcome(entries, secret, username, password) is None,
{
}

/// After a successful password change, the new password logs in to the
/// account; hashing can only fail for a new password of more than
/// `u32::MAX` bytes, and then the stored hash is unchanged and the old
/// password still logs in.
pub proof fn lemma_password_change_takes_effect(
    entries: Seq<(String, UserRecord)>,
    secret: Seq<u8>,
    username: Seq<char>,
    old_password: Seq<char>,
    new_password: Seq<char>,
    step: AuthStep,
    new_entries: Seq<(String, UserRecord)>,
)
    requires
        keys_unique(entries),
        change_outcome(entries, secret, username, old_password, new_password, step, new_entries),
        step matches AuthStep::Reply { response: AuthResponse::Success, .. },
    ensures
        login_outcome(new_entries, secret, username, new_password) is Some
            || login_outcome(new_entries, secret, username, old_password) is Some,
        new_password.len() * 4 <= u32::MAX ==> login_outcome(new_entries, secret, username, new_password) is Some,
{
    let k = user_key(secret, username);
    let i = key_pos(entries, k);
    assert(has_key(new_entries, k)) by {
        assert(new_entries[i].0@ == k);
    }
    let p = key_pos(new_entries, k);
    if p != i {
        assert(new_entries[p] == entries[p]);
        assert(entries[p].0@ == entries[i].0@);
    }
}

/// An account is only ever removed through a confirmation for an account
/// an administrator marked for deletion, with the account's own password.
pub proof fn lemma_deletion_needs_mark_and_password(
    entries: Seq<(String, UserRecord)>,
    id: Seq<char>,
    password: Seq<char>,
    step: AuthStep,
    new_entries: Seq<(String, UserRecord)>,
)
    requires
        confirm_outcome(entries, id, password, step, new_entries),
        new_entries != entries,
    ensures
        exists|i: int|
            #![trigger first_with_id(entries, id, i)]
            first_with_id(entries, id, i) && entries[i].1.state@ == "pending_deletion"@
                && argon2_verifies(password, entries[i].1.password_hash@) && new_entries == entries.remove(i),
{
}

/// Marking for deletion keeps every account (only the state changes), so
/// the number of accounts and their keys stay the same.
pub proof fn lemma_marking_keeps_accounts(
    entries: Seq<(String, UserRecord)>,
    id: Seq<char>,
    step: AuthStep,
    new_entries: Seq<(String, UserRecord)>,
    k: Seq<char>,
)
    requires
        mark_outcome(entries, id, step, new_entries),
    ensures
        new_entries.len() == entries.len(),
        has_key(new_entries, k) <==> has_key(entries, k),
{
    if has_key(entries, k) {
        let j = choose|j: int| 0 <= j < entries.len() && entries[j].0@ == k;
        if has_id(entries, id) {
            let i = choose|i: int| #![trigger first_with_id(entries, id, i)] first_with_id(entries, id, i) && new_entries[i].0 == entries[i].0 && forall|j: int| 0 <= j < entries.len() && j != i ==> new_entries[j] == entries[j];
            assert(new_entries[j].0@ == k);
        }
    }
    if has_key(new_entries, k) {
        let j = choose|j: int| 0 <= j < new_entries.len() && new_entries[j].0@ == k;
        if has_id(entries, id) {
            let i = choose|i: int| #![trigger first_with_id(entries, id, i)] first_with_id(entries, id, i) && new_entries[i].0 == entries[i].0 && forall|j: int| 0 <= j < entries.len() && j != i ==> new_entries[j] == entries[j];
            assert(entries[j].0@ == k);
        }
    }
}

/// Every account is stored under the keyed hash that the record itself
/// holds.
pub open spec fn keys_match(entries: Seq<(String, UserRecord)>) -> bool {
    forall|i: int| 0 <= i < entries.len() ==> (#[trigger] entries[i]).1.userid_hash@ == entries[i].0@
}

/// Keys stay equal to their records' hashes through every change the
/// service makes to the accounts: a password change, a mark for deletion,
/// a confirmed deletion, and storing a newly created account (which is
/// stored under its own hash, the keyed hash of the new user name).
pub proof fn lemma_changes_keep_keys(
    entries: Seq<(String, UserRecord)>,
    secret: Seq<u8>,
    username: Seq<char>,
    old_password: Seq<char>,
    new_password: Seq<char>,
    id: Seq<char>,
    step: AuthStep,
    new_entries: Seq<(String, UserRecord)>,
    record: UserRecord,
)
    requires
        keys_match(entries),
    ensures
        change_outcome(entries, secret, username, old_password, new_password, step, new_entries)
            ==> keys_match(new_entries),
        mark_outcome(entries, id, step, new_entries) ==> keys_match(new_entries),
        confirm_outcome(entries, id, old_password, step, new_entries) ==> keys_match(new_entries),
        keys_match(entries.push((record.userid_hash, record))),
{
    if change_outcome(entries, secret, username, old_password, new_password, step, new_entries) {
        let k = user_key(secret, username);
        if has_key(entries, k) && argon2_verifies(old_password, entries[key_pos(entries, k)].1.password_hash@) {
            let i = key_pos(entries, k);
            assert forall|j: int| 0 <= j < new_entries.len() implies (#[trigger] new_entries[j]).1.userid_hash@ == new_entries[j].0@ by {
                assert(entries[j].1.userid_hash@ == entries[j].0@);
            }
        }
    }
    if mark_outcome(entries, id, step, new_entries) && has_id(entries, id) {
        let i = choose|i: int| #![trigger first_with_id(entries, id, i)] first_with_id(entries, id, i) && {
            let old = entries[i].1;
            let new = new_entries[i].1;
            &&& step == AuthStep::Reply { response: AuthResponse::Success, persist: true, remove_home: None }
            &&& new_entries.len() == entries.len()
            &&& forall|j: int| 0 <= j < entries.len() && j != i ==> new_entries[j] == entries[j]
            &&& new_entries[i].0 == entries[i].0
            &&& new.internal_id == old.internal_id && new.userid_hash == old.userid_hash
            &&& new.display_name == old.display_name && new.role == old.role
            &&& new.capabilities == old.capabilities && new.password_hash == old.password_hash
            &&& new.state@ == "pending_deletion"@
        };
        assert forall|j: int| 0 <= j < new_entries.len() implies (#[trigger] new_entries[j]).1.userid_hash@ == new_entries[j].0@ by {
            assert(entries[j].1.userid_hash@ == entries[j].0@);
        }
    }
    if confirm_outcome(entries, id, old_password, step, new_entries) {
        assert forall|j: int| 0 <= j < new_entries.len() implies (#[trigger] new_entries[j]).1.userid_hash@ == new_entries[j].0@ by {
            if new_entries != entries {
                let i = choose|i: int| #![trigger first_with_id(entries, id, i)] first_with_id(entries, id, i)
                    && new_entries == entries.remove(i);
                let j2 = if j < i { j } else { j + 1 };
                assert(new_entries[j] == entries[j2]);
                assert(entries[j2].1.userid_hash@ == entries[j2].0@);
            } else {
                assert(entries[j].1.userid_hash@ == entries[j].0@);
            }
        }
    }
    let pushed = entries.push((record.userid_hash, record));
    assert forall|j: int| 0 <= j < pushed.len() implies (#[trigger] pushed[j]).1.userid_hash@ == pushed[j].0@ by {
        if j < entries.len() {
            assert(pushed[j] == entries[j]);
        }
    }
}

/// A user name is never stored. The record that creating an account with an
/// acceptable name prepares, and then stores under its own keyed hash, holds
/// the name neither as that key, nor as its internal ID, nor as its password
/// hash: the key has 64 hexadecimal digits and the ID 36 characters, where
/// the name has at most 32, and the hash starts with `$`, which no
/// acceptable name holds.
pub proof fn lemma_new_record_hides_name(
    entries: Seq<(String, UserRecord)>,
    secret: Seq<u8>,
    username: String,
    password: String,
    display_name: String,
    role: String,
    step: AuthStep,
    pending: Option<AuthPending>,
)
    requires
        create_started(entries, secret, username, password, display_name, role, step, pending),
    ensures
        pending matches Some(AuthPending::StoreUser { record }) ==> {
            &&& record.userid_hash@ != username@
            &&& record.internal_id@ != username@
            &&& record.password_hash@ != username@
        },
{
    if pending is Some {
        let u = username@;
        assert(username_problem(u) is None);
        assert(0 < u.len() <= 32);
        assert(is_username_char(u[0]));
    }
}

/// What an account may do follows its role. An account created as
/// "Administrator" holds all six capabilities: file reading and writing,
/// network management, service management, administration and device
/// access, in that order; any other account holds exactly file reading
/// and writing. So only administrators ever hold "Admin", and an
/// administrator holds every capability an ordinary account holds.
pub proof fn lemma_role_capabilities(
    entries: Seq<(String, UserRecord)>,
    secret: Seq<u8>,
    username: String,
    password: String,
    display_name: String,
    role: String,
    step: AuthStep,
    pending: Option<AuthPending>,
)
    requires
        create_started(entries, secret, username, password, display_name, role, step, pending),
    ensures
        pending matches Some(AuthPending::StoreUser { record }) ==> {
            &&& role@ == "Administrator"@ ==> views(record.capabilities@) == seq![
                "FsRead"@,
                "FsWrite"@,
                "NetworkManage"@,
                "ServiceManage"@,
                "Admin"@,
                "DeviceAccess"@,
            ]
            &&& role@ != "Administrator"@ ==> views(record.capabilities@) == seq!["FsRead"@, "FsWrite"@]
            &&& views(record.capabilities@).contains("Admin"@) <==> role@ == "Administrator"@
        },
        caps_for("Administrator"@).contains("Admin"@),
        forall|c: Seq<char>, r: Seq<char>| #[trigger] caps_for(r).contains(c) ==> caps_for("Administrator"@).contains(c),
{
    reveal_strlit("Admin");
    reveal_strlit("FsRead");
    reveal_strlit("FsWrite");
    let admin = caps_for("Administrator"@);
    assert(admin[4] == "Admin"@);
    assert forall|c: Seq<char>, r: Seq<char>| #[trigger] caps_for(r).contains(c) implies admin.contains(c) by {
        let k = choose|k: int| 0 <= k < caps_for(r).len() && caps_for(r)[k] == c;
        if r != "Administrator"@ {
            assert(admin[k] == caps_for(r)[k]);
        } else {
            assert(admin[k] == c);
        }
    }
    if pending matches Some(AuthPending::StoreUser { .. }) {
        let caps = views(pending->0->StoreUser_record.capabilities@);
        if role@ != "Administrator"@ {
            assert(caps == seq!["FsRead"@, "FsWrite"@]);
            if caps.contains("Admin"@) {
                let k = choose|k: int| 0 <= k < caps.len() && caps[k] == "Admin"@;
                assert(k == 0 || k == 1);
                assert("FsRead"@ != "Admin"@) by {
                    assert("FsRead"@[0] != "Admin"@[0]);
                }
                assert("FsWrite"@ != "Admin"@) by {
                    assert("FsWrite"@[0] != "Admin"@[0]);
                }
            }
        } else {
            assert(caps[4] == "Admin"@);
        }
    }
}

/// A user name is accepted exactly when it has between 1 and 32
/// characters, each an ASCII letter, a digit, `_` or `-`; appending an
/// accepted character to an accepted name shorter than 32 characters keeps
/// it accepted, and a name holding any other character (a space, `/`,
/// `.`, `$`) is refused.
pub proof fn lemma_username_rule(u: Seq<char>, c: char)
    ensures
        username_problem(u) is None <==> (1 <= u.len() <= 32 && forall|i: int| 0 <= i < u.len() ==> {
            let x = #[trigger] u[i];
            ('a' <= x <= 'z') || ('A' <= x <= 'Z') || ('0' <= x <= '9') || x == '_' || x == '-'
        }),
        username_problem(u) is None && u.len() < 32
            && (('a' <= c <= 'z') || ('A' <= c <= 'Z') || ('0' <= c <= '9') || c == '_' || c == '-')
            ==> username_problem(u.push(c)) is None,
        (c == ' ' || c == '/' || c == '.' || c == '$') && u.contains(c) ==> username_problem(u) is Some,
{
    if username_problem(u) is None && u.len() < 32
        && (('a' <= c <= 'z') || ('A' <= c <= 'Z') || ('0' <= c <= '9') || c == '_' || c == '-') {
        let v = u.push(c);
        assert forall|i: int| 0 <= i < v.len() implies is_username_char(#[trigger] v[i]) by {
            if i < u.len() {
                assert(v[i] == u[i]);
                assert(is_username_char(u[i]));
            }
        }
    }
    if (c == ' ' || c == '/' || c == '.' || c == '$') && u.contains(c) {
        let k = choose|k: int| 0 <= k < u.len() && u[k] == c;
        assert(!is_username_char(u[k]));
    }
    if 1 <= u.len() <= 32 && forall|i: int| 0 <= i < u.len() ==> {
        let x = #[trigger] u[i];
        ('a' <= x <= 'z') || ('A' <= x <= 'Z') || ('0' <= x <= '9') || x == '_' || x == '-'
    } {
        assert forall|i: int| 0 <= i < u.len() implies is_username_char(#[trigger] u[i]) by {}
    }
}

} // verus!
