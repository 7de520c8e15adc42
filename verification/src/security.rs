//! The security manager: role-based capabilities and the path policy that
//! decides which filesystem operations a session may perform.
use vstd::prelude::*;

use crate::crypto::{ed25519_accepts, ed25519_verify};
use crate::ipc::{SecurityRequest, SecurityResponse, SessionResponse};
use crate::strs::{self, contains, ends_with, has_infix, has_prefix, has_suffix, occurs_at, owned, starts_with, str_eq};

verus! {

#[derive(Debug, Clone, Copy, PartialEq, Eq, Structural)]
pub enum Capability {
    FsRead,
    FsWrite,
    NetworkManage,
    ServiceManage,
    Admin,
    DeviceAccess,
}

/// Role-based access control: the capabilities of each role.
pub struct SecurityManager {
    pub role_capabilities: Vec<(String, Vec<Capability>)>,
}

/// The capability an operation needs, if any.
pub open spec fn needed_capability(operation: Seq<char>) -> Option<Capability> {
    if operation == "read"@ || operation == "ls"@ {
        Some(Capability::FsRead)
    } else if operation == "write"@ || operation == "mkdir"@ || operation == "touch"@ {
        Some(Capability::FsWrite)
    } else {
        None
    }
}

/// The role a user name acts in.
pub open spec fn role_of(username: Seq<char>) -> Seq<char> {
    if username == "root"@ { "root"@ } else { "user"@ }
}

/// The capabilities recorded for `role` (the first entry for the role).
pub open spec fn role_caps(table: Seq<(String, Vec<Capability>)>, role: Seq<char>) -> Option<Seq<Capability>>
    decreases table.len(),
{
    if table.len() == 0 {
        None
    } else if table[0].0@ == role {
        Some(table[0].1@)
    } else {
        role_caps(table.drop_first(), role)
    }
}

pub open spec fn spec_has_capability(table: Seq<(String, Vec<Capability>)>, username: Seq<char>, cap: Capability) -> bool {
    role_caps(table, role_of(username)) matches Some(caps) && caps.contains(cap)
}

/// The shared system locations an ordinary user may reach.
pub open spec fn in_shared_area(path: Seq<char>) -> bool {
    ||| has_prefix(path, "/tmp"@)
    ||| has_prefix(path, "/bin"@)
    ||| has_prefix(path, "/usr"@)
    ||| has_prefix(path, "/etc"@)
    ||| has_prefix(path, "/run"@)
    ||| has_prefix(path, "/proc"@)
    ||| has_prefix(path, "/sys"@)
    ||| has_prefix(path, "/dev"@)
}

/// The home of an ordinary user as the policy sees it.
pub open spec fn policy_home(username: Seq<char>) -> Seq<char> {
    "/users/"@ + username
}

/// `path` is the directory `dir` itself or lies below it.
pub open spec fn is_under(path: Seq<char>, dir: Seq<char>) -> bool {
    path == dir || has_prefix(path, dir + "/"@)
}

/// Operations that change the filesystem.
pub open spec fn is_write_operation(operation: Seq<char>) -> bool {
    operation == "write"@ || operation == "mkdir"@ || operation == "touch"@
}

/// An absolute path spelled without `.`, `..` or empty components (a
/// trailing `/` aside): it names the place its text reads.
pub open spec fn is_plain_absolute(path: Seq<char>) -> bool {
    &&& has_prefix(path, "/"@)
    &&& !has_infix(path, ".."@)
    &&& !has_infix(path, "//"@)
    &&& !has_infix(path, "/./"@)
    &&& !has_suffix(path, "/."@)
}

/// The path policy. The administrator reaches only plain absolute paths,
/// never the user area, and never changes the operating system tree
/// `/ayux`; an ordinary user reaches only its own home and the shared
/// system areas. Paths holding ".." are refused to everyone, so no prefix
/// test can be walked around.
pub open spec fn path_allowed(username: Seq<char>, operation: Seq<char>, path: Seq<char>) -> bool {
    if username == "root"@ {
        &&& is_plain_absolute(path)
        &&& !has_prefix(path, "/users/"@)
        &&& !(is_write_operation(operation) && is_under(path, "/ayux"@))
    } else {
        let home = policy_home(username);
        &&& !username.contains('/')
        &&& (is_under(path, home) || in_shared_area(path))
        &&& !has_infix(path, ".."@)
        &&& !has_prefix(path, "/main"@)
        &&& !has_prefix(path, "/root"@)
        &&& !(has_prefix(path, "/users/"@) && !is_under(path, home))
    }
}

/// Whether `username` may perform `operation` on `path`.
pub open spec fn spec_is_allowed(
    table: Seq<(String, Vec<Capability>)>,
    username: Seq<char>,
    operation: Seq<char>,
    path: Seq<char>,
) -> bool {
    &&& (needed_capability(operation) matches Some(c) ==> spec_has_capability(table, username, c))
    &&& path_allowed(username, operation, path)
}

/// The operation name and path a request is checked under.
pub open spec fn request_target(request: SecurityRequest) -> (Seq<char>, Seq<char>) {
    match request {
        SecurityRequest::Authorize { operation, path } => (operation@, path@),
        SecurityRequest::FsLs { path } => ("ls"@, path@),
        SecurityRequest::FsRead { path } => ("read"@, path@),
        SecurityRequest::FsWrite { path, .. } => ("write"@, path@),
        SecurityRequest::FsMkdir { path } => ("mkdir"@, path@),
        SecurityRequest::FsTouch { path } => ("touch"@, path@),
        SecurityRequest::PowerReboot => ("reboot"@, Seq::empty()),
        SecurityRequest::PowerShutdown => ("shutdown"@, Seq::empty()),
    }
}

/// What the security manager has to do next for a request.
#[derive(Debug)]
pub enum SecurityStep {
    /// Answer with this response.
    Reply(SecurityResponse),
    /// Ask the session manager who owns `token`, then call `decide`.
    ValidateSession { token: String },
}

/// The decision on a request whose session is known.
#[derive(Debug)]
pub enum SecurityDecision {
    /// Answer with this response.
    Reply(SecurityResponse),
    /// Perform the operation and answer with its result.
    List { path: String },
    Read { path: String },
    Write { path: String, content: Vec<u8> },
    Mkdir { path: String },
    Touch { path: String },
    Reboot,
    Shutdown,
}

/// The operation name and path a request is checked under.
pub fn target_of(request: &SecurityRequest) -> (r: (String, String))
    ensures
        (r.0@, r.1@) == request_target(*request),
{
    match request {
        SecurityRequest::Authorize { operation, path } => (operation.clone(), path.clone()),
        SecurityRequest::FsLs { path } => (owned("ls"), path.clone()),
        SecurityRequest::FsRead { path } => (owned("read"), path.clone()),
        SecurityRequest::FsWrite { path, .. } => (owned("write"), path.clone()),
        SecurityRequest::FsMkdir { path } => (owned("mkdir"), path.clone()),
        SecurityRequest::FsTouch { path } => (owned("touch"), path.clone()),
        SecurityRequest::PowerReboot => (owned("reboot"), String::new()),
        SecurityRequest::PowerShutdown => (owned("shutdown"), String::new()),
    }
}

fn caps_contain(caps: &Vec<Capability>, cap: Capability) -> (r: bool)
    ensures
        r == caps@.contains(cap),
{
    for i in 0..caps.len()
        invariant
            forall|j: int| 0 <= j < i ==> caps@[j] != cap,
    {
        if caps[i] == cap {
            assert(caps@[i as int] == cap);
            return true;
        }
    }
    false
}

impl SecurityManager {
    /// The standard roles: "root" holds every capability, "user" may read
    /// and write files.
    pub fn new() -> (m: Self)
        ensures
            m.role_capabilities@.len() == 2,
            m.role_capabilities@[0].0@ == "root"@,
            m.role_capabilities@[0].1@ == seq![
                Capability::FsRead,
                Capability::FsWrite,
                Capability::NetworkManage,
                Capability::ServiceManage,
                Capability::Admin,
                Capability::DeviceAccess,
            ],
            m.role_capabilities@[1].0@ == "user"@,
            m.role_capabilities@[1].1@ == seq![Capability::FsRead, Capability::FsWrite],
    {
        let mut root_caps: Vec<Capability> = Vec::new();
        root_caps.push(Capability::FsRead);
        root_caps.push(Capability::FsWrite);
        root_caps.push(Capability::NetworkManage);
        root_caps.push(Capability::ServiceManage);
        root_caps.push(Capability::Admin);
        root_caps.push(Capability::DeviceAccess);
        let mut user_caps: Vec<Capability> = Vec::new();
        user_caps.push(Capability::FsRead);
        user_caps.push(Capability::FsWrite);
        let mut role_capabilities: Vec<(String, Vec<Capability>)> = Vec::new();
        role_capabilities.push((owned("root"), root_caps));
        role_capabilities.push((owned("user"), user_caps));
        assert(role_capabilities@[0].1@ =~= seq![
            Capability::FsRead,
            Capability::FsWrite,
            Capability::NetworkManage,
            Capability::ServiceManage,
            Capability::Admin,
            Capability::DeviceAccess,
        ]);
        assert(role_capabilities@[1].1@ =~= seq![Capability::FsRead, Capability::FsWrite]);
        SecurityManager { role_capabilities }
    }

    /// Interprets the session manager's answer about a token: the user name
    /// of a valid session.
    pub fn validate_session(&self, reply: Option<SessionResponse>) -> (user: Option<String>)
        ensures
            match reply {
                Some(SessionResponse::Valid { username, .. }) => user == Some(username),
                _ => user is None,
            },
    {
        match reply {
            Some(SessionResponse::Valid { username, .. }) => Some(username),
            _ => None,
        }
    }

    pub fn has_capability(&self, username: &str, cap: Capability) -> (r: bool)
        ensures
            r == spec_has_capability(self.role_capabilities@, username@, cap),
    {
        let role = if str_eq(username, "root") { "root" } else { "user" };
        let ghost role_v = role_of(username@);
        assert(role@ == role_v);
        let ghost table = self.role_capabilities@;
        assert(table.subrange(0, table.len() as int) =~= table);
        for i in 0..self.role_capabilities.len()
            invariant
                table == self.role_capabilities@,
                role@ == role_v,
                role_v == role_of(username@),
                role_caps(table, role_v) == role_caps(table.subrange(i as int, table.len() as int), role_v),
        {
            let ghost rest = table.subrange(i as int, table.len() as int);
            assert(rest[0] == table[i as int]);
            assert(rest.drop_first() =~= table.subrange(i + 1, table.len() as int));
            if str_eq(self.role_capabilities[i].0.as_str(), role) {
                assert(role_caps(rest, role_v) == Some(rest[0].1@));
                assert(role_caps(table, role_of(username@)) == Some(table[i as int].1@));
                let r = caps_contain(&self.role_capabilities[i].1, cap);
                assert(r == table[i as int].1@.contains(cap));
                return r;
            }
            assert(role_caps(rest, role_v) == role_caps(rest.drop_first(), role_v));
        }
        assert(table.subrange(table.len() as int, table.len() as int).len() == 0);
        false
    }

    pub fn is_allowed(&self, username: &str, operation: &str, path: &str) -> (r: bool)
        ensures
            r == spec_is_allowed(self.role_capabilities@, username@, operation@, path@),
    {
        if str_eq(operation, "read") || str_eq(operation, "ls") {
            if !self.has_capability(username, Capability::FsRead) {
                return false;
            }
        } else if str_eq(operation, "write") || str_eq(operation, "mkdir") || str_eq(operation, "touch") {
            if !self.has_capability(username, Capability::FsWrite) {
                return false;
            }
        }
        let is_write = str_eq(operation, "write") || str_eq(operation, "mkdir") || str_eq(operation, "touch");
        if str_eq(username, "root") {
            if !starts_with(path, "/") || contains(path, "..") || contains(path, "//") || contains(path, "/./")
                || ends_with(path, "/.") || starts_with(path, "/users/") {
                return false;
            }
            proof {
                reveal_strlit("/ayux");
                reveal_strlit("/ayux/");
                reveal_strlit("/");
                assert("/ayux"@ + "/"@ =~= "/ayux/"@);
            }
            return !(is_write && (str_eq(path, "/ayux") || starts_with(path, "/ayux/")));
        }
        if contains(username, "/") {
            proof {
                reveal_strlit("/");
                let k = choose|k: int| occurs_at(username@, "/"@, k);
                assert(username@.subrange(k, k + 1)[0] == '/');
                assert(username@[k] == '/');
            }
            return false;
        }
        proof {
            if username@.contains('/') {
                reveal_strlit("/");
                let k = choose|k: int| 0 <= k < username@.len() && username@[k] == '/';
                assert(username@.subrange(k, k + 1) =~= "/"@);
                assert(occurs_at(username@, "/"@, k));
            }
        }
        let user_home = strs::concat2("/users/", username);
        let home_dir = strs::concat3("/users/", username, "/");
        assert(home_dir@ =~= user_home@ + "/"@);
        let in_home = str_eq(path, user_home.as_str()) || starts_with(path, home_dir.as_str());
        if in_home || starts_with(path, "/tmp") || starts_with(path, "/bin")
            || starts_with(path, "/usr") || starts_with(path, "/etc") || starts_with(path, "/run")
            || starts_with(path, "/proc") || starts_with(path, "/sys") || starts_with(path, "/dev") {
            if contains(path, "..") {
                return false;
            }
            if starts_with(path, "/main") || starts_with(path, "/root") {
                return false;
            }
            if starts_with(path, "/users/") && !in_home {
                return false;
            }
            return true;
        }
        false
    }

    /// Checks a 32-byte Ed25519 public key and a 64-byte signature of
    /// `message`; keys or signatures of any other length are refused.
    pub fn verify_signature(&self, public_key_bytes: &[u8], message: &[u8], signature_bytes: &[u8]) -> (ok: bool)
        ensures
            ok == (public_key_bytes@.len() == 32 && signature_bytes@.len() == 64 && ed25519_accepts(
                public_key_bytes@,
                message@,
                signature_bytes@,
            )),
    {
        if public_key_bytes.len() != 32 || signature_bytes.len() != 64 {
            return false;
        }
        let mut pk = [0u8; 32];
        for i in 0..32
            invariant
                public_key_bytes@.len() == 32,
                forall|j: int| 0 <= j < i ==> pk@[j] == public_key_bytes@[j],
        {
            pk[i] = public_key_bytes[i];
        }
        let mut sig = [0u8; 64];
        for i in 0..64
            invariant
                signature_bytes@.len() == 64,
                forall|j: int| 0 <= j < i ==> sig@[j] == signature_bytes@[j],
        {
            sig[i] = signature_bytes[i];
        }
        assert(pk@ =~= public_key_bytes@);
        assert(sig@ =~= signature_bytes@);
        ed25519_verify(&pk, message, &sig)
    }

    /// First step of a request: a request without a session token is
    /// denied, otherwise the token's owner must be looked up.
    pub fn handle_request(&self, session_id: &Option<String>, request: &SecurityRequest) -> (step: SecurityStep)
        ensures
            match session_id {
                None => step matches SecurityStep::Reply(SecurityResponse::Denied(m)) && m@ == "Missing session token"@,
                Some(t) => step == SecurityStep::ValidateSession { token: *t },
            },
    {
        match session_id {
            None => SecurityStep::Reply(SecurityResponse::Denied(owned("Missing session token"))),
            Some(t) => SecurityStep::ValidateSession { token: t.clone() },
        }
    }

    /// Second step: the decision once the session's user (if the session
    /// is valid) is known.
    pub fn decide(&self, request: SecurityRequest, session_user: Option<String>) -> (d: SecurityDecision)
        ensures
            ({
                let (op, path) = request_target(request);
                match session_user {
                    None => d matches SecurityDecision::Reply(SecurityResponse::Denied(m)) && m@ == "Invalid session"@,
                    Some(u) => if !spec_is_allowed(self.role_capabilities@, u@, op, path) {
                        d matches SecurityDecision::Reply(SecurityResponse::Denied(m))
                            && m@ == "Permission denied for "@ + op + " on "@ + path
                    } else {
                        match request {
                            SecurityRequest::Authorize { .. } => d == SecurityDecision::Reply(SecurityResponse::Allowed),
                            SecurityRequest::FsLs { path } => d == SecurityDecision::List { path },
                            SecurityRequest::FsRead { path } => d == SecurityDecision::Read { path },
                            SecurityRequest::FsWrite { path, content } => d == SecurityDecision::Write { path, content },
                            SecurityRequest::FsMkdir { path } => d == SecurityDecision::Mkdir { path },
                            SecurityRequest::FsTouch { path } => d == SecurityDecision::Touch { path },
                            SecurityRequest::PowerReboot => d == SecurityDecision::Reboot,
                            SecurityRequest::PowerShutdown => d == SecurityDecision::Shutdown,
                        }
                    },
                }
            }),
    {
        let (op, path) = target_of(&request);
        let user = match session_user {
            None => {
                return SecurityDecision::Reply(SecurityResponse::Denied(owned("Invalid session")));
            },
            Some(u) => u,
        };
        if !self.is_allowed(user.as_str(), op.as_str(), path.as_str()) {
            let mut m = strs::concat3("Permission denied for ", op.as_str(), " on ");
            m.append(path.as_str());
            return SecurityDecision::Reply(SecurityResponse::Denied(m));
        }
        match request {
            SecurityRequest::Authorize { .. } => SecurityDecision::Reply(SecurityResponse::Allowed),
            SecurityRequest::FsLs { path } => SecurityDecision::List { path },
            SecurityRequest::FsRead { path } => SecurityDecision::Read { path },
            SecurityRequest::FsWrite { path, content } => SecurityDecision::Write { path, content },
            SecurityRequest::FsMkdir { path } => SecurityDecision::Mkdir { path },
            SecurityRequest::FsTouch { path } => SecurityDecision::Touch { path },
            SecurityRequest::PowerReboot => SecurityDecision::Reboot,
            SecurityRequest::PowerShutdown => SecurityDecision::Shutdown,
        }
    }
}

proof fn lemma_prefix_char(s: Seq<char>, p: Seq<char>, i: int)
    requires
        has_prefix(s, p),
        0 <= i < p.len(),
    ensures
        s[i] == p[i],
{
    assert(s.subrange(0, p.len() as int)[i] == s[i]);
}

/// The path policy keeps users apart. An ordinary user is only granted its
/// own home and what lies below it, or the shared system areas; never a
/// path holding "..", never the administrator's workspace, and never the
/// directory of another user or anything inside it. The administrator is
/// only granted plain absolute paths (no `.`, `..` or empty components), so
/// a path it is granted names the place its text reads; never one in the
/// user area; and it never changes anything under `/ayux`.
pub proof fn lemma_path_policy(
    table: Seq<(String, Vec<Capability>)>,
    username: Seq<char>,
    operation: Seq<char>,
    path: Seq<char>,
    other: Seq<char>,
)
    requires
        spec_is_allowed(table, username, operation, path),
    ensures
        username == "root"@ ==> {
            &&& is_plain_absolute(path)
            &&& !has_prefix(path, "/users/"@)
            &&& !has_infix(path, ".."@)
            &&& is_write_operation(operation) ==> !is_under(path, "/ayux"@)
        },
        username != "root"@ ==> {
            &&& is_under(path, policy_home(username)) || in_shared_area(path)
            &&& !has_infix(path, ".."@)
            &&& !has_prefix(path, "/root"@)
        },
        username != "root"@ && other.len() > 0 && !other.contains('/') && is_under(path, "/users/"@ + other)
            ==> other == username,
{
    if username != "root"@ && other.len() > 0 && !other.contains('/') && is_under(path, "/users/"@ + other) {
        let d = "/users/"@ + other;
        let h = "/users/"@ + username;
        reveal_strlit("/users/");
        reveal_strlit("/");
        let a: int = other.len() as int;
        let b: int = username.len() as int;
        // The path lies in the user area.
        if path == d {
            assert(path.subrange(0, 7) =~= "/users/"@);
        } else {
            assert forall|i: int| 0 <= i < 7 implies path[i] == "/users/"@[i] by {
                lemma_prefix_char(path, d + "/"@, i);
            }
            assert(path.subrange(0, 7) =~= "/users/"@);
        }
        assert(has_prefix(path, "/users/"@));
        assert(is_under(path, h));
        // path[7 + i] is other[i] for i < a, and '/' at 7 + a when the path
        // goes on below `d`; likewise for `h` and the user's name.
        assert forall|i: int| 0 <= i < a implies path[7 + i] == other[i] by {
            if path == d {
                assert(d[7 + i] == other[i]);
            } else {
                lemma_prefix_char(path, d + "/"@, 7 + i);
            }
        }
        assert forall|i: int| 0 <= i < b implies path[7 + i] == username[i] by {
            if path == h {
                assert(h[7 + i] == username[i]);
            } else {
                lemma_prefix_char(path, h + "/"@, 7 + i);
            }
        }
        if a < b {
            if path != d {
                lemma_prefix_char(path, d + "/"@, 7 + a);
                assert(username[a] == '/');
            } else {
                assert(path.len() == 7 + a);
                if path == h {
                    assert(false);
                } else {
                    lemma_prefix_char(path, h + "/"@, 7 + a);
                    assert(false);
                }
            }
        } else if b < a {
            if path != h {
                lemma_prefix_char(path, h + "/"@, 7 + b);
                assert(other[b] == '/');
            } else {
                assert(path.len() == 7 + b);
                lemma_prefix_char(path, d + "/"@, 7 + b);
                assert(false);
            }
        } else {
            assert(other =~= username);
        }
    }
}

/// Only operations whose capability the user's role holds are granted.
pub proof fn lemma_capability_needed(table: Seq<(String, Vec<Capability>)>, username: Seq<char>, operation: Seq<char>, path: Seq<char>)
    requires
        spec_is_allowed(table, username, operation, path),
        needed_capability(operation) is Some,
    ensures
        spec_has_capability(table, username, needed_capability(operation)->0),
{
}

/// The policy also grants what it is meant to grant. An ordinary user
/// holding the capability an operation needs may use any path in the
/// shared system areas `/tmp`, `/bin`, `/usr`, `/etc`, `/run`, `/proc`,
/// `/sys` and `/dev`, and its own home `/users/<name>` with everything
/// below it, unless the path holds "..", lies under `/main` or `/root`, or
/// lies in the user area outside its home. The administrator holding the
/// capability may use any plain absolute path outside the user area,
/// except to change the tree `/ayux`.
pub proof fn lemma_path_policy_grants(
    table: Seq<(String, Vec<Capability>)>,
    username: Seq<char>,
    operation: Seq<char>,
    path: Seq<char>,
)
    requires
        needed_capability(operation) matches Some(c) ==> spec_has_capability(table, username, c),
    ensures
        username != "root"@ && !username.contains('/') && !has_infix(path, ".."@)
            && !has_prefix(path, "/main"@) && !has_prefix(path, "/root"@)
            && (has_prefix(path, "/tmp"@) || has_prefix(path, "/bin"@) || has_prefix(path, "/usr"@)
                || has_prefix(path, "/etc"@) || has_prefix(path, "/run"@) || has_prefix(path, "/proc"@)
                || has_prefix(path, "/sys"@) || has_prefix(path, "/dev"@)
                || path == "/users/"@ + username || has_prefix(path, "/users/"@ + username + "/"@))
            && (has_prefix(path, "/users/"@) ==> path == "/users/"@ + username || has_prefix(path, "/users/"@ + username + "/"@))
            ==> spec_is_allowed(table, username, operation, path),
        username == "root"@ && has_prefix(path, "/"@) && !has_infix(path, ".."@) && !has_infix(path, "//"@)
            && !has_infix(path, "/./"@) && !has_suffix(path, "/."@) && !has_prefix(path, "/users/"@)
            && !((operation == "write"@ || operation == "mkdir"@ || operation == "touch"@)
                && (path == "/ayux"@ || has_prefix(path, "/ayux/"@)))
            ==> spec_is_allowed(table, username, operation, path),
{
    reveal_strlit("/ayux");
    reveal_strlit("/ayux/");
    reveal_strlit("/");
    assert("/ayux"@ + "/"@ =~= "/ayux/"@);
}

/// The capability each file operation needs: reading and listing need
/// `FsRead`; writing, making directories and creating files need `FsWrite`.
pub proof fn lemma_operation_capabilities(operation: Seq<char>)
    ensures
        operation == "read"@ || operation == "ls"@ ==> needed_capability(operation) == Some(Capability::FsRead),
        operation == "write"@ || operation == "mkdir"@ || operation == "touch"@
            ==> needed_capability(operation) == Some(Capability::FsWrite),
        is_write_operation(operation) <==> (operation == "write"@ || operation == "mkdir"@ || operation == "touch"@),
{
    reveal_strlit("read");
    reveal_strlit("ls");
    reveal_strlit("write");
    reveal_strlit("mkdir");
    reveal_strlit("touch");
    if operation == "write"@ || operation == "mkdir"@ || operation == "touch"@ {
        assert(operation != "read"@) by {
            assert(operation[0] != "read"@[0]);
        }
        assert(operation != "ls"@) by {
            assert(operation[0] != "ls"@[0]);
        }
    }
}

/// With the standard roles that `SecurityManager::new` sets up, an
/// ordinary user may read and write files but holds no other capability,
/// and the administrator ("root") holds all six.
pub proof fn lemma_standard_roles(table: Seq<(String, Vec<Capability>)>, username: Seq<char>)
    requires
        table.len() == 2,
        table[0].0@ == "root"@,
        table[0].1@ == seq![
            Capability::FsRead,
            Capability::FsWrite,
            Capability::NetworkManage,
            Capability::ServiceManage,
            Capability::Admin,
            Capability::DeviceAccess,
        ],
        table[1].0@ == "user"@,
        table[1].1@ == seq![Capability::FsRead, Capability::FsWrite],
    ensures
        username != "root"@ ==> {
            &&& spec_has_capability(table, username, Capability::FsRead)
            &&& spec_has_capability(table, username, Capability::FsWrite)
            &&& !spec_has_capability(table, username, Capability::NetworkManage)
            &&& !spec_has_capability(table, username, Capability::ServiceManage)
            &&& !spec_has_capability(table, username, Capability::Admin)
            &&& !spec_has_capability(table, username, Capability::DeviceAccess)
        },
        username == "root"@ ==> forall|c: Capability| spec_has_capability(table, username, c),
{
    reveal_strlit("root");
    reveal_strlit("user");
    assert("user"@ != "root"@) by {
        assert("user"@[0] != "root"@[0]);
    }
    assert(table.drop_first()[0] == table[1]);
    let user_caps = table[1].1@;
    if username != "root"@ {
        assert(role_caps(table, "user"@) == role_caps(table.drop_first(), "user"@));
        assert(user_caps[0] == Capability::FsRead && user_caps[1] == Capability::FsWrite);
        assert(user_caps.contains(Capability::FsRead));
        assert(user_caps.contains(Capability::FsWrite));
    } else {
        assert forall|c: Capability| spec_has_capability(table, username, c) by {
            let caps = table[0].1@;
            match c {
                Capability::FsRead => assert(caps[0] == c),
                Capability::FsWrite => assert(caps[1] == c),
                Capability::NetworkManage => assert(caps[2] == c),
                Capability::ServiceManage => assert(caps[3] == c),
                Capability::Admin => assert(caps[4] == c),
                Capability::DeviceAccess => assert(caps[5] == c),
            }
        }
    }
}

/// Each file request is checked as the operation it performs, on the path
/// it names: reading and listing need `FsRead`; writing, making a directory
/// and creating a file need `FsWrite` and count as changes (so they are
/// refused under `/ayux` even to the administrator). Power requests name no
/// path and need no file capability.
pub proof fn lemma_request_capabilities(request: SecurityRequest)
    ensures
        request is FsRead || request is FsLs
            ==> needed_capability(request_target(request).0) == Some(Capability::FsRead)
                && !is_write_operation(request_target(request).0),
        request is FsWrite || request is FsMkdir || request is FsTouch
            ==> needed_capability(request_target(request).0) == Some(Capability::FsWrite)
                && is_write_operation(request_target(request).0),
        request is PowerReboot || request is PowerShutdown
            ==> needed_capability(request_target(request).0) is None && request_target(request).1.len() == 0,
        match request {
            SecurityRequest::FsRead { path } => request_target(request).1 == path@,
            SecurityRequest::FsLs { path } => request_target(request).1 == path@,
            SecurityRequest::FsWrite { path, .. } => request_target(request).1 == path@,
            SecurityRequest::FsMkdir { path } => request_target(request).1 == path@,
            SecurityRequest::FsTouch { path } => request_target(request).1 == path@,
            SecurityRequest::Authorize { operation, path } => request_target(request) == (operation@, path@),
            _ => true,
        },
{
    reveal_strlit("read");
    reveal_strlit("ls");
    reveal_strlit("write");
    reveal_strlit("mkdir");
    reveal_strlit("touch");
    reveal_strlit("reboot");
    reveal_strlit("shutdown");
    let op = request_target(request).0;
    if request is FsRead || request is FsLs {
        assert(op != "write"@ && op != "mkdir"@ && op != "touch"@) by {
            assert(op[0] != "write"@[0] && op[0] != "mkdir"@[0] && op[0] != "touch"@[0]);
        }
    }
    if request is FsWrite || request is FsMkdir || request is FsTouch {
        assert(op != "read"@ && op != "ls"@) by {
            assert(op[0] != "read"@[0] && op[0] != "ls"@[0]);
        }
    }
    if request is PowerReboot || request is PowerShutdown {
        assert(op != "read"@ && op != "ls"@ && op != "write"@ && op != "mkdir"@ && op != "touch"@) by {
            assert(op[0] != "read"@[0] || op.len() != "read"@.len());
            assert(op[0] != "ls"@[0]);
            assert(op[0] != "write"@[0] && op[0] != "mkdir"@[0] && op[0] != "touch"@[0]);
        }
    }
}

} // verus!
