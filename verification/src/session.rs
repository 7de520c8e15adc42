//! The session manager: live login sessions, keyed by a random token, each
//! with the user shell launched for it.
use vstd::prelude::*;

use crate::crypto::new_uuid;
use crate::ipc::{SessionRequest, SessionResponse};
use crate::strs::{self, clone_strings, owned};

verus! {

#[derive(Debug)]
pub struct Session {
    pub token: String,
    pub internal_id: String,
    pub username: String,
    pub display_name: String,
    pub role: String,
    pub capabilities: Vec<String>,
    pub child_pid: Option<u32>,
}

/// What the caller has to do for the session manager.
#[derive(Debug)]
pub enum SessionStep {
    /// Send this response.
    Reply(SessionResponse),
    /// Terminate the process group of `pid`, then send `response`.
    Terminate { pid: u32, response: SessionResponse },
    /// Launch the user shell for `username` with the session token `token`,
    /// then call `resume_launch` with its process ID or the error.
    Launch { token: String, username: String },
}

pub struct SessionManager {
    sessions: Vec<Session>,
    pending: Option<Session>,
}

pub open spec fn tokens_unique(s: Seq<Session>) -> bool {
    forall|i: int, j: int| 0 <= i < s.len() && 0 <= j < s.len() && i != j ==> s[i].token@ != s[j].token@
}

pub open spec fn has_token(s: Seq<Session>, t: Seq<char>) -> bool {
    exists|i: int| 0 <= i < s.len() && s[i].token@ == t
}

pub open spec fn token_pos(s: Seq<Session>, t: Seq<char>) -> int {
    choose|i: int| 0 <= i < s.len() && s[i].token@ == t
}

/// The live session with token `t`, if any.
pub open spec fn lookup(s: Seq<Session>, t: Seq<char>) -> Option<Session> {
    if has_token(s, t) { Some(s[token_pos(s, t)]) } else { None }
}

/// The answer to a validation request for `token`.
pub open spec fn validation_reply(s: Seq<Session>, token: Seq<char>, r: SessionResponse) -> bool {
    match lookup(s, token) {
        Some(sess) => r matches SessionResponse::Valid { internal_id, username, display_name, role, capabilities }
            && internal_id@ == sess.internal_id@ && username@ == sess.username@ && display_name@
            == sess.display_name@ && role@ == sess.role@ && capabilities@ == sess.capabilities@,
        None => r matches SessionResponse::Error(m) && m@ == "Invalid session"@,
    }
}

impl SessionManager {
    pub closed spec fn live(self) -> Seq<Session> {
        self.sessions@
    }

    pub closed spec fn launching(self) -> Option<Session> {
        self.pending
    }

    pub open spec fn wf(self) -> bool {
        tokens_unique(self.live())
    }

    pub fn new() -> (m: Self)
        ensures
            m.wf(),
            m.live().len() == 0,
            m.launching() is None,
    {
        SessionManager { sessions: Vec::new(), pending: None }
    }

    fn find(&self, token: &String) -> (r: Option<usize>)
        requires
            tokens_unique(self.sessions@),
        ensures
            r matches Some(i) ==> i < self.sessions@.len() && token_pos(self.sessions@, token@) == i
                && self.sessions@[i as int].token@ == token@,
            r is None ==> !has_token(self.sessions@, token@),
    {
        for i in 0..self.sessions.len()
            invariant
                tokens_unique(self.sessions@),
                forall|j: int| 0 <= j < i ==> self.sessions@[j].token@ != token@,
        {
            if self.sessions[i].token == *token {
                assert(has_token(self.sessions@, token@));
                let ghost p = token_pos(self.sessions@, token@);
                assert(self.sessions@[p].token@ == token@);
                assert(self.sessions@[i as int].token@ == token@);
                return Some(i);
            }
        }
        None
    }

    /// The answer to a validation request.
    pub fn validate_session(&self, token: String) -> (r: SessionResponse)
        requires
            self.wf(),
        ensures
            validation_reply(self.live(), token@, r),
    {
        match self.find(&token) {
            Some(i) => {
                let s = &self.sessions[i];
                SessionResponse::Valid {
                    internal_id: s.internal_id.clone(),
                    username: s.username.clone(),
                    display_name: s.display_name.clone(),
                    role: s.role.clone(),
                    capabilities: clone_strings(&s.capabilities),
                }
            },
            None => SessionResponse::Error(owned("Invalid session")),
        }
    }

    /// Ends the session with this token.
    pub fn destroy_session(&mut self, token: String) -> (step: SessionStep)
        requires
            old(self).wf(),
        ensures
            final(self).wf(),
            final(self).launching() == old(self).launching(),
            !has_token(final(self).live(), token@),
            match lookup(old(self).live(), token@) {
                None => final(self).live() == old(self).live() && (step matches SessionStep::Reply(SessionResponse::Error(m))
                    && m@ == "Session not found"@),
                Some(sess) => final(self).live() == old(self).live().remove(token_pos(old(self).live(), token@))
                    && match sess.child_pid {
                        Some(pid) => step matches SessionStep::Terminate { pid: p, response: SessionResponse::Success { token: t } }
                            && p == pid && t@ == token@,
                        None => step matches SessionStep::Reply(SessionResponse::Success { token: t }) && t@ == token@,
                    },
            },
    {
        match self.find(&token) {
            None => SessionStep::Reply(SessionResponse::Error(owned("Session not found"))),
            Some(i) => {
                let ghost before = self.sessions@;
                let sess = self.sessions.remove(i);
                assert forall|a: int, b: int|
                    0 <= a < self.sessions@.len() && 0 <= b < self.sessions@.len() && a != b implies
                    self.sessions@[a].token@ != self.sessions@[b].token@ by {
                    let a0 = if a < i { a } else { a + 1 };
                    let b0 = if b < i { b } else { b + 1 };
                    assert(self.sessions@[a] == before[a0]);
                    assert(self.sessions@[b] == before[b0]);
                }
                assert forall|j: int| 0 <= j < self.sessions@.len() implies self.sessions@[j].token@ != token@ by {
                    let j0 = if j < i { j } else { j + 1 };
                    assert(self.sessions@[j] == before[j0]);
                    assert(before[j0].token@ != before[i as int].token@);
                }
                match sess.child_pid {
                    Some(pid) => SessionStep::Terminate { pid, response: SessionResponse::Success { token } },
                    None => SessionStep::Reply(SessionResponse::Success { token }),
                }
            },
        }
    }

    /// Handles one request. A session being created waits for its shell to
    /// be launched; a request arriving meanwhile abandons it.
    pub fn handle_request(&mut self, request: SessionRequest) -> (step: SessionStep)
        requires
            old(self).wf(),
        ensures
            final(self).wf(),
            match request {
                SessionRequest::CreateSession { internal_id, username, display_name, role, capabilities } => {
                    &&& final(self).live() == old(self).live()
                    &&& step matches SessionStep::Launch { token, username: u }
                    &&& u@ == username@
                    &&& token@.len() == 36
                    &&& final(self).launching() == Some(Session {
                        token,
                        internal_id,
                        username,
                        display_name,
                        role,
                        capabilities,
                        child_pid: None,
                    })
                },
                SessionRequest::DestroySession { token } => {
                    &&& final(self).launching() is None
                    &&& !has_token(final(self).live(), token@)
                    &&& match lookup(old(self).live(), token@) {
                        None => final(self).live() == old(self).live() && (step matches SessionStep::Reply(
                            SessionResponse::Error(m),
                        ) && m@ == "Session not found"@),
                        Some(sess) => final(self).live() == old(self).live().remove(token_pos(old(self).live(), token@))
                            && match sess.child_pid {
                                Some(pid) => step matches SessionStep::Terminate {
                                    pid: p,
                                    response: SessionResponse::Success { token: t },
                                } && p == pid && t@ == token@,
                                None => step matches SessionStep::Reply(SessionResponse::Success { token: t }) && t@
                                    == token@,
                            },
                    }
                },
                SessionRequest::ValidateSession { token } => {
                    &&& final(self).live() == old(self).live()
                    &&& final(self).launching() is None
                    &&& step matches SessionStep::Reply(r)
                    &&& validation_reply(old(self).live(), token@, r)
                },
            },
    {
        self.pending = None;
        match request {
            SessionRequest::CreateSession { internal_id, username, display_name, role, capabilities } => {
                let token = new_uuid();
                let u = username.clone();
                let t = token.clone();
                self.pending = Some(Session {
                    token,
                    internal_id,
                    username,
                    display_name,
                    role,
                    capabilities,
                    child_pid: None,
                });
                SessionStep::Launch { token: t, username: u }
            },
            SessionRequest::DestroySession { token } => self.destroy_session(token),
            SessionRequest::ValidateSession { token } => SessionStep::Reply(self.validate_session(token)),
        }
    }

    /// Finishes a session creation: with the shell launched the session
    /// becomes live (replacing any session with the same token), otherwise
    /// the creation fails.
    pub fn resume_launch(&mut self, launched: Result<u32, String>) -> (r: SessionResponse)
        requires
            old(self).wf(),
            old(self).launching() is Some,
        ensures
            final(self).wf(),
            final(self).launching() is None,
            ({
                let sess = old(self).launching()->0;
                match launched {
                    Ok(pid) => {
                        &&& lookup(final(self).live(), sess.token@) == Some(Session { child_pid: Some(pid), ..sess })
                        &&& forall|t: Seq<char>| t != sess.token@ ==> lookup(final(self).live(), t) == lookup(old(self).live(), t)
                        &&& r matches SessionResponse::Success { token } && token@ == sess.token@
                    },
                    Err(e) => final(self).live() == old(self).live() && (r matches SessionResponse::Error(m)
                        && m@ == "Failed to launch shell: "@ + e@),
                }
            }),
    {
        let mut sess = self.pending.take().unwrap();
        match launched {
            Err(e) => SessionResponse::Error(strs::concat2("Failed to launch shell: ", e.as_str())),
            Ok(pid) => {
                sess.child_pid = Some(pid);
                let token = sess.token.clone();
                let ghost before = self.sessions@;
                let ghost new_sess = sess;
                let ghost mut pos: int = 0;
                match self.find(&token) {
                    Some(i) => {
                        self.sessions[i] = sess;
                        proof { pos = i as int; }
                    },
                    None => {
                        self.sessions.push(sess);
                        proof { pos = before.len() as int; }
                    },
                }
                let ghost after = self.sessions@;
                assert(after[pos] == new_sess);
                assert(forall|j: int| 0 <= j < after.len() && j != pos ==> after[j] == before[j]);
                assert forall|a: int, b: int|
                    0 <= a < after.len() && 0 <= b < after.len() && a != b implies after[a].token@ != after[b].token@ by {
                    if a != pos && b != pos {
                        assert(after[a] == before[a]);
                        assert(after[b] == before[b]);
                    } else if a == pos {
                        assert(after[b] == before[b]);
                    } else {
                        assert(after[a] == before[a]);
                    }
                }
                assert(has_token(after, token@));
                let ghost p = token_pos(after, token@);
                assert(after[p] == new_sess) by {
                    if p != pos {
                        assert(after[p] == before[p]);
                    }
                };
                assert forall|t: Seq<char>| t != token@ implies lookup(after, t) == lookup(before, t) by {
                    if has_token(before, t) {
                        let q = token_pos(before, t);
                        assert(q != pos);
                        assert(after[q] == before[q]);
                        assert(has_token(after, t));
                        let q2 = token_pos(after, t);
                        assert(q2 != pos);
                        assert(after[q2] == before[q2]);
                    }
                    if has_token(after, t) {
                        let q2 = token_pos(after, t);
                        assert(q2 != pos);
                        assert(after[q2] == before[q2]);
                    }
                }
                SessionResponse::Success { token }
            },
        }
    }
}

/// A session, once live, is reported valid with the data it was created
/// with; once destroyed, its token is no longer valid.
pub proof fn lemma_validate_after_create_and_destroy(
    s: Seq<Session>,
    sess: Session,
    after_destroy: Seq<Session>,
)
    requires
        lookup(s, sess.token@) == Some(sess),
        !has_token(after_destroy, sess.token@),
    ensures
        lookup(s, sess.token@) matches Some(x) && x.username == sess.username && x.internal_id
            == sess.internal_id && x.role == sess.role,
        lookup(after_destroy, sess.token@) is None,
{
}

/// With unique tokens, the session holding `t` is the one `token_pos` picks.
proof fn lemma_token_pos(s: Seq<Session>, t: Seq<char>, i: int)
    requires
        tokens_unique(s),
        0 <= i < s.len(),
        s[i].token@ == t,
    ensures
        has_token(s, t),
        token_pos(s, t) == i,
{
    assert(has_token(s, t));
    let p = token_pos(s, t);
    if p != i {
        assert(s[p].token@ != s[i].token@);
    }
}

/// Destroying the session of one token leaves the answer for every other
/// token as it was.
pub proof fn lemma_destroy_keeps_other_sessions(s: Seq<Session>, token: Seq<char>, other: Seq<char>)
    requires
        tokens_unique(s),
        has_token(s, token),
        other != token,
    ensures
        lookup(s.remove(token_pos(s, token)), other) == lookup(s, other),
{
    let p = token_pos(s, token);
    let r = s.remove(p);
    assert(tokens_unique(r)) by {
        assert forall|a: int, b: int| 0 <= a < r.len() && 0 <= b < r.len() && a != b implies r[a].token@ != r[b].token@ by {
            let a2 = if a < p { a } else { a + 1 };
            let b2 = if b < p { b } else { b + 1 };
            assert(r[a] == s[a2]);
            assert(r[b] == s[b2]);
        }
    }
    if has_token(s, other) {
        let q = token_pos(s, other);
        assert(q != p);
        let q2 = if q < p { q } else { q - 1 };
        assert(r[q2] == s[q]);
        lemma_token_pos(r, other, q2);
    } else {
        assert forall|i: int| 0 <= i < r.len() implies r[i].token@ != other by {
            let i2 = if i < p { i } else { i + 1 };
            assert(r[i] == s[i2]);
        }
    }
}

} // verus!
