//! The login manager's logic: the requests it sends, how it reads the
//! services' replies, and the first-run setup of an administrator.
use vstd::prelude::*;

use crate::auth::{username_problem, validate_username};
use crate::ipc::{AipcMessage, AuthRequest, AuthResponse, SessionRequest, SessionResponse};
use crate::strs::{concat3, owned, str_eq};

verus! {

/// The message for a reply that is not the one expected from the
/// authentication service.
pub open spec fn invalid_auth_reply() -> Seq<char> {
    "Invalid response from auth service"@
}

/// The message for a reply that is not the one expected from the session
/// manager.
pub open spec fn invalid_session_reply() -> Seq<char> {
    "Invalid response from session manager"@
}

/// The number of accounts, from the reply to `CountUsers` (or the
/// transport error).
pub fn get_user_count(reply: Result<AipcMessage, String>) -> (r: Result<usize, String>)
    ensures
        match reply {
            Ok(AipcMessage::AuthRes(AuthResponse::UserCount(n))) => r == Ok::<usize, String>(n),
            Ok(_) => r matches Err(e) && e@ == invalid_auth_reply(),
            Err(e) => r matches Err(m) && m@ == e@,
        },
{
    match reply {
        Ok(AipcMessage::AuthRes(AuthResponse::UserCount(n))) => Ok(n),
        Ok(_) => Err(owned("Invalid response from auth service")),
        Err(e) => Err(e),
    }
}

/// The request that creates an account.
pub fn create_user_request(username: &str, password: &str, display_name: &str, role: &str) -> (m: AipcMessage)
    ensures
        m matches AipcMessage::Auth(AuthRequest::CreateUser { username: u, password: p, display_name: d, role: ro })
            && u@ == username@ && p@ == password@ && d@ == display_name@ && ro@ == role@,
{
    AipcMessage::Auth(AuthRequest::CreateUser {
        username: owned(username),
        password: owned(password),
        display_name: owned(display_name),
        role: owned(role),
    })
}

/// The outcome of creating an account, from the reply.
pub fn create_user(reply: Result<AipcMessage, String>) -> (r: Result<(), String>)
    ensures
        match reply {
            Ok(AipcMessage::AuthRes(AuthResponse::Success)) => r is Ok,
            Ok(AipcMessage::AuthRes(AuthResponse::Error(e))) => r matches Err(m) && m@ == e@,
            Ok(_) => r matches Err(m) && m@ == invalid_auth_reply(),
            Err(e) => r matches Err(m) && m@ == e@,
        },
{
    match reply {
        Ok(AipcMessage::AuthRes(AuthResponse::Success)) => Ok(()),
        Ok(AipcMessage::AuthRes(AuthResponse::Error(e))) => Err(e),
        Ok(_) => Err(owned("Invalid response from auth service")),
        Err(e) => Err(e),
    }
}

/// The login request.
pub fn login_request(username: &str, password: &str) -> (m: AipcMessage)
    ensures
        m matches AipcMessage::Auth(AuthRequest::Login { username: u, password: p }) && u@ == username@ && p@ == password@,
{
    AipcMessage::Auth(AuthRequest::Login { username: owned(username), password: owned(password) })
}

/// The identity of an authenticated user, from the reply to a login:
/// internal id, user name, display name, role and capabilities.
pub fn authenticate(reply: Result<AipcMessage, String>) -> (r: Result<(String, String, String, String, Vec<String>), String>)
    ensures
        match reply {
            Ok(AipcMessage::AuthRes(AuthResponse::Authenticated { internal_id, username, display_name, role, capabilities })) =>
                r matches Ok((i, u, d, ro, c)) && i@ == internal_id@ && u@ == username@ && d@ == display_name@
                    && ro@ == role@ && c@ == capabilities@,
            Ok(AipcMessage::AuthRes(AuthResponse::Error(e))) => r matches Err(m) && m@ == e@,
            Ok(_) => r matches Err(m) && m@ == invalid_auth_reply(),
            Err(e) => r matches Err(m) && m@ == e@,
        },
{
    match reply {
        Ok(AipcMessage::AuthRes(AuthResponse::Authenticated { internal_id, username, display_name, role, capabilities })) =>
            Ok((internal_id, username, display_name, role, capabilities)),
        Ok(AipcMessage::AuthRes(AuthResponse::Error(e))) => Err(e),
        Ok(_) => Err(owned("Invalid response from auth service")),
        Err(e) => Err(e),
    }
}

/// The request that opens a session for an authenticated user.
pub fn session_request(internal_id: String, username: String, display_name: String, role: String, capabilities: Vec<String>) -> (m: AipcMessage)
    ensures
        m matches AipcMessage::Session(SessionRequest::CreateSession { internal_id: i, username: u, display_name: d, role: ro, capabilities: c })
            && i@ == internal_id@ && u@ == username@ && d@ == display_name@ && ro@ == role@ && c@ == capabilities@,
{
    AipcMessage::Session(SessionRequest::CreateSession { internal_id, username, display_name, role, capabilities })
}

/// The token of a new session, from the reply.
pub fn create_session(reply: Result<AipcMessage, String>) -> (r: Result<String, String>)
    ensures
        match reply {
            Ok(AipcMessage::SessionRes(SessionResponse::Success { token })) => r matches Ok(t) && t@ == token@,
            Ok(AipcMessage::SessionRes(SessionResponse::Error(e))) => r matches Err(m) && m@ == e@,
            Ok(_) => r matches Err(m) && m@ == invalid_session_reply(),
            Err(e) => r matches Err(m) && m@ == e@,
        },
{
    match reply {
        Ok(AipcMessage::SessionRes(SessionResponse::Success { token })) => Ok(token),
        Ok(AipcMessage::SessionRes(SessionResponse::Error(e))) => Err(e),
        Ok(_) => Err(owned("Invalid response from session manager")),
        Err(e) => Err(e),
    }
}

/// Whether a session is still open, from the reply to validating it: the
/// login manager waits while it is.
pub fn session_still_valid(reply: Result<AipcMessage, String>) -> (b: bool)
    ensures
        b == (reply matches Ok(AipcMessage::SessionRes(SessionResponse::Valid { .. }))),
{
    match reply {
        Ok(AipcMessage::SessionRes(SessionResponse::Valid { .. })) => true,
        _ => false,
    }
}

// ---------------------------------------------------------------------
// First-run setup
// ---------------------------------------------------------------------

/// Where the setup dialogue stands.
#[derive(Clone, Copy, Debug, PartialEq, Eq, Structural)]
pub enum SetupStage {
    Username,
    DisplayName,
    Password,
    Confirm,
    Creating,
    Done,
}

/// What the setup asks of the terminal next.
pub enum SetupPrompt {
    /// Read a line after showing the label.
    Line(String),
    /// Read a password without echo after showing the label.
    Password(String),
    /// Create the administrator account with these details.
    CreateAdmin { username: String, password: String, display_name: String },
    /// Setup is over.
    Finished,
}

/// The next thing to show, if any, and the next request.
pub struct SetupAction {
    pub message: Option<String>,
    pub next: SetupPrompt,
}

/// The first-run setup of an administrator account.
pub struct SetupWizard {
    pub stage: SetupStage,
    pub username: String,
    pub display_name: String,
    pub password: String,
}

/// The action that starts the dialogue over, with an optional message.
pub open spec fn restarts(a: SetupAction) -> bool {
    a.next matches SetupPrompt::Line(l) && l@ == "Username:"@
}

impl SetupWizard {
    /// A dialogue that first asks for a user name.
    pub fn new() -> (w: SetupWizard)
        ensures
            w.stage == SetupStage::Username,
    {
        SetupWizard { stage: SetupStage::Username, username: String::new(), display_name: String::new(), password: String::new() }
    }

    /// The first request of the dialogue.
    pub fn start(&self) -> (a: SetupAction)
        ensures
            a.message is None,
            restarts(a),
    {
        SetupAction { message: None, next: SetupPrompt::Line(owned("Username:")) }
    }

    fn restart(&mut self, message: Option<String>) -> (a: SetupAction)
        ensures
            final(self).stage == SetupStage::Username,
            restarts(a),
            a.message == message,
    {
        self.stage = SetupStage::Username;
        SetupAction { message, next: SetupPrompt::Line(owned("Username:")) }
    }

    /// Takes the (trimmed) answer to the last request. An empty answer, or
    /// a user name that is refused (with its reason shown), or passwords
    /// that differ (with a message) start the dialogue over; once all is
    /// given the account is to be created.
    pub fn answer(&mut self, input: String) -> (a: SetupAction)
        ensures
            match old(self).stage {
                SetupStage::Username =>
                    if input@.len() == 0 {
                        final(self).stage == SetupStage::Username && a.message is None && restarts(a)
                    } else if username_problem(input@) is Some {
                        final(self).stage == SetupStage::Username && restarts(a)
                            && (a.message matches Some(m) && m@ == "\nError: "@ + username_problem(input@)->0 + "\n"@)
                    } else {
                        final(self).stage == SetupStage::DisplayName && final(self).username@ == input@ && a.message is None
                            && (a.next matches SetupPrompt::Line(l) && l@ == "Display Name:"@)
                    },
                SetupStage::DisplayName =>
                    if input@.len() == 0 {
                        final(self).stage == SetupStage::Username && a.message is None && restarts(a)
                    } else {
                        final(self).stage == SetupStage::Password && final(self).display_name@ == input@
                            && final(self).username@ == old(self).username@ && a.message is None
                            && (a.next matches SetupPrompt::Password(l) && l@ == "Password:"@)
                    },
                SetupStage::Password =>
                    if input@.len() == 0 {
                        final(self).stage == SetupStage::Username && a.message is None && restarts(a)
                    } else {
                        final(self).stage == SetupStage::Confirm && final(self).password@ == input@
                            && final(self).username@ == old(self).username@ && final(self).display_name@ == old(self).display_name@
                            && a.message is None && (a.next matches SetupPrompt::Password(l) && l@ == "Confirm Password:"@)
                    },
                SetupStage::Confirm =>
                    if input@ != old(self).password@ {
                        final(self).stage == SetupStage::Username && restarts(a)
                            && (a.message matches Some(m) && m@ == "\nError: Passwords do not match. Please try again.\n"@)
                    } else {
                        final(self).stage == SetupStage::Creating && a.message is None
                            && (a.next matches SetupPrompt::CreateAdmin { username: u, password: p, display_name: d }
                                && u@ == old(self).username@ && p@ == old(self).password@ && d@ == old(self).display_name@)
                    },
                _ => final(self).stage == old(self).stage && a.message is None && a.next is Finished,
            },
    {
        match self.stage {
            SetupStage::Username => {
                if input.as_str().unicode_len() == 0 {
                    return self.restart(None);
                }
                match validate_username(input.as_str()) {
                    Err(e) => {
                        let m = concat3("\nError: ", e.as_str(), "\n");
                        self.restart(Some(m))
                    },
                    Ok(()) => {
                        self.username = input;
                        self.stage = SetupStage::DisplayName;
                        SetupAction { message: None, next: SetupPrompt::Line(owned("Display Name:")) }
                    },
                }
            },
            SetupStage::DisplayName => {
                if input.as_str().unicode_len() == 0 {
                    return self.restart(None);
                }
                self.display_name = input;
                self.stage = SetupStage::Password;
                SetupAction { message: None, next: SetupPrompt::Password(owned("Password:")) }
            },
            SetupStage::Password => {
                if input.as_str().unicode_len() == 0 {
                    return self.restart(None);
                }
                self.password = input;
                self.stage = SetupStage::Confirm;
                SetupAction { message: None, next: SetupPrompt::Password(owned("Confirm Password:")) }
            },
            SetupStage::Confirm => {
                if !str_eq(input.as_str(), self.password.as_str()) {
                    return self.restart(Some(owned("\nError: Passwords do not match. Please try again.\n")));
                }
                self.stage = SetupStage::Creating;
                SetupAction {
                    message: None,
                    next: SetupPrompt::CreateAdmin {
                        username: owned(self.username.as_str()),
                        password: owned(self.password.as_str()),
                        display_name: owned(self.display_name.as_str()),
                    },
                }
            },
            _ => SetupAction { message: None, next: SetupPrompt::Finished },
        }
    }

    /// Takes the outcome of creating the account: done on success, else
    /// the error is shown and the dialogue starts over.
    pub fn created(&mut self, outcome: Result<(), String>) -> (a: SetupAction)
        ensures
            match outcome {
                Ok(()) => final(self).stage == SetupStage::Done && a.next is Finished
                    && (a.message matches Some(m) && m@ == "\nAdministrator account created successfully.\nProceeding to login...\n"@),
                Err(e) => final(self).stage == SetupStage::Username && restarts(a)
                    && (a.message matches Some(m) && m@ == "\nError: Failed to create user: "@ + e@ + "\n"@),
            },
    {
        match outcome {
            Ok(()) => {
                self.stage = SetupStage::Done;
                SetupAction {
                    message: Some(owned("\nAdministrator account created successfully.\nProceeding to login...\n")),
                    next: SetupPrompt::Finished,
                }
            },
            Err(e) => {
                let m = concat3("\nError: Failed to create user: ", e.as_str(), "\n");
                self.restart(Some(m))
            },
        }
    }
}

} // verus!
