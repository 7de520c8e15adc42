//! What the shell's commands ask of the services, and what the shell
//! prints of their replies.
use vstd::prelude::*;

use crate::ipc::{AipcMessage, AuthRequest, AuthResponse, SecurityRequest, SecurityResponse, SessionRequest};
use crate::num::{decimal, push_decimal};
use crate::shell::{resolved, Shell, ShellCommand};
use crate::strs::{concat2, concat3, owned, push_char};

verus! {

/// The services the shell talks to.
#[derive(Clone, Copy, Debug, PartialEq, Eq, Structural)]
pub enum ShellService {
    Auth,
    Security,
    Session,
}

/// A request to a service.
pub struct ServiceCall {
    pub service: ShellService,
    pub message: AipcMessage,
}

/// How the shell names a service in connection errors.
pub open spec fn service_label(s: ShellService) -> Seq<char> {
    match s {
        ShellService::Auth => "auth service"@,
        ShellService::Security => "security manager"@,
        ShellService::Session => "session manager"@,
    }
}

/// The line shown when a service cannot be reached.
pub fn connect_error(service: ShellService, e: &str) -> (m: String)
    ensures
        m@ == "Error connecting to "@ + service_label(service) + ": "@ + e@,
{
    let label = match service {
        ShellService::Auth => "auth service",
        ShellService::Security => "security manager",
        ShellService::Session => "session manager",
    };
    let a = concat3("Error connecting to ", label, ": ");
    concat2(a.as_str(), e)
}

impl Shell {
    /// The request a command makes at once, if any: ending the session,
    /// file operations on paths resolved from the working directory, power
    /// control, marking an account for deletion, listing accounts.
    pub fn service_call(&self, cmd: &ShellCommand) -> (c: Option<ServiceCall>)
        ensures
            match *cmd {
                ShellCommand::Exit => c matches Some(sc) && sc.service == ShellService::Session
                    && (sc.message matches AipcMessage::Session(SessionRequest::DestroySession { token }) && token@ == self.token@),
                ShellCommand::Ls(p) => c matches Some(sc) && sc.service == ShellService::Security
                    && (sc.message matches AipcMessage::Security(SecurityRequest::FsLs { path }) && path@ == resolved(self.cwd@, p@)),
                ShellCommand::Cat(Some(p)) => c matches Some(sc) && sc.service == ShellService::Security
                    && (sc.message matches AipcMessage::Security(SecurityRequest::FsRead { path }) && path@ == resolved(self.cwd@, p@)),
                ShellCommand::Mkdir(Some(p)) => c matches Some(sc) && sc.service == ShellService::Security
                    && (sc.message matches AipcMessage::Security(SecurityRequest::FsMkdir { path }) && path@ == resolved(self.cwd@, p@)),
                ShellCommand::Touch(Some(p)) => c matches Some(sc) && sc.service == ShellService::Security
                    && (sc.message matches AipcMessage::Security(SecurityRequest::FsTouch { path }) && path@ == resolved(self.cwd@, p@)),
                ShellCommand::Reboot => c matches Some(sc) && sc.service == ShellService::Security
                    && sc.message matches AipcMessage::Security(SecurityRequest::PowerReboot),
                ShellCommand::Shutdown => c matches Some(sc) && sc.service == ShellService::Security
                    && sc.message matches AipcMessage::Security(SecurityRequest::PowerShutdown),
                ShellCommand::DeleteUser(Some(id)) => c matches Some(sc) && sc.service == ShellService::Auth
                    && (sc.message matches AipcMessage::Auth(AuthRequest::DeleteUser { internal_id }) && internal_id@ == id@),
                ShellCommand::ListUsers => c matches Some(sc) && sc.service == ShellService::Auth
                    && sc.message matches AipcMessage::Auth(AuthRequest::ListUsers),
                _ => c is None,
            },
    {
        match cmd {
            ShellCommand::Exit => Some(ServiceCall {
                service: ShellService::Session,
                message: AipcMessage::Session(SessionRequest::DestroySession { token: owned(self.token.as_str()) }),
            }),
            ShellCommand::Ls(p) => Some(ServiceCall {
                service: ShellService::Security,
                message: AipcMessage::Security(SecurityRequest::FsLs { path: self.resolve_path(p.as_str()) }),
            }),
            ShellCommand::Cat(Some(p)) => Some(ServiceCall {
                service: ShellService::Security,
                message: AipcMessage::Security(SecurityRequest::FsRead { path: self.resolve_path(p.as_str()) }),
            }),
            ShellCommand::Mkdir(Some(p)) => Some(ServiceCall {
                service: ShellService::Security,
                message: AipcMessage::Security(SecurityRequest::FsMkdir { path: self.resolve_path(p.as_str()) }),
            }),
            ShellCommand::Touch(Some(p)) => Some(ServiceCall {
                service: ShellService::Security,
                message: AipcMessage::Security(SecurityRequest::FsTouch { path: self.resolve_path(p.as_str()) }),
            }),
            ShellCommand::Reboot => Some(ServiceCall {
                service: ShellService::Security,
                message: AipcMessage::Security(SecurityRequest::PowerReboot),
            }),
            ShellCommand::Shutdown => Some(ServiceCall {
                service: ShellService::Security,
                message: AipcMessage::Security(SecurityRequest::PowerShutdown),
            }),
            ShellCommand::DeleteUser(Some(id)) => Some(ServiceCall {
                service: ShellService::Auth,
                message: AipcMessage::Auth(AuthRequest::DeleteUser { internal_id: owned(id.as_str()) }),
            }),
            ShellCommand::ListUsers => Some(ServiceCall {
                service: ShellService::Auth,
                message: AipcMessage::Auth(AuthRequest::ListUsers),
            }),
            _ => None,
        }
    }

    /// The prompt: "user@host:cwd$ ".
    pub fn prompt(&self, hostname: &str) -> (p: String)
        ensures
            p@ == self.username@ + "@"@ + hostname@ + ":"@ + self.cwd@ + "$ "@,
    {
        let a = concat3(self.username.as_str(), "@", hostname);
        let b = concat3(a.as_str(), ":", self.cwd.as_str());
        concat2(b.as_str(), "$ ")
    }

    /// The history, numbered from 1, each number right-aligned in four
    /// columns and followed by two spaces.
    pub fn history_lines(&self) -> (lines: Vec<String>)
        ensures
            lines@.len() == self.history@.len(),
            forall|i: int| 0 <= i < lines@.len() ==> (#[trigger] lines@[i])@ == padded(decimal((i + 1) as nat), 4) + "  "@ + self.history@[i]@,
    {
        let mut lines: Vec<String> = Vec::new();
        let mut i: usize = 0;
        while i < self.history.len()
            invariant
                i <= self.history@.len(),
                lines@.len() == i,
                forall|k: int| 0 <= k < i ==> (#[trigger] lines@[k])@ == padded(decimal((k + 1) as nat), 4) + "  "@ + self.history@[k]@,
            decreases self.history.len() - i,
        {
            let mut num = String::new();
            push_decimal(&mut num, (i + 1) as u64);
            let num = pad_left(num.as_str(), 4);
            let line = concat3(num.as_str(), "  ", self.history[i].as_str());
            lines.push(line);
            i = i + 1;
        }
        lines
    }
}

/// `s` with spaces in front to make it `width` characters wide, if it is
/// narrower.
pub open spec fn padded(s: Seq<char>, width: nat) -> Seq<char> {
    if s.len() >= width { s } else { Seq::new((width - s.len()) as nat, |i: int| ' ') + s }
}

fn pad_left(s: &str, width: usize) -> (r: String)
    ensures
        r@ == padded(s@, width as nat),
{
    let n = s.unicode_len();
    let mut r = String::new();
    let mut k: usize = n;
    while k < width
        invariant
            n == s@.len(),
            n <= k <= width || (k == n && n >= width),
            r@ == Seq::new((k - n) as nat, |i: int| ' '),
        decreases width - k,
    {
        push_char(&mut r, ' ');
        assert(r@ =~= Seq::new((k + 1 - n) as nat, |i: int| ' '));
        k = k + 1;
    }
    let r = concat2(r.as_str(), s);
    assert(r@ =~= padded(s@, width as nat));
    r
}

/// The line shown for a reply the shell does not expect.
pub open spec fn unexpected() -> Seq<char> {
    "Unexpected response"@
}

/// What `ls` prints: the entries, or why there are none.
pub fn report_listing(reply: Result<AipcMessage, String>) -> (lines: Vec<String>)
    ensures
        match reply {
            Ok(AipcMessage::SecurityRes(SecurityResponse::FsEntries(entries))) => lines@ == entries@,
            Ok(AipcMessage::SecurityRes(SecurityResponse::Denied(e))) => lines@.len() == 1 && lines@[0]@ == "Denied: "@ + e@,
            Ok(AipcMessage::SecurityRes(SecurityResponse::Error(e))) => lines@.len() == 1 && lines@[0]@ == "Error: "@ + e@,
            _ => lines@.len() == 1 && lines@[0]@ == unexpected(),
        },
{
    match reply {
        Ok(AipcMessage::SecurityRes(SecurityResponse::FsEntries(entries))) => entries,
        Ok(AipcMessage::SecurityRes(SecurityResponse::Denied(e))) => vec![concat2("Denied: ", e.as_str())],
        Ok(AipcMessage::SecurityRes(SecurityResponse::Error(e))) => vec![concat2("Error: ", e.as_str())],
        _ => vec![owned("Unexpected response")],
    }
}

/// What `cat` prints: the file's bytes and a newline, or a message line.
pub fn report_read(reply: Result<AipcMessage, String>) -> (r: Result<Vec<u8>, String>)
    ensures
        match reply {
            Ok(AipcMessage::SecurityRes(SecurityResponse::FsContent(content))) => r matches Ok(b) && b@ == content@.push(10u8),
            Ok(AipcMessage::SecurityRes(SecurityResponse::Denied(e))) => r matches Err(m) && m@ == "Denied: "@ + e@,
            Ok(AipcMessage::SecurityRes(SecurityResponse::Error(e))) => r matches Err(m) && m@ == "Error: "@ + e@,
            _ => r matches Err(m) && m@ == unexpected(),
        },
{
    match reply {
        Ok(AipcMessage::SecurityRes(SecurityResponse::FsContent(content))) => {
            let mut b = content;
            b.push(10);
            Ok(b)
        },
        Ok(AipcMessage::SecurityRes(SecurityResponse::Denied(e))) => Err(concat2("Denied: ", e.as_str())),
        Ok(AipcMessage::SecurityRes(SecurityResponse::Error(e))) => Err(concat2("Error: ", e.as_str())),
        _ => Err(owned("Unexpected response")),
    }
}

/// What `mkdir` and `touch` print: nothing on success, else a message.
pub fn report_change(reply: Result<AipcMessage, String>) -> (m: Option<String>)
    ensures
        match reply {
            Ok(AipcMessage::SecurityRes(SecurityResponse::Success)) => m is None,
            Ok(AipcMessage::SecurityRes(SecurityResponse::Denied(e))) => m matches Some(s) && s@ == "Denied: "@ + e@,
            Ok(AipcMessage::SecurityRes(SecurityResponse::Error(e))) => m matches Some(s) && s@ == "Error: "@ + e@,
            _ => m matches Some(s) && s@ == unexpected(),
        },
{
    match reply {
        Ok(AipcMessage::SecurityRes(SecurityResponse::Success)) => None,
        Ok(AipcMessage::SecurityRes(SecurityResponse::Denied(e))) => Some(concat2("Denied: ", e.as_str())),
        Ok(AipcMessage::SecurityRes(SecurityResponse::Error(e))) => Some(concat2("Error: ", e.as_str())),
        _ => Some(owned("Unexpected response")),
    }
}

/// The request confirming the deletion of one's own account.
pub fn confirm_deletion_request(password: String) -> (m: AipcMessage)
    ensures
        m matches AipcMessage::Auth(AuthRequest::ConfirmDeletion { password: p }) && p@ == password@,
{
    AipcMessage::Auth(AuthRequest::ConfirmDeletion { password })
}

/// What `confirm_deletion` prints, and whether the shell then logs out
/// (when the account was deleted).
pub fn report_confirm_deletion(reply: Result<AipcMessage, String>) -> (r: (String, bool))
    ensures
        match reply {
            Ok(AipcMessage::AuthRes(AuthResponse::Success)) => r.0@ == "\nAccount deleted. Logging out..."@ && r.1,
            Ok(AipcMessage::AuthRes(AuthResponse::Error(e))) => r.0@ == "\nError: "@ + e@ && !r.1,
            _ => r.0@ == "\nUnexpected response"@ && !r.1,
        },
{
    match reply {
        Ok(AipcMessage::AuthRes(AuthResponse::Success)) => (owned("\nAccount deleted. Logging out..."), true),
        Ok(AipcMessage::AuthRes(AuthResponse::Error(e))) => (concat2("\nError: ", e.as_str()), false),
        _ => (owned("\nUnexpected response"), false),
    }
}

/// What the account wizard prints once the account was asked for.
pub fn report_create_user(reply: Result<AipcMessage, String>) -> (m: String)
    ensures
        match reply {
            Ok(AipcMessage::AuthRes(AuthResponse::Success)) => m@ == "User created successfully."@,
            Ok(AipcMessage::AuthRes(AuthResponse::Error(e))) => m@ == "Error: "@ + e@,
            _ => m@ == unexpected(),
        },
{
    match reply {
        Ok(AipcMessage::AuthRes(AuthResponse::Success)) => owned("User created successfully."),
        Ok(AipcMessage::AuthRes(AuthResponse::Error(e))) => concat2("Error: ", e.as_str()),
        _ => owned("Unexpected response"),
    }
}

/// What `delete_user` prints.
pub fn report_delete_user(reply: Result<AipcMessage, String>) -> (m: String)
    ensures
        match reply {
            Ok(AipcMessage::AuthRes(AuthResponse::Success)) =>
                m@ == "User marked for deletion. The user must now log in and confirm deletion."@,
            Ok(AipcMessage::AuthRes(AuthResponse::Error(e))) => m@ == "Error: "@ + e@,
            _ => m@ == unexpected(),
        },
{
    match reply {
        Ok(AipcMessage::AuthRes(AuthResponse::Success)) =>
            owned("User marked for deletion. The user must now log in and confirm deletion."),
        Ok(AipcMessage::AuthRes(AuthResponse::Error(e))) => concat2("Error: ", e.as_str()),
        _ => owned("Unexpected response"),
    }
}

/// What `list_users` prints: a heading, one line per display name and an
/// empty line; or the error.
pub fn report_list_users(reply: Result<AipcMessage, String>) -> (lines: Vec<String>)
    ensures
        match reply {
            Ok(AipcMessage::AuthRes(AuthResponse::UserList(users))) =>
                lines@.len() == users@.len() + 2 && lines@[0]@ == "\nRegistered Users (Display Names):"@
                    && (forall|i: int| 0 <= i < users@.len() ==> (#[trigger] lines@[i + 1])@ == " - "@ + users@[i]@)
                    && lines@[users@.len() as int + 1]@.len() == 0,
            Ok(AipcMessage::AuthRes(AuthResponse::Error(e))) => lines@.len() == 1 && lines@[0]@ == "Error: "@ + e@,
            _ => lines@.len() == 1 && lines@[0]@ == unexpected(),
        },
{
    match reply {
        Ok(AipcMessage::AuthRes(AuthResponse::UserList(users))) => {
            let mut lines: Vec<String> = Vec::new();
            lines.push(owned("\nRegistered Users (Display Names):"));
            let mut i: usize = 0;
            while i < users.len()
                invariant
                    i <= users@.len(),
                    lines@.len() == i + 1,
                    lines@[0]@ == "\nRegistered Users (Display Names):"@,
                    forall|k: int| 0 <= k < i ==> (#[trigger] lines@[k + 1])@ == " - "@ + users@[k]@,
                decreases users.len() - i,
            {
                lines.push(concat2(" - ", users[i].as_str()));
                i = i + 1;
            }
            lines.push(String::new());
            lines
        },
        Ok(AipcMessage::AuthRes(AuthResponse::Error(e))) => vec![concat2("Error: ", e.as_str())],
        _ => vec![owned("Unexpected response")],
    }
}

/// The usage line of a command that lacks its argument.
pub fn usage(cmd: &ShellCommand) -> (u: Option<String>)
    ensures
        match *cmd {
            ShellCommand::Cat(None) => u matches Some(s) && s@ == "Usage: cat <file>"@,
            ShellCommand::Mkdir(None) => u matches Some(s) && s@ == "Usage: mkdir <dir>"@,
            ShellCommand::Touch(None) => u matches Some(s) && s@ == "Usage: touch <file>"@,
            ShellCommand::CreateUser(None) => u matches Some(s) && s@ == "Usage: create_user <username>"@,
            ShellCommand::DeleteUser(None) => u matches Some(s) && s@ == "Usage: delete_user <internal_id>"@,
            _ => u is None,
        },
{
    match cmd {
        ShellCommand::Cat(None) => Some(owned("Usage: cat <file>")),
        ShellCommand::Mkdir(None) => Some(owned("Usage: mkdir <dir>")),
        ShellCommand::Touch(None) => Some(owned("Usage: touch <file>")),
        ShellCommand::CreateUser(None) => Some(owned("Usage: create_user <username>")),
        ShellCommand::DeleteUser(None) => Some(owned("Usage: delete_user <internal_id>")),
        _ => None,
    }
}

/// The lines shown for a command the shell does not know (before the
/// suggestions).
pub fn unknown_command_lines(cmd: &str) -> (lines: Vec<String>)
    ensures
        lines@.len() == 2,
        lines@[0]@ == "Unknown command: '"@ + cmd@ + "'"@,
        lines@[1]@ == "Type 'help' to see available commands."@,
{
    vec![concat3("Unknown command: '", cmd, "'"), owned("Type 'help' to see available commands.")]
}

/// The help text.
pub const HELP_TEXT: &'static str = "
Available commands:
  help                 - Display this help message
  exit, logout         - End the current session
  pwd                  - Print current working directory
  cd <dir>             - Change current working directory
  ls [path]            - List directory contents
  cat <file>           - Display file contents
  mkdir <dir>          - Create a new directory
  touch <file>         - Create a new empty file
  echo [text]          - Display a line of text
  clear                - Clear the terminal screen
  whoami               - Display current user
  hostname             - Display system hostname
  date                 - Display current system time
  reboot               - Restart the system
  shutdown             - Shut down the system
  history              - Show command history
  confirm_deletion     - Confirm deletion of YOUR account if pending
  create_user <uname>  - (Admin) Start create user wizard
  delete_user <id>     - (Admin) Mark user for deletion
  list_users           - (Admin) List display names of accounts
  usb_authorize        - (Admin) Authorize USB data sharing
  usb_unauthorize      - (Admin) Revoke USB data sharing
  usb_status           - (Admin) Get USB authorization status
";

/// The host name the shell shows.
pub const HOSTNAME: &'static str = "ayux";

} // verus!
