//! The log service's rules: which file a module logs to, the text of a
//! log line, when and how log files are rotated, and the replies.
use vstd::prelude::*;

use crate::ipc::{LogLevel, LogRequest, LogResponse};
use crate::num::{decimal, push_decimal};
use crate::strs::{concat2, owned, push_char, str_eq};

verus! {

/// The directory of the log files.
pub const LOG_DIR: &'static str = "/var/log";
/// The size at which a log file is rotated (5 MiB).
pub const MAX_LOG_SIZE: u64 = 5242880;
/// How many rotated files are kept.
pub const MAX_ROTATED_FILES: usize = 5;

/// What `str::to_lowercase` makes of a string (full Unicode case mapping).
pub uninterp spec fn lowercase(s: Seq<char>) -> Seq<char>;

/// Lower-cases a string (`str::to_lowercase`); the result is named by
/// `lowercase`, a function of the string alone.
#[verifier::external_body]
fn to_lower(s: &str) -> (r: String)
    ensures
        r@ == lowercase(s@),
{
    s.to_lowercase()
}

/// The file that a module whose lower-cased name is `lower` logs to.
pub open spec fn log_file_name(lower: Seq<char>) -> Seq<char> {
    if lower == "auth_service"@ {
        "auth.log"@
    } else if lower == "security_manager"@ {
        "security.log"@
    } else if lower == "network_manager"@ {
        "network.log"@
    } else if lower == "kernel"@ {
        "kernel.log"@
    } else {
        "system.log"@
    }
}

/// The path of the file for a module whose lower-cased name is `lower`.
pub fn log_path_for(lower: &str) -> (p: String)
    ensures
        p@ == LOG_DIR@ + "/"@ + log_file_name(lower@),
{
    let name = if str_eq(lower, "auth_service") {
        "auth.log"
    } else if str_eq(lower, "security_manager") {
        "security.log"
    } else if str_eq(lower, "network_manager") {
        "network.log"
    } else if str_eq(lower, "kernel") {
        "kernel.log"
    } else {
        "system.log"
    };
    let dir = concat2(LOG_DIR, "/");
    concat2(dir.as_str(), name)
}

/// How a log level is written (its variant's name).
pub open spec fn level_name(level: LogLevel) -> Seq<char> {
    match level {
        LogLevel::Debug => "Debug"@,
        LogLevel::Info => "Info"@,
        LogLevel::Warn => "Warn"@,
        LogLevel::Error => "Error"@,
        LogLevel::Critical => "Critical"@,
    }
}

/// A log line: "[timestamp] [level] [module] message" and a newline.
pub open spec fn log_line_text(level: LogLevel, module: Seq<char>, message: Seq<char>, timestamp: u64) -> Seq<char> {
    "["@ + decimal(timestamp as nat) + "] ["@ + level_name(level) + "] ["@ + module + "] "@ + message + "\n"@
}

/// Builds a log line.
pub fn log_line(level: LogLevel, module: &str, message: &str, timestamp: u64) -> (l: String)
    ensures
        l@ == log_line_text(level, module@, message@, timestamp),
{
    let mut l = owned("[");
    push_decimal(&mut l, timestamp);
    let lv = match level {
        LogLevel::Debug => "Debug",
        LogLevel::Info => "Info",
        LogLevel::Warn => "Warn",
        LogLevel::Error => "Error",
        LogLevel::Critical => "Critical",
    };
    assert(lv@ == level_name(level));
    let l = concat2(l.as_str(), "] [");
    let l = concat2(l.as_str(), lv);
    let l = concat2(l.as_str(), "] [");
    let l = concat2(l.as_str(), module);
    let l = concat2(l.as_str(), "] ");
    let mut l = concat2(l.as_str(), message);
    push_char(&mut l, '\n');
    proof {
        reveal_strlit("\n");
        assert(l@ =~= log_line_text(level, module@, message@, timestamp));
    }
    l
}

/// `path` with the suffix `.n`.
pub open spec fn numbered(path: Seq<char>, n: nat) -> Seq<char> {
    path + "."@ + decimal(n)
}

/// A file reaching the size limit is rotated.
pub fn needs_rotation(size: u64) -> (b: bool)
    ensures
        b == (size >= MAX_LOG_SIZE),
{
    size >= MAX_LOG_SIZE
}

/// The renames that rotate the log at `path`, in order: each numbered
/// copy moves up one, the oldest first (`.4` to `.5` down to `.1` to
/// `.2`, each only if it exists), then the live file becomes `.1`.
pub fn rotation_plan(path: &str) -> (plan: Vec<(String, String)>)
    ensures
        plan@.len() == MAX_ROTATED_FILES,
        forall|k: int| 0 <= k < MAX_ROTATED_FILES - 1 ==> {
            &&& (#[trigger] plan@[k]).0@ == numbered(path@, (MAX_ROTATED_FILES - 1 - k) as nat)
            &&& plan@[k].1@ == numbered(path@, (MAX_ROTATED_FILES - k) as nat)
        },
        plan@[MAX_ROTATED_FILES - 1].0@ == path@,
        plan@[MAX_ROTATED_FILES - 1].1@ == numbered(path@, 1),
{
    let mut plan: Vec<(String, String)> = Vec::new();
    let mut i: usize = MAX_ROTATED_FILES - 1;
    while i >= 1
        invariant
            0 <= i <= MAX_ROTATED_FILES - 1,
            plan@.len() == MAX_ROTATED_FILES - 1 - i,
            forall|k: int| 0 <= k < plan@.len() ==> {
                &&& (#[trigger] plan@[k]).0@ == numbered(path@, (MAX_ROTATED_FILES - 1 - k) as nat)
                &&& plan@[k].1@ == numbered(path@, (MAX_ROTATED_FILES - k) as nat)
            },
        decreases i,
    {
        let mut old_name = concat2(path, ".");
        push_decimal(&mut old_name, i as u64);
        let mut new_name = concat2(path, ".");
        push_decimal(&mut new_name, (i + 1) as u64);
        plan.push((old_name, new_name));
        i = i - 1;
    }
    let mut last = concat2(path, ".");
    push_decimal(&mut last, 1);
    plan.push((owned(path), last));
    plan
}

/// What the service does with a request: write a line to a file, and the
/// reply.
pub struct LogStep {
    pub write: Option<(String, String)>,
    pub reply: LogResponse,
}

/// The log service (its open files are kept by the caller).
pub struct LogService {}

impl LogService {
    pub fn new() -> (s: LogService) {
        LogService {}
    }

    /// The file that `module` logs to.
    pub fn get_log_path(&self, module: &str) -> (p: String)
        ensures
            p@ == LOG_DIR@ + "/"@ + log_file_name(lowercase(module@)),
    {
        let lower = to_lower(module);
        log_path_for(lower.as_str())
    }

    /// The answer to a request: a log entry is written to its module's
    /// file and acknowledged; queries are refused.
    pub fn handle_request(&self, request: LogRequest) -> (s: LogStep)
        ensures
            match request {
                LogRequest::Log { level, module, message, timestamp } =>
                    s.reply is Success && (s.write matches Some((path, line))
                        && path@ == LOG_DIR@ + "/"@ + log_file_name(lowercase(module@))
                        && line@ == log_line_text(level, module@, message@, timestamp)),
                LogRequest::Query { .. } =>
                    s.write is None && (s.reply matches LogResponse::Error(m) && m@ == "Query not implemented"@),
                LogRequest::GetKernelLogs =>
                    s.write is None && (s.reply matches LogResponse::Error(m) && m@ == "GetKernelLogs not implemented via IPC yet"@),
            },
    {
        match request {
            LogRequest::Log { level, module, message, timestamp } => {
                let line = log_line(level, module.as_str(), message.as_str(), timestamp);
                let path = self.get_log_path(module.as_str());
                LogStep { write: Some((path, line)), reply: LogResponse::Success }
            },
            LogRequest::Query { .. } => LogStep { write: None, reply: LogResponse::Error(owned("Query not implemented")) },
            LogRequest::GetKernelLogs => LogStep {
                write: None,
                reply: LogResponse::Error(owned("GetKernelLogs not implemented via IPC yet")),
            },
        }
    }
}

} // verus!
