//! System set-up shared by the AyuxOS programs: what a log call sends,
//! which file systems are mounted and directories made at boot, the
//! environment of the programs, and names of shared-memory surfaces.
use vstd::prelude::*;

use crate::ipc::{AipcEnvelope, AipcHeader, AipcMessage, LogLevel, LogRequest, MessageType, AIPC_VERSION};
use crate::logging::log_line_text;
use crate::num::{decimal, push_decimal};
use crate::strs::{concat2, concat3, owned};

verus! {

/// The socket the log service listens on.
pub const LOG_SERVICE_SOCKET: &'static str = "/run/log.sock";

/// The envelope a program sends to log a message: a request from an
/// unnamed sender, outside any session, not awaiting an answer.
pub fn log_envelope(level: LogLevel, module: &str, message: &str, timestamp: u64) -> (env: AipcEnvelope)
    ensures
        env.header.version == AIPC_VERSION,
        env.header.message_type == MessageType::Request,
        env.header.sender@ == "unknown"@,
        env.header.session_id is None,
        env.header.correlation_id == 0,
        env.message matches AipcMessage::Log(LogRequest::Log { level: l, module: m, message: t, timestamp: ts })
            && l == level && m@ == module@ && t@ == message@ && ts == timestamp,
{
    AipcEnvelope {
        header: AipcHeader {
            version: AIPC_VERSION,
            message_type: MessageType::Request,
            sender: owned("unknown"),
            session_id: None,
            correlation_id: 0,
        },
        message: AipcMessage::Log(LogRequest::Log {
            level,
            module: owned(module),
            message: owned(message),
            timestamp,
        }),
    }
}

/// The line written to the error stream when the log service cannot be
/// reached: the log line without its newline.
pub fn log_fallback_line(level: LogLevel, module: &str, message: &str, timestamp: u64) -> (l: String)
    ensures
        l@ + "\n"@ == log_line_text(level, module@, message@, timestamp),
{
    let line = crate::logging::log_line(level, module, message, timestamp);
    let n = line.unicode_len();
    proof {
        reveal_strlit("\n");
    }
    let l = line.as_str().substring_char(0, n - 1);
    let r = owned(l);
    assert(r@ + "\n"@ =~= line@);
    r
}

/// A file system to mount at boot, with its mount flags.
pub struct MountSpec {
    pub source: String,
    pub target: String,
    pub fstype: String,
    pub nosuid: bool,
    pub nodev: bool,
    pub noexec: bool,
}

pub open spec fn mount_is(m: MountSpec, source: Seq<char>, target: Seq<char>, fstype: Seq<char>, nosuid: bool, nodev: bool, noexec: bool) -> bool {
    &&& m.source@ == source
    &&& m.target@ == target
    &&& m.fstype@ == fstype
    &&& m.nosuid == nosuid
    &&& m.nodev == nodev
    &&& m.noexec == noexec
}

fn mount_spec(source: &str, target: &str, fstype: &str, nosuid: bool, nodev: bool, noexec: bool) -> (m: MountSpec)
    ensures
        mount_is(m, source@, target@, fstype@, nosuid, nodev, noexec),
{
    MountSpec { source: owned(source), target: owned(target), fstype: owned(fstype), nosuid, nodev, noexec }
}

/// The file systems mounted at boot, in order: the process and device
/// information systems, the device nodes, and two memory file systems.
pub fn boot_mounts() -> (ms: Vec<MountSpec>)
    ensures
        ms@.len() == 5,
        mount_is(ms@[0], "proc"@, "/proc"@, "proc"@, true, true, true),
        mount_is(ms@[1], "sysfs"@, "/sys"@, "sysfs"@, true, true, true),
        mount_is(ms@[2], "devtmpfs"@, "/dev"@, "devtmpfs"@, true, false, false),
        mount_is(ms@[3], "tmpfs"@, "/run"@, "tmpfs"@, true, true, false),
        mount_is(ms@[4], "tmpfs"@, "/tmp"@, "tmpfs"@, true, true, false),
{
    let mut ms: Vec<MountSpec> = Vec::new();
    ms.push(mount_spec("proc", "/proc", "proc", true, true, true));
    ms.push(mount_spec("sysfs", "/sys", "sysfs", true, true, true));
    ms.push(mount_spec("devtmpfs", "/dev", "devtmpfs", true, false, false));
    ms.push(mount_spec("tmpfs", "/run", "tmpfs", true, true, false));
    ms.push(mount_spec("tmpfs", "/tmp", "tmpfs", true, true, false));
    ms
}

/// The mount points, made before mounting.
pub fn mount_points() -> (ds: Vec<String>)
    ensures
        ds@.len() == 5,
        ds@[0]@ == "/proc"@,
        ds@[1]@ == "/sys"@,
        ds@[2]@ == "/dev"@,
        ds@[3]@ == "/run"@,
        ds@[4]@ == "/tmp"@,
{
    vec![owned("/proc"), owned("/sys"), owned("/dev"), owned("/run"), owned("/tmp")]
}

/// The top-level directories made after mounting.
pub fn base_directories() -> (ds: Vec<String>)
    ensures
        ds@.len() == 3,
        ds@[0]@ == "/main"@,
        ds@[1]@ == "/root"@,
        ds@[2]@ == "/users"@,
{
    vec![owned("/main"), owned("/root"), owned("/users")]
}

/// The message of a failed mount.
pub fn mount_error(target: &str, reason: &str) -> (m: String)
    ensures
        m@ == "Failed to mount "@ + target@ + ": "@ + reason@,
{
    let a = concat3("Failed to mount ", target, ": ");
    concat2(a.as_str(), reason)
}

/// The environment variables every AyuxOS program sets.
pub fn base_environment() -> (vars: Vec<(String, String)>)
    ensures
        vars@.len() == 2,
        vars@[0].0@ == "PATH"@ && vars@[0].1@ == "/bin:/usr/bin"@,
        vars@[1].0@ == "TERM"@ && vars@[1].1@ == "linux"@,
{
    vec![(owned("PATH"), owned("/bin:/usr/bin")), (owned("TERM"), owned("linux"))]
}

/// The name of the shared memory holding a window's pixels, made unique
/// by the process id and a random number.
pub fn window_shm_name(pid: u32, nonce: u32) -> (n: String)
    ensures
        n@ == "win_shm_"@ + decimal(pid as nat) + "_"@ + decimal(nonce as nat),
{
    let mut n = owned("win_shm_");
    push_decimal(&mut n, pid as u64);
    let mut n = concat2(n.as_str(), "_");
    push_decimal(&mut n, nonce as u64);
    n
}

} // verus!
