//! AIPC: the message vocabulary spoken between AyuxOS services, and the
//! framing of a serialised envelope on a stream.
use vstd::prelude::*;

verus! {

pub const AIPC_VERSION: u32 = 1;

#[derive(Debug, Clone, Copy, PartialEq, Eq, Structural)]
pub enum MessageType {
    Request,
    Response,
    Event,
    Error,
}

#[derive(Debug)]
pub struct AipcHeader {
    pub version: u32,
    pub message_type: MessageType,
    pub sender: String,
    pub session_id: Option<String>,
    pub correlation_id: u64,
}

#[derive(Debug)]
pub struct AipcEnvelope {
    pub header: AipcHeader,
    pub message: AipcMessage,
}

#[derive(Debug)]
pub enum AuthRequest {
    Login { username: String, password: String },
    ChangePassword { username: String, old_password: String, new_password: String },
    CreateUser { username: String, password: String, display_name: String, role: String },
    DeleteUser { internal_id: String },
    ConfirmDeletion { password: String },
    ListUsers,
    CountUsers,
}

#[derive(Debug)]
pub enum AuthResponse {
    Success,
    Authenticated {
        internal_id: String,
        username: String,
        display_name: String,
        role: String,
        capabilities: Vec<String>,
    },
    Error(String),
    UserList(Vec<String>),
    UserCount(usize),
}

#[derive(Debug)]
pub enum SessionRequest {
    CreateSession {
        internal_id: String,
        username: String,
        display_name: String,
        role: String,
        capabilities: Vec<String>,
    },
    DestroySession { token: String },
    ValidateSession { token: String },
}

#[derive(Debug)]
pub enum SessionResponse {
    Success { token: String },
    Error(String),
    Valid {
        internal_id: String,
        username: String,
        display_name: String,
        role: String,
        capabilities: Vec<String>,
    },
}

#[derive(Debug)]
pub enum SecurityRequest {
    Authorize { operation: String, path: String },
    FsLs { path: String },
    FsRead { path: String },
    FsWrite { path: String, content: Vec<u8> },
    FsMkdir { path: String },
    FsTouch { path: String },
    PowerReboot,
    PowerShutdown,
}

#[derive(Debug)]
pub enum SecurityResponse {
    Allowed,
    Denied(String),
    FsEntries(Vec<String>),
    FsContent(Vec<u8>),
    Success,
    Error(String),
}

#[derive(Debug, Clone, Copy, PartialEq, Eq, Structural)]
pub enum LogLevel {
    Debug,
    Info,
    Warn,
    Error,
    Critical,
}

#[derive(Debug)]
#[allow(inconsistent_fields)]
pub enum LogRequest {
    Log { level: LogLevel, module: String, message: String, timestamp: u64 },
    Query { min_level: Option<LogLevel>, module: Option<String>, limit: usize },
    GetKernelLogs,
}

#[derive(Debug)]
pub enum LogResponse {
    Success,
    Logs(Vec<String>),
    Error(String),
}

#[derive(Debug)]
pub enum NetworkRequest {
    ListInterfaces,
    GetInterfaceConfig { name: String },
    ConfigureInterface { name: String, up: bool, dhcp: bool },
}

#[derive(Debug)]
pub enum NetworkResponse {
    Interfaces(Vec<String>),
    InterfaceConfig { name: String, up: bool, ip: Option<String>, mac: String },
    Success,
    Error(String),
}

#[derive(Debug)]
pub enum HalRequest {
    DisplayGetInfo,
    InputGetDevices,
    StorageGetDevices,
    PowerReboot,
    PowerShutdown,
    ClockGetTime,
    RandomGet { length: usize },
    DiscoveryScan,
}

#[derive(Debug)]
pub enum HalResponse {
    DisplayInfo { width: u32, height: u32, bpp: u32 },
    InputDevices(Vec<String>),
    StorageDevices(Vec<String>),
    ClockTime(u64),
    RandomData(Vec<u8>),
    DiscoveryResult(Vec<String>),
    Success,
    Error(String),
}

/// An input event as delivered by the window server to a window, with the
/// pointer position both on screen and relative to the window.
#[derive(Debug, Clone, Copy, PartialEq, Eq, Structural)]
pub enum InputEventData {
    MouseMove { x: i32, y: i32, local_x: i32, local_y: i32 },
    MouseButton { button: u16, pressed: bool, x: i32, y: i32, local_x: i32, local_y: i32 },
    Key { code: u16, pressed: bool },
}

#[derive(Debug)]
pub enum WindowRequest {
    CreateWindow { title: String, width: u32, height: u32, shm_name: String },
    DestroyWindow { window_id: u32 },
}

#[derive(Debug)]
pub enum WindowResponse {
    WindowCreated { window_id: u32 },
    Error(String),
}

#[derive(Debug)]
pub enum WindowEvent {
    Input { event: InputEventData },
    Dirty { window_id: u32 },
}

#[derive(Debug)]
pub enum AipcMessage {
    Auth(AuthRequest),
    AuthRes(AuthResponse),
    Session(SessionRequest),
    SessionRes(SessionResponse),
    Security(SecurityRequest),
    SecurityRes(SecurityResponse),
    Log(LogRequest),
    LogRes(LogResponse),
    Network(NetworkRequest),
    NetworkRes(NetworkResponse),
    Hal(HalRequest),
    HalRes(HalResponse),
    Window(WindowRequest),
    WindowRes(WindowResponse),
    WindowEvent(WindowEvent),
    GenericError(String),
}

/// The four little-endian bytes of a 32-bit value.
pub open spec fn le32(n: u32) -> Seq<u8> {
    seq![
        (n % 256) as u8,
        ((n / 256) % 256) as u8,
        ((n / 65536) % 256) as u8,
        ((n / 16777216) % 256) as u8,
    ]
}

/// The value of four little-endian bytes.
pub open spec fn le32_value(b: Seq<u8>) -> int {
    b[0] + 256 * b[1] + 65536 * b[2] + 16777216 * b[3]
}

/// A frame on the wire: the payload length as a little-endian `u32`
/// (taken modulo 2^32, as `len as u32` does), then the payload.
pub open spec fn frame(payload: Seq<u8>) -> Seq<u8> {
    le32((payload.len() % 0x1_0000_0000) as u32) + payload
}

/// A frame announces the length of its payload, which follows it
/// unchanged (for payloads shorter than 4 GiB, which the length field can
/// count).
pub proof fn lemma_frame_round_trip(payload: Seq<u8>)
    requires
        payload.len() < 0x1_0000_0000,
    ensures
        le32_value(frame(payload).take(4)) == payload.len(),
        frame(payload).skip(4) == payload,
{
    let n = payload.len() as u32;
    assert(frame(payload).take(4) =~= le32(n));
    assert(frame(payload).skip(4) =~= payload);
    assert((n % 256) + 256 * ((n / 256) % 256) + 65536 * ((n / 65536) % 256) + 16777216 * ((n / 16777216) % 256) == n)
        by (nonlinear_arith)
        requires
            n < 0x1_0000_0000,
    ;
}

/// Frames a serialised envelope for sending.
pub fn encode_frame(payload: &[u8]) -> (out: Vec<u8>)
    ensures
        out@ == frame(payload@),
{
    let n: u32 = (payload.len() as u64 % 0x1_0000_0000u64) as u32;
    let mut out: Vec<u8> = Vec::new();
    out.push((n % 256) as u8);
    out.push(((n / 256) % 256) as u8);
    out.push(((n / 65536) % 256) as u8);
    out.push(((n / 16777216) % 256) as u8);
    let ghost head = out@;
    assert(head =~= le32(n));
    for i in 0..payload.len()
        invariant
            out@ == head + payload@.subrange(0, i as int),
    {
        out.push(payload[i]);
        assert(out@ =~= head + payload@.subrange(0, i + 1));
    }
    assert(payload@.subrange(0, payload@.len() as int) =~= payload@);
    out
}

/// The payload length announced by a frame's four header bytes.
pub fn decode_frame_len(header: [u8; 4]) -> (len: usize)
    ensures
        len == le32_value(header@),
{
    let b0 = header[0] as u64;
    let b1 = header[1] as u64;
    let b2 = header[2] as u64;
    let b3 = header[3] as u64;
    let v: u64 = b0 + 256 * b1 + 65536 * b2 + 16777216 * b3;
    assert(v <= u32::MAX);
    v as usize
}

/// The envelope of a request sent by `sender`.
pub fn request_envelope(
    sender: &str,
    session_id: Option<String>,
    message: AipcMessage,
    correlation_id: u64,
) -> (env: AipcEnvelope)
    ensures
        env.header.version == AIPC_VERSION,
        env.header.message_type == MessageType::Request,
        env.header.sender@ == sender@,
        env.header.session_id == session_id,
        env.header.correlation_id == correlation_id,
        env.message == message,
{
    AipcEnvelope {
        header: AipcHeader {
            version: AIPC_VERSION,
            message_type: MessageType::Request,
            sender: crate::strs::owned(sender),
            session_id,
            correlation_id,
        },
        message,
    }
}

/// The envelope of a service's response to the request carrying
/// `correlation_id`.
pub fn response_envelope(sender: &str, correlation_id: u64, message: AipcMessage) -> (env:
    AipcEnvelope)
    ensures
        env.header.version == AIPC_VERSION,
        env.header.message_type == MessageType::Response,
        env.header.sender@ == sender@,
        env.header.session_id is None,
        env.header.correlation_id == correlation_id,
        env.message == message,
{
    AipcEnvelope {
        header: AipcHeader {
            version: AIPC_VERSION,
            message_type: MessageType::Response,
            sender: crate::strs::owned(sender),
            session_id: None,
            correlation_id,
        },
        message,
    }
}

/// Accepts a response only when it answers the request with
/// `correlation_id`.
pub fn accept_response(correlation_id: u64, response: AipcEnvelope) -> (r: Result<
    AipcMessage,
    String,
>)
    ensures
        response.header.correlation_id == correlation_id ==> r == Ok::<AipcMessage, String>(
            response.message,
        ),
        response.header.correlation_id != correlation_id ==> (r matches Err(e) && e@
            == "Correlation ID mismatch"@),
{
    if response.header.correlation_id != correlation_id {
        return Err(crate::strs::owned("Correlation ID mismatch"));
    }
    Ok(response.message)
}

} // verus!
