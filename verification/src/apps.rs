//! The logic of the graphical system applications: the desktop's and the
//! login window's layout, the login button's exchange with the services,
//! and the terminal emulator's keys and output.
use vstd::prelude::*;

use crate::ipc::{AipcMessage, AuthResponse, SessionRequest, SessionResponse};
use crate::rect::Rect;
use crate::strs::{owned, push_char};
use crate::widgets::{Button, Label, Panel, PasswordBox, TextBox};

verus! {

// ---------------------------------------------------------------------
// Desktop
// ---------------------------------------------------------------------

/// The desktop: a task bar along the bottom of a 1024 x 768 screen, with a
/// button that opens a terminal.
pub fn desktop_layout() -> (r: (Panel, Button))
    ensures
        r.0.rect == (Rect { x: 0, y: 728, width: 1024, height: 40 }),
        r.1.text@ == "Terminal"@,
        r.1.rect == (Rect { x: 10, y: 733, width: 100, height: 30 }),
        !r.1.pressed,
{
    (
        Panel { rect: Rect::new(0, 728, 1024, 40) },
        Button { text: owned("Terminal"), rect: Rect::new(10, 733, 100, 30), pressed: false },
    )
}

// ---------------------------------------------------------------------
// Graphical login
// ---------------------------------------------------------------------

/// The widgets of the login window, top to bottom.
pub struct LoginForm {
    pub panel: Panel,
    pub user_label: Label,
    pub user_box: TextBox,
    pub pass_label: Label,
    pub pass_box: PasswordBox,
    pub button: Button,
}

/// The login window's widgets: the user name field starts focused.
pub fn login_form() -> (f: LoginForm)
    ensures
        f.panel.rect == (Rect { x: 50, y: 50, width: 300, height: 200 }),
        f.user_label.text@ == "Username:"@,
        f.user_label.rect == (Rect { x: 70, y: 70, width: 100, height: 20 }),
        f.user_box.rect == (Rect { x: 170, y: 70, width: 150, height: 30 }),
        f.user_box.focused,
        f.user_box.text@.len() == 0,
        f.pass_label.text@ == "Password:"@,
        f.pass_label.rect == (Rect { x: 70, y: 120, width: 100, height: 20 }),
        f.pass_box.rect == (Rect { x: 170, y: 120, width: 150, height: 30 }),
        !f.pass_box.focused,
        f.pass_box.text@.len() == 0,
        f.button.text@ == "Login"@,
        f.button.rect == (Rect { x: 150, y: 200, width: 100, height: 40 }),
        !f.button.pressed,
{
    let mut user_box = TextBox::new(Rect::new(170, 70, 150, 30));
    user_box.set_focused(true);
    LoginForm {
        panel: Panel { rect: Rect::new(50, 50, 300, 200) },
        user_label: Label { text: owned("Username:"), rect: Rect::new(70, 70, 100, 20) },
        user_box,
        pass_label: Label { text: owned("Password:"), rect: Rect::new(70, 120, 100, 20) },
        pass_box: PasswordBox::new(Rect::new(170, 120, 150, 30)),
        button: Button { text: owned("Login"), rect: Rect::new(150, 200, 100, 40), pressed: false },
    }
}

/// What follows the reply to the login button's authentication request.
pub enum LoginNext {
    /// Ask the session manager for a session with this request.
    OpenSession(AipcMessage),
    /// The login failed.
    Failed,
}

/// After authenticating: an authenticated user gets a session; anything
/// else is a failed login.
pub fn after_login_reply(reply: Result<AipcMessage, String>) -> (n: LoginNext)
    ensures
        match reply {
            Ok(AipcMessage::AuthRes(AuthResponse::Authenticated { internal_id, username, display_name, role, capabilities })) =>
                n matches LoginNext::OpenSession(AipcMessage::Session(SessionRequest::CreateSession {
                    internal_id: i, username: u, display_name: d, role: ro, capabilities: c }))
                    && i@ == internal_id@ && u@ == username@ && d@ == display_name@ && ro@ == role@ && c@ == capabilities@,
            _ => n is Failed,
        },
{
    match reply {
        Ok(AipcMessage::AuthRes(AuthResponse::Authenticated { internal_id, username, display_name, role, capabilities })) =>
            LoginNext::OpenSession(AipcMessage::Session(SessionRequest::CreateSession {
                internal_id,
                username,
                display_name,
                role,
                capabilities,
            })),
        _ => LoginNext::Failed,
    }
}

/// Whether the session was opened, from the session manager's reply.
pub fn session_opened(reply: Result<AipcMessage, String>) -> (b: bool)
    ensures
        b == (reply matches Ok(AipcMessage::SessionRes(SessionResponse::Success { .. }))),
{
    match reply {
        Ok(AipcMessage::SessionRes(SessionResponse::Success { .. })) => true,
        _ => false,
    }
}

// ---------------------------------------------------------------------
// Terminal emulator
// ---------------------------------------------------------------------

/// The character a key sends to the shell: letters, digits and space.
pub open spec fn terminal_key_char(code: u16) -> Option<char> {
    let letters1 = "qwertyuiop"@;
    let letters2 = "asdfghjkl"@;
    let letters3 = "zxcvbnm"@;
    let digits = "1234567890"@;
    if 16 <= code <= 25 {
        Some(letters1[code - 16])
    } else if 30 <= code <= 38 {
        Some(letters2[code - 30])
    } else if 44 <= code <= 50 {
        Some(letters3[code - 44])
    } else if code == 57 {
        Some(' ')
    } else if 2 <= code <= 11 {
        Some(digits[code - 2])
    } else {
        None
    }
}

/// The character of key `code` in the terminal.
pub fn code_to_char(code: u16) -> (r: Option<char>)
    ensures
        r == terminal_key_char(code),
{
    proof {
        reveal_strlit("qwertyuiop");
        reveal_strlit("asdfghjkl");
        reveal_strlit("zxcvbnm");
        reveal_strlit("1234567890");
    }
    if 16 <= code && code <= 25 {
        Some("qwertyuiop".get_char((code - 16) as usize))
    } else if 30 <= code && code <= 38 {
        Some("asdfghjkl".get_char((code - 30) as usize))
    } else if 44 <= code && code <= 50 {
        Some("zxcvbnm".get_char((code - 44) as usize))
    } else if code == 57 {
        Some(' ')
    } else if 2 <= code && code <= 11 {
        Some("1234567890".get_char((code - 2) as usize))
    } else {
        None
    }
}

/// The bytes a key press sends to the shell: its character, a newline for
/// enter, a backspace byte for backspace, nothing otherwise.
pub open spec fn key_bytes_of(code: u16) -> Seq<u8> {
    match terminal_key_char(code) {
        Some(c) => seq![c as u8],
        None => if code == 28 { seq![10u8] } else if code == 14 { seq![8u8] } else { Seq::empty() },
    }
}

pub fn key_bytes(code: u16) -> (b: Vec<u8>)
    ensures
        b@ == key_bytes_of(code),
{
    let mut b: Vec<u8> = Vec::new();
    match code_to_char(code) {
        Some(c) => {
            proof {
                reveal_strlit("qwertyuiop");
                reveal_strlit("asdfghjkl");
                reveal_strlit("zxcvbnm");
                reveal_strlit("1234567890");
                assert((c as u32) < 128);
            }
            b.push(c as u8);
        },
        None => {
            if code == 28 {
                b.push(10);
            } else if code == 14 {
                b.push(8);
            }
        },
    }
    assert(b@ =~= key_bytes_of(code));
    b
}

/// The screen lines after one more character of output: a newline starts
/// a new line, a carriage return is ignored, anything else extends the
/// last line (starting one if there is none).
pub open spec fn feed_char(lines: Seq<Seq<char>>, c: char) -> Seq<Seq<char>> {
    if c == '\n' {
        lines.push(Seq::empty())
    } else if c == '\r' {
        lines
    } else if lines.len() == 0 {
        seq![seq![c]]
    } else {
        lines.update(lines.len() - 1, lines.last().push(c))
    }
}

/// The screen lines after some output.
pub open spec fn feed_text(lines: Seq<Seq<char>>, s: Seq<char>) -> Seq<Seq<char>>
    decreases s.len(),
{
    if s.len() == 0 { lines } else { feed_char(feed_text(lines, s.drop_last()), s.last()) }
}

pub open spec fn line_views(v: Seq<String>) -> Seq<Seq<char>> {
    v.map_values(|s: String| s@)
}

/// What `String::from_utf8_lossy` makes of bytes: the text they encode,
/// each invalid sequence replaced by U+FFFD.
pub uninterp spec fn lossy_utf8(bytes: Seq<u8>) -> Seq<char>;

/// Decodes bytes as UTF-8, replacing invalid sequences
/// (`String::from_utf8_lossy`); the result is named by `lossy_utf8`, a
/// function of the bytes alone.
#[verifier::external_body]
fn decode_lossy(bytes: &[u8]) -> (s: String)
    ensures
        s@ == lossy_utf8(bytes@),
{
    String::from_utf8_lossy(bytes).to_string()
}

/// Adds text written by the shell to the screen lines.
pub fn append_text(lines: &mut Vec<String>, text: &str)
    ensures
        line_views(final(lines)@) == feed_text(line_views(old(lines)@), text@),
{
    let n = text.unicode_len();
    let mut i: usize = 0;
    while i < n
        invariant
            n == text@.len(),
            i <= n,
            line_views(lines@) == feed_text(line_views(old(lines)@), text@.take(i as int)),
        decreases n - i,
    {
        let c = text.get_char(i);
        let ghost before = line_views(lines@);
        if c == '\n' {
            lines.push(String::new());
        } else if c == '\r' {
        } else {
            if lines.len() == 0 {
                lines.push(String::new());
            }
            let last = lines.len() - 1;
            let mut s = owned(lines[last].as_str());
            push_char(&mut s, c);
            lines.set(last, s);
        }
        proof {
            assert(text@.take(i + 1).drop_last() =~= text@.take(i as int));
            assert(line_views(lines@) =~= feed_char(before, c));
        }
        i = i + 1;
    }
    assert(text@.take(n as int) =~= text@);
}

/// Adds bytes read from the shell to the screen lines, decoding them as
/// UTF-8.
pub fn append_output(lines: &mut Vec<String>, bytes: &[u8])
    ensures
        line_views(final(lines)@) == feed_text(line_views(old(lines)@), lossy_utf8(bytes@)),
{
    let s = decode_lossy(bytes);
    append_text(lines, s.as_str());
}

/// The terminal types what the text fields type for letters, digits and
/// the space bar, unshifted; every other key types nothing there. A key
/// press sends the byte of its character, enter sends a newline (10),
/// backspace a backspace byte (8), and any other key nothing.
pub proof fn lemma_terminal_keys(code: u16)
    ensures
        (16 <= code <= 25 || 30 <= code <= 38 || 44 <= code <= 50 || 2 <= code <= 11 || code == 57)
            ==> terminal_key_char(code) == crate::widgets::key_char(code, false),
        !(16 <= code <= 25 || 30 <= code <= 38 || 44 <= code <= 50 || 2 <= code <= 11 || code == 57)
            ==> terminal_key_char(code) is None,
        code == 28 ==> key_bytes_of(code) == seq![10u8],
        code == 14 ==> key_bytes_of(code) == seq![8u8],
        terminal_key_char(code) is Some ==> key_bytes_of(code) == seq![terminal_key_char(code)->0 as u8]
            && (terminal_key_char(code)->0 as u32) < 128,
        terminal_key_char(code) is None && code != 28 && code != 14 ==> key_bytes_of(code).len() == 0,
{
    crate::widgets::lemma_us_layout();
    reveal_strlit("qwertyuiop");
    reveal_strlit("asdfghjkl");
    reveal_strlit("zxcvbnm");
    reveal_strlit("1234567890");
    reveal_strlit("1234567890-=");
    reveal_strlit("qwertyuiop[]");
    reveal_strlit("asdfghjkl;'");
    reveal_strlit("zxcvbnm,./");
    if 16 <= code <= 25 {
        let i = code - 16;
        assert(crate::widgets::key_char((16 + i) as u16, false) == Some("qwertyuiop[]"@[i]));
    } else if 30 <= code <= 38 {
        let i = code - 30;
        assert(crate::widgets::key_char((30 + i) as u16, false) == Some("asdfghjkl;'"@[i]));
    } else if 44 <= code <= 50 {
        let i = code - 44;
        assert(crate::widgets::key_char((44 + i) as u16, false) == Some("zxcvbnm,./"@[i]));
    } else if 2 <= code <= 11 {
        let i = code - 2;
        assert(crate::widgets::key_char((2 + i) as u16, false) == Some("1234567890-="@[i]));
    }
}

} // verus!
