use ayux::auth::{self, AuthService, AuthStep};
use ayux::canvas::Canvas;
use ayux::ipc::{AipcMessage, AuthRequest, AuthResponse, InputEventData, SecurityRequest, SecurityResponse, SessionRequest, SessionResponse};
use ayux::security::{Capability, SecurityManager};
use ayux::session::{SessionManager, SessionStep};
use ayux::shell::{parse_command, Shell, ShellCommand};
use ayux::shell_ops::{self, ShellService};
use ayux::window_server::{ClientWindows, WindowServer};
use ed25519_dalek::Signer;

fn admin_service() -> AuthService {
    let mut a = AuthService::new(vec![1u8; 32], Vec::new());
    let step = a.handle_request(
        AuthRequest::CreateUser {
            username: "admin".to_string(),
            password: "secret".to_string(),
            display_name: "Admin".to_string(),
            role: "Administrator".to_string(),
        },
        None,
    );
    assert!(matches!(step, AuthStep::CreateHome { .. }));
    a.resume_home_created(Ok(()));
    a
}

#[test]
fn first_account_logs_in() {
    let mut a = admin_service();
    assert_eq!(a.user_count(), 1);
    match a.handle_request(AuthRequest::Login { username: "admin".to_string(), password: "secret".to_string() }, None) {
        AuthStep::Reply { response: AuthResponse::Authenticated { username, role, .. }, .. } => {
            assert_eq!(username, "admin");
            assert_eq!(role, "Administrator");
        },
        _ => panic!("expected a login"),
    }
}

#[test]
fn wrong_password_and_unknown_user_are_refused() {
    let mut a = admin_service();
    for (u, p) in [("admin", "nope"), ("ghost", "secret")] {
        match a.handle_request(AuthRequest::Login { username: u.to_string(), password: p.to_string() }, None) {
            AuthStep::Reply { response: AuthResponse::Error(e), .. } => assert_eq!(e, "Authentication failed."),
            _ => panic!("expected a refusal"),
        }
    }
}

#[test]
fn password_change_replaces_the_hash() {
    let mut a = admin_service();
    let login = |a: &mut AuthService, p: &str| {
        matches!(
            a.handle_request(AuthRequest::Login { username: "admin".to_string(), password: p.to_string() }, None),
            AuthStep::Reply { response: AuthResponse::Authenticated { .. }, .. }
        )
    };
    let step = a.handle_request(
        AuthRequest::ChangePassword {
            username: "admin".to_string(),
            old_password: "secret".to_string(),
            new_password: "better".to_string(),
        },
        None,
    );
    assert!(matches!(step, AuthStep::Reply { response: AuthResponse::Success, persist: true, .. }));
    assert!(login(&mut a, "better"));
    assert!(!login(&mut a, "secret"));
    // A wrong old password changes nothing.
    let step = a.handle_request(
        AuthRequest::ChangePassword {
            username: "admin".to_string(),
            old_password: "secret".to_string(),
            new_password: "other".to_string(),
        },
        None,
    );
    assert!(matches!(step, AuthStep::Reply { response: AuthResponse::Error(_), .. }));
    assert!(login(&mut a, "better"));
}

#[test]
fn stored_record_does_not_hold_the_name() {
    let a = admin_service();
    let (key, rec) = &a.users()[0];
    for v in [key, &rec.userid_hash, &rec.internal_id, &rec.password_hash] {
        assert_ne!(v, "admin");
    }
    assert_eq!(rec.internal_id.len(), 36);
    assert!(rec.password_hash.starts_with('$'));
}

#[test]
fn user_names_are_hidden_by_keys() {
    let a = admin_service();
    let key = a.key_of("admin");
    assert_eq!(key.len(), 64);
    assert_ne!(key, "admin");
    assert_eq!(a.users()[0].0, key);
    assert_eq!(a.key_of("admin"), key);
}

#[test]
fn second_account_needs_an_administrator() {
    let mut a = admin_service();
    let req = AuthRequest::CreateUser {
        username: "bob".to_string(),
        password: "pw".to_string(),
        display_name: "Bob".to_string(),
        role: "Standard".to_string(),
    };
    match a.handle_request(req, None) {
        AuthStep::Reply { response: AuthResponse::Error(e), .. } => assert_eq!(e, "Missing session token"),
        _ => panic!("expected a refusal"),
    }
}

#[test]
fn admin_token_is_recognised_from_session_reply() {
    let valid = |role: &str| {
        Some(SessionResponse::Valid {
            internal_id: "i".to_string(),
            username: "u".to_string(),
            display_name: "U".to_string(),
            role: role.to_string(),
            capabilities: vec![],
        })
    };
    assert!(admin_service().validate_admin_token(valid("Administrator")));
    assert!(!admin_service().validate_admin_token(valid("Standard")));
    assert!(!admin_service().validate_admin_token(None));
    assert!(auth::validate_username("alice_1").is_ok());
    assert!(auth::validate_username("").is_err());
}

#[test]
fn security_policy_for_users_and_root() {
    let m = SecurityManager::new();
    assert!(m.has_capability("root", Capability::Admin));
    assert!(!m.has_capability("ayux", Capability::Admin));
    assert!(m.has_capability("ayux", Capability::FsWrite));
    assert!(m.is_allowed("ayux", "read", "/users/ayux/data/file.txt"));
    assert!(!m.is_allowed("ayux", "read", "/root/secret.txt"));
    assert!(!m.is_allowed("ayux", "read", "/users/ayux/../bob/x"));
    assert!(!m.is_allowed("ayux", "read", "/users/bob/x"));
    assert!(m.is_allowed("ayux", "write", "/tmp/x"));
    assert!(m.is_allowed("root", "read", "/etc/passwd"));
    assert!(!m.is_allowed("root", "read", "/users/ayux/x"));
    assert!(!m.is_allowed("ayux", "read", "/users/ayux2/f"));
    assert!(m.is_allowed("ayux", "read", "/users/ayux"));
    assert!(!m.is_allowed("root", "read", "/root/../users/x/f"));
    assert!(!m.is_allowed("root", "read", "/./users/x/f"));
    assert!(!m.is_allowed("root", "read", "//users/x/f"));
    assert!(!m.is_allowed("root", "read", "users/x/f"));
    assert!(!m.is_allowed("root", "ls", "/users/."));
    assert!(!m.is_allowed("root", "ls", "/etc/."));
    assert!(m.is_allowed("root", "ls", "/users"));
    assert!(m.is_allowed("root", "ls", "/"));
    assert!(!m.is_allowed("root", "write", "/ayux/config/services.toml"));
    assert!(m.is_allowed("root", "read", "/ayux/config/services.toml"));
    assert!(!m.is_allowed("a/b", "read", "/users/a/b/f"));
}

#[test]
fn signatures_are_checked() {
    let signing = ed25519_dalek::SigningKey::from_bytes(&[7u8; 32]);
    let public = signing.verifying_key().to_bytes();
    let sig = signing.sign(b"update").to_bytes();
    let m = SecurityManager::new();
    assert!(m.verify_signature(&public, b"update", &sig));
    assert!(!m.verify_signature(&public, b"updatf", &sig));
    assert!(!m.verify_signature(&public[..31], b"update", &sig));
    assert!(!m.verify_signature(&public, b"update", &sig[..63]));
}

#[test]
fn security_requests_need_a_session() {
    let m = SecurityManager::new();
    match m.handle_request(&None, &SecurityRequest::FsLs { path: "/tmp".to_string() }) {
        ayux::security::SecurityStep::Reply(SecurityResponse::Denied(_)) => {},
        ayux::security::SecurityStep::Reply(SecurityResponse::Error(_)) => {},
        _ => panic!("expected a refusal"),
    }
}

#[test]
fn sessions_live_until_destroyed() {
    let mut s = SessionManager::new();
    let step = s.handle_request(SessionRequest::CreateSession {
        internal_id: "id1".to_string(),
        username: "alice".to_string(),
        display_name: "Alice".to_string(),
        role: "Standard".to_string(),
        capabilities: vec!["fs.read".to_string()],
    });
    let token = match step {
        SessionStep::Launch { token, username } => {
            assert_eq!(username, "alice");
            assert_eq!(token.len(), 36);
            token
        },
        _ => panic!("expected a launch"),
    };
    match s.resume_launch(Ok(42)) {
        SessionResponse::Success { token: t } => assert_eq!(t, token),
        _ => panic!("expected success"),
    }
    match s.validate_session(token.clone()) {
        SessionResponse::Valid { username, .. } => assert_eq!(username, "alice"),
        _ => panic!("expected a valid session"),
    }
    match s.destroy_session(token.clone()) {
        SessionStep::Terminate { pid, .. } => assert_eq!(pid, 42),
        _ => panic!("expected the shell to be stopped"),
    }
    match s.validate_session(token) {
        SessionResponse::Error(e) => assert_eq!(e, "Invalid session"),
        _ => panic!("expected an invalid session"),
    }
}

#[test]
fn windows_get_focus_and_input() {
    let mut ws = WindowServer::new(800, 600);
    let id = ws.reserve_id();
    ws.add_window(id, "t".to_string(), 200, 100);
    assert_eq!(ws.pointer(), (400, 300));
    // Pointer events go to the window under the pointer, with the position
    // relative to it; the window spans (100, 100) to (300, 200).
    assert!(ws.dispatch_input("mouse_move", None, None, None).is_none());
    ws.move_pointer(0, -250, 800, 600);
    ws.move_pointer(1, -150, 800, 600);
    assert_eq!(ws.pointer(), (150, 150));
    match ws.dispatch_input("mouse_move", None, None, None) {
        Some((i, InputEventData::MouseMove { x, y, local_x, local_y })) => {
            assert_eq!((i, x, y, local_x, local_y), (id, 150, 150, 50, 50))
        },
        _ => panic!("expected delivery"),
    }
    match ws.dispatch_input("mouse_button", Some(0x110), Some(true), None) {
        Some((i, InputEventData::MouseButton { button, pressed, local_x, local_y, .. })) => {
            assert_eq!((i, button, pressed, local_x, local_y), (id, 0x110, true, 50, 50))
        },
        _ => panic!("expected delivery"),
    }
    match ws.dispatch_input("mouse", None, Some(true), Some(0)) {
        Some((i, InputEventData::Key { .. })) => assert_eq!(i, id),
        _ => panic!("expected delivery"),
    }
    ws.move_pointer(0, 500, 800, 600);
    assert_eq!(ws.pointer(), (650, 150));
    assert!(ws.dispatch_input("mouse", None, Some(true), Some(0)).is_none());
    assert!(ws.dispatch_input("mouse_button", Some(0x110), Some(true), None).is_none());
    match ws.dispatch_input("key", None, Some(true), Some(30)) {
        Some((i, InputEventData::Key { code, pressed })) => assert_eq!((i, code, pressed), (id, 30, true)),
        _ => panic!("expected delivery to the focused window"),
    }
    ws.remove_window(id);
    assert!(ws.window_list().is_empty());
}

#[test]
fn clients_touch_only_their_own_windows() {
    let mut ws = WindowServer::new(800, 600);
    let mut a = ClientWindows::new();
    let mut b = ClientWindows::new();
    let a1 = ws.reserve_id();
    ws.add_window(a1, "a1".to_string(), 10, 10);
    a.on_created(a1);
    let b1 = ws.reserve_id();
    ws.add_window(b1, "b1".to_string(), 10, 10);
    b.on_created(b1);
    let a2 = ws.reserve_id();
    ws.add_window(a2, "a2".to_string(), 10, 10);
    a.on_created(a2);
    // b cannot destroy a's window.
    b.on_destroy(&mut ws, a1);
    assert_eq!(ws.window_list().len(), 3);
    assert!(a.owns(a1) && !b.owns(a1));
    // b cannot mark a's window for redrawing, only its own.
    let mut buf = vec![0u8; 800 * 600 * 4];
    let mut c = ayux::canvas::Canvas::new(&mut buf, 800, 600, 3200);
    let s = vec![0u8; 400];
    assert!(ws.compose(&mut c, &[&s[..], &s[..], &s[..]]));
    b.on_dirty(&mut ws, a1);
    assert!(ws.window_list().iter().all(|w| !w.dirty));
    b.on_dirty(&mut ws, b1);
    assert!(ws.window_list().iter().any(|w| w.id == b1 && w.dirty));
    // a destroys its own window; the focus (on a2) stays.
    a.on_destroy(&mut ws, a1);
    assert_eq!(ws.window_list().iter().map(|w| w.id).collect::<Vec<_>>(), vec![b1, a2]);
    assert_eq!(a.window_ids(), &vec![a2]);
    // a disconnects: its windows go, the focus passes to b1.
    a.on_disconnect(&mut ws);
    assert_eq!(ws.window_list().iter().map(|w| w.id).collect::<Vec<_>>(), vec![b1]);
    match ws.dispatch_input("key", None, Some(true), Some(30)) {
        Some((i, _)) => assert_eq!(i, b1),
        None => panic!("expected delivery to b1"),
    }
}

#[test]
fn compose_draws_windows_and_pointer() {
    let mut ws = WindowServer::new(300, 300);
    let id = ws.reserve_id();
    ws.add_window(id, "t".to_string(), 2, 1);
    let surface: Vec<u8> = vec![10, 20, 30, 255, 40, 50, 60, 255];
    let mut buf = vec![0u8; 300 * 300 * 4];
    let mut c = Canvas::new(&mut buf, 300, 300, 1200);
    assert!(ws.compose(&mut c, &[&surface[..]]));
    assert!(!ws.compose(&mut c, &[&surface[..]]));
    let px = |x: usize, y: usize| [buf[y * 1200 + 4 * x], buf[y * 1200 + 4 * x + 1], buf[y * 1200 + 4 * x + 2]];
    assert_eq!(px(100, 100), [10, 20, 30]);
    assert_eq!(px(101, 100), [40, 50, 60]);
    assert_eq!(px(99, 99), [255, 255, 255]);
    assert_eq!(px(100, 105), [52, 44, 40]);
    assert_eq!(px(150, 150), [0, 0, 255]);
    assert_eq!(px(160, 160), [52, 44, 40]);
}

#[test]
fn shell_commands_and_suggestions() {
    let sh = Shell::new("u".to_string(), "U".to_string(), "i".to_string(), "t".to_string());
    assert_eq!(sh.levenshtein_distance("kitten", "sitting"), 3);
    assert_eq!(sh.levenshtein_distance("", "abc"), 3);
    assert_eq!(sh.levenshtein_distance("same", "same"), 0);
    assert_ne!(sh.levenshtein_distance("same", "sane"), 0);
    assert_eq!(sh.levenshtein_distance("sitting", "kitten"), 3);
    let s = sh.suggest_command("hepl");
    assert!(s.iter().any(|c| c == "help"));
    assert!(matches!(parse_command("ls"), Some(ShellCommand::Ls(ref p)) if p == "."));
    assert!(matches!(parse_command("   "), None));
    assert!(matches!(parse_command("cat"), Some(ShellCommand::Cat(None))));
    match parse_command("echo a  b") {
        Some(ShellCommand::Echo(t)) => assert_eq!(t, "a b"),
        _ => panic!("expected echo"),
    }
}

#[test]
fn shell_cd_history_and_requests() {
    let mut sh = Shell::new("alice".to_string(), "Alice".to_string(), "id-1".to_string(), "tok".to_string());
    assert_eq!(sh.cwd, "/users/id-1");
    sh.cd("Documents");
    assert_eq!(sh.cwd, "/users/id-1/Documents");
    sh.cd("");
    assert_eq!(sh.cwd, "/users/id-1");
    let root = Shell::new("root".to_string(), "Root".to_string(), "x".to_string(), "t".to_string());
    assert_eq!(root.cwd, "/root");
    sh.accept_line("pwd");
    sh.accept_line("pwd");
    sh.accept_line("ls /tmp");
    assert_eq!(sh.history, vec!["pwd".to_string(), "ls /tmp".to_string()]);
    assert_eq!(sh.history_lines(), vec!["   1  pwd".to_string(), "   2  ls /tmp".to_string()]);
    assert_eq!(sh.prompt("ayux"), "alice@ayux:/users/id-1$ ");
    match sh.service_call(&ShellCommand::Ls("docs".to_string())) {
        Some(c) => {
            assert_eq!(c.service, ShellService::Security);
            match c.message {
                AipcMessage::Security(SecurityRequest::FsLs { path }) => assert_eq!(path, "/users/id-1/docs"),
                _ => panic!("expected a listing request"),
            }
        },
        None => panic!("expected a request"),
    }
    assert!(sh.service_call(&ShellCommand::Pwd).is_none());
}

#[test]
fn shell_reports() {
    assert_eq!(
        shell_ops::report_listing(Ok(AipcMessage::SecurityRes(SecurityResponse::Denied("no".to_string())))),
        vec!["Denied: no".to_string()]
    );
    assert_eq!(shell_ops::report_listing(Err("x".to_string())), vec!["Unexpected response".to_string()]);
    assert_eq!(
        shell_ops::report_read(Ok(AipcMessage::SecurityRes(SecurityResponse::FsContent(vec![b'h', b'i'])))),
        Ok(vec![b'h', b'i', b'\n'])
    );
    assert_eq!(shell_ops::report_change(Ok(AipcMessage::SecurityRes(SecurityResponse::Success))), None);
    let (m, logout) = shell_ops::report_confirm_deletion(Ok(AipcMessage::AuthRes(AuthResponse::Success)));
    assert_eq!(m, "\nAccount deleted. Logging out...");
    assert!(logout);
    assert_eq!(
        shell_ops::report_list_users(Ok(AipcMessage::AuthRes(AuthResponse::UserList(vec!["A".to_string()])))),
        vec!["\nRegistered Users (Display Names):".to_string(), " - A".to_string(), String::new()]
    );
    assert_eq!(shell_ops::connect_error(ShellService::Auth, "refused"), "Error connecting to auth service: refused");
    assert_eq!(shell_ops::usage(&ShellCommand::Cat(None)), Some("Usage: cat <file>".to_string()));
    assert_eq!(shell_ops::unknown_command_lines("foo")[0], "Unknown command: 'foo'");
}
