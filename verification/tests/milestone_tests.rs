use ayux::auth::{AuthService, AuthStep};
use ayux::hal::{Clock, LinuxClock};
use ayux::ipc::{AuthRequest, AuthResponse};
use ayux::paths;
use ayux::shell::resolve_path;

#[test]
fn test_password_hashing_logic() {
    // The first account is created with a hashed password, and logging in
    // with the same password verifies against the stored hash.
    let password = "ayuxos_password";
    let mut auth = AuthService::new(vec![7u8; 32], Vec::new());
    let step = auth.handle_request(
        AuthRequest::CreateUser {
            username: "ayux".to_string(),
            password: password.to_string(),
            display_name: "Ayux".to_string(),
            role: "Administrator".to_string(),
        },
        None,
    );
    assert!(matches!(step, AuthStep::CreateHome { .. }));
    let step = auth.resume_home_created(Ok(()));
    assert!(matches!(step, AuthStep::Reply { response: AuthResponse::Success, persist: true, .. }));
    let stored = &auth.users()[0].1.password_hash;
    assert!(stored.starts_with("$argon2"));
    let step = auth.handle_request(
        AuthRequest::Login { username: "ayux".to_string(), password: password.to_string() },
        None,
    );
    assert!(matches!(step, AuthStep::Reply { response: AuthResponse::Authenticated { .. }, .. }));
}

#[test]
fn test_security_manager_logic_mock() {
    let username = "ayux";
    let path = "/users/ayux/data/file.txt";
    let user_home = paths::user_home(username);

    let allowed = (path.starts_with(&user_home) || path.starts_with(paths::AYUX_TMP))
        && !path.contains("..");
    assert!(allowed);

    let forbidden_path = "/root/secret.txt";
    let allowed_forbidden = (forbidden_path.starts_with(&user_home)
        || forbidden_path.starts_with(paths::AYUX_TMP))
        && !forbidden_path.contains("..");
    assert!(!allowed_forbidden);
}

#[test]
fn test_hal_clock() {
    let clock = LinuxClock;
    let time = clock.get_time().unwrap();
    assert!(time > 0);
}

#[test]
fn test_home_dir_path_resolution() {
    let username = "testuser";
    let home_dir = paths::user_home(username);
    assert_eq!(home_dir, "/users/testuser");

    let subdirs = ["Desktop", "Documents", "Downloads", "Pictures", "Music", "Videos", "Config"];
    for subdir in &subdirs {
        let path = format!("{}/{}", home_dir, subdir);
        assert!(path.starts_with("/users/testuser/"));
    }
    let dirs = ayux::auth::home_dirs(&home_dir);
    for d in dirs.iter().skip(1) {
        assert!(d.starts_with("/users/testuser/"));
    }
}

#[test]
fn test_shell_path_resolution() {
    let cwd = "/users/alice";
    assert_eq!(resolve_path(cwd, "Documents"), "/users/alice/Documents");
    assert_eq!(resolve_path(cwd, "/etc"), "/etc");
    assert_eq!(resolve_path(cwd, ".."), "/users");
    assert_eq!(resolve_path(cwd, "."), "/users/alice");
}

#[test]
fn parent_of_top_directories() {
    assert_eq!(resolve_path("/users", ".."), "/");
    assert_eq!(resolve_path("/", ".."), "/");
    assert_eq!(resolve_path("/a/b.c/d", ".."), "/a/b.c");
}

#[test]
fn test_password_hashing_consistency() {
    // A stored Argon2id hash in PHC form parses.
    let _password = "mysecurepassword";
    let hash_str =
        "$argon2id$v=19$m=19456,t=2,p=1$c2FsdHNhbHQ$dGVzdGhhc2h0ZXN0aGFzaHRlc3RoYXNodGVzdGg";
    let parsed_hash = argon2::password_hash::PasswordHash::new(hash_str);
    assert!(parsed_hash.is_ok());
}
