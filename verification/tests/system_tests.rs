use ayux::hal::{self, HalError, InputEvent, Power};
use ayux::init;
use ayux::ipc::{self, AipcMessage, AuthResponse, HalRequest, HalResponse, LogLevel, LogRequest, LogResponse, NetworkRequest, NetworkResponse, SessionResponse};
use ayux::logging::{self, LogService};
use ayux::login::{self, SetupPrompt, SetupStage, SetupWizard};
use ayux::network::{HalStep, NetworkManager, NetworkStep};
use ayux::num::{parse_u64_max, u64_to_string};
use ayux::system;

#[test]
fn decimal_text_round_trips() {
    assert_eq!(u64_to_string(0), "0");
    assert_eq!(u64_to_string(12345), "12345");
    assert_eq!(u64_to_string(u64::MAX), "18446744073709551615");
    assert_eq!(parse_u64_max("18446744073709551615", u64::MAX), Some(u64::MAX));
    assert_eq!(parse_u64_max("18446744073709551616", u64::MAX), None);
    assert_eq!(parse_u64_max("+12", u64::MAX), Some(12));
    assert_eq!(parse_u64_max("", u64::MAX), None);
    assert_eq!(parse_u64_max("+", u64::MAX), None);
    assert_eq!(parse_u64_max("-1", u64::MAX), None);
    assert_eq!(parse_u64_max("1a", u64::MAX), None);
    assert_eq!(parse_u64_max("255", 255), Some(255));
    assert_eq!(parse_u64_max("256", 255), None);
    for n in [0u64, 7, 10, 99, 100, 65535, 4294967296, u64::MAX - 1] {
        assert_eq!(parse_u64_max(&u64_to_string(n), u64::MAX), Some(n));
    }
}

#[test]
fn hal_error_messages() {
    assert_eq!(HalError::Io("x".to_string()).message(), "IO error: x");
    assert_eq!(HalError::NotFound("fb0".to_string()).message(), "Device not found: fb0");
    assert_eq!(HalError::PermissionDenied.message(), "Permission denied");
    assert_eq!(HalError::InvalidOperation("y".to_string()).message(), "Invalid operation: y");
    assert_eq!(HalError::Internal("z".to_string()).message(), "Internal error: z");
}

fn record(t: u16, code: u16, value: i32) -> Vec<u8> {
    let mut raw = vec![0u8; 16];
    raw.extend_from_slice(&t.to_le_bytes());
    raw.extend_from_slice(&code.to_le_bytes());
    raw.extend_from_slice(&value.to_le_bytes());
    raw
}

#[test]
fn input_records_decode() {
    match hal::decode_input_event(&record(1, 30, 1)) {
        Ok(InputEvent::Key { code, value }) => assert_eq!((code, value), (30, 1)),
        _ => panic!("expected a key"),
    }
    match hal::decode_input_event(&record(2, 1, -5)) {
        Ok(InputEvent::Rel { code, value }) => assert_eq!((code, value), (1, -5)),
        _ => panic!("expected a motion"),
    }
    match hal::decode_input_event(&record(3, 0, 700)) {
        Ok(InputEvent::Abs { code, value }) => assert_eq!((code, value), (0, 700)),
        _ => panic!("expected a position"),
    }
    match hal::decode_input_event(&record(7, 0, 0)) {
        Err(HalError::InvalidOperation(m)) => assert_eq!(m, "Unknown event type: 7"),
        _ => panic!("expected a refusal"),
    }
}

#[test]
fn storage_devices_from_sysfs_texts() {
    let d = hal::storage_device("sda".to_string(), Some(" 2048\n".to_string()), Some("1\n".to_string())).unwrap();
    assert_eq!((d.name.as_str(), d.size, d.removable), ("sda", 1048576, true));
    let d = hal::storage_device("nvme0n1".to_string(), None, Some("0".to_string())).unwrap();
    assert_eq!((d.size, d.removable), (0, false));
    let d = hal::storage_device("sdb".to_string(), Some("x".to_string()), Some("+01".to_string())).unwrap();
    assert_eq!((d.size, d.removable), (0, true));
    assert!(hal::storage_device("loop0".to_string(), None, None).is_none());
    assert!(hal::storage_device("ram1".to_string(), None, None).is_none());
}

#[test]
fn display_and_devices() {
    let power = hal::LinuxPower;
    assert!(power.reboot().is_ok());
    assert!(power.shutdown().is_ok());
    assert_eq!(hal::evdev_name("/dev/input/event0"), "Linux Evdev: /dev/input/event0");
    let ds = hal::class_devices("net", &vec![("lo".to_string(), "/sys/class/net/lo".to_string())]);
    assert_eq!((ds[0].name.as_str(), ds[0].class.as_str(), ds[0].path.as_str()), ("lo", "net", "/sys/class/net/lo"));
    let info = hal::DisplayInfo { width: 800, height: 600, bpp: 32, pitch: 3200 };
    assert_eq!(info.buffer_size(), 1920000);
}

#[test]
fn network_manager_steps_and_replies() {
    let m = NetworkManager::new();
    assert!(matches!(m.handle_request(NetworkRequest::ListInterfaces), NetworkStep::ListInterfaces));
    match m.handle_request(NetworkRequest::GetInterfaceConfig { name: "eth0".to_string() }) {
        NetworkStep::ReadInterface { name } => assert_eq!(name, "eth0"),
        _ => panic!("expected a read"),
    }
    match m.handle_hal_request(HalRequest::ClockGetTime) {
        HalStep::Reply(HalResponse::Error(e)) => assert_eq!(e, "Not implemented in Network Manager"),
        _ => panic!("expected a refusal"),
    }
    assert!(matches!(m.handle_hal_request(HalRequest::DiscoveryScan), HalStep::Scan));
    match m.interface_config("lo", true, "unknown\n", "00:00:00:00:00:00\n") {
        NetworkResponse::InterfaceConfig { name, up, ip, mac } => {
            assert_eq!((name.as_str(), up, ip, mac.as_str()), ("lo", true, None, "00:00:00:00:00:00"))
        },
        _ => panic!("expected a configuration"),
    }
    match m.interface_config("eth1", true, "down", "") {
        NetworkResponse::InterfaceConfig { up, .. } => assert!(!up),
        _ => panic!("expected a configuration"),
    }
    match m.interface_config("eth9", false, "", "") {
        NetworkResponse::Error(e) => assert_eq!(e, "Interface eth9 not found"),
        _ => panic!("expected an error"),
    }
    assert_eq!(m.link_command("eth0", false), vec!["link", "set", "eth0", "down"]);
    assert!(matches!(m.configure_outcome(true, true, Ok((true, String::new()))), (NetworkResponse::Success, true)));
    assert!(matches!(m.configure_outcome(true, false, Ok((true, String::new()))), (NetworkResponse::Success, false)));
    match m.configure_outcome(true, true, Ok((false, "boom".to_string()))) {
        (NetworkResponse::Error(e), false) => assert_eq!(e, "boom"),
        _ => panic!("expected an error"),
    }
    let ds = hal::class_devices("block", &vec![("sda".to_string(), "/sys/class/block/sda".to_string())]);
    match m.discovery_reply(Ok(ds)) {
        HalResponse::DiscoveryResult(lines) => assert_eq!(lines, vec!["sda [block] at /sys/class/block/sda"]),
        _ => panic!("expected a listing"),
    }
    match m.discovery_reply(Err(HalError::PermissionDenied)) {
        HalResponse::Error(e) => assert_eq!(e, "Permission denied"),
        _ => panic!("expected an error"),
    }
}

#[test]
fn log_paths_lines_and_rotation() {
    let s = LogService::new();
    assert_eq!(s.get_log_path("Auth_Service"), "/var/log/auth.log");
    assert_eq!(s.get_log_path("kernel"), "/var/log/kernel.log");
    assert_eq!(s.get_log_path("NETWORK_MANAGER"), "/var/log/network.log");
    assert_eq!(s.get_log_path("shell"), "/var/log/system.log");
    assert_eq!(logging::log_line(LogLevel::Warn, "auth", "hi", 42), "[42] [Warn] [auth] hi\n");
    assert!(!logging::needs_rotation(5 * 1024 * 1024 - 1));
    assert!(logging::needs_rotation(5 * 1024 * 1024));
    let plan = logging::rotation_plan("/var/log/a.log");
    let expect: Vec<(String, String)> = vec![
        ("/var/log/a.log.4".to_string(), "/var/log/a.log.5".to_string()),
        ("/var/log/a.log.3".to_string(), "/var/log/a.log.4".to_string()),
        ("/var/log/a.log.2".to_string(), "/var/log/a.log.3".to_string()),
        ("/var/log/a.log.1".to_string(), "/var/log/a.log.2".to_string()),
        ("/var/log/a.log".to_string(), "/var/log/a.log.1".to_string()),
    ];
    assert_eq!(plan, expect);
    let step = s.handle_request(LogRequest::Log {
        level: LogLevel::Info,
        module: "Kernel".to_string(),
        message: "up".to_string(),
        timestamp: 7,
    });
    assert!(matches!(step.reply, LogResponse::Success));
    assert_eq!(step.write, Some(("/var/log/kernel.log".to_string(), "[7] [Info] [Kernel] up\n".to_string())));
    let step = s.handle_request(LogRequest::GetKernelLogs);
    assert!(step.write.is_none());
    match step.reply {
        LogResponse::Error(e) => assert_eq!(e, "GetKernelLogs not implemented via IPC yet"),
        _ => panic!("expected an error"),
    }
}

#[test]
fn login_manager_reads_replies() {
    assert_eq!(login::get_user_count(Ok(AipcMessage::AuthRes(AuthResponse::UserCount(3)))), Ok(3));
    assert_eq!(
        login::get_user_count(Ok(AipcMessage::AuthRes(AuthResponse::Success))),
        Err("Invalid response from auth service".to_string())
    );
    assert_eq!(login::get_user_count(Err("no socket".to_string())), Err("no socket".to_string()));
    assert_eq!(login::create_user(Ok(AipcMessage::AuthRes(AuthResponse::Error("taken".to_string())))), Err("taken".to_string()));
    assert_eq!(login::create_user(Ok(AipcMessage::AuthRes(AuthResponse::Success))), Ok(()));
    assert_eq!(
        login::create_session(Ok(AipcMessage::SessionRes(SessionResponse::Success { token: "t".to_string() }))),
        Ok("t".to_string())
    );
    assert_eq!(
        login::create_session(Ok(AipcMessage::AuthRes(AuthResponse::Success))),
        Err("Invalid response from session manager".to_string())
    );
    assert_eq!(login::authenticate(Ok(AipcMessage::AuthRes(AuthResponse::Error("Authentication failed.".to_string())))).err(),
        Some("Authentication failed.".to_string()));
    assert!(!login::session_still_valid(Ok(AipcMessage::SessionRes(SessionResponse::Error("Invalid session".to_string())))));
}

#[test]
fn setup_wizard_dialogue() {
    let mut w = SetupWizard::new();
    let a = w.answer(String::new());
    assert!(a.message.is_none());
    assert!(matches!(a.next, SetupPrompt::Line(ref l) if l == "Username:"));
    let a = w.answer("bad name!".to_string());
    assert!(a.message.unwrap().starts_with("\nError: "));
    assert_eq!(w.stage, SetupStage::Username);
    w.answer("admin".to_string());
    assert_eq!(w.stage, SetupStage::DisplayName);
    w.answer("Admin".to_string());
    w.answer("pw1".to_string());
    let a = w.answer("pw2".to_string());
    assert_eq!(a.message.unwrap(), "\nError: Passwords do not match. Please try again.\n");
    assert_eq!(w.stage, SetupStage::Username);
    w.answer("admin".to_string());
    w.answer("Admin".to_string());
    w.answer("pw".to_string());
    match w.answer("pw".to_string()).next {
        SetupPrompt::CreateAdmin { username, password, display_name } => {
            assert_eq!((username.as_str(), password.as_str(), display_name.as_str()), ("admin", "pw", "Admin"))
        },
        _ => panic!("expected the account"),
    }
    let a = w.created(Err("disk full".to_string()));
    assert_eq!(a.message.unwrap(), "\nError: Failed to create user: disk full\n");
    assert_eq!(w.stage, SetupStage::Username);
}

#[test]
fn services_start_by_priority() {
    assert_eq!(init::start_order(&vec![3, 1, 2, 1]), vec![1, 3, 2, 0]);
    assert_eq!(init::start_order(&vec![]), Vec::<usize>::new());
    assert_eq!(init::service_display_name("window_server"), "Window Server & Compositor");
    assert_eq!(init::service_display_name("custom"), "custom");
}

#[test]
fn unhealthy_service_restarts_at_fifth_check() {
    let mut failures = 0;
    for _ in 0..4 {
        let s = init::supervise(init::ChildStatus::Running, Some(false), failures, "always");
        assert!(!s.kill && !s.restart);
        failures = s.failures;
    }
    let s = init::supervise(init::ChildStatus::Running, Some(false), failures, "always");
    assert!(s.kill && s.restart);
    assert_eq!(s.failures, 0);
    let s = init::supervise(init::ChildStatus::Exited, None, 2, "never");
    assert!(!s.restart);
    let s = init::supervise(init::ChildStatus::Running, Some(true), 3, "always");
    assert_eq!(s.failures, 0);
    assert!(init::login_needs_start(init::ChildStatus::Exited, false));
    assert!(!init::login_needs_start(init::ChildStatus::Exited, true));
    assert!(!init::login_needs_start(init::ChildStatus::Running, false));
}

#[test]
fn system_setup_values() {
    let env = system::log_envelope(LogLevel::Error, "m", "x", 5);
    assert_eq!(env.header.sender, "unknown");
    assert_eq!(env.header.correlation_id, 0);
    assert_eq!(system::log_fallback_line(LogLevel::Error, "m", "x", 5), "[5] [Error] [m] x");
    let mounts = system::boot_mounts();
    assert_eq!(mounts[2].target, "/dev");
    assert!(mounts[2].nosuid && !mounts[2].nodev);
    assert_eq!(system::window_shm_name(12, 345), "win_shm_12_345");
    assert_eq!(system::mount_error("/proc", "EPERM"), "Failed to mount /proc: EPERM");
    assert_eq!(system::base_environment()[0], ("PATH".to_string(), "/bin:/usr/bin".to_string()));
}

#[test]
fn frames_carry_their_length() {
    let payload = vec![1u8, 2, 3, 4, 5];
    let framed = ipc::encode_frame(&payload);
    assert_eq!(framed.len(), 9);
    assert_eq!(ipc::decode_frame_len([framed[0], framed[1], framed[2], framed[3]]), 5);
    assert_eq!(&framed[4..], &payload[..]);
    let env = ipc::response_envelope("svc", 9, AipcMessage::AuthRes(AuthResponse::Success));
    assert_eq!(ipc::accept_response(8, env).err(), Some("Correlation ID mismatch".to_string()));
}
