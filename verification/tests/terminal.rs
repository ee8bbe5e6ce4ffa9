use ownterm::domain::{SessionStatus, ShellProfile};
use ownterm::ids::{SessionId, ShellProfileId};
use ownterm::local_session::{
    windows_shell_catalog,
    decode_wsl_output, default_columns, default_rows, exit_events, local_descriptor,
    login_shell_catalog, login_shell_program, validated_size, OutputBatcher, PumpInput,
    SessionEvent, ShellCatalog, TerminalError, TerminalSize,
};
use ownterm::terminal::{parse_session_id, parse_shell_profile_id, TerminalError as PortError};

#[test]
fn parses_public_session_and_shell_profile_identifiers() {
    let id = "00000000-0000-0000-0000-000000000001";
    assert!(parse_session_id(id).is_ok());
    assert!(parse_shell_profile_id(id).is_ok());
    assert_eq!(parse_session_id("invalid"), Err(PortError::SessionNotFound));
    assert_eq!(parse_shell_profile_id("invalid"), Err(PortError::ProfileNotFound));
}

#[test]
fn identifiers_print_and_parse_back() {
    let id = SessionId::from_u128(0x0123_4567_89ab_cdef_0123_4567_89ab_cdef);
    let text = id.to_string();
    assert_eq!(text, "01234567-89ab-cdef-0123-456789abcdef");
    assert_eq!(SessionId::parse(&text), Some(id));
    assert_eq!(ownterm::local_session::TerminalError::SessionNotFound.message(), "terminal session was not found");
    assert_eq!(PortError::Io("broken".into()).message(), "terminal I/O failed: broken");
}

#[test]
fn validates_terminal_dimensions() {
    assert!(validated_size(24, 80).is_ok());
    assert!(validated_size(0, 80).is_err());
    assert!(validated_size(24, 1_001).is_err());
    assert_eq!(validated_size(1000, 1), Ok(TerminalSize { rows: 1000, columns: 1 }));
    assert_eq!(validated_size(default_rows(), default_columns()), Ok(TerminalSize { rows: 24, columns: 80 }));
}

#[test]
fn decodes_utf8_and_utf16_wsl_distribution_lists() {
    assert_eq!(decode_wsl_output(b"Ubuntu\r\nDebian\r\n"), ["Ubuntu", "Debian"]);
    let utf16 = "Ubuntu\r\n".encode_utf16().flat_map(u16::to_le_bytes).collect::<Vec<_>>();
    assert_eq!(decode_wsl_output(&utf16), ["Ubuntu"]);
}

#[test]
fn wsl_lists_drop_padding_and_blank_lines() {
    assert_eq!(decode_wsl_output(b"* Ubuntu (Default)\r\n\r\n  \0\nArch*"), ["Ubuntu (Default)", "Arch"]);
    assert!(decode_wsl_output(b"").is_empty());
}

#[test]
fn shell_catalog_finds_profiles() {
    let first = ShellProfile::new("sh", "/bin/sh".into(), Vec::new()).unwrap();
    let catalog = ShellCatalog::from_profiles(vec![first.clone()]);
    assert_eq!(catalog.find(first.id).unwrap().name, "sh");
    assert_eq!(catalog.find(ShellProfileId::from_u128(1)).unwrap_err(), TerminalError::ProfileNotFound);
    assert_eq!(catalog.profiles().len(), 1);
}

#[test]
fn login_shell_defaults() {
    assert_eq!(login_shell_program(Some("/usr/bin/zsh".into()), true), "/usr/bin/zsh");
    assert_eq!(login_shell_program(Some("/missing".into()), false), "/bin/sh");
    assert_eq!(login_shell_program(None, true), "/bin/sh");
    let catalog = login_shell_catalog("/bin/sh".into(), Some("sh".into()));
    assert_eq!(catalog.profiles()[0].name, "sh");
    let unnamed = login_shell_catalog("/".into(), None);
    assert_eq!(unnamed.profiles()[0].name, "Shell");
    assert!(login_shell_catalog(String::new(), None).profiles().is_empty());
    let descriptor = local_descriptor(&catalog.profiles()[0]).unwrap();
    assert_eq!(descriptor.title, "sh");
    assert_eq!(descriptor.status, SessionStatus::Connected);
}

#[test]
fn output_pump_batches_in_order() {
    let id = SessionId::from_u128(11);
    let mut pump = OutputBatcher::new(id);
    assert!(!pump.is_batching());
    let step = pump.step(PumpInput::Chunk(vec![1, 2]), true);
    assert!(step.events.is_empty() && !step.finished);
    assert!(pump.is_batching());
    pump.step(PumpInput::Chunk(vec![3]), true);
    let flushed = pump.step(PumpInput::WindowElapsed, true);
    assert_eq!(flushed.events, vec![SessionEvent::Output { session_id: id, data: vec![1, 2, 3] }]);
    let big = pump.step(PumpInput::Chunk(vec![0; 70_000]), true);
    assert_eq!(big.events.len(), 1);
    pump.step(PumpInput::Chunk(vec![4]), true);
    let failed = pump.step(PumpInput::ReadFailed("io".into()), true);
    assert!(failed.finished);
    assert_eq!(
        failed.events,
        vec![
            SessionEvent::Status { session_id: id, status: SessionStatus::Failed, reason: Some("io".into()) },
            SessionEvent::Output { session_id: id, data: vec![4] },
        ]
    );
    pump.step(PumpInput::Chunk(vec![5]), false);
    let closed = pump.step(PumpInput::ReaderClosed, false);
    assert!(closed.finished && closed.events.is_empty());
}

#[test]
fn exit_is_reported_only_for_active_sessions() {
    let id = SessionId::from_u128(12);
    assert_eq!(
        exit_events(id, true, Ok(0)),
        vec![
            SessionEvent::Exit { session_id: id, exit_code: Some(0) },
            SessionEvent::Status { session_id: id, status: SessionStatus::Disconnected, reason: None },
        ]
    );
    assert_eq!(
        exit_events(id, true, Err("wait failed".into())),
        vec![SessionEvent::Status { session_id: id, status: SessionStatus::Failed, reason: Some("wait failed".into()) }]
    );
    assert!(exit_events(id, false, Ok(1)).is_empty());
}

#[test]
fn windows_catalog_lists_available_shells_then_wsl_distributions() {
    let listing: Vec<u8> = "Ubuntu\r\n* Debian \r\n\r\n".encode_utf16().flat_map(|u| u.to_le_bytes()).collect();
    let catalog = windows_shell_catalog(true, false, Some(&listing));
    let shapes: Vec<(String, String, Vec<String>)> = catalog
        .profiles()
        .iter()
        .map(|p| (p.name.clone(), p.program.clone(), p.arguments.clone()))
        .collect();
    assert_eq!(
        shapes,
        vec![
            ("PowerShell".to_owned(), "powershell.exe".to_owned(), vec!["-NoLogo".to_owned()]),
            ("WSL · Ubuntu".to_owned(), "wsl.exe".to_owned(), vec!["--distribution".to_owned(), "Ubuntu".to_owned()]),
            ("WSL · Debian".to_owned(), "wsl.exe".to_owned(), vec!["--distribution".to_owned(), "Debian".to_owned()]),
        ]
    );
    let plain = windows_shell_catalog(false, true, None);
    assert_eq!(plain.profiles().len(), 1);
    assert_eq!(plain.profiles()[0].name, "Command Prompt");
    assert_eq!(plain.profiles()[0].program, "cmd.exe");
    assert!(plain.profiles()[0].arguments.is_empty());
    assert!(windows_shell_catalog(false, false, None).profiles().is_empty());
}

#[test]
fn utf16_output_pairs_surrogates_and_replaces_unpaired_ones() {
    let units: [u16; 6] = [0x41, 0xD83D, 0xDE00, 0xD800, 0x42, 0x0A];
    let bytes: Vec<u8> = units.iter().flat_map(|u| u.to_le_bytes()).collect();
    assert_eq!(decode_wsl_output(&bytes), ["A\u{1F600}\u{FFFD}B"]);
}
