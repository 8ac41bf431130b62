use rpa_browser::command_line::{ProcessCommandState, ReadFailure};
use rpa_browser::environment::BrowserConfig;
use rpa_browser::error::BrowserError;
use rpa_browser::managed::{
    active_port_is_reusable, active_port_to_verify, configured_port_allows_reuse,
    linux_process_evidence, macos_port_query_needed, macos_process_evidence,
    managed_browser_can_be_reused, managed_record_action, managed_record_load_from_result,
    process_owns_port, record_to_go_by, reusable_managed_browser_port,
    unsupported_process_evidence, windows_process_evidence, windows_process_evidence_from_output,
    ManagedBrowserRecord, ManagedProcessEvidence, ManagedRecordAction, ManagedRecordLoad,
    ReuseDecision,
};
use rpa_browser::paths::{Host, Platform};
use rpa_browser::ports::PortOwnership;
use rpa_browser::start::{
    begin_browser_start, cdp_connection_requires_stealth_injection, check_session_connection,
    check_task_connection, ensure_managed_browser_for_task, is_browser_start_retryable,
    should_connect_to_existing_browser, start_after_judging, start_after_verifying, BrowserStart,
};

fn unix() -> Host {
    Host {
        platform: Platform::Unix,
        existing: vec![],
        current_dir: Some("/home/user".to_string()),
        listed: vec![],
    }
}

fn failure_of(error: &std::io::Error) -> ReadFailure {
    ReadFailure {
        not_found: error.kind() == std::io::ErrorKind::NotFound,
        no_such_process: error.raw_os_error() == Some(libc::ESRCH),
    }
}

fn profile_a(debug_port: Option<u16>) -> BrowserConfig {
    BrowserConfig {
        user_data_dir: "/tmp/profile-a".to_string(),
        chrome_exe_path: None,
        max_parallel_tasks: 2,
        debug_port,
    }
}

fn record_a() -> ManagedBrowserRecord {
    ManagedBrowserRecord {
        pid: 123,
        port: 41000,
        user_data_dir: "/tmp/profile-a".to_string(),
    }
}

fn owned_a() -> ManagedProcessEvidence {
    ManagedProcessEvidence {
        pid_alive: true,
        browser_process: true,
        process_user_data_dir: Some("/tmp/profile-a".to_string()),
        port_ownership: PortOwnership::Owned,
    }
}

#[test]
fn process_profile_must_match_record_and_config_after_normalization() {
    let config = BrowserConfig {
        user_data_dir: "/tmp/profiles/../profile-a".to_string(),
        chrome_exe_path: None,
        max_parallel_tasks: 2,
        debug_port: Some(41000),
    };
    let record = ManagedBrowserRecord {
        pid: 123,
        port: 41000,
        user_data_dir: "/tmp/profile-a".to_string(),
    };
    let matching = ManagedProcessEvidence {
        pid_alive: true,
        browser_process: true,
        process_user_data_dir: Some("/tmp/./profile-a".to_string()),
        port_ownership: PortOwnership::Owned,
    };
    let mismatching = ManagedProcessEvidence {
        process_user_data_dir: Some("/tmp/profile-b".to_string()),
        ..matching.clone()
    };
    let unreadable = ManagedProcessEvidence {
        process_user_data_dir: None,
        ..matching.clone()
    };

    assert_eq!(
        managed_record_action(Some(&record), &config, &matching, true, &unix()),
        ManagedRecordAction::Reuse(41000)
    );
    assert_eq!(
        managed_record_action(Some(&record), &config, &mismatching, true, &unix()),
        ManagedRecordAction::RemoveStale
    );
    assert_eq!(
        managed_record_action(Some(&record), &config, &unreadable, true, &unix()),
        ManagedRecordAction::RejectUnverified
    );
}

#[test]
fn unknown_port_ownership_rejects_reuse_without_marking_record_stale() {
    let config = BrowserConfig {
        user_data_dir: "/tmp/profile-a".to_string(),
        chrome_exe_path: None,
        max_parallel_tasks: 2,
        debug_port: None,
    };
    let record = ManagedBrowserRecord {
        pid: 123,
        port: 41000,
        user_data_dir: config.user_data_dir.clone(),
    };
    let evidence = ManagedProcessEvidence {
        pid_alive: true,
        browser_process: true,
        process_user_data_dir: Some(config.user_data_dir.clone()),
        port_ownership: PortOwnership::Unknown,
    };

    assert_eq!(
        managed_record_action(Some(&record), &config, &evidence, true, &unix()),
        ManagedRecordAction::RejectUnverified
    );
}

#[test]
fn live_same_profile_browser_on_a_different_explicit_port_blocks_launch() {
    let config = BrowserConfig {
        user_data_dir: "/tmp/profile-a".to_string(),
        chrome_exe_path: None,
        max_parallel_tasks: 2,
        debug_port: Some(42000),
    };
    let record = ManagedBrowserRecord {
        pid: 123,
        port: 41000,
        user_data_dir: config.user_data_dir.clone(),
    };
    let evidence = ManagedProcessEvidence {
        pid_alive: true,
        browser_process: true,
        process_user_data_dir: Some(config.user_data_dir.clone()),
        port_ownership: PortOwnership::Owned,
    };

    assert_eq!(
        managed_record_action(Some(&record), &config, &evidence, true, &unix()),
        ManagedRecordAction::RejectPortChange
    );
}

#[test]
fn only_dead_or_reused_pid_records_are_stale() {
    let config = BrowserConfig {
        user_data_dir: "/tmp/profile-a".to_string(),
        chrome_exe_path: None,
        max_parallel_tasks: 2,
        debug_port: None,
    };
    let record = ManagedBrowserRecord {
        pid: 123,
        port: 41000,
        user_data_dir: config.user_data_dir.clone(),
    };
    let dead = ManagedProcessEvidence {
        pid_alive: false,
        browser_process: false,
        process_user_data_dir: None,
        port_ownership: PortOwnership::Unknown,
    };
    let reused_pid = ManagedProcessEvidence {
        pid_alive: true,
        browser_process: false,
        process_user_data_dir: Some("/tmp/unrelated-profile".to_string()),
        port_ownership: PortOwnership::NotOwned,
    };
    let matching_profile_not_owned = ManagedProcessEvidence {
        pid_alive: true,
        browser_process: true,
        process_user_data_dir: Some(config.user_data_dir.clone()),
        port_ownership: PortOwnership::NotOwned,
    };

    assert_eq!(
        managed_record_action(Some(&record), &config, &dead, false, &unix()),
        ManagedRecordAction::RemoveStale
    );
    assert_eq!(
        managed_record_action(Some(&record), &config, &reused_pid, false, &unix()),
        ManagedRecordAction::RemoveStale
    );
    assert_eq!(
        managed_record_action(
            Some(&record),
            &config,
            &matching_profile_not_owned,
            true,
            &unix(),
        ),
        ManagedRecordAction::RejectUnverified
    );
}

#[test]
fn live_process_with_matching_profile_and_unreachable_cdp_is_unverified() {
    let config = BrowserConfig {
        user_data_dir: "/tmp/profile-a".to_string(),
        chrome_exe_path: None,
        max_parallel_tasks: 2,
        debug_port: Some(41000),
    };
    let record = ManagedBrowserRecord {
        pid: 123,
        port: 41000,
        user_data_dir: config.user_data_dir.clone(),
    };
    let evidence = ManagedProcessEvidence {
        pid_alive: true,
        browser_process: true,
        process_user_data_dir: Some(config.user_data_dir.clone()),
        port_ownership: PortOwnership::Owned,
    };

    assert_eq!(
        managed_record_action(Some(&record), &config, &evidence, true, &unix()),
        ManagedRecordAction::Reuse(41000)
    );
    assert_eq!(
        managed_record_action(Some(&record), &config, &evidence, false, &unix()),
        ManagedRecordAction::RejectUnverified
    );
}

#[test]
fn missing_record_allows_launch_but_corrupt_record_fails_closed() {
    let missing = std::io::Error::from(std::io::ErrorKind::NotFound);
    assert!(matches!(
        managed_record_load_from_result(Err(failure_of(&missing))),
        ManagedRecordLoad::Missing
    ));
    let denied = std::io::Error::from(std::io::ErrorKind::PermissionDenied);
    assert!(matches!(
        managed_record_load_from_result(Err(failure_of(&denied))),
        ManagedRecordLoad::Unverified
    ));
    let parsed = serde_json::from_str::<serde_json::Value>("not json")
        .ok()
        .map(|_| record_a());
    assert!(matches!(
        managed_record_load_from_result(Ok(parsed)),
        ManagedRecordLoad::Unverified
    ));
}

#[test]
fn recorded_managed_browser_is_reused_only_when_cdp_and_profile_match() {
    let config = BrowserConfig {
        user_data_dir: "/tmp/offer-flow-profile".to_string(),
        chrome_exe_path: None,
        max_parallel_tasks: 2,
        debug_port: None,
    };
    let record = ManagedBrowserRecord {
        pid: 123,
        port: 512,
        user_data_dir: config.user_data_dir.clone(),
    };
    let unverifiable = windows_process_evidence_from_output(None);

    let error = reusable_managed_browser_port(Some(&record), &config, &unverifiable, true, &unix())
        .expect_err("unverifiable managed records must fail closed");
    assert!(error.message().contains("无法验证受管浏览器"));
}

#[test]
fn explicit_debug_port_does_not_reuse_a_recorded_different_port() {
    let config = BrowserConfig {
        user_data_dir: "/tmp/offer-flow-profile".to_string(),
        chrome_exe_path: None,
        max_parallel_tasks: 2,
        debug_port: Some(43210),
    };
    let record = ManagedBrowserRecord {
        pid: 123,
        port: 512,
        user_data_dir: config.user_data_dir.clone(),
    };

    assert_eq!(
        managed_record_action(
            Some(&record),
            &config,
            &ManagedProcessEvidence {
                pid_alive: true,
                browser_process: true,
                process_user_data_dir: Some(config.user_data_dir.clone()),
                port_ownership: PortOwnership::Owned,
            },
            true,
            &unix(),
        ),
        ManagedRecordAction::RejectPortChange
    );
}

#[test]
fn explicit_debug_port_rejects_a_different_active_port() {
    let config = BrowserConfig {
        user_data_dir: "/tmp/offer-flow-profile".to_string(),
        chrome_exe_path: None,
        max_parallel_tasks: 2,
        debug_port: Some(43210),
    };

    assert!(!configured_port_allows_reuse(&config, 50000));
    assert!(configured_port_allows_reuse(&config, 43210));
}

#[test]
fn live_managed_browser_is_reused_even_when_no_page_is_open() {
    let config = BrowserConfig {
        user_data_dir: "/tmp/offer-flow-profile".to_string(),
        chrome_exe_path: None,
        max_parallel_tasks: 2,
        debug_port: None,
    };
    let record = ManagedBrowserRecord {
        pid: 123,
        port: 43210,
        user_data_dir: config.user_data_dir.clone(),
    };

    assert!(managed_browser_can_be_reused(&record, &config, true));
    assert!(!managed_browser_can_be_reused(&record, &config, false));
}

#[test]
fn retries_only_browser_readiness_timeout() {
    assert!(is_browser_start_retryable(
        "HTTP request failed: Chrome did not become ready within 5 seconds after launch"
    ));
    assert!(!is_browser_start_retryable(
        "Failed to launch Chrome: No such file or directory"
    ));
}

#[test]
fn active_cdp_port_uses_connection_instead_of_launching_a_second_browser() {
    assert!(should_connect_to_existing_browser(true));
    assert!(!should_connect_to_existing_browser(false));
}

#[test]
fn cdp_connections_install_stealth_before_the_next_navigation() {
    assert!(cdp_connection_requires_stealth_injection());
}

#[test]
fn an_open_port_setting_allows_every_port() {
    assert!(configured_port_allows_reuse(&profile_a(None), 1));
    assert!(configured_port_allows_reuse(&profile_a(Some(0)), 65535));
}

#[test]
fn a_record_of_another_profile_is_unverified_or_stale_but_never_ignored() {
    let config = BrowserConfig {
        user_data_dir: "/tmp/profile-b".to_string(),
        ..profile_a(None)
    };
    assert_eq!(
        managed_record_action(Some(&record_a()), &config, &owned_a(), true, &unix()),
        ManagedRecordAction::RejectUnverified
    );
    let other = ManagedProcessEvidence {
        process_user_data_dir: Some("/tmp/profile-b".to_string()),
        ..owned_a()
    };
    assert_eq!(
        managed_record_action(Some(&record_a()), &config, &other, true, &unix()),
        ManagedRecordAction::RemoveStale
    );
    assert_eq!(
        managed_record_action(None, &config, &other, true, &unix()),
        ManagedRecordAction::NoRecord
    );
}

#[test]
fn each_record_action_leads_to_one_decision() {
    let host = unix();
    let decide = |record: Option<&ManagedBrowserRecord>,
                  config: &BrowserConfig,
                  evidence: &ManagedProcessEvidence,
                  active: bool| {
        reusable_managed_browser_port(record, config, evidence, active, &host)
    };
    assert_eq!(
        decide(Some(&record_a()), &profile_a(None), &owned_a(), true),
        Ok(ReuseDecision::Connect(41000))
    );
    assert_eq!(
        decide(Some(&record_a()), &profile_a(Some(42000)), &owned_a(), true),
        Err(BrowserError::PortChangeRejected { port: 41000 })
    );
    assert_eq!(
        decide(Some(&record_a()), &profile_a(None), &owned_a(), false),
        Err(BrowserError::Unverified { pid: 123 })
    );
    assert_eq!(
        decide(
            Some(&record_a()),
            &profile_a(None),
            &unsupported_process_evidence(),
            false
        ),
        Ok(ReuseDecision::Launch { remove_record: true })
    );
    assert_eq!(
        decide(None, &profile_a(None), &owned_a(), true),
        Ok(ReuseDecision::Launch { remove_record: false })
    );
}

#[test]
fn a_browser_start_goes_by_the_last_port_first() {
    let load = ManagedRecordLoad::Ready(record_a());
    assert_eq!(
        begin_browser_start(load.clone(), Some(41000), &profile_a(None)),
        Ok((Some(record_a()), BrowserStart::Verify { port: 41000 }))
    );
    assert_eq!(
        begin_browser_start(load.clone(), Some(41001), &profile_a(None)),
        Ok((Some(record_a()), BrowserStart::Judge))
    );
    assert_eq!(
        begin_browser_start(load, Some(41000), &profile_a(Some(42000))),
        Ok((Some(record_a()), BrowserStart::Judge))
    );
    assert_eq!(
        begin_browser_start(ManagedRecordLoad::Missing, Some(41000), &profile_a(None)),
        Ok((None, BrowserStart::Launch { remove_record: false }))
    );
    assert_eq!(
        begin_browser_start(ManagedRecordLoad::Unverified, None, &profile_a(None)),
        Err(BrowserError::RecordUnreadable)
    );
    assert_eq!(
        record_to_go_by(ManagedRecordLoad::Ready(record_a())),
        Ok(Some(record_a()))
    );
    assert_eq!(active_port_to_verify(None, Some(&record_a()), &profile_a(None)), None);
}

#[test]
fn a_browser_start_connects_only_to_what_was_verified() {
    let config = profile_a(None);
    assert!(active_port_is_reusable(41000, &record_a(), &config, &owned_a(), true, &unix()));
    assert!(!active_port_is_reusable(41001, &record_a(), &config, &owned_a(), true, &unix()));
    assert_eq!(
        start_after_verifying(41000, &record_a(), &config, &owned_a(), true, &unix()),
        BrowserStart::Connect { port: 41000 }
    );
    assert_eq!(
        start_after_verifying(41000, &record_a(), &config, &owned_a(), false, &unix()),
        BrowserStart::Judge
    );
    assert_eq!(
        start_after_judging(&record_a(), &config, &owned_a(), true, &unix()),
        Ok(BrowserStart::Connect { port: 41000 })
    );
    let gone = linux_process_evidence(ProcessCommandState::Dead, PortOwnership::Unknown);
    assert_eq!(
        start_after_judging(&record_a(), &config, &gone, true, &unix()),
        Ok(BrowserStart::Launch { remove_record: true })
    );
    assert_eq!(
        start_after_judging(&record_a(), &config, &owned_a(), false, &unix()),
        Err(BrowserError::Unverified { pid: 123 })
    );
}

#[test]
fn unusable_connections_and_ports_are_refused() {
    assert_eq!(check_session_connection(41000, true), Ok(()));
    assert_eq!(
        check_session_connection(41000, false),
        Err(BrowserError::SessionUnusable { port: 41000 })
    );
    assert_eq!(check_task_connection(41000, true), Ok(()));
    assert_eq!(
        check_task_connection(41000, false),
        Err(BrowserError::TaskConnectionUnusable { port: 41000 })
    );
    assert_eq!(
        ensure_managed_browser_for_task(Some(41000), |port| port == 41000),
        Ok(41000)
    );
    assert_eq!(
        ensure_managed_browser_for_task(Some(41000), |_| false),
        Err(BrowserError::PortUnavailable { port: 41000 })
    );
    assert_eq!(
        ensure_managed_browser_for_task(None, |_| unreachable!()),
        Err(BrowserError::DebugPortUnknown)
    );
}

#[test]
fn evidence_follows_the_command_line() {
    let alive = ProcessCommandState::Alive {
        browser_process: true,
        user_data_dir: Some("/tmp/profile-a".to_string()),
    };
    assert_eq!(
        linux_process_evidence(alive.clone(), PortOwnership::Owned),
        owned_a()
    );
    assert!(macos_port_query_needed(&alive));
    assert_eq!(macos_process_evidence(alive, PortOwnership::Owned), owned_a());
    assert!(process_owns_port(&owned_a()));

    let bare = ProcessCommandState::Alive {
        browser_process: true,
        user_data_dir: None,
    };
    assert!(!macos_port_query_needed(&bare));
    let evidence = macos_process_evidence(bare, PortOwnership::Owned);
    assert_eq!(evidence.port_ownership, PortOwnership::Unknown);
    assert!(!process_owns_port(&evidence));

    let unknown = linux_process_evidence(ProcessCommandState::Unknown, PortOwnership::NotOwned);
    assert!(unknown.pid_alive && unknown.browser_process);
    assert_eq!(unknown.process_user_data_dir, None);
}

#[test]
fn windows_output_is_read_line_by_line() {
    let stdout = "PORT_QUERY_OK=1\r\nCMD=chrome.exe --user-data-dir=/tmp/profile-a\r\nOWNS=1\r\n";
    assert_eq!(windows_process_evidence(stdout), owned_a());
    assert_eq!(
        windows_process_evidence_from_output(Some(stdout.as_bytes())),
        owned_a()
    );
    let gone = windows_process_evidence("PORT_QUERY_OK=1\nOWNS=0\n");
    assert!(!gone.pid_alive);
    assert_eq!(gone.port_ownership, PortOwnership::NotOwned);

    let broken = b"PORT_QUERY_OK=1\nCMD=chrome.exe --user-data-dir=/tmp/\xff\nOWNS=1\n";
    assert_eq!(
        windows_process_evidence_from_output(Some(broken)).process_user_data_dir,
        Some("/tmp/\u{fffd}".to_string())
    );
    let failed = windows_process_evidence_from_output(None);
    assert!(failed.pid_alive && failed.browser_process);
    assert_eq!(failed.port_ownership, PortOwnership::Unknown);
}
