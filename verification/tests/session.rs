use rpa_browser::environment::BrowserConfig;
use rpa_browser::error::{BrowserError, Failure};
use rpa_browser::paths::{Host, Platform};
use rpa_browser::session::{
    check_no_task_is_active, close_browser_session, init_browser_session, is_browser_disconnected_error, ready_browser,
    ready_session_config_action, ready_session_config_action_with_executable,
    restore_browser_session, reuse_browser_session_after_error, take_browser_session,
    BrowserSession, BrowserSessionIdentity, ReadySessionConfigAction,
};

fn unix() -> Host {
    Host {
        platform: Platform::Unix,
        existing: vec!["/usr/bin/chromium".to_string()],
        current_dir: Some("/home/user".to_string()),
        listed: vec![],
    }
}

fn identity() -> BrowserSessionIdentity {
    BrowserSessionIdentity {
        user_data_dir: "/tmp/profile-a".to_string(),
        debug_port: 41000,
        executable: "/usr/bin/chromium".to_string(),
    }
}

fn config() -> BrowserConfig {
    BrowserConfig {
        user_data_dir: "/tmp/profile-a".to_string(),
        chrome_exe_path: None,
        max_parallel_tasks: 2,
        debug_port: None,
    }
}

fn ready(browser: &'static str) -> BrowserSession<&'static str> {
    BrowserSession::Ready {
        browser,
        identity: identity(),
    }
}

fn lent(close_requested: bool) -> BrowserSession<&'static str> {
    BrowserSession::InUse {
        close_requested,
        identity: Some(identity()),
    }
}

fn being_set_up() -> BrowserSession<&'static str> {
    BrowserSession::InUse {
        close_requested: false,
        identity: None,
    }
}

#[test]
fn disconnected_connection_errors_discard_browser_session() {
    let error = anyhow::Error::msg("Connection closed");

    assert!(!reuse_browser_session_after_error(&error.to_string()));
}

#[test]
fn closed_connection_errors_discard_browser_session() {
    let error = anyhow::Error::msg("Trying to work with closed connection");

    assert!(!reuse_browser_session_after_error(&error.to_string()));
}

#[test]
fn stale_cdp_session_errors_discard_browser_session() {
    let error = anyhow::Error::msg(
        "CDP error: id=Some(11), code=-32001, message=Session with given id not found.",
    );

    assert!(!reuse_browser_session_after_error(&error.to_string()));
}

#[test]
fn normal_operation_errors_keep_browser_session() {
    let error = anyhow::Error::msg("登录失败");

    assert!(reuse_browser_session_after_error(&error.to_string()));
}

#[test]
fn ready_session_reuses_only_compatible_profile_and_port() {
    let executable = "/test/bin/chrome";
    let current = BrowserSessionIdentity {
        user_data_dir: "/tmp/profile-a".to_string(),
        debug_port: 41000,
        executable: executable.to_string(),
    };
    let compatible_auto = BrowserConfig {
        user_data_dir: current.user_data_dir.clone(),
        chrome_exe_path: None,
        max_parallel_tasks: 2,
        debug_port: None,
    };
    let compatible_explicit = BrowserConfig {
        debug_port: Some(current.debug_port),
        ..compatible_auto.clone()
    };
    let different_port = BrowserConfig {
        debug_port: Some(42000),
        ..compatible_auto.clone()
    };
    let different_profile = BrowserConfig {
        user_data_dir: "/tmp/profile-b".to_string(),
        ..compatible_auto.clone()
    };
    let host = unix();

    assert_eq!(
        ready_session_config_action_with_executable(
            &current,
            &compatible_auto,
            executable,
            0,
            &host,
        ),
        ReadySessionConfigAction::Reuse
    );
    assert_eq!(
        ready_session_config_action_with_executable(
            &current,
            &compatible_explicit,
            executable,
            0,
            &host,
        ),
        ReadySessionConfigAction::Reuse
    );
    assert_eq!(
        ready_session_config_action_with_executable(
            &current,
            &different_port,
            executable,
            0,
            &host,
        ),
        ReadySessionConfigAction::Restart
    );
    assert_eq!(
        ready_session_config_action_with_executable(
            &current,
            &different_profile,
            executable,
            0,
            &host,
        ),
        ReadySessionConfigAction::Restart
    );
}

#[test]
fn incompatible_ready_session_is_rejected_while_task_lease_is_active() {
    let executable = "/test/bin/chrome";
    let current = BrowserSessionIdentity {
        user_data_dir: "/tmp/profile-a".to_string(),
        debug_port: 41000,
        executable: executable.to_string(),
    };
    let changed = BrowserConfig {
        user_data_dir: current.user_data_dir.clone(),
        chrome_exe_path: None,
        max_parallel_tasks: 2,
        debug_port: Some(42000),
    };

    assert_eq!(
        ready_session_config_action_with_executable(&current, &changed, executable, 1, &unix()),
        ReadySessionConfigAction::RejectActiveLeases
    );
}

#[test]
fn executable_changes_invalidate_ready_session_identity() {
    let current = BrowserSessionIdentity {
        user_data_dir: "/tmp/profile".to_string(),
        debug_port: 41000,
        executable: "/Applications/Google Chrome.app/Contents/MacOS/Google Chrome".to_string(),
    };
    let config = BrowserConfig {
        user_data_dir: current.user_data_dir.clone(),
        chrome_exe_path: Some(
            "/Applications/Microsoft Edge.app/Contents/MacOS/Microsoft Edge".to_string(),
        ),
        max_parallel_tasks: 2,
        debug_port: Some(41000),
    };
    assert_eq!(
        ready_session_config_action_with_executable(
            &current,
            &config,
            &config.chrome_exe_path.clone().unwrap(),
            0,
            &unix(),
        ),
        ReadySessionConfigAction::Restart
    );
}

#[test]
fn detected_program_counts_where_none_is_configured() {
    assert_eq!(
        ready_session_config_action(&identity(), &config(), 0, &unix()),
        ReadySessionConfigAction::Reuse
    );
    let bare = Host {
        existing: vec![],
        ..unix()
    };
    assert_eq!(
        ready_session_config_action(&identity(), &config(), 0, &bare),
        ReadySessionConfigAction::Restart
    );
}

#[test]
fn every_disconnection_text_counts_anywhere_in_the_message() {
    assert!(is_browser_disconnected_error("x Connection closed y"));
    assert!(is_browser_disconnected_error("Trying to work with closed connection"));
    assert!(is_browser_disconnected_error("Session with given id not found"));
    assert!(is_browser_disconnected_error("CDP error: code=-32001"));
    assert!(!is_browser_disconnected_error("connection closed"));
    assert!(!is_browser_disconnected_error("code=-32000"));
    assert!(!is_browser_disconnected_error(""));
}

#[test]
fn taking_and_restoring_gives_the_session_back() {
    let mut session = ready("page");
    assert_eq!(take_browser_session(&mut session), Ok("page"));
    assert_eq!(session, lent(false));
    assert_eq!(take_browser_session(&mut session), Err(BrowserError::InUse));
    assert_eq!(session, lent(false));
    assert_eq!(
        restore_browser_session(&mut session, "page", Some("登录失败"), 3),
        None
    );
    assert_eq!(session, ready("page"));

    let mut empty: BrowserSession<u8> = BrowserSession::Empty;
    assert_eq!(
        take_browser_session(&mut empty),
        Err(BrowserError::NotInitialized)
    );
    assert_eq!(empty, BrowserSession::Empty);
}

#[test]
fn lost_connections_are_dropped_without_closing_the_browser() {
    let mut session = lent(false);
    assert_eq!(
        restore_browser_session(&mut session, "page", Some("Connection closed"), 0),
        None
    );
    assert_eq!(session, BrowserSession::Empty);
}

#[test]
fn a_connection_without_a_known_browser_is_not_kept() {
    let mut session = being_set_up();
    assert_eq!(restore_browser_session(&mut session, "page", None, 0), None);
    assert_eq!(session, BrowserSession::Empty);

    let mut session = ready("other");
    assert_eq!(restore_browser_session(&mut session, "page", None, 0), None);
    assert_eq!(session, BrowserSession::Empty);
}

#[test]
fn a_close_request_waits_for_the_connection() {
    let mut session = lent(false);
    assert_eq!(close_browser_session(&mut session, 0), Ok(None));
    assert_eq!(session, lent(true));
    assert_eq!(
        restore_browser_session(&mut session, "page", None, 0),
        Some("page")
    );
    assert_eq!(session, BrowserSession::Empty);

    let mut session = lent(true);
    assert_eq!(restore_browser_session(&mut session, "page", None, 1), None);
    assert_eq!(session, ready("page"));
}

#[test]
fn tasks_keep_the_browser_open() {
    assert_eq!(check_no_task_is_active(0), Ok(()));
    assert_eq!(check_no_task_is_active(1), Err(BrowserError::TasksActive));
    let mut session = ready("page");
    assert_eq!(
        close_browser_session(&mut session, 1),
        Err(BrowserError::TasksActive)
    );
    assert_eq!(session, ready("page"));
    assert_eq!(close_browser_session(&mut session, 0), Ok(Some("page")));
    assert_eq!(session, BrowserSession::Empty);
    assert_eq!(close_browser_session(&mut session, 0), Ok(None));
}

#[test]
fn only_a_free_connection_can_be_looked_at() {
    assert_eq!(ready_browser(&ready("page")), Ok(&"page"));
    assert_eq!(ready_browser(&lent(false)), Err(BrowserError::NotInitialized));
}

#[test]
fn an_empty_session_is_set_up_once() {
    let mut session: BrowserSession<&str> = BrowserSession::Empty;
    let outcome: Result<(), Failure<u8>> = init_browser_session(
        &mut session,
        &config(),
        0,
        &unix(),
        |_: &&str| unreachable!(),
        || unreachable!(),
        |_| unreachable!(),
        || (Ok("page"), Some(41000)),
    );
    assert_eq!(outcome, Ok(()));
    assert_eq!(session, ready("page"));

    let outcome: Result<(), Failure<u8>> = init_browser_session(
        &mut session,
        &config(),
        0,
        &unix(),
        |page: &&str| *page == "page",
        || unreachable!(),
        |_| unreachable!(),
        || unreachable!(),
    );
    assert_eq!(outcome, Ok(()));
    assert_eq!(session, ready("page"));
}

#[test]
fn a_changed_configuration_replaces_the_browser_or_is_refused() {
    let changed = BrowserConfig {
        debug_port: Some(42000),
        ..config()
    };
    let mut session = ready("old");
    let outcome: Result<(), Failure<u8>> = init_browser_session(
        &mut session,
        &changed,
        1,
        &unix(),
        |_: &&str| true,
        || unreachable!(),
        |_| unreachable!(),
        || unreachable!(),
    );
    assert_eq!(
        outcome,
        Err(Failure::Refused(BrowserError::ConfigChangedDuringTasks))
    );
    assert_eq!(session, ready("old"));

    let mut closed = vec![];
    let outcome: Result<(), Failure<u8>> = init_browser_session(
        &mut session,
        &changed,
        0,
        &unix(),
        |_: &&str| true,
        || unreachable!(),
        |page| closed.push(page),
        || (Ok("new"), Some(42000)),
    );
    assert_eq!(outcome, Ok(()));
    assert_eq!(closed, vec!["old"]);
    assert_eq!(
        session,
        BrowserSession::Ready {
            browser: "new",
            identity: BrowserSessionIdentity {
                debug_port: 42000,
                ..identity()
            },
        }
    );
}

#[test]
fn an_unusable_browser_is_replaced_without_being_closed() {
    let mut session = ready("dead");
    let outcome: Result<(), Failure<u8>> = init_browser_session(
        &mut session,
        &config(),
        5,
        &unix(),
        |_: &&str| false,
        || unreachable!(),
        |_| unreachable!(),
        || (Ok("page"), Some(41000)),
    );
    assert_eq!(outcome, Ok(()));
    assert_eq!(session, ready("page"));
}

#[test]
fn a_failed_start_leaves_the_session_empty() {
    let mut session = ready("dead");
    let outcome: Result<(), Failure<u8>> = init_browser_session(
        &mut session,
        &config(),
        0,
        &unix(),
        |_: &&str| false,
        || unreachable!(),
        |_| unreachable!(),
        || (Err(Failure::Outside(7)), None),
    );
    assert_eq!(outcome, Err(Failure::Outside(7)));
    assert_eq!(session, BrowserSession::Empty);
}

#[test]
fn an_unfinished_start_leaves_the_session_being_set_up() {
    let mut session: BrowserSession<&str> = BrowserSession::Empty;
    let bare = Host {
        existing: vec![],
        ..unix()
    };
    let outcome: Result<(), Failure<u8>> = init_browser_session(
        &mut session,
        &config(),
        0,
        &bare,
        |_: &&str| unreachable!(),
        || unreachable!(),
        |_| unreachable!(),
        || unreachable!(),
    );
    assert_eq!(
        outcome,
        Err(Failure::Refused(BrowserError::NoBrowserFound))
    );
    assert_eq!(session, being_set_up());

    let mut session: BrowserSession<&str> = BrowserSession::Empty;
    let outcome: Result<(), Failure<u8>> = init_browser_session(
        &mut session,
        &config(),
        0,
        &unix(),
        |_: &&str| unreachable!(),
        || unreachable!(),
        |_| unreachable!(),
        || (Ok("page"), None),
    );
    assert_eq!(
        outcome,
        Err(Failure::Refused(BrowserError::DebugPortUnknown))
    );
    assert_eq!(session, being_set_up());
}

#[test]
fn a_lent_session_serves_while_its_browser_answers() {
    for answers in [true, false] {
        let mut session = lent(false);
        let outcome: Result<(), Failure<u8>> = init_browser_session(
            &mut session,
            &config(),
            0,
            &unix(),
            |_: &&str| unreachable!(),
            || answers,
            |_| unreachable!(),
            || unreachable!(),
        );
        let expected = if answers {
            Ok(())
        } else {
            Err(Failure::Refused(BrowserError::InitializingOrInUse))
        };
        assert_eq!(outcome, expected);
        assert_eq!(session, lent(false));
    }
    let mut session = lent(false);
    let changed = BrowserConfig {
        user_data_dir: "/tmp/profile-b".to_string(),
        ..config()
    };
    let outcome: Result<(), Failure<u8>> = init_browser_session(
        &mut session,
        &changed,
        0,
        &unix(),
        |_: &&str| unreachable!(),
        || unreachable!(),
        |_| unreachable!(),
        || unreachable!(),
    );
    assert_eq!(
        outcome,
        Err(Failure::Refused(BrowserError::InUseCannotSwitch))
    );
}

#[test]
fn a_replaced_browser_is_closed_before_the_next_is_created() {
    let calls = std::cell::RefCell::new(vec![]);
    let mut session = ready("old");
    let changed = BrowserConfig {
        user_data_dir: "/tmp/profile-b".to_string(),
        ..config()
    };
    let outcome: Result<(), Failure<u8>> = init_browser_session(
        &mut session,
        &changed,
        0,
        &unix(),
        |_: &&str| {
            calls.borrow_mut().push("look");
            true
        },
        || unreachable!(),
        |_| calls.borrow_mut().push("close"),
        || {
            calls.borrow_mut().push("create");
            (Ok("new"), Some(41000))
        },
    );
    assert_eq!(outcome, Ok(()));
    assert_eq!(calls.into_inner(), vec!["look", "close", "create"]);
}

#[test]
fn an_unusable_browser_with_another_configuration_is_not_closed() {
    let mut session = ready("dead");
    let changed = BrowserConfig {
        user_data_dir: "/tmp/profile-b".to_string(),
        ..config()
    };
    let outcome: Result<(), Failure<u8>> = init_browser_session(
        &mut session,
        &changed,
        0,
        &unix(),
        |_: &&str| false,
        || unreachable!(),
        |_| unreachable!(),
        || (Ok("new"), Some(41000)),
    );
    assert_eq!(outcome, Ok(()));
}
