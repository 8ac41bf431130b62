use rpa_browser::environment::BrowserConfig;
use rpa_browser::error::{BrowserError, Failure};
use rpa_browser::launch::{
    attempt_browser_launch, browser_launch_arguments, check_port_is_free, child_poll_action,
    classify_launch_probe, classify_launch_probe_with, debug_endpoint, debug_port_is_automatic,
    launch_again, launch_refusal, query_wait_action, run_browser_launch_attempts,
    select_browser_debug_port, BrowserLaunchAttempt, ChildPollAction, LaunchEvent, LaunchFailure,
    LaunchStep, LaunchWait, QueryWaitAction,
};
use rpa_browser::command_line::user_data_dir_of_arguments;

fn config(debug_port: Option<u16>) -> BrowserConfig {
    BrowserConfig {
        user_data_dir: "/tmp/offer flow".to_string(),
        chrome_exe_path: None,
        max_parallel_tasks: 2,
        debug_port,
    }
}

#[test]
fn production_retry_runner_retries_automatic_but_not_explicit_ports() {
    let mut automatic_calls = 0;
    let automatic = run_browser_launch_attempts(true, |_| {
        automatic_calls += 1;
        if automatic_calls < 3 {
            Err(anyhow::Error::msg("not ready"))
        } else {
            Ok(43000)
        }
    });
    assert_eq!(automatic.unwrap(), 43000);
    assert_eq!(automatic_calls, 3);

    let mut explicit_calls = 0;
    let explicit: Result<u16, anyhow::Error> = run_browser_launch_attempts(false, |_| {
        explicit_calls += 1;
        Err(anyhow::Error::msg("not ready"))
    });
    assert!(explicit.is_err());
    assert_eq!(explicit_calls, 1);
}

#[test]
fn inactive_cdp_skips_expensive_port_ownership_probe() {
    let mut calls = 0;
    let result = classify_launch_probe_with(false, || {
        calls += 1;
        true
    });

    assert_eq!(result, BrowserLaunchAttempt::ReadinessTimeout);
    assert_eq!(calls, 0);
}

#[test]
fn launch_wait_refuses_cdp_not_owned_by_spawned_pid() {
    assert_eq!(
        classify_launch_probe(true, false),
        BrowserLaunchAttempt::PortClaimed
    );
    assert_eq!(
        classify_launch_probe(true, true),
        BrowserLaunchAttempt::Ready(0)
    );
}

#[test]
fn configured_debug_port_uses_explicit_value_and_zero_allocates_dynamically() {
    let explicit = BrowserConfig {
        user_data_dir: "/tmp/offer-flow-profile".to_string(),
        chrome_exe_path: None,
        max_parallel_tasks: 2,
        debug_port: Some(43210),
    };
    let never: Result<u16, ()> = select_browser_debug_port(&explicit, || unreachable!());
    assert_eq!(never.unwrap(), 43210);

    let automatic = BrowserConfig {
        debug_port: Some(0),
        ..explicit
    };
    let port: Result<u16, ()> = select_browser_debug_port(&automatic, || Ok(49152));
    assert_ne!(port.unwrap(), 0);
    assert_eq!(port.unwrap(), 49152);
}

#[test]
fn process_probe_wait_errors_require_cleanup() {
    let poll: std::io::Result<Option<i32>> = Err(std::io::Error::other("probe failed"));
    assert_eq!(child_poll_action(&poll), ChildPollAction::CleanupAndFail);
}

#[test]
fn the_last_failure_of_an_automatic_port_is_reported() {
    let mut calls = 0;
    let outcome: Result<(), i32> = run_browser_launch_attempts(true, |_| {
        calls += 1;
        Err(calls)
    });
    assert_eq!(outcome, Err(3));
    assert_eq!(calls, 3);
    let mut numbers = vec![];
    let outcome: Result<usize, ()> = run_browser_launch_attempts(true, |attempt| {
        numbers.push(attempt);
        if attempt == 1 {
            Ok(attempt)
        } else {
            Err(())
        }
    });
    assert_eq!(outcome, Ok(1));
    assert_eq!(numbers, vec![0, 1]);
    assert!(launch_again(true, 2));
    assert!(!launch_again(true, 3));
    assert!(!launch_again(false, 1));
}

#[test]
fn children_are_polled_until_they_end() {
    let ended: Result<Option<i32>, ()> = Ok(Some(1));
    let runs: Result<Option<i32>, ()> = Ok(None);
    let failed: Result<Option<i32>, ()> = Err(());
    assert_eq!(child_poll_action(&ended), ChildPollAction::Exited);
    assert_eq!(child_poll_action(&runs), ChildPollAction::Continue);
    assert_eq!(query_wait_action(&ended, true), QueryWaitAction::TakeOutput);
    assert_eq!(query_wait_action(&runs, false), QueryWaitAction::Wait);
    assert_eq!(
        query_wait_action(&runs, true),
        QueryWaitAction::CleanupAndGiveUp
    );
    assert_eq!(
        query_wait_action(&failed, false),
        QueryWaitAction::CleanupAndFail
    );
}

#[test]
fn one_attempt_selects_checks_and_starts() {
    assert!(debug_port_is_automatic(&config(None)));
    assert!(debug_port_is_automatic(&config(Some(0))));
    assert!(!debug_port_is_automatic(&config(Some(1))));
    assert_eq!(
        check_port_is_free(9222, true),
        Err(BrowserError::PortOccupied { port: 9222 })
    );

    let started: Result<(&str, u16), Failure<u8>> =
        attempt_browser_launch(&config(None), || Ok(49152), |_| false, |_| Ok("page"));
    assert_eq!(started, Ok(("page", 49152)));
    let occupied: Result<(&str, u16), Failure<u8>> = attempt_browser_launch(
        &config(Some(9222)),
        || unreachable!(),
        |port| port == 9222,
        |_| unreachable!(),
    );
    assert_eq!(
        occupied,
        Err(Failure::Refused(BrowserError::PortOccupied { port: 9222 }))
    );
    let no_port: Result<(&str, u16), Failure<u8>> = attempt_browser_launch(
        &config(None),
        || Err(7),
        |_| unreachable!(),
        |_| unreachable!(),
    );
    assert_eq!(no_port, Err(Failure::Outside(7)));
    let failed: Result<(&str, u16), Failure<u8>> = attempt_browser_launch(
        &config(None),
        || Ok(49152),
        |_| false,
        |_| Err(Failure::Refused(BrowserError::NotConnected)),
    );
    assert_eq!(failed, Err(Failure::Refused(BrowserError::NotConnected)));
}

#[test]
fn a_browser_is_started_with_twelve_arguments() {
    let args = browser_launch_arguments(&config(None), 9222);
    assert_eq!(
        args,
        vec![
            "--remote-debugging-port=9222",
            "--user-data-dir=/tmp/offer flow",
            "--window-size=1920,1080",
            "--no-default-browser-check",
            "--disable-suggestions-ui",
            "--no-first-run",
            "--disable-infobars",
            "--disable-popup-blocking",
            "--hide-crash-restore-bubble",
            "--disable-features=PrivacySandboxSettings4",
            "--disable-blink-features=AutomationControlled",
            "--no-sandbox",
        ]
    );
    assert_eq!(
        user_data_dir_of_arguments(&args),
        Some("/tmp/offer flow".to_string())
    );
    assert_eq!(debug_endpoint(65535), "127.0.0.1:65535");
}

#[test]
fn a_started_browser_is_handed_out_once_its_record_is_written() {
    let mut wait = LaunchWait::new();
    assert_eq!(
        wait.next(LaunchEvent::Probed(classify_launch_probe(false, true))),
        LaunchStep::Poll
    );
    assert_eq!(
        wait.next(LaunchEvent::Polled(ChildPollAction::Continue)),
        LaunchStep::Pause
    );
    assert_eq!(wait.next(LaunchEvent::Paused), LaunchStep::Probe);
    assert_eq!(wait.rounds_left, 59);
    assert_eq!(
        wait.next(LaunchEvent::Probed(classify_launch_probe(true, true))),
        LaunchStep::Connect
    );
    assert_eq!(wait.next(LaunchEvent::Connected(false)), LaunchStep::Poll);
    assert_eq!(
        wait.next(LaunchEvent::Connected(true)),
        LaunchStep::SaveRecord
    );
    assert_eq!(wait.next(LaunchEvent::Saved(true)), LaunchStep::Finish);
}

#[test]
fn a_started_browser_is_given_up_for_four_reasons() {
    let mut wait = LaunchWait::new();
    assert_eq!(
        wait.next(LaunchEvent::Probed(classify_launch_probe(true, false))),
        LaunchStep::Abandon(LaunchFailure::PortClaimed)
    );
    assert_eq!(
        wait.next(LaunchEvent::Saved(false)),
        LaunchStep::Abandon(LaunchFailure::NotSaved)
    );
    assert_eq!(
        wait.next(LaunchEvent::Polled(ChildPollAction::CleanupAndFail)),
        LaunchStep::Abandon(LaunchFailure::NotPolled)
    );
    assert_eq!(
        wait.next(LaunchEvent::Polled(ChildPollAction::Exited)),
        LaunchStep::Abandon(LaunchFailure::NotConnected)
    );
    assert_eq!(
        launch_refusal(LaunchFailure::PortClaimed, 9222),
        Some(BrowserError::PortClaimed { port: 9222 })
    );
    assert_eq!(
        launch_refusal(LaunchFailure::NotConnected, 9222),
        Some(BrowserError::NotConnected)
    );
    assert_eq!(launch_refusal(LaunchFailure::NotSaved, 9222), None);
    assert_eq!(launch_refusal(LaunchFailure::NotPolled, 9222), None);
}

#[test]
fn the_wait_ends_with_its_sixtieth_pause() {
    let mut wait = LaunchWait::new();
    for _ in 0..59 {
        assert_eq!(wait.next(LaunchEvent::Paused), LaunchStep::Probe);
    }
    assert_eq!(
        wait.next(LaunchEvent::Paused),
        LaunchStep::Abandon(LaunchFailure::NotConnected)
    );
}
