use rpa_browser::command_line::{
    command_identifies_browser, command_user_data_dir, command_user_data_dir_from_argv,
    linux_cmdline_state, linux_cmdline_state_from_result, macos_command_user_data_dir,
    macos_procargs_state_from_result, parse_macos_procargs, read_block_arguments,
    state_of_arguments, user_data_dir_of_arguments, ProcessCommandState, ReadFailure,
};

fn failure_of(error: &std::io::Error) -> ReadFailure {
    ReadFailure {
        not_found: error.kind() == std::io::ErrorKind::NotFound,
        no_such_process: error.raw_os_error() == Some(libc::ESRCH),
    }
}

#[test]
fn parses_user_data_dir_from_browser_command_line() {
    assert_eq!(
        command_user_data_dir(
            r#"Google Chrome --remote-debugging-port=41000 --user-data-dir="/tmp/profile a""#
        ),
        Some("/tmp/profile a".to_string())
    );
    assert_eq!(
        command_user_data_dir(r#"chrome.exe --user-data-dir "C:\Profiles\Offer Flow""#),
        Some(r#"C:\Profiles\Offer Flow"#.to_string())
    );
    assert_eq!(
        command_user_data_dir("chrome --remote-debugging-port=1"),
        None
    );
}

#[test]
fn linux_argv_preserves_user_data_dir_with_spaces() {
    let args = [
        b"/usr/bin/google-chrome".as_slice(),
        b"--remote-debugging-port=41000".as_slice(),
        b"--user-data-dir".as_slice(),
        b"/home/user/Offer Flow/Profile".as_slice(),
    ];

    assert_eq!(
        command_user_data_dir_from_argv(&args),
        Some("/home/user/Offer Flow/Profile".to_string())
    );
}

#[test]
fn macos_ambiguous_unquoted_profile_with_spaces_is_unknown() {
    assert_eq!(
        macos_command_user_data_dir(
            "Google Chrome --user-data-dir=/Users/test/Offer Flow/Profile --remote-debugging-port=41000"
        ),
        None
    );
}

#[test]
fn linux_proc_not_found_is_dead_but_other_failures_are_unknown() {
    let missing = std::io::Error::from(std::io::ErrorKind::NotFound);
    assert_eq!(
        linux_cmdline_state_from_result(Err(failure_of(&missing))),
        ProcessCommandState::Dead
    );
    let denied = std::io::Error::from(std::io::ErrorKind::PermissionDenied);
    assert_eq!(
        linux_cmdline_state_from_result(Err(failure_of(&denied))),
        ProcessCommandState::Unknown
    );
    assert_eq!(
        linux_cmdline_state_from_result(Ok(Vec::new())),
        ProcessCommandState::Unknown
    );
}

#[test]
fn parses_only_browser_process_identity() {
    assert!(command_identifies_browser(
        "/Applications/Google Chrome.app/Contents/MacOS/Google Chrome --remote-debugging-port=41000"
    ));
    assert!(command_identifies_browser(
        "msedge.exe --remote-debugging-port=41000"
    ));
    assert!(!command_identifies_browser("node unrelated-cdp-server.js"));
}

#[test]
fn macos_missing_process_is_dead_but_probe_failures_are_unknown() {
    let gone = std::io::Error::from_raw_os_error(libc::ESRCH);
    assert_eq!(
        macos_procargs_state_from_result(Err(failure_of(&gone))),
        ProcessCommandState::Dead
    );
    let denied = std::io::Error::from(std::io::ErrorKind::PermissionDenied);
    assert_eq!(
        macos_procargs_state_from_result(Err(failure_of(&denied))),
        ProcessCommandState::Unknown
    );
    assert_eq!(
        macos_procargs_state_from_result(Ok(Vec::new())),
        ProcessCommandState::Unknown
    );
}

#[test]
fn macos_procargs_parser_preserves_profile_paths_with_spaces() {
    let mut bytes = (4_i32).to_ne_bytes().to_vec();
    bytes.extend_from_slice(b"/Applications/Google Chrome.app/Contents/MacOS/Google Chrome\0\0");
    bytes.extend_from_slice(b"/Applications/Google Chrome.app/Contents/MacOS/Google Chrome\0");
    bytes.extend_from_slice(b"--remote-debugging-port=41000\0");
    bytes.extend_from_slice(
        b"--user-data-dir=/Users/test/Library/Application Support/Offer Flow/Profile\0",
    );
    bytes.extend_from_slice(b"--no-first-run\0");

    let args = parse_macos_procargs(&bytes).expect("parse process argv");
    let refs: Vec<&[u8]> = args.iter().map(Vec::as_slice).collect();
    assert_eq!(
        command_user_data_dir_from_argv(&refs),
        Some("/Users/test/Library/Application Support/Offer Flow/Profile".to_string())
    );
}

#[test]
fn windows_whole_quoted_user_data_dir_argument_preserves_spaces() {
    assert_eq!(
        command_user_data_dir(
            r#"chrome.exe "--user-data-dir=C:\Users\test\Application Support\Offer Flow\Profile" --remote-debugging-port=41000"#,
        ),
        Some(r"C:\Users\test\Application Support\Offer Flow\Profile".to_string())
    );
}

#[test]
fn browsers_are_known_by_five_names_in_any_case() {
    for name in [
        "GOOGLE CHROME",
        "C:\\Chrome.EXE",
        "/usr/bin/chromium",
        "Microsoft Edge",
        "MSEDGE.exe",
    ] {
        assert!(command_identifies_browser(name));
    }
    for name in ["/usr/bin/google-chrome", "chrome", "firefox", ""] {
        assert!(!command_identifies_browser(name));
    }
}

#[test]
fn profile_values_are_read_with_and_without_quotes() {
    let dir = |command: &str| command_user_data_dir(command);
    assert_eq!(dir("x --user-data-dir=/a/b c"), Some("/a/b".to_string()));
    assert_eq!(dir("x --user-data-dir /a/b c"), Some("/a/b".to_string()));
    assert_eq!(dir("x --user-data-dir = '/a b' c"), Some("/a b".to_string()));
    assert_eq!(dir("--user-data-dir=/a"), Some("/a".to_string()));
    assert_eq!(dir("x --user-data-dir="), None);
    assert_eq!(dir("x --user-data-dir=\"\""), None);
    assert_eq!(dir("x --user-data-dir=\"/a"), None);
    assert_eq!(dir("x --user-data-dir='/a"), None);
    assert_eq!(dir("x \"--user-data-dir=/a b"), None);
    assert_eq!(dir("x --user-data-dir==/a"), Some("=/a".to_string()));
    assert_eq!(dir("目录 --user-data-dir=\"/资料 夹\" z"), Some("/资料 夹".to_string()));
}

#[test]
fn joined_command_lines_are_read_with_caution() {
    let dir = |command: &str| macos_command_user_data_dir(command);
    assert_eq!(dir("chrome --user-data-dir=/a"), Some("/a".to_string()));
    assert_eq!(dir("chrome --user-data-dir=\"/a b\" --x"), Some("/a b".to_string()));
    assert_eq!(dir("chrome --user-data-dir '/a b' --x"), Some("/a b".to_string()));
    assert_eq!(dir("chrome --user-data-dir=/a --x"), None);
    assert_eq!(dir("chrome --user-data-dirs=/a"), None);
    assert_eq!(dir("chrome --user-data-dir"), None);
    assert_eq!(dir("chrome"), None);
}

#[test]
fn argument_lists_name_their_profile() {
    let list = |args: &[&str]| {
        user_data_dir_of_arguments(&args.iter().map(|arg| arg.to_string()).collect())
    };
    assert_eq!(list(&["x", "--user-data-dir=/a b"]), Some("/a b".to_string()));
    assert_eq!(list(&["x", "--user-data-dir", "/a b"]), Some("/a b".to_string()));
    assert_eq!(list(&["x", "--user-data-dir=", "/a"]), None);
    assert_eq!(list(&["x", "--user-data-dir"]), None);
    assert_eq!(list(&["x", "--user-data-dir", ""]), None);
    assert_eq!(list(&["x", "--user-data-dirs=/a"]), None);
    assert_eq!(
        list(&["x", "--user-data-dir=/a", "--user-data-dir=/b"]),
        Some("/a".to_string())
    );
    assert_eq!(list(&[]), None);
    assert_eq!(
        state_of_arguments(&vec!["/usr/bin/chromium".to_string()]),
        ProcessCommandState::Alive {
            browser_process: true,
            user_data_dir: None,
        }
    );
}

#[test]
fn command_line_files_part_at_zero_bytes() {
    assert_eq!(
        linux_cmdline_state(Some(b"/usr/bin/chromium\0--user-data-dir=/a b\0")),
        ProcessCommandState::Alive {
            browser_process: true,
            user_data_dir: Some("/a b".to_string()),
        }
    );
    assert_eq!(
        linux_cmdline_state(Some(b"\0\0node\0\0--user-data-dir\0/a")),
        ProcessCommandState::Alive {
            browser_process: false,
            user_data_dir: Some("/a".to_string()),
        }
    );
    assert_eq!(linux_cmdline_state(Some(b"\0\0")), ProcessCommandState::Unknown);
}

#[test]
fn invalid_bytes_become_replacement_characters() {
    let args = [b"x".as_slice(), b"--user-data-dir=/a\xff\xfeb".as_slice()];
    assert_eq!(
        command_user_data_dir_from_argv(&args),
        Some("/a\u{fffd}\u{fffd}b".to_string())
    );
    let args = [b"x".as_slice(), "--user-data-dir=/资料".as_bytes()];
    assert_eq!(
        command_user_data_dir_from_argv(&args),
        Some("/资料".to_string())
    );
}

#[test]
fn argument_blocks_hold_what_they_announce_or_nothing() {
    let block = |count: i32, body: &[u8]| {
        let mut bytes = count.to_ne_bytes().to_vec();
        bytes.extend_from_slice(body);
        parse_macos_procargs(&bytes)
    };
    assert_eq!(
        block(2, b"/bin/x\0\0\0x\0-a\0HOME=/\0"),
        Some(vec![b"x".to_vec(), b"-a".to_vec()])
    );
    assert_eq!(block(1, b"/bin/x\0\0\0\0y\0"), Some(vec![b"y".to_vec()]));
    assert_eq!(
        block(2, b"/bin/x\0x\0\0-a\0"),
        Some(vec![b"x".to_vec(), b"-a".to_vec()])
    );
    assert_eq!(block(3, b"/bin/x\0x\0-a\0"), None);
    assert_eq!(block(1, b"/bin/x\0x"), None);
    assert_eq!(block(1, b"/bin/x"), None);
    assert_eq!(block(0, b"/bin/x\0x\0"), None);
    assert_eq!(block(-1, b"/bin/x\0x\0"), None);
    assert_eq!(block(256, b"/bin/x\0x\0"), None);
    assert_eq!(parse_macos_procargs(b"\x01\0\0"), None);
    assert_eq!(
        read_block_arguments(b"\0\0\0\0p\0x\0", 1),
        Some(vec![b"x".to_vec()])
    );
}

#[test]
fn a_started_browser_is_recognised_by_its_command_line() {
    let config = rpa_browser::environment::BrowserConfig {
        user_data_dir: "/tmp/资料 夹".to_string(),
        chrome_exe_path: None,
        max_parallel_tasks: 2,
        debug_port: None,
    };
    let mut args = vec!["/usr/bin/chromium".to_string()];
    args.extend(rpa_browser::launch::browser_launch_arguments(&config, 9222));
    let expected = ProcessCommandState::Alive {
        browser_process: true,
        user_data_dir: Some("/tmp/资料 夹".to_string()),
    };

    let mut file = vec![];
    for arg in &args {
        file.extend_from_slice(arg.as_bytes());
        file.push(0);
    }
    assert_eq!(linux_cmdline_state(Some(&file)), expected);

    let mut block = (args.len() as i32).to_ne_bytes().to_vec();
    block.extend_from_slice(b"/usr/bin/chromium\0\0\0");
    block.extend_from_slice(&file);
    block.extend_from_slice(b"HOME=/\0");
    assert_eq!(
        macos_procargs_state_from_result(Ok(parse_macos_procargs(&block).unwrap())),
        expected
    );
}

#[test]
fn argument_blocks_tell_the_state_of_a_process() {
    assert_eq!(
        macos_procargs_state_from_result(Ok(vec![
            b"/Applications/Google Chrome.app/Contents/MacOS/Google Chrome".to_vec(),
            b"--user-data-dir=/a b".to_vec(),
        ])),
        ProcessCommandState::Alive {
            browser_process: true,
            user_data_dir: Some("/a b".to_string()),
        }
    );
}
