use rpa_browser::cdp::{http_success_body, is_cdp_version_response, version_names_debugger};
use rpa_browser::environment::{
    browser_candidates, browser_executable, check_browser_env_status, detect_browser_path,
    BrowserConfig, BrowserEnvStatus,
};
use rpa_browser::error::BrowserError;
use rpa_browser::paths::{
    executable_paths_match, normalize_profile_path, profiles_match, Host, ListedPath,
    PathComponent, Platform,
};
use rpa_browser::queries::{
    linux_cmdline_path, linux_fd_path, linux_socket_tables, lsof_arguments, version_request,
    windows_query_arguments,
};
use rpa_browser::text::{
    decimal_of, is_white_space, lines_of, port_hex_of, string_of, to_lower_char, trimmed, words_of,
};
use std::path::{Component, Path};

fn host(platform: Platform, existing: &[&str]) -> Host {
    Host {
        platform,
        existing: existing.iter().map(|path| path.to_string()).collect(),
        current_dir: Some("/home/user".to_string()),
        listed: vec![],
    }
}

fn config(chrome_exe_path: Option<&str>, user_data_dir: &str) -> BrowserConfig {
    BrowserConfig {
        user_data_dir: user_data_dir.to_string(),
        chrome_exe_path: chrome_exe_path.map(str::to_string),
        max_parallel_tasks: 2,
        debug_port: None,
    }
}

fn texts(list: Vec<Vec<char>>) -> Vec<String> {
    list.into_iter().map(|row| row.into_iter().collect()).collect()
}

#[test]
fn non_cdp_listener_is_not_treated_as_a_managed_browser() {
    assert!(!is_cdp_version_response(
        "HTTP/1.1 200 OK\r\nContent-Type: text/plain\r\nContent-Length: 2\r\n\r\nOK"
    ));
}

#[test]
fn a_browser_answers_with_its_name_and_its_debugger() {
    let body = r#"{"Browser":"Chrome/120","webSocketDebuggerUrl":"ws://127.0.0.1/devtools/browser/test"}"#;
    assert!(is_cdp_version_response(&format!(
        "HTTP/1.1 200 OK\r\nContent-Type: application/json\r\nContent-Length: {}\r\n\r\n{}",
        body.len(),
        body
    )));
    assert!(is_cdp_version_response(&format!("HTTP/1.0 200 OK\r\n\r\n{body}")));
    assert!(!is_cdp_version_response(&format!("HTTP/2 200 OK\r\n\r\n{body}")));
    assert!(!is_cdp_version_response(&format!("HTTP/1.1 404 Not Found\r\n\r\n{body}")));
    assert!(!is_cdp_version_response(&format!("HTTP/1.1 200 OK\n\n{body}")));
    assert!(!is_cdp_version_response(
        "HTTP/1.1 200 OK\r\n\r\n{\"Browser\":\"Chrome/120\"}"
    ));
    assert!(!is_cdp_version_response(
        "HTTP/1.1 200 OK\r\n\r\n{\"Browser\":1,\"webSocketDebuggerUrl\":\"ws://\"}"
    ));
    assert!(!is_cdp_version_response("HTTP/1.1 200 OK\r\n\r\n[\"Browser\"]"));
    assert!(!is_cdp_version_response(""));
    assert_eq!(
        http_success_body("HTTP/1.1 200 OK\r\na: b\r\n\r\nx\r\n\r\ny"),
        Some("x\r\n\r\ny".to_string())
    );
    assert!(version_names_debugger(&Some(String::new()), &Some(String::new())));
    assert!(!version_names_debugger(&Some(String::new()), &None));
}

#[test]
fn chrome_is_preferred_to_edge() {
    let both = host(
        Platform::Unix,
        &["/usr/bin/microsoft-edge", "/usr/bin/chromium"],
    );
    assert_eq!(
        detect_browser_path(&both),
        Some(("Chrome", "/usr/bin/chromium".to_string()))
    );
    let edge = host(Platform::Unix, &["/usr/bin/microsoft-edge-stable"]);
    assert_eq!(
        detect_browser_path(&edge),
        Some(("Edge", "/usr/bin/microsoft-edge-stable".to_string()))
    );
    let mac = host(
        Platform::MacOs,
        &["/Applications/Google Chrome.app/Contents/MacOS/Google Chrome"],
    );
    assert_eq!(detect_browser_path(&mac).unwrap().0, "Chrome");
    let windows = host(
        Platform::Windows,
        &[r"C:\Program Files (x86)\Microsoft\Edge\Application\msedge.exe"],
    );
    assert_eq!(detect_browser_path(&windows).unwrap().0, "Edge");
    assert_eq!(detect_browser_path(&host(Platform::MacOs, &["/usr/bin/chromium"])), None);
    assert_eq!(browser_candidates(Platform::MacOs).len(), 2);
    assert_eq!(browser_candidates(Platform::Windows).len(), 4);
    assert_eq!(browser_candidates(Platform::Unix).len(), 6);
    assert_eq!(
        browser_candidates(Platform::Windows)[0].path,
        r"C:\Program Files\Google\Chrome\Application\chrome.exe"
    );
}

#[test]
fn environment_status_reports_browser_and_profile() {
    let machine = host(Platform::Unix, &["/usr/bin/chromium", "/opt/chrome"]);
    assert_eq!(
        check_browser_env_status(&config(Some("/opt/chrome"), "/tmp/p"), &machine),
        BrowserEnvStatus {
            browser_found: true,
            browser_name: Some("自定义路径".to_string()),
            browser_path: Some("/opt/chrome".to_string()),
            user_data_dir_ok: true,
            user_data_dir: Some("/tmp/p".to_string()),
        }
    );
    let missing = check_browser_env_status(&config(Some("/opt/none"), " null "), &machine);
    assert!(!missing.browser_found);
    assert_eq!(missing.browser_path, Some("/opt/none".to_string()));
    assert!(!missing.user_data_dir_ok);
    assert_eq!(missing.user_data_dir, None);
    for nothing in ["", "  ", "null", " None\n"] {
        let status = check_browser_env_status(&config(Some(nothing), nothing), &machine);
        assert_eq!(status.browser_name, Some("Chrome".to_string()));
        assert_eq!(status.browser_path, Some("/usr/bin/chromium".to_string()));
        assert!(status.browser_found && !status.user_data_dir_ok);
    }
    let bare = check_browser_env_status(&config(None, "/tmp/p"), &host(Platform::Unix, &[]));
    assert!(!bare.browser_found);
    assert_eq!(bare.browser_name, None);
}

#[test]
fn the_configured_program_comes_before_the_detected_one() {
    let machine = host(Platform::Unix, &["/usr/bin/chromium"]);
    assert_eq!(
        browser_executable(&config(Some(" /opt/x "), ""), &machine),
        Ok(" /opt/x ".to_string())
    );
    assert_eq!(
        browser_executable(&config(Some("null"), ""), &machine),
        Ok("null".to_string())
    );
    assert_eq!(
        browser_executable(&config(Some(" \t"), ""), &machine),
        Ok("/usr/bin/chromium".to_string())
    );
    assert_eq!(
        browser_executable(&config(None, ""), &host(Platform::Unix, &[])),
        Err(BrowserError::NoBrowserFound)
    );
}

fn reference_normal_path(path: &str) -> Vec<PathComponent> {
    let mut normal = vec![];
    for component in Path::new("/home/user").join(path).components() {
        match component {
            Component::CurDir => {}
            Component::ParentDir => {
                if matches!(normal.last(), Some(PathComponent::Normal(_))) {
                    normal.pop();
                }
            }
            Component::RootDir => normal.push(PathComponent::RootDir),
            Component::Normal(name) => {
                normal.push(PathComponent::Normal(name.to_str().unwrap().to_string()))
            }
            Component::Prefix(_) => unreachable!(),
        }
    }
    normal
}

#[test]
fn unix_paths_are_normalized_as_the_system_parts_them() {
    let machine = host(Platform::Unix, &[]);
    for path in [
        "/", "", ".", "..", "/..", "/../a", "a", "./a", "a/", "a//b", "/a/./b/../c", "../../..",
        "../../../a", "/a/b/../../..", "//a", "/a/.../b", "/a/..b", "~", "a b/ c", "/资料/../夹",
        "/./.", "...", "a/.", "a/..",
    ] {
        assert_eq!(
            normalize_profile_path(path, &machine),
            Some(reference_normal_path(path))
        );
    }
}

#[test]
fn relative_paths_need_a_working_directory() {
    let lost = Host {
        current_dir: None,
        ..host(Platform::Unix, &[])
    };
    assert_eq!(normalize_profile_path("a", &lost), None);
    assert!(!profiles_match("a", "a", &lost));
    assert!(profiles_match("/a", "/b/../a", &lost));
}

#[test]
fn unix_paths_match_letter_for_letter() {
    let machine = host(Platform::MacOs, &[]);
    assert!(profiles_match("/tmp/./a//b/", "/tmp/a/b", &machine));
    assert!(profiles_match("a", "/home/user/a", &machine));
    assert!(profiles_match("/tmp/x/../a", "/tmp/a", &machine));
    assert!(!profiles_match("/tmp/A", "/tmp/a", &machine));
    assert!(!profiles_match("/tmp/a", "/tmp/a/b", &machine));
    assert!(executable_paths_match("/usr/bin/../bin/chrome", "/usr/bin/chrome", &machine));
}

#[test]
fn windows_paths_match_whatever_their_case() {
    let parts = |names: &[&str]| {
        let mut components = vec![PathComponent::Prefix("C:".to_string()), PathComponent::RootDir];
        components.extend(names.iter().map(|name| PathComponent::Normal(name.to_string())));
        components
    };
    let machine = Host {
        platform: Platform::Windows,
        existing: vec![],
        current_dir: None,
        listed: vec![
            ListedPath {
                text: r"C:\Profiles\A".to_string(),
                components: parts(&["Profiles", "A"]),
            },
            ListedPath {
                text: r"c:\profiles\x\..\a".to_string(),
                components: vec![
                    PathComponent::Prefix("c:".to_string()),
                    PathComponent::RootDir,
                    PathComponent::Normal("profiles".to_string()),
                    PathComponent::Normal("x".to_string()),
                    PathComponent::ParentDir,
                    PathComponent::Normal("a".to_string()),
                ],
            },
            ListedPath {
                text: r"C:\Profiles\B".to_string(),
                components: parts(&["Profiles", "B"]),
            },
        ],
    };
    assert!(profiles_match(r"C:\Profiles\A", r"c:\profiles\x\..\a", &machine));
    assert!(!profiles_match(r"C:\Profiles\A", r"C:\Profiles\B", &machine));
    assert!(!profiles_match(r"C:\Profiles\A", r"C:\unlisted", &machine));
}

#[test]
fn every_refusal_has_its_text() {
    let text = |error: BrowserError| error.message();
    assert_eq!(text(BrowserError::NoBrowserFound), "未找到可用的 Chrome 或 Edge");
    assert_eq!(
        text(BrowserError::ConfigChangedDuringTasks),
        "浏览器配置已变化，但仍有自动化任务正在使用当前浏览器"
    );
    assert_eq!(
        text(BrowserError::InUseCannotSwitch),
        "浏览器正在使用中，无法切换 profile 或调试端口"
    );
    assert_eq!(
        text(BrowserError::InitializingOrInUse),
        "浏览器会话正在初始化或使用中，请稍后重试"
    );
    assert_eq!(text(BrowserError::DebugPortUnknown), "浏览器已初始化但调试端口未知");
    assert_eq!(
        text(BrowserError::PortChangeRejected { port: 41000 }),
        "同一 profile 的受管浏览器仍在端口 41000 运行；请先关闭浏览器后再切换到显式端口"
    );
    assert_eq!(
        text(BrowserError::Unverified { pid: 4294967295 }),
        "无法验证受管浏览器 PID 4294967295 的 profile 或调试端口归属，已拒绝复用或启动第二实例"
    );
    assert_eq!(
        text(BrowserError::RecordUnreadable),
        "受管浏览器进程记录无法读取或解析，已拒绝启动第二实例；请确认旧浏览器已关闭后删除 rpa-browser.json"
    );
    assert_eq!(
        text(BrowserError::PortOccupied { port: 0 }),
        "浏览器调试端口 0 已被占用"
    );
    assert_eq!(
        text(BrowserError::PortClaimed { port: 9222 }),
        "Chrome 启动期间调试端口 9222 被其他进程抢占，已拒绝连接"
    );
    assert_eq!(text(BrowserError::NotConnected), "Chrome 启动后未能建立 CDP 连接");
    assert_eq!(
        text(BrowserError::SessionUnusable { port: 10 }),
        "浏览器调试端口 10 的会话不可用"
    );
    assert_eq!(
        text(BrowserError::TaskConnectionUnusable { port: 10 }),
        "浏览器调试端口 10 的任务连接不可用"
    );
    assert_eq!(
        text(BrowserError::PortUnavailable { port: 10 }),
        "浏览器调试端口 10 不可用"
    );
    assert_eq!(text(BrowserError::NotInitialized), "浏览器尚未初始化");
    assert_eq!(text(BrowserError::InUse), "浏览器正在使用中");
    assert_eq!(
        text(BrowserError::TasksActive),
        "仍有自动化任务正在使用浏览器，暂不能关闭"
    );
}

#[test]
fn characters_are_judged_as_the_standard_library_does() {
    for code in 0..=0x10ffff_u32 {
        if let Some(c) = char::from_u32(code) {
            assert_eq!(is_white_space(c), c.is_whitespace());
            assert_eq!(to_lower_char(c), c.to_ascii_lowercase());
        }
    }
}

#[test]
fn texts_are_parted_as_the_standard_library_does() {
    for text in [
        "", "\n", "a", "a\n", "a\r\nb", "a\r", "\r\n\r\n", "\n\nb\n", "a\rb\n", " a  b\tc\u{3000}d ",
        "\u{a0}x\u{85}", "  ", "资 料\r\n夹",
    ] {
        let lines: Vec<String> = text.lines().map(str::to_string).collect();
        assert_eq!(texts(lines_of(text)), lines);
        let words: Vec<String> = text.split_whitespace().map(str::to_string).collect();
        let chars: Vec<char> = text.chars().collect();
        assert_eq!(texts(words_of(&chars)), words);
        let trim: String = trimmed(text).into_iter().collect();
        assert_eq!(trim, text.trim());
        assert_eq!(string_of(&chars), text);
    }
}

#[test]
fn numbers_are_written_as_the_standard_library_does() {
    for n in [0, 7, 9, 10, 11, 99, 100, 65535, 1000000, u32::MAX] {
        assert_eq!(decimal_of(n), n.to_string());
    }
    for port in 0..=u16::MAX {
        let digits: String = port_hex_of(port).into_iter().collect();
        assert_eq!(digits, format!("{port:04X}"));
    }
}

#[test]
fn the_system_is_asked_word_for_word() {
    assert_eq!(linux_cmdline_path(123), "/proc/123/cmdline");
    assert_eq!(linux_fd_path(123), "/proc/123/fd");
    assert_eq!(linux_socket_tables(), ["/proc/net/tcp", "/proc/net/tcp6"]);
    assert_eq!(
        lsof_arguments(123, 9222),
        vec!["-nP", "-a", "-p", "123", "-i", "TCP:9222", "-sTCP:LISTEN"]
    );
    let (pid, port) = (123, 9222);
    let script = format!(
        "$ErrorActionPreference='Stop'; \
         $p=Get-CimInstance Win32_Process -Filter \"ProcessId={}\"; \
         $connections=@(Get-NetTCPConnection -State Listen -LocalPort {}); \
         Write-Output 'PORT_QUERY_OK=1'; \
         if($p){{Write-Output ('CMD=' + $p.CommandLine)}}; \
         if($connections | Where-Object {{$_.OwningProcess -eq {}}}){{Write-Output 'OWNS=1'}}else{{Write-Output 'OWNS=0'}}",
        pid, port, pid
    );
    assert_eq!(
        windows_query_arguments(pid, port),
        vec!["-NoProfile", "-NonInteractive", "-Command", &script]
    );
    assert_eq!(
        version_request().as_bytes(),
        b"GET /json/version HTTP/1.1\r\nHost: 127.0.0.1\r\nConnection: close\r\n\r\n"
    );
}

#[test]
fn normalized_paths_are_absolute_and_stay_as_they_are() {
    let machine = host(Platform::Unix, &[]);
    let normal = |path: &str| normalize_profile_path(path, &machine).unwrap();
    let written = |parts: &[PathComponent]| {
        let mut text = String::new();
        for part in parts {
            if let PathComponent::Normal(name) = part {
                text.push('/');
                text.push_str(name);
            }
        }
        if text.is_empty() {
            "/".to_string()
        } else {
            text
        }
    };
    assert_eq!(
        normal("/../a"),
        vec![PathComponent::RootDir, PathComponent::Normal("a".to_string())]
    );
    assert_eq!(normal("/.."), vec![PathComponent::RootDir]);
    for path in ["/../a", "..", "a/../b", "", "../../..", "/x/./y/"] {
        let parts = normal(path);
        assert_eq!(parts[0], PathComponent::RootDir);
        assert_eq!(normal(&written(&parts)), parts);
    }
}
