use rpa_browser::command_line::{linux_cmdline_state, ProcessCommandState};
use rpa_browser::ports::{
    linux_port_ownership_from_evidence, linux_process_port_ownership, lsof_port_ownership,
    socket_inode, socket_inodes_of_links, windows_port_ownership, PortOwnership,
};

const HEADER: &str = "  sl  local_address rem_address st tx_queue rx_queue tr tm->when retrnsmt uid timeout inode\n";

#[test]
fn linux_partial_proc_evidence_is_unknown_and_target_port_is_checked() {
    let inode = "12345".to_string();
    let matching = format!(
        "  sl  local_address rem_address st tx_queue rx_queue tr tm->when retrnsmt uid timeout inode\n   0: 0100007F:A028 00000000:0000 0A 0:0 0:0 0 0 0 {}",
        inode
    );
    let non_matching_port = matching.replace("A028", "A029");

    assert_eq!(
        linux_port_ownership_from_evidence(
            false,
            std::slice::from_ref(&inode),
            &[Ok(matching.clone()), Ok(String::new())],
            41000,
        ),
        PortOwnership::Unknown
    );
    assert_eq!(
        linux_port_ownership_from_evidence(
            true,
            std::slice::from_ref(&inode),
            &[Ok(matching.clone()), Err(())],
            41000,
        ),
        PortOwnership::Unknown
    );
    assert_eq!(
        linux_port_ownership_from_evidence(
            true,
            std::slice::from_ref(&inode),
            &[Ok("malformed".to_string()), Ok(String::new())],
            41000,
        ),
        PortOwnership::Unknown
    );
    assert_eq!(
        linux_port_ownership_from_evidence(
            true,
            std::slice::from_ref(&inode),
            &[Ok(matching), Ok(String::new())],
            41000,
        ),
        PortOwnership::Owned
    );
    assert_eq!(
        linux_port_ownership_from_evidence(
            true,
            &[inode],
            &[Ok(non_matching_port), Ok(String::new())],
            41000,
        ),
        PortOwnership::NotOwned
    );
}

#[test]
fn windows_missing_explicit_ownership_result_is_unknown() {
    assert_eq!(
        windows_port_ownership(true, "CMD=chrome.exe --user-data-dir=C:\\profile"),
        PortOwnership::Unknown
    );
    assert_eq!(
        windows_port_ownership(true, "PORT_QUERY_OK=1\nOWNS=0"),
        PortOwnership::NotOwned
    );
}

#[test]
fn linux_empty_or_unreadable_proc_evidence_is_unknown() {
    assert_eq!(
        linux_port_ownership_from_evidence(false, &[], &[], 41000),
        PortOwnership::Unknown
    );
    assert_eq!(linux_cmdline_state(None), ProcessCommandState::Unknown);
    assert_eq!(linux_cmdline_state(Some(&[])), ProcessCommandState::Unknown);
}

#[test]
fn macos_lsof_exit_one_requires_clean_empty_output_for_not_owned() {
    assert_eq!(
        lsof_port_ownership(Some(1), b"", b""),
        PortOwnership::NotOwned
    );
    assert_eq!(
        lsof_port_ownership(Some(1), b"", b"permission denied"),
        PortOwnership::Unknown
    );
    assert_eq!(
        lsof_port_ownership(None, b"", b"tool unavailable"),
        PortOwnership::Unknown
    );
}

#[test]
fn lsof_success_needs_output() {
    assert_eq!(lsof_port_ownership(Some(0), b"x", b""), PortOwnership::Owned);
    assert_eq!(lsof_port_ownership(Some(0), b"", b""), PortOwnership::Unknown);
    assert_eq!(lsof_port_ownership(Some(1), b"x", b""), PortOwnership::Unknown);
    assert_eq!(lsof_port_ownership(Some(2), b"", b""), PortOwnership::Unknown);
}

#[test]
fn windows_query_must_have_finished() {
    assert_eq!(
        windows_port_ownership(false, "PORT_QUERY_OK=1\nOWNS=1"),
        PortOwnership::Unknown
    );
    assert_eq!(windows_port_ownership(true, "OWNS=1"), PortOwnership::Unknown);
    assert_eq!(
        windows_port_ownership(true, "PORT_QUERY_OK=1\r\nOWNS=0\r\nOWNS=1\r\n"),
        PortOwnership::Owned
    );
    assert_eq!(
        windows_port_ownership(true, "PORT_QUERY_OK=1\n OWNS=1"),
        PortOwnership::Unknown
    );
}

#[test]
fn socket_links_name_their_inode() {
    assert_eq!(socket_inode("socket:[12345]"), Some("12345".to_string()));
    assert_eq!(socket_inode("socket:[]"), Some(String::new()));
    assert_eq!(socket_inode("socket:["), None);
    assert_eq!(socket_inode("pipe:[12345]"), None);
    assert_eq!(socket_inode("/dev/null"), None);
    assert_eq!(
        socket_inodes_of_links(&vec![
            Some("socket:[7]".to_string()),
            Some("/dev/null".to_string()),
            Some("socket:[8]".to_string()),
        ]),
        (true, vec!["7".to_string(), "8".to_string()])
    );
    assert_eq!(
        socket_inodes_of_links(&vec![Some("socket:[7]".to_string()), None]),
        (false, vec!["7".to_string()])
    );
}

#[test]
fn linux_tables_decide_by_their_first_telling_line() {
    let line = |port: &str, state: &str, inode: &str| {
        format!("   0: 0100007F:{port} 00000000:0000 {state} 0:0 0:0 0 0 0 {inode} 1\n")
    };
    let judge = |first: String, second: String| {
        linux_port_ownership_from_evidence(true, &["7".to_string()], &[Ok(first), Ok(second)], 80)
    };
    let owned = format!("{HEADER}{}", line("0050", "0A", "7"));
    assert_eq!(judge(owned.clone(), String::new()), PortOwnership::Owned);
    assert_eq!(judge(String::new(), owned.clone()), PortOwnership::Owned);
    assert_eq!(
        judge(format!("{HEADER}{}", line("0050", "01", "7")), String::new()),
        PortOwnership::NotOwned
    );
    assert_eq!(
        judge(format!("{HEADER}{}", line("0050", "0A", "8")), String::new()),
        PortOwnership::NotOwned
    );
    assert_eq!(
        judge(format!("{HEADER}{}", line("50", "0A", "7")), String::new()),
        PortOwnership::NotOwned
    );
    assert_eq!(
        judge(format!("{HEADER}short\n"), owned.clone()),
        PortOwnership::Unknown
    );
    assert_eq!(
        judge(format!("{owned}short\n"), String::new()),
        PortOwnership::Owned
    );
    assert_eq!(judge("\n".to_string(), owned), PortOwnership::Unknown);
    assert_eq!(judge(String::new(), String::new()), PortOwnership::NotOwned);
}

#[test]
fn linux_links_and_tables_are_judged_together() {
    let table = format!("{HEADER}   0: 0100007F:FFFF 00000000:0000 0A 0:0 0:0 0 0 0 7");
    let tables = [Ok(String::new()), Ok(table)];
    let links = vec![Some("socket:[7]".to_string())];
    assert_eq!(
        linux_process_port_ownership(Some(&links), &tables, 65535),
        PortOwnership::Owned
    );
    assert_eq!(
        linux_process_port_ownership(Some(&links), &tables, 65534),
        PortOwnership::NotOwned
    );
    let broken = vec![Some("socket:[7]".to_string()), None];
    assert_eq!(
        linux_process_port_ownership(Some(&broken), &tables, 65535),
        PortOwnership::Unknown
    );
    assert_eq!(
        linux_process_port_ownership(None, &tables, 65535),
        PortOwnership::Unknown
    );
}
