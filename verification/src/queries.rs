//! What the system and the browser are asked, word for word.

use crate::text;
use vstd::prelude::*;
use vstd::string::*;

verus! {

/// The file that holds the command line of a Linux process.
pub fn linux_cmdline_path(pid: u32) -> (path: String)
    ensures
        path@ == "/proc/"@ + text::decimal(pid as nat) + "/cmdline"@,
{
    "/proc/".to_owned().concat(text::decimal_of(pid).as_str()).concat("/cmdline")
}

/// The directory that holds the file descriptors of a Linux process.
pub fn linux_fd_path(pid: u32) -> (path: String)
    ensures
        path@ == "/proc/"@ + text::decimal(pid as nat) + "/fd"@,
{
    "/proc/".to_owned().concat(text::decimal_of(pid).as_str()).concat("/fd")
}

/// The files that hold the socket tables of a Linux system.
pub fn linux_socket_tables() -> (paths: [&'static str; 2])
    ensures
        paths@[0]@ == "/proc/net/tcp"@,
        paths@[1]@ == "/proc/net/tcp6"@,
{
    ["/proc/net/tcp", "/proc/net/tcp6"]
}

/// The arguments that make `lsof` list a process's listening socket on a port.
pub open spec fn lsof_query(pid: u32, port: u16) -> Seq<Seq<char>> {
    seq![
        "-nP"@,
        "-a"@,
        "-p"@,
        text::decimal(pid as nat),
        "-i"@,
        "TCP:"@ + text::decimal(port as nat),
        "-sTCP:LISTEN"@,
    ]
}

/// The arguments that make `lsof` list a process's listening socket on a port.
pub fn lsof_arguments(pid: u32, port: u16) -> (args: Vec<String>)
    ensures
        text::texts(args@) == lsof_query(pid, port),
{
    let mut args: Vec<String> = Vec::new();
    args.push("-nP".to_owned());
    args.push("-a".to_owned());
    args.push("-p".to_owned());
    args.push(text::decimal_of(pid));
    args.push("-i".to_owned());
    args.push("TCP:".to_owned().concat(text::decimal_of(port as u32).as_str()));
    args.push("-sTCP:LISTEN".to_owned());
    assert(text::texts(args@) =~= lsof_query(pid, port));
    args
}

/// The PowerShell script that reports a process's command line and whether it listens on a port.
pub open spec fn windows_script(pid: u32, port: u16) -> Seq<char> {
    "$ErrorActionPreference='Stop'; $p=Get-CimInstance Win32_Process -Filter \"ProcessId="@
        + text::decimal(pid as nat)
        + "\"; $connections=@(Get-NetTCPConnection -State Listen -LocalPort "@ + text::decimal(
        port as nat,
    )
        + "); Write-Output 'PORT_QUERY_OK=1'; if($p){Write-Output ('CMD=' + $p.CommandLine)}; if($connections | Where-Object {$_.OwningProcess -eq "@
        + text::decimal(pid as nat) + "}){Write-Output 'OWNS=1'}else{Write-Output 'OWNS=0'}"@
}

/// The arguments that make PowerShell run the process query.
pub fn windows_query_arguments(pid: u32, port: u16) -> (args: Vec<String>)
    ensures
        text::texts(args@) == seq![
            "-NoProfile"@,
            "-NonInteractive"@,
            "-Command"@,
            windows_script(pid, port),
        ],
{
    let mut script =
        "$ErrorActionPreference='Stop'; $p=Get-CimInstance Win32_Process -Filter \"ProcessId=".to_owned();
    script.append(text::decimal_of(pid).as_str());
    script.append("\"; $connections=@(Get-NetTCPConnection -State Listen -LocalPort ");
    script.append(text::decimal_of(port as u32).as_str());
    script.append(
        "); Write-Output 'PORT_QUERY_OK=1'; if($p){Write-Output ('CMD=' + $p.CommandLine)}; if($connections | Where-Object {$_.OwningProcess -eq ",
    );
    script.append(text::decimal_of(pid).as_str());
    script.append("}){Write-Output 'OWNS=1'}else{Write-Output 'OWNS=0'}");
    let mut args: Vec<String> = Vec::new();
    args.push("-NoProfile".to_owned());
    args.push("-NonInteractive".to_owned());
    args.push("-Command".to_owned());
    args.push(script);
    assert(text::texts(args@) =~= seq![
        "-NoProfile"@,
        "-NonInteractive"@,
        "-Command"@,
        windows_script(pid, port),
    ]);
    args
}

/// The HTTP request that asks a browser for its version.
pub fn version_request() -> (request: &'static str)
    ensures
        request@
            == "GET /json/version HTTP/1.1\r\nHost: 127.0.0.1\r\nConnection: close\r\n\r\n"@,
{
    "GET /json/version HTTP/1.1\r\nHost: 127.0.0.1\r\nConnection: close\r\n\r\n"
}

/// What the system is asked names the process and the port, each where it belongs.
pub proof fn law_queries_name_the_process_and_the_port(pid: u32, port: u16)
    ensures
        lsof_query(pid, port).len() == 7,
        lsof_query(pid, port)[0] == "-nP"@,
        lsof_query(pid, port)[1] == "-a"@,
        lsof_query(pid, port)[2] == "-p"@,
        lsof_query(pid, port)[3] == text::decimal(pid as nat),
        lsof_query(pid, port)[4] == "-i"@,
        lsof_query(pid, port)[5] == "TCP:"@ + text::decimal(port as nat),
        lsof_query(pid, port)[6] == "-sTCP:LISTEN"@,
        windows_script(pid, port)
            == "$ErrorActionPreference='Stop'; $p=Get-CimInstance Win32_Process -Filter \"ProcessId="@
            + text::decimal(pid as nat)
            + "\"; $connections=@(Get-NetTCPConnection -State Listen -LocalPort "@ + text::decimal(
            port as nat,
        )
            + "); Write-Output 'PORT_QUERY_OK=1'; if($p){Write-Output ('CMD=' + $p.CommandLine)}; if($connections | Where-Object {$_.OwningProcess -eq "@
            + text::decimal(pid as nat) + "}){Write-Output 'OWNS=1'}else{Write-Output 'OWNS=0'}"@,
{
}

} // verus!
