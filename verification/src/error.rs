//! Why the browser was refused, and the text that says so.

use crate::text;
use vstd::prelude::*;
use vstd::string::*;

verus! {

/// Why a browser operation was refused.
#[derive(Debug, Clone, Copy, PartialEq, Eq, Structural)]
pub enum BrowserError {
    /// Neither Chrome nor Edge is installed.
    NoBrowserFound,
    /// The configuration changed while tasks still use the browser.
    ConfigChangedDuringTasks,
    /// The browser is in use with another profile, port or program.
    InUseCannotSwitch,
    /// The session is being set up or used, and no browser answers yet.
    InitializingOrInUse,
    /// The browser runs, but its debug port is not known.
    DebugPortUnknown,
    /// The managed browser of this profile runs on another port than the one asked for.
    PortChangeRejected { port: u16 },
    /// The managed browser's profile or port could not be verified.
    Unverified { pid: u32 },
    /// The record of the managed browser could not be read.
    RecordUnreadable,
    /// Something listens on the port already.
    PortOccupied { port: u16 },
    /// Another process took the port while the browser started.
    PortClaimed { port: u16 },
    /// The browser started but could not be reached.
    NotConnected,
    /// The session on the port is unusable.
    SessionUnusable { port: u16 },
    /// A task's connection to the port is unusable.
    TaskConnectionUnusable { port: u16 },
    /// The debug port does not answer.
    PortUnavailable { port: u16 },
    /// There is no browser session.
    NotInitialized,
    /// The browser session is lent out.
    InUse,
    /// Tasks still use the browser.
    TasksActive,
}

/// Why an operation failed that reaches outside the library.
#[derive(Debug, Clone, Copy, PartialEq, Eq)]
pub enum Failure<E> {
    /// The library refused it.
    Refused(BrowserError),
    /// What was asked of the outside failed.
    Outside(E),
}

/// The text that says why an operation was refused.
pub open spec fn message_text(error: BrowserError) -> Seq<char> {
    match error {
        BrowserError::NoBrowserFound => "未找到可用的 Chrome 或 Edge"@,
        BrowserError::ConfigChangedDuringTasks => "浏览器配置已变化，但仍有自动化任务正在使用当前浏览器"@,
        BrowserError::InUseCannotSwitch => "浏览器正在使用中，无法切换 profile 或调试端口"@,
        BrowserError::InitializingOrInUse => "浏览器会话正在初始化或使用中，请稍后重试"@,
        BrowserError::DebugPortUnknown => "浏览器已初始化但调试端口未知"@,
        BrowserError::PortChangeRejected { port } => "同一 profile 的受管浏览器仍在端口 "@ + text::decimal(
            port as nat,
        ) + " 运行；请先关闭浏览器后再切换到显式端口"@,
        BrowserError::Unverified { pid } => "无法验证受管浏览器 PID "@ + text::decimal(pid as nat)
            + " 的 profile 或调试端口归属，已拒绝复用或启动第二实例"@,
        BrowserError::RecordUnreadable => "受管浏览器进程记录无法读取或解析，已拒绝启动第二实例；请确认旧浏览器已关闭后删除 rpa-browser.json"@,
        BrowserError::PortOccupied { port } => "浏览器调试端口 "@ + text::decimal(port as nat)
            + " 已被占用"@,
        BrowserError::PortClaimed { port } => "Chrome 启动期间调试端口 "@ + text::decimal(port as nat)
            + " 被其他进程抢占，已拒绝连接"@,
        BrowserError::NotConnected => "Chrome 启动后未能建立 CDP 连接"@,
        BrowserError::SessionUnusable { port } => "浏览器调试端口 "@ + text::decimal(port as nat)
            + " 的会话不可用"@,
        BrowserError::TaskConnectionUnusable { port } => "浏览器调试端口 "@ + text::decimal(
            port as nat,
        ) + " 的任务连接不可用"@,
        BrowserError::PortUnavailable { port } => "浏览器调试端口 "@ + text::decimal(port as nat)
            + " 不可用"@,
        BrowserError::NotInitialized => "浏览器尚未初始化"@,
        BrowserError::InUse => "浏览器正在使用中"@,
        BrowserError::TasksActive => "仍有自动化任务正在使用浏览器，暂不能关闭"@,
    }
}

/// A text with a number in its middle.
fn with_number(before: &str, number: u32, after: &str) -> (whole: String)
    ensures
        whole@ == before@ + text::decimal(number as nat) + after@,
{
    let mut whole = before.to_owned();
    whole.append(text::decimal_of(number).as_str());
    whole.append(after);
    whole
}

impl BrowserError {
    /// The text that says why the operation was refused.
    pub fn message(&self) -> (message: String)
        ensures
            message@ == message_text(*self),
    {
        match *self {
            BrowserError::NoBrowserFound => "未找到可用的 Chrome 或 Edge".to_owned(),
            BrowserError::ConfigChangedDuringTasks => "浏览器配置已变化，但仍有自动化任务正在使用当前浏览器".to_owned(),
            BrowserError::InUseCannotSwitch => "浏览器正在使用中，无法切换 profile 或调试端口".to_owned(),
            BrowserError::InitializingOrInUse => "浏览器会话正在初始化或使用中，请稍后重试".to_owned(),
            BrowserError::DebugPortUnknown => "浏览器已初始化但调试端口未知".to_owned(),
            BrowserError::PortChangeRejected { port } => with_number(
                "同一 profile 的受管浏览器仍在端口 ",
                port as u32,
                " 运行；请先关闭浏览器后再切换到显式端口",
            ),
            BrowserError::Unverified { pid } => with_number(
                "无法验证受管浏览器 PID ",
                pid,
                " 的 profile 或调试端口归属，已拒绝复用或启动第二实例",
            ),
            BrowserError::RecordUnreadable => "受管浏览器进程记录无法读取或解析，已拒绝启动第二实例；请确认旧浏览器已关闭后删除 rpa-browser.json".to_owned(),
            BrowserError::PortOccupied { port } => with_number(
                "浏览器调试端口 ",
                port as u32,
                " 已被占用",
            ),
            BrowserError::PortClaimed { port } => with_number(
                "Chrome 启动期间调试端口 ",
                port as u32,
                " 被其他进程抢占，已拒绝连接",
            ),
            BrowserError::NotConnected => "Chrome 启动后未能建立 CDP 连接".to_owned(),
            BrowserError::SessionUnusable { port } => with_number(
                "浏览器调试端口 ",
                port as u32,
                " 的会话不可用",
            ),
            BrowserError::TaskConnectionUnusable { port } => with_number(
                "浏览器调试端口 ",
                port as u32,
                " 的任务连接不可用",
            ),
            BrowserError::PortUnavailable { port } => with_number(
                "浏览器调试端口 ",
                port as u32,
                " 不可用",
            ),
            BrowserError::NotInitialized => "浏览器尚未初始化".to_owned(),
            BrowserError::InUse => "浏览器正在使用中".to_owned(),
            BrowserError::TasksActive => "仍有自动化任务正在使用浏览器，暂不能关闭".to_owned(),
        }
    }
}

/// A refusal that concerns a port or a process names it in full, whatever its number.
pub proof fn law_refusals_name_their_number(port: u16, pid: u32)
    ensures
        message_text(BrowserError::PortChangeRejected { port }) == "同一 profile 的受管浏览器仍在端口 "@
            + text::decimal(port as nat) + " 运行；请先关闭浏览器后再切换到显式端口"@,
        message_text(BrowserError::Unverified { pid }) == "无法验证受管浏览器 PID "@ + text::decimal(
            pid as nat,
        ) + " 的 profile 或调试端口归属，已拒绝复用或启动第二实例"@,
        message_text(BrowserError::PortOccupied { port }) == "浏览器调试端口 "@ + text::decimal(
            port as nat,
        ) + " 已被占用"@,
        message_text(BrowserError::PortClaimed { port }) == "Chrome 启动期间调试端口 "@ + text::decimal(
            port as nat,
        ) + " 被其他进程抢占，已拒绝连接"@,
        message_text(BrowserError::SessionUnusable { port }) == "浏览器调试端口 "@ + text::decimal(
            port as nat,
        ) + " 的会话不可用"@,
        message_text(BrowserError::TaskConnectionUnusable { port }) == "浏览器调试端口 "@
            + text::decimal(port as nat) + " 的任务连接不可用"@,
        message_text(BrowserError::PortUnavailable { port }) == "浏览器调试端口 "@ + text::decimal(
            port as nat,
        ) + " 不可用"@,
{
}

} // verus!
