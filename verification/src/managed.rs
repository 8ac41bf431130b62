//! Whether the browser that was started earlier still runs and may be used again.

use crate::command_line;
use crate::command_line::{ProcessCommandState, ReadFailure};
use crate::environment::BrowserConfig;
use crate::error::BrowserError;
use crate::paths;
use crate::paths::Host;
use crate::ports;
use crate::ports::PortOwnership;
use crate::text;
use vstd::prelude::*;
use vstd::string::*;

verus! {

/// The browser process that was started last.
#[derive(Debug, Clone, PartialEq, Eq)]
pub struct ManagedBrowserRecord {
    pub pid: u32,
    pub port: u16,
    pub user_data_dir: String,
}

/// What the system shows of the recorded process.
#[derive(Debug, Clone, PartialEq, Eq)]
pub struct ManagedProcessEvidence {
    pub pid_alive: bool,
    pub browser_process: bool,
    pub process_user_data_dir: Option<String>,
    pub port_ownership: PortOwnership,
}

/// The mathematical value of a [`ManagedProcessEvidence`].
pub struct EvidenceView {
    pub pid_alive: bool,
    pub browser_process: bool,
    pub process_user_data_dir: Option<Seq<char>>,
    pub port_ownership: PortOwnership,
}

impl View for ManagedProcessEvidence {
    type V = EvidenceView;

    open spec fn view(&self) -> EvidenceView {
        EvidenceView {
            pid_alive: self.pid_alive,
            browser_process: self.browser_process,
            process_user_data_dir: self.process_user_data_dir.deep_view(),
            port_ownership: self.port_ownership,
        }
    }
}

/// What to do about the recorded browser.
#[derive(Debug, Clone, Copy, PartialEq, Eq, Structural)]
pub enum ManagedRecordAction {
    NoRecord,
    /// Connect to the browser on this port.
    Reuse(u16),
    /// It runs on another port than the one asked for.
    RejectPortChange,
    /// It may run, but that could not be verified.
    RejectUnverified,
    /// It is gone; the record can go too.
    RemoveStale,
    /// It belongs to another profile.
    Ignore,
}

/// The outcome of reading the record.
#[derive(Debug, Clone, PartialEq, Eq)]
pub enum ManagedRecordLoad {
    Missing,
    Ready(ManagedBrowserRecord),
    Unverified,
}

/// How to come by a browser once the record has been judged.
#[derive(Debug, Clone, Copy, PartialEq, Eq, Structural)]
pub enum ReuseDecision {
    /// Connect to the managed browser on this port.
    Connect(u16),
    /// Start a browser, after removing the record where it is stale.
    Launch { remove_record: bool },
}

/// The configuration leaves the port open or asks for this one.
pub open spec fn port_allowed(config: BrowserConfig, port: u16) -> bool {
    match config.debug_port {
        Some(wanted) => wanted == 0 || wanted == port,
        None => true,
    }
}

/// The recorded process is gone: its number is free, or belongs to something else by now.
pub open spec fn is_stale(record: ManagedBrowserRecord, evidence: EvidenceView, host: Host) -> bool {
    ||| !evidence.pid_alive
    ||| evidence.process_user_data_dir matches Some(profile) && (!evidence.browser_process
        || !paths::paths_match(host, record.user_data_dir@, profile))
}

/// The recorded process runs on the configured profile, answers, and is the one that listens on
/// the port.
pub open spec fn is_verified(
    config: BrowserConfig,
    evidence: EvidenceView,
    cdp_active: bool,
    host: Host,
) -> bool {
    &&& evidence.process_user_data_dir matches Some(profile) && paths::paths_match(
        host,
        config.user_data_dir@,
        profile,
    )
    &&& cdp_active
    &&& evidence.port_ownership == PortOwnership::Owned
}

/// What to do about the recorded browser.
pub open spec fn record_action(
    record: Option<ManagedBrowserRecord>,
    config: BrowserConfig,
    evidence: EvidenceView,
    cdp_active: bool,
    host: Host,
) -> ManagedRecordAction {
    match record {
        Some(record) => if is_stale(record, evidence, host) {
            ManagedRecordAction::RemoveStale
        } else if !is_verified(config, evidence, cdp_active, host) {
            ManagedRecordAction::RejectUnverified
        } else if !paths::paths_match(host, record.user_data_dir@, config.user_data_dir@) {
            ManagedRecordAction::Ignore
        } else if !port_allowed(config, record.port) {
            ManagedRecordAction::RejectPortChange
        } else {
            ManagedRecordAction::Reuse(record.port)
        },
        None => ManagedRecordAction::NoRecord,
    }
}

/// How to come by a browser, given what is to be done about the recorded one.
pub open spec fn reuse_decision(
    record: Option<ManagedBrowserRecord>,
    action: ManagedRecordAction,
) -> Result<ReuseDecision, BrowserError> {
    match action {
        ManagedRecordAction::Reuse(port) => Ok(ReuseDecision::Connect(port)),
        ManagedRecordAction::RejectPortChange => Err(
            BrowserError::PortChangeRejected { port: record->0.port },
        ),
        ManagedRecordAction::RejectUnverified => Err(
            BrowserError::Unverified { pid: record->0.pid },
        ),
        ManagedRecordAction::RemoveStale => Ok(ReuseDecision::Launch { remove_record: true }),
        ManagedRecordAction::NoRecord | ManagedRecordAction::Ignore => Ok(
            ReuseDecision::Launch { remove_record: false },
        ),
    }
}

/// A record behind a reference, where there is one.
pub open spec fn record_value(record: Option<&ManagedBrowserRecord>) -> Option<
    ManagedBrowserRecord,
> {
    match record {
        Some(record) => Some(*record),
        None => None,
    }
}

/// Whether the configuration allows a browser on `port`.
pub fn configured_port_allows_reuse(config: &BrowserConfig, port: u16) -> (allowed: bool)
    ensures
        allowed == port_allowed(*config, port),
{
    match config.debug_port {
        Some(wanted) => wanted == 0 || wanted == port,
        None => true,
    }
}

/// Whether a browser that answers on the recorded port belongs to the configured profile, letter
/// for letter.
pub fn managed_browser_can_be_reused(
    record: &ManagedBrowserRecord,
    config: &BrowserConfig,
    cdp_port_active: bool,
) -> (reusable: bool)
    ensures
        reusable == (cdp_port_active && record.user_data_dir@ == config.user_data_dir@),
{
    cdp_port_active && text::same_text(record.user_data_dir.as_str(), config.user_data_dir.as_str())
}

/// What to do about the recorded browser.
pub fn managed_record_action(
    record: Option<&ManagedBrowserRecord>,
    config: &BrowserConfig,
    evidence: &ManagedProcessEvidence,
    cdp_port_active: bool,
    host: &Host,
) -> (action: ManagedRecordAction)
    ensures
        action == record_action(record_value(record), *config, evidence@, cdp_port_active, *host),
{
    let record = match record {
        Some(record) => record,
        None => return ManagedRecordAction::NoRecord,
    };
    if !evidence.pid_alive {
        return ManagedRecordAction::RemoveStale;
    }
    let profile = match &evidence.process_user_data_dir {
        Some(profile) => profile.as_str(),
        None => return ManagedRecordAction::RejectUnverified,
    };
    if !evidence.browser_process || !paths::profiles_match(
        record.user_data_dir.as_str(),
        profile,
        host,
    ) {
        return ManagedRecordAction::RemoveStale;
    }
    if !paths::profiles_match(config.user_data_dir.as_str(), profile, host) {
        return ManagedRecordAction::RejectUnverified;
    }
    if !cdp_port_active || evidence.port_ownership != PortOwnership::Owned {
        return ManagedRecordAction::RejectUnverified;
    }
    if !paths::profiles_match(
        record.user_data_dir.as_str(),
        config.user_data_dir.as_str(),
        host,
    ) {
        return ManagedRecordAction::Ignore;
    }
    if !configured_port_allows_reuse(config, record.port) {
        return ManagedRecordAction::RejectPortChange;
    }
    ManagedRecordAction::Reuse(record.port)
}

/// How to come by a browser, given the record and what the system shows of its process.
pub fn reusable_managed_browser_port(
    record: Option<&ManagedBrowserRecord>,
    config: &BrowserConfig,
    evidence: &ManagedProcessEvidence,
    cdp_port_active: bool,
    host: &Host,
) -> (decision: Result<ReuseDecision, BrowserError>)
    ensures
        decision == reuse_decision(
            record_value(record),
            record_action(record_value(record), *config, evidence@, cdp_port_active, *host),
        ),
{
    let found = match record {
        Some(found) => found,
        None => return Ok(ReuseDecision::Launch { remove_record: false }),
    };
    match managed_record_action(record, config, evidence, cdp_port_active, host) {
        ManagedRecordAction::Reuse(port) => Ok(ReuseDecision::Connect(port)),
        ManagedRecordAction::RejectPortChange => Err(
            BrowserError::PortChangeRejected { port: found.port },
        ),
        ManagedRecordAction::RejectUnverified => Err(BrowserError::Unverified { pid: found.pid }),
        ManagedRecordAction::RemoveStale => Ok(ReuseDecision::Launch { remove_record: true }),
        ManagedRecordAction::NoRecord => Ok(ReuseDecision::Launch { remove_record: false }),
        ManagedRecordAction::Ignore => Ok(ReuseDecision::Launch { remove_record: false }),
    }
}

/// The port to look at first: the one that this program last used, where the configuration allows
/// it and the record names it too.
pub fn active_port_to_verify(
    active_port: Option<u16>,
    record: Option<&ManagedBrowserRecord>,
    config: &BrowserConfig,
) -> (port: Option<u16>)
    ensures
        port == match (active_port, record) {
            (Some(active), Some(record)) => if port_allowed(*config, active) && record.port
                == active {
                Some(active)
            } else {
                None
            },
            _ => None,
        },
{
    match (active_port, record) {
        (Some(active), Some(record)) => if configured_port_allows_reuse(config, active)
            && record.port == active {
            Some(active)
        } else {
            None
        },
        _ => None,
    }
}

/// Whether the browser on the port that this program last used may be used again.
pub fn active_port_is_reusable(
    port: u16,
    record: &ManagedBrowserRecord,
    config: &BrowserConfig,
    evidence: &ManagedProcessEvidence,
    cdp_port_active: bool,
    host: &Host,
) -> (reusable: bool)
    ensures
        reusable == (record_action(Some(*record), *config, evidence@, cdp_port_active, *host)
            == ManagedRecordAction::Reuse(port)),
{
    match managed_record_action(Some(record), config, evidence, cdp_port_active, host) {
        ManagedRecordAction::Reuse(found) => found == port,
        _ => false,
    }
}

/// What the outcome of reading the record shows.
pub open spec fn loaded(result: Result<Option<ManagedBrowserRecord>, ReadFailure>) -> ManagedRecordLoad {
    match result {
        Ok(Some(record)) => ManagedRecordLoad::Ready(record),
        Ok(None) => ManagedRecordLoad::Unverified,
        Err(failure) => if failure.not_found {
            ManagedRecordLoad::Missing
        } else {
            ManagedRecordLoad::Unverified
        },
    }
}

/// Judges the outcome of reading the record. `Ok(None)` stands for a record that was read but makes
/// no sense. Only a record that does not exist counts as missing.
pub fn managed_record_load_from_result(
    result: Result<Option<ManagedBrowserRecord>, ReadFailure>,
) -> (load: ManagedRecordLoad)
    ensures
        load == loaded(result),
{
    match result {
        Ok(Some(record)) => ManagedRecordLoad::Ready(record),
        Ok(None) => ManagedRecordLoad::Unverified,
        Err(failure) => if failure.not_found {
            ManagedRecordLoad::Missing
        } else {
            ManagedRecordLoad::Unverified
        },
    }
}

/// The record to go by, or a refusal where there is one that cannot be trusted.
pub fn record_to_go_by(load: ManagedRecordLoad) -> (record: Result<
    Option<ManagedBrowserRecord>,
    BrowserError,
>)
    ensures
        record == match load {
            ManagedRecordLoad::Missing => Ok::<_, BrowserError>(None),
            ManagedRecordLoad::Ready(record) => Ok(Some(record)),
            ManagedRecordLoad::Unverified => Err(BrowserError::RecordUnreadable),
        },
{
    match load {
        ManagedRecordLoad::Missing => Ok(None),
        ManagedRecordLoad::Ready(record) => Ok(Some(record)),
        ManagedRecordLoad::Unverified => Err(BrowserError::RecordUnreadable),
    }
}

/// What a process's command line and its port say together. A command line that could not be read
/// leaves a live process without a known profile.
pub open spec fn evidence_of(
    state: command_line::CommandStateView,
    port_ownership: PortOwnership,
) -> EvidenceView {
    match state {
        command_line::CommandStateView::Alive { browser_process, user_data_dir } => EvidenceView {
            pid_alive: true,
            browser_process,
            process_user_data_dir: user_data_dir,
            port_ownership,
        },
        command_line::CommandStateView::Dead => EvidenceView {
            pid_alive: false,
            browser_process: false,
            process_user_data_dir: None,
            port_ownership,
        },
        command_line::CommandStateView::Unknown => EvidenceView {
            pid_alive: true,
            browser_process: true,
            process_user_data_dir: None,
            port_ownership,
        },
    }
}

/// The process runs and its profile is known.
pub open spec fn profile_known(state: command_line::CommandStateView) -> bool {
    state matches command_line::CommandStateView::Alive { user_data_dir: Some(_), .. }
}

/// The evidence on a Linux process.
pub fn linux_process_evidence(state: ProcessCommandState, port_ownership: PortOwnership) -> (evidence:
    ManagedProcessEvidence)
    ensures
        evidence@ == evidence_of(state@, port_ownership),
{
    match state {
        ProcessCommandState::Alive { browser_process, user_data_dir } => ManagedProcessEvidence {
            pid_alive: true,
            browser_process,
            process_user_data_dir: user_data_dir,
            port_ownership,
        },
        ProcessCommandState::Dead => ManagedProcessEvidence {
            pid_alive: false,
            browser_process: false,
            process_user_data_dir: None,
            port_ownership,
        },
        ProcessCommandState::Unknown => ManagedProcessEvidence {
            pid_alive: true,
            browser_process: true,
            process_user_data_dir: None,
            port_ownership,
        },
    }
}

/// Whether the port of a macOS process is worth a query.
pub fn macos_port_query_needed(state: &ProcessCommandState) -> (needed: bool)
    ensures
        needed == profile_known(state@),
{
    match state {
        ProcessCommandState::Alive { user_data_dir, .. } => user_data_dir.is_some(),
        _ => false,
    }
}

/// The evidence on a macOS process, given what was asked of its port.
pub open spec fn macos_evidence(
    state: command_line::CommandStateView,
    queried: PortOwnership,
) -> EvidenceView {
    evidence_of(
        state,
        if profile_known(state) {
            queried
        } else {
            PortOwnership::Unknown
        },
    )
}

/// The evidence on a macOS process. What was asked of the port counts only where the profile is
/// known.
pub fn macos_process_evidence(state: ProcessCommandState, queried: PortOwnership) -> (evidence:
    ManagedProcessEvidence)
    ensures
        evidence@ == macos_evidence(state@, queried),
{
    let port_ownership = if macos_port_query_needed(&state) {
        queried
    } else {
        PortOwnership::Unknown
    };
    linux_process_evidence(state, port_ownership)
}

/// The rest of the first line from `from` on that begins with `prefix`.
pub open spec fn prefixed_line(lines: Seq<Seq<char>>, prefix: Seq<char>, from: int) -> Option<
    Seq<char>,
>
    decreases lines.len() - from,
{
    if from < 0 || from >= lines.len() {
        None
    } else if text::begins_with(lines[from], prefix) {
        Some(lines[from].skip(prefix.len() as int))
    } else {
        prefixed_line(lines, prefix, from + 1)
    }
}

/// The command line in the output of the process query on Windows; empty where it names none.
pub open spec fn reported_command(stdout: Seq<char>) -> Seq<char> {
    match prefixed_line(text::lines(stdout), "CMD="@, 0) {
        Some(command) => command,
        None => seq![],
    }
}

/// The evidence in the output of the process query on Windows.
pub open spec fn windows_evidence(stdout: Seq<char>) -> EvidenceView {
    let command = reported_command(stdout);
    EvidenceView {
        pid_alive: command.len() > 0,
        browser_process: command_line::names_browser(command),
        process_user_data_dir: command_line::dir_in_command(command),
        port_ownership: ports::windows_ownership(true, stdout),
    }
}

/// A process of which nothing could be learnt: it may well run.
pub open spec fn unknown_evidence() -> EvidenceView {
    EvidenceView {
        pid_alive: true,
        browser_process: true,
        process_user_data_dir: None,
        port_ownership: PortOwnership::Unknown,
    }
}

/// The command line in the output of the process query on Windows.
pub fn windows_reported_command(stdout: &str) -> (command: String)
    ensures
        command@ == reported_command(stdout@),
{
    let list = text::lines_of(stdout);
    let ghost all = text::lines(stdout@);
    assert(all.len() == list@.len());
    let prefix = text::chars_of("CMD=");
    let mut i: usize = 0;
    while i < list.len()
        invariant
            i <= list@.len(),
            prefix@ == "CMD="@,
            text::rows(list@) == all,
            prefixed_line(text::lines(stdout@), "CMD="@, 0) == prefixed_line(
                all,
                "CMD="@,
                i as int,
            ),
        decreases list.len() - i,
    {
        assert(all[i as int] == list@[i as int]@);
        if text::starts_with(list[i].as_slice(), "CMD=") {
            let line = list[i].as_slice();
            let rest = vstd::slice::slice_subrange(line, prefix.len(), line.len());
            assert(rest@ =~= all[i as int].skip(prefix@.len() as int));
            return text::string_of(rest);
        }
        i += 1;
    }
    String::new()
}

/// The evidence in the decoded output of the process query on Windows.
pub fn windows_process_evidence(stdout: &str) -> (evidence: ManagedProcessEvidence)
    ensures
        evidence@ == windows_evidence(stdout@),
{
    let command = windows_reported_command(stdout);
    ManagedProcessEvidence {
        pid_alive: !command.as_str().is_empty(),
        browser_process: command_line::command_identifies_browser(command.as_str()),
        process_user_data_dir: command_line::command_user_data_dir(command.as_str()),
        port_ownership: ports::windows_port_ownership(true, stdout),
    }
}

/// The evidence on a Windows process. There is no output where the query failed or ran too long;
/// the process may then well run, and nothing else is known of it.
pub fn windows_process_evidence_from_output(stdout: Option<&[u8]>) -> (evidence:
    ManagedProcessEvidence)
    ensures
        evidence@ == match stdout {
            Some(stdout) => windows_evidence(command_line::decoded_text(stdout@)),
            None => unknown_evidence(),
        },
{
    match stdout {
        Some(stdout) => windows_process_evidence(command_line::text_of_bytes(stdout).as_str()),
        None => ManagedProcessEvidence {
            pid_alive: true,
            browser_process: true,
            process_user_data_dir: None,
            port_ownership: PortOwnership::Unknown,
        },
    }
}

/// The evidence on a platform where processes cannot be looked at.
pub fn unsupported_process_evidence() -> (evidence: ManagedProcessEvidence)
    ensures
        evidence@ == (EvidenceView {
            pid_alive: false,
            browser_process: false,
            process_user_data_dir: None,
            port_ownership: PortOwnership::Unknown,
        }),
{
    ManagedProcessEvidence {
        pid_alive: false,
        browser_process: false,
        process_user_data_dir: None,
        port_ownership: PortOwnership::Unknown,
    }
}

/// Whether the evidence shows that the process listens on the port.
pub fn process_owns_port(evidence: &ManagedProcessEvidence) -> (owns: bool)
    ensures
        owns == (evidence@.port_ownership == PortOwnership::Owned),
{
    evidence.port_ownership == PortOwnership::Owned
}

/// Everything that reuse asks of the recorded browser: its process runs, is a browser, runs on the
/// recorded and the configured profile, answers, and is the one that listens on the recorded port,
/// which the configuration allows.
pub open spec fn may_be_reused(
    record: ManagedBrowserRecord,
    config: BrowserConfig,
    evidence: EvidenceView,
    cdp_active: bool,
    host: Host,
) -> bool {
    &&& evidence.pid_alive
    &&& evidence.browser_process
    &&& evidence.process_user_data_dir matches Some(profile)
    &&& paths::paths_match(host, record.user_data_dir@, profile)
    &&& paths::paths_match(host, config.user_data_dir@, profile)
    &&& cdp_active
    &&& evidence.port_ownership == PortOwnership::Owned
    &&& port_allowed(config, record.port)
}

/// The recorded browser is reused exactly when everything that reuse asks of it holds.
pub proof fn law_reuse_needs_everything(
    record: Option<ManagedBrowserRecord>,
    config: BrowserConfig,
    evidence: EvidenceView,
    cdp_active: bool,
    host: Host,
    port: u16,
)
    ensures
        record_action(record, config, evidence, cdp_active, host) == ManagedRecordAction::Reuse(port)
            <==> match record {
            Some(found) => found.port == port && may_be_reused(
                found,
                config,
                evidence,
                cdp_active,
                host,
            ),
            None => false,
        },
{
    law_record_is_never_ignored(record, config, evidence, cdp_active, host);
}

/// The check that sets a record of another profile aside is never the one that decides: such a
/// record is stale or unverified before it comes to that.
pub proof fn law_record_is_never_ignored(
    record: Option<ManagedBrowserRecord>,
    config: BrowserConfig,
    evidence: EvidenceView,
    cdp_active: bool,
    host: Host,
)
    ensures
        record_action(record, config, evidence, cdp_active, host) != ManagedRecordAction::Ignore,
{
    if let (Some(found), Some(profile)) = (record, evidence.process_user_data_dir) {
        let recorded = found.user_data_dir@;
        let configured = config.user_data_dir@;
        if paths::paths_match(host, recorded, profile) && paths::paths_match(
            host,
            configured,
            profile,
        ) {
            paths::law_match_symmetric(host, configured, profile);
            paths::law_match_transitive(host, recorded, profile, configured);
        }
    }
}

/// A record is removed only where its process is gone or its number belongs to something else:
/// neither a silent port nor an unknown owner makes it stale.
pub proof fn law_only_dead_or_replaced_is_stale(
    record: ManagedBrowserRecord,
    config: BrowserConfig,
    evidence: EvidenceView,
    cdp_active: bool,
    host: Host,
)
    ensures
        record_action(Some(record), config, evidence, cdp_active, host)
            == ManagedRecordAction::RemoveStale <==> {
            ||| !evidence.pid_alive
            ||| evidence.process_user_data_dir matches Some(profile) && !(evidence.browser_process
                && paths::paths_match(host, record.user_data_dir@, profile))
        },
{
}

/// A live process whose profile, port or answer is in doubt is neither reused nor replaced.
pub proof fn law_doubt_blocks_reuse_and_launch(
    record: ManagedBrowserRecord,
    config: BrowserConfig,
    evidence: EvidenceView,
    cdp_active: bool,
    host: Host,
)
    requires
        evidence.pid_alive,
        evidence.process_user_data_dir is None || (evidence.browser_process && paths::paths_match(
            host,
            record.user_data_dir@,
            evidence.process_user_data_dir->0,
        ) && (!cdp_active || evidence.port_ownership != PortOwnership::Owned)),
    ensures
        reuse_decision(
            Some(record),
            record_action(Some(record), config, evidence, cdp_active, host),
        ) == Err::<ReuseDecision, BrowserError>(BrowserError::Unverified { pid: record.pid }),
{
}

/// A browser is started only where there is no record or the recorded process is gone, and the
/// record is removed exactly in the second case.
pub proof fn law_launch_needs_no_live_browser(
    record: Option<ManagedBrowserRecord>,
    config: BrowserConfig,
    evidence: EvidenceView,
    cdp_active: bool,
    host: Host,
    remove_record: bool,
)
    ensures
        reuse_decision(record, record_action(record, config, evidence, cdp_active, host)) == Ok::<
            ReuseDecision,
            BrowserError,
        >(ReuseDecision::Launch { remove_record }) <==> match record {
            Some(found) => remove_record && is_stale(found, evidence, host),
            None => !remove_record,
        },
{
    law_record_is_never_ignored(record, config, evidence, cdp_active, host);
}

/// A command line or a query that could not be read blocks both reuse and launch, on every
/// platform and whatever else is known.
pub proof fn law_unreadable_process_is_unverified(
    record: ManagedBrowserRecord,
    config: BrowserConfig,
    port_ownership: PortOwnership,
    cdp_active: bool,
    host: Host,
)
    ensures
        record_action(
            Some(record),
            config,
            evidence_of(command_line::CommandStateView::Unknown, port_ownership),
            cdp_active,
            host,
        ) == ManagedRecordAction::RejectUnverified,
        record_action(Some(record), config, unknown_evidence(), cdp_active, host)
            == ManagedRecordAction::RejectUnverified,
{
}

/// Evidence is looked at as it is.
pub proof fn law_evidence_is_looked_at_as_it_is(evidence: ManagedProcessEvidence)
    ensures
        evidence@.pid_alive == evidence.pid_alive,
        evidence@.browser_process == evidence.browser_process,
        evidence@.port_ownership == evidence.port_ownership,
        evidence.process_user_data_dir is None <==> evidence@.process_user_data_dir is None,
        evidence.process_user_data_dir matches Some(dir) ==> evidence@.process_user_data_dir == Some(
            dir@,
        ),
{
}

/// A record behind a reference is the record.
pub proof fn law_a_record_is_looked_at_as_it_is(record: ManagedBrowserRecord)
    ensures
        record_value(Some(&record)) == Some(record),
        record_value(None) is None,
{
}

/// Which ports a configuration allows: every one where it names none or zero, and else the one that
/// it names.
pub proof fn law_a_named_port_is_the_only_one(config: BrowserConfig, port: u16, other: u16)
    ensures
        config.debug_port is None || config.debug_port == Some(0u16) ==> port_allowed(config, port),
        config.debug_port == Some(port) ==> port_allowed(config, port),
        config.debug_port == Some(port) && port != 0 && port != other ==> !port_allowed(
            config,
            other,
        ),
{
}

/// What is done about a record, by what is asked of its process in turn: whether it runs, whether
/// its profile is known, whether it is a browser on the recorded profile, whether that is the
/// configured one, whether it answers and owns the port, and whether the port is allowed.
pub proof fn law_a_record_is_judged_in_turn(
    record: ManagedBrowserRecord,
    config: BrowserConfig,
    evidence: EvidenceView,
    cdp_active: bool,
    host: Host,
)
    ensures
        record_action(None, config, evidence, cdp_active, host) == ManagedRecordAction::NoRecord,
        !evidence.pid_alive ==> record_action(Some(record), config, evidence, cdp_active, host)
            == ManagedRecordAction::RemoveStale,
        evidence.pid_alive && evidence.process_user_data_dir is None ==> record_action(
            Some(record),
            config,
            evidence,
            cdp_active,
            host,
        ) == ManagedRecordAction::RejectUnverified,
        evidence.pid_alive && evidence.process_user_data_dir is Some ==> ({
            let profile = evidence.process_user_data_dir->0;
            let on_record = evidence.browser_process && paths::paths_match(
                host,
                record.user_data_dir@,
                profile,
            );
            let answered = paths::paths_match(host, config.user_data_dir@, profile) && cdp_active
                && evidence.port_ownership == PortOwnership::Owned;
            let allowed = config.debug_port is None || config.debug_port == Some(0u16)
                || config.debug_port == Some(record.port);
            record_action(Some(record), config, evidence, cdp_active, host) == if !on_record {
                ManagedRecordAction::RemoveStale
            } else if !answered {
                ManagedRecordAction::RejectUnverified
            } else if !allowed {
                ManagedRecordAction::RejectPortChange
            } else {
                ManagedRecordAction::Reuse(record.port)
            }
        }),
{
    law_record_is_never_ignored(Some(record), config, evidence, cdp_active, host);
}

/// What comes of a record: a connection to its port, a refusal that names the port or the process,
/// or a new browser, for which only a stale record is removed.
pub proof fn law_each_judgement_has_its_consequence(record: ManagedBrowserRecord, port: u16)
    ensures
        reuse_decision(Some(record), ManagedRecordAction::Reuse(port)) == Ok::<
            ReuseDecision,
            BrowserError,
        >(ReuseDecision::Connect(port)),
        reuse_decision(Some(record), ManagedRecordAction::RejectPortChange) == Err::<
            ReuseDecision,
            BrowserError,
        >(BrowserError::PortChangeRejected { port: record.port }),
        reuse_decision(Some(record), ManagedRecordAction::RejectUnverified) == Err::<
            ReuseDecision,
            BrowserError,
        >(BrowserError::Unverified { pid: record.pid }),
        reuse_decision(Some(record), ManagedRecordAction::RemoveStale) == Ok::<
            ReuseDecision,
            BrowserError,
        >(ReuseDecision::Launch { remove_record: true }),
        reuse_decision(None, ManagedRecordAction::NoRecord) == Ok::<ReuseDecision, BrowserError>(
            ReuseDecision::Launch { remove_record: false },
        ),
{
}

/// Evidence says of the port what was found of it, and of the process what its command line says:
/// a gone process is gone, and one that could not be read may well be the browser, on a profile that
/// is not known.
pub proof fn law_evidence_says_what_was_found(
    state: command_line::CommandStateView,
    found: PortOwnership,
)
    ensures
        evidence_of(state, found).port_ownership == found,
        evidence_of(state, found).pid_alive <==> !(state is Dead),
        state matches command_line::CommandStateView::Alive { browser_process, user_data_dir } ==> {
            &&& evidence_of(state, found).browser_process == browser_process
            &&& evidence_of(state, found).process_user_data_dir == user_data_dir
        },
        !(state is Alive) ==> evidence_of(state, found).process_user_data_dir is None,
        state is Unknown ==> evidence_of(state, found).browser_process,
        state is Dead ==> !evidence_of(state, found).browser_process,
        profile_known(state) <==> evidence_of(state, found).pid_alive && evidence_of(
            state,
            found,
        ).process_user_data_dir is Some,
{
}

/// On Linux a recorded browser is reused only where its own descriptors and the system's socket
/// tables say that it owns the recorded port, and its command line says that it is a browser on a
/// profile that matches both the recorded and the configured one.
pub proof fn law_reuse_on_linux_rests_on_what_the_system_says(
    record: ManagedBrowserRecord,
    config: BrowserConfig,
    state: command_line::CommandStateView,
    links: Option<Seq<Option<String>>>,
    tables: Seq<Result<String, ()>>,
    cdp_active: bool,
    host: Host,
    port: u16,
)
    ensures
        record_action(
            Some(record),
            config,
            evidence_of(state, ports::linux_process_ownership(links, tables, record.port)),
            cdp_active,
            host,
        ) == ManagedRecordAction::Reuse(port) <==> {
            &&& port == record.port
            &&& config.debug_port is None || config.debug_port == Some(0u16) || config.debug_port
                == Some(record.port)
            &&& cdp_active
            &&& ports::linux_process_ownership(links, tables, record.port) == PortOwnership::Owned
            &&& match state {
                command_line::CommandStateView::Alive {
                    browser_process,
                    user_data_dir: Some(profile),
                } => browser_process && paths::paths_match(host, record.user_data_dir@, profile)
                    && paths::paths_match(host, config.user_data_dir@, profile),
                _ => false,
            }
        },
{
    let found = ports::linux_process_ownership(links, tables, record.port);
    law_evidence_says_what_was_found(state, found);
    law_a_record_is_judged_in_turn(record, config, evidence_of(state, found), cdp_active, host);
}

/// A line that opens with a mark gives what follows the mark, and the first such line counts.
pub proof fn law_the_first_marked_line_counts(
    lines: Seq<Seq<char>>,
    prefix: Seq<char>,
    from: int,
    at: int,
    rest: Seq<char>,
)
    requires
        0 <= from <= at < lines.len(),
        lines[at] == prefix + rest,
        forall|j: int| from <= j < at ==> !text::begins_with(#[trigger] lines[j], prefix),
    ensures
        prefixed_line(lines, prefix, from) == Some(rest),
    decreases at - from,
{
    if from < at {
        assert(!text::begins_with(lines[from], prefix));
        law_the_first_marked_line_counts(lines, prefix, from + 1, at, rest);
    } else {
        assert((prefix + rest).subrange(0, prefix.len() as int) =~= prefix);
        assert((prefix + rest).skip(prefix.len() as int) =~= rest);
    }
}

/// Without a marked line there is no value.
proof fn lemma_no_marked_line(lines: Seq<Seq<char>>, prefix: Seq<char>, from: int)
    requires
        0 <= from,
        forall|j: int| from <= j < lines.len() ==> !text::begins_with(#[trigger] lines[j], prefix),
    ensures
        prefixed_line(lines, prefix, from) is None,
    decreases lines.len() - from,
{
    if from < lines.len() {
        assert(!text::begins_with(lines[from], prefix));
        lemma_no_marked_line(lines, prefix, from + 1);
    }
}

/// On Windows the first line of the query's output that opens with `CMD=` is the command line, by
/// which the process is judged; without such a line, or with an empty one, the process is gone.
/// What the output says of the port is taken over as it is.
pub proof fn law_windows_output_is_judged_by_its_lines(
    stdout: Seq<char>,
    at: int,
    command: Seq<char>,
)
    ensures
        windows_evidence(stdout).port_ownership == ports::windows_ownership(true, stdout),
        0 <= at < text::lines(stdout).len() && text::lines(stdout)[at] == "CMD="@ + command && (
        forall|j: int|
            0 <= j < at ==> !text::begins_with(#[trigger] text::lines(stdout)[j], "CMD="@)) ==> {
            &&& windows_evidence(stdout).pid_alive <==> command.len() > 0
            &&& windows_evidence(stdout).browser_process == command_line::names_browser(command)
            &&& windows_evidence(stdout).process_user_data_dir == command_line::dir_in_command(
                command,
            )
        },
        (forall|j: int|
            0 <= j < text::lines(stdout).len() ==> !text::begins_with(
                #[trigger] text::lines(stdout)[j],
                "CMD="@,
            )) ==> !windows_evidence(stdout).pid_alive,
        unknown_evidence().pid_alive,
        unknown_evidence().process_user_data_dir is None,
        unknown_evidence().port_ownership == PortOwnership::Unknown,
{
    let lines = text::lines(stdout);
    if 0 <= at < lines.len() && lines[at] == "CMD="@ + command && (forall|j: int|
        0 <= j < at ==> !text::begins_with(#[trigger] lines[j], "CMD="@)) {
        law_the_first_marked_line_counts(lines, "CMD="@, 0, at, command);
    }
    if forall|j: int|
        0 <= j < lines.len() ==> !text::begins_with(#[trigger] lines[j], "CMD="@) {
        lemma_no_marked_line(lines, "CMD="@, 0);
    }
}

/// Only a file that does not exist is a missing record; one that was read and made sense is the
/// record, and anything else is in doubt, whatever else failed.
pub proof fn law_only_a_missing_file_is_a_missing_record(
    record: ManagedBrowserRecord,
    failure: ReadFailure,
)
    ensures
        loaded(Ok(Some(record))) == ManagedRecordLoad::Ready(record),
        loaded(Ok(None)) is Unverified,
        loaded(Err(failure)) is Missing <==> failure.not_found,
        loaded(Err(failure)) is Unverified <==> !failure.not_found,
{
}

/// On macOS a recorded browser is reused only where the query of its port says that it owns it, and
/// its command line says that it is a browser on a profile that matches both the recorded and the
/// configured one. Where its profile is not known, nothing is said of its port.
pub proof fn law_reuse_on_macos_rests_on_what_the_system_says(
    record: ManagedBrowserRecord,
    config: BrowserConfig,
    state: command_line::CommandStateView,
    queried: PortOwnership,
    cdp_active: bool,
    host: Host,
    port: u16,
)
    ensures
        record_action(Some(record), config, macos_evidence(state, queried), cdp_active, host)
            == ManagedRecordAction::Reuse(port) <==> {
            &&& port == record.port
            &&& config.debug_port is None || config.debug_port == Some(0u16) || config.debug_port
                == Some(record.port)
            &&& cdp_active
            &&& queried == PortOwnership::Owned
            &&& match state {
                command_line::CommandStateView::Alive {
                    browser_process,
                    user_data_dir: Some(profile),
                } => browser_process && paths::paths_match(host, record.user_data_dir@, profile)
                    && paths::paths_match(host, config.user_data_dir@, profile),
                _ => false,
            }
        },
        macos_evidence(state, queried).pid_alive <==> !(state is Dead),
        state matches command_line::CommandStateView::Alive { browser_process, user_data_dir } ==> {
            &&& macos_evidence(state, queried).browser_process == browser_process
            &&& macos_evidence(state, queried).process_user_data_dir == user_data_dir
            &&& user_data_dir is Some ==> macos_evidence(state, queried).port_ownership == queried
        },
        !(state is Alive) ==> macos_evidence(state, queried).process_user_data_dir is None,
        macos_evidence(state, queried).process_user_data_dir is None ==> macos_evidence(
            state,
            queried,
        ).port_ownership == PortOwnership::Unknown,
{
    law_a_record_is_judged_in_turn(
        record,
        config,
        macos_evidence(state, queried),
        cdp_active,
        host,
    );
}

/// On Windows a recorded browser is reused only where the query ran to its end and says that the
/// process owns the port, and the reported command line is that of a browser on a profile that
/// matches both the recorded and the configured one.
pub proof fn law_reuse_on_windows_rests_on_what_the_system_says(
    record: ManagedBrowserRecord,
    config: BrowserConfig,
    stdout: Seq<char>,
    at: int,
    command: Seq<char>,
    cdp_active: bool,
    host: Host,
    port: u16,
)
    requires
        0 <= at < text::lines(stdout).len(),
        text::lines(stdout)[at] == "CMD="@ + command,
        forall|j: int|
            0 <= j < at ==> !text::begins_with(#[trigger] text::lines(stdout)[j], "CMD="@),
        command.len() > 0,
    ensures
        record_action(Some(record), config, windows_evidence(stdout), cdp_active, host)
            == ManagedRecordAction::Reuse(port) <==> {
            &&& port == record.port
            &&& config.debug_port is None || config.debug_port == Some(0u16) || config.debug_port
                == Some(record.port)
            &&& cdp_active
            &&& text::lines(stdout).contains("PORT_QUERY_OK=1"@)
            &&& text::lines(stdout).contains("OWNS=1"@)
            &&& command_line::names_browser(command)
            &&& match command_line::dir_in_command(command) {
                Some(profile) => paths::paths_match(host, record.user_data_dir@, profile)
                    && paths::paths_match(host, config.user_data_dir@, profile),
                None => false,
            }
        },
{
    law_windows_output_is_judged_by_its_lines(stdout, at, command);
    ports::law_windows_lines_decide(stdout);
    law_a_record_is_judged_in_turn(record, config, windows_evidence(stdout), cdp_active, host);
}

} // verus!
