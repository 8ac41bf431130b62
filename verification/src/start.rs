//! Coming by a browser: connecting to the managed one that still runs, or starting one.

use crate::environment::BrowserConfig;
use crate::error::BrowserError;
use crate::managed;
use crate::managed::{
    ManagedBrowserRecord, ManagedProcessEvidence, ManagedRecordAction, ManagedRecordLoad,
    ReuseDecision,
};
use crate::paths::Host;
use crate::text;
use vstd::prelude::*;

verus! {

/// What to do next to come by a browser.
#[derive(Debug, Clone, Copy, PartialEq, Eq, Structural)]
pub enum BrowserStart {
    /// Look at the recorded process on the port that this program used last.
    Verify { port: u16 },
    /// Look at the recorded process.
    Judge,
    /// Connect to the managed browser on this port.
    Connect { port: u16 },
    /// Start a browser, after removing the record where it is stale.
    Launch { remove_record: bool },
}

/// The first step. The port that this program used last comes first, where the configuration
/// allows it and the record names it too.
pub open spec fn first_step(
    record: Option<ManagedBrowserRecord>,
    active_port: Option<u16>,
    config: BrowserConfig,
) -> BrowserStart {
    match record {
        Some(record) => if active_port == Some(record.port) && managed::port_allowed(
            config,
            record.port,
        ) {
            BrowserStart::Verify { port: record.port }
        } else {
            BrowserStart::Judge
        },
        None => BrowserStart::Launch { remove_record: false },
    }
}

/// The step after the recorded process was looked at on the port that this program used last.
pub open spec fn step_after_verifying(port: u16, action: ManagedRecordAction) -> BrowserStart {
    if action == ManagedRecordAction::Reuse(port) {
        BrowserStart::Connect { port }
    } else {
        BrowserStart::Judge
    }
}

/// The step after the recorded process was judged.
pub open spec fn step_after_judging(decision: Result<ReuseDecision, BrowserError>) -> Result<
    BrowserStart,
    BrowserError,
> {
    match decision {
        Ok(ReuseDecision::Connect(port)) => Ok(BrowserStart::Connect { port }),
        Ok(ReuseDecision::Launch { remove_record }) => Ok(BrowserStart::Launch { remove_record }),
        Err(error) => Err(error),
    }
}

/// The record to go by and the first step, or a refusal where the record cannot be trusted.
pub fn begin_browser_start(
    load: ManagedRecordLoad,
    active_port: Option<u16>,
    config: &BrowserConfig,
) -> (start: Result<(Option<ManagedBrowserRecord>, BrowserStart), BrowserError>)
    ensures
        match start {
            Ok((record, step)) => (match load {
                ManagedRecordLoad::Missing => record is None,
                ManagedRecordLoad::Ready(found) => record == Some(found),
                ManagedRecordLoad::Unverified => false,
            }) && step == first_step(record, active_port, *config),
            Err(error) => load is Unverified && error == BrowserError::RecordUnreadable,
        },
{
    let record = match managed::record_to_go_by(load) {
        Ok(record) => record,
        Err(error) => return Err(error),
    };
    let step = match &record {
        Some(found) => match managed::active_port_to_verify(active_port, Some(found), config) {
            Some(port) => BrowserStart::Verify { port },
            None => BrowserStart::Judge,
        },
        None => BrowserStart::Launch { remove_record: false },
    };
    Ok((record, step))
}

/// The step after the recorded process was looked at on the port that this program used last.
pub fn start_after_verifying(
    port: u16,
    record: &ManagedBrowserRecord,
    config: &BrowserConfig,
    evidence: &ManagedProcessEvidence,
    cdp_port_active: bool,
    host: &Host,
) -> (step: BrowserStart)
    ensures
        step == step_after_verifying(
            port,
            managed::record_action(Some(*record), *config, evidence@, cdp_port_active, *host),
        ),
{
    if managed::active_port_is_reusable(port, record, config, evidence, cdp_port_active, host) {
        BrowserStart::Connect { port }
    } else {
        BrowserStart::Judge
    }
}

/// The step after the recorded process was judged, or a refusal.
pub fn start_after_judging(
    record: &ManagedBrowserRecord,
    config: &BrowserConfig,
    evidence: &ManagedProcessEvidence,
    cdp_port_active: bool,
    host: &Host,
) -> (step: Result<BrowserStart, BrowserError>)
    ensures
        step == step_after_judging(
            managed::reuse_decision(
                Some(*record),
                managed::record_action(Some(*record), *config, evidence@, cdp_port_active, *host),
            ),
        ),
{
    match managed::reusable_managed_browser_port(
        Some(record),
        config,
        evidence,
        cdp_port_active,
        host,
    ) {
        Ok(ReuseDecision::Connect(port)) => Ok(BrowserStart::Connect { port }),
        Ok(ReuseDecision::Launch { remove_record }) => Ok(BrowserStart::Launch { remove_record }),
        Err(error) => Err(error),
    }
}

/// Whether a browser that answers is connected to rather than started anew.
pub fn should_connect_to_existing_browser(cdp_port_active: bool) -> (connect: bool)
    ensures
        connect == cdp_port_active,
{
    cdp_port_active
}

/// Whether a new connection has to hide the marks of automation itself.
pub fn cdp_connection_requires_stealth_injection() -> (required: bool)
    ensures
        required,
{
    true
}

/// Whether a failed start is worth another attempt: the browser came up too slowly.
pub fn is_browser_start_retryable(error: &str) -> (retryable: bool)
    ensures
        retryable == text::contains_text(
            error@,
            "Chrome did not become ready within 5 seconds after launch"@,
        ),
{
    text::contains(
        text::chars_of(error).as_slice(),
        "Chrome did not become ready within 5 seconds after launch",
    )
}

/// Accepts a session's connection, or refuses one that is unusable.
pub fn check_session_connection(port: u16, usable: bool) -> (checked: Result<(), BrowserError>)
    ensures
        checked == if usable {
            Ok(())
        } else {
            Err(BrowserError::SessionUnusable { port })
        },
{
    if usable {
        Ok(())
    } else {
        Err(BrowserError::SessionUnusable { port })
    }
}

/// Accepts a task's connection, or refuses one that is unusable.
pub fn check_task_connection(port: u16, usable: bool) -> (checked: Result<(), BrowserError>)
    ensures
        checked == if usable {
            Ok(())
        } else {
            Err(BrowserError::TaskConnectionUnusable { port })
        },
{
    if usable {
        Ok(())
    } else {
        Err(BrowserError::TaskConnectionUnusable { port })
    }
}

/// The port for a task once the browser session stands. `answers` is asked only where a port is
/// known.
pub fn ensure_managed_browser_for_task<F>(active_port: Option<u16>, answers: F) -> (port: Result<
    u16,
    BrowserError,
>) where F: FnOnce(u16) -> bool
    requires
        active_port matches Some(port) ==> call_requires(answers, (port,)),
    ensures
        match active_port {
            Some(active) => {
                ||| port == Ok::<u16, BrowserError>(active) && call_ensures(answers, (active,), true)
                ||| port == Err::<u16, BrowserError>(BrowserError::PortUnavailable { port: active })
                    && call_ensures(answers, (active,), false)
            },
            None => port == Err::<u16, BrowserError>(BrowserError::DebugPortUnknown),
        },
{
    match active_port {
        Some(active) => if answers(active) {
            Ok(active)
        } else {
            Err(BrowserError::PortUnavailable { port: active })
        },
        None => Err(BrowserError::DebugPortUnknown),
    }
}

/// Whatever is looked at first, only a browser that may be reused is connected to, on its recorded
/// port.
pub proof fn law_connects_only_to_the_verified_browser(
    record: ManagedBrowserRecord,
    active_port: Option<u16>,
    config: BrowserConfig,
    evidence: managed::EvidenceView,
    cdp_active: bool,
    host: Host,
    port: u16,
)
    ensures
        !(first_step(Some(record), active_port, config) is Connect),
        ({
            let action = managed::record_action(Some(record), config, evidence, cdp_active, host);
            let judged = step_after_judging(managed::reuse_decision(Some(record), action));
            let reusable = managed::may_be_reused(record, config, evidence, cdp_active, host);
            &&& step_after_verifying(record.port, action) == (BrowserStart::Connect {
                port,
            }) <==> record.port == port && reusable
            &&& judged == Ok::<BrowserStart, BrowserError>(BrowserStart::Connect { port })
                <==> record.port == port && reusable
        }),
{
    managed::law_reuse_needs_everything(Some(record), config, evidence, cdp_active, host, port);
    managed::law_reuse_needs_everything(
        Some(record),
        config,
        evidence,
        cdp_active,
        host,
        record.port,
    );
}

/// A browser is started only where there is no record or its process is gone.
pub proof fn law_starts_only_without_a_live_browser(
    record: Option<ManagedBrowserRecord>,
    active_port: Option<u16>,
    config: BrowserConfig,
    evidence: managed::EvidenceView,
    cdp_active: bool,
    host: Host,
)
    ensures
        first_step(record, active_port, config) is Launch <==> record is None,
        record matches Some(found) ==> {
            let action = managed::record_action(record, config, evidence, cdp_active, host);
            let judged = step_after_judging(managed::reuse_decision(record, action));
            &&& !(step_after_verifying(found.port, action) is Launch)
            &&& (judged matches Ok(step) && step is Launch) <==> managed::is_stale(
                found,
                evidence,
                host,
            )
        },
{
    managed::law_record_is_never_ignored(record, config, evidence, cdp_active, host);
}

/// Where to begin: with the port that this program used last where the record names it and the
/// configuration allows it, with a judgement of the record otherwise, and with a start where there
/// is no record.
pub proof fn law_a_start_begins_with_the_record(
    record: ManagedBrowserRecord,
    active_port: Option<u16>,
    config: BrowserConfig,
)
    ensures
        first_step(None, active_port, config) == (BrowserStart::Launch { remove_record: false }),
        active_port == Some(record.port) && (config.debug_port is None || config.debug_port == Some(
            0u16,
        ) || config.debug_port == Some(record.port)) ==> first_step(
            Some(record),
            active_port,
            config,
        ) == (BrowserStart::Verify { port: record.port }),
        active_port != Some(record.port) || (config.debug_port is Some && config.debug_port != Some(
            0u16,
        ) && config.debug_port != Some(record.port)) ==> first_step(
            Some(record),
            active_port,
            config,
        ) == BrowserStart::Judge,
{
}

/// A look at the last port ends in a connection to that port where the record may be reused there,
/// and in a judgement of the record otherwise. A judgement ends in what was decided.
pub proof fn law_looks_end_in_what_was_decided(
    port: u16,
    action: ManagedRecordAction,
    remove_record: bool,
    error: BrowserError,
)
    ensures
        step_after_verifying(port, ManagedRecordAction::Reuse(port)) == (BrowserStart::Connect {
            port,
        }),
        action != ManagedRecordAction::Reuse(port) ==> step_after_verifying(port, action)
            == BrowserStart::Judge,
        step_after_judging(Ok(ReuseDecision::Connect(port))) == Ok::<BrowserStart, BrowserError>(
            BrowserStart::Connect { port },
        ),
        step_after_judging(Ok(ReuseDecision::Launch { remove_record })) == Ok::<
            BrowserStart,
            BrowserError,
        >(BrowserStart::Launch { remove_record }),
        step_after_judging(Err(error)) == Err::<BrowserStart, BrowserError>(error),
{
}

} // verus!
