//! The browser session: one connection that callers borrow in turn, beside the tasks that hold
//! connections of their own.

use crate::environment;
use crate::environment::BrowserConfig;
use crate::error::{BrowserError, Failure};
use crate::managed;
use crate::paths;
use crate::paths::Host;
use crate::text;
use vstd::prelude::*;
use vstd::string::*;

verus! {

/// Which browser a session belongs to.
#[derive(Debug, Clone, PartialEq, Eq)]
pub struct BrowserSessionIdentity {
    pub user_data_dir: String,
    pub debug_port: u16,
    pub executable: String,
}

/// The mathematical value of a [`BrowserSessionIdentity`].
pub struct IdentityView {
    pub user_data_dir: Seq<char>,
    pub debug_port: u16,
    pub executable: Seq<char>,
}

impl View for BrowserSessionIdentity {
    type V = IdentityView;

    open spec fn view(&self) -> IdentityView {
        IdentityView {
            user_data_dir: self.user_data_dir@,
            debug_port: self.debug_port,
            executable: self.executable@,
        }
    }
}

/// What to do about a session when the configuration is looked at again.
#[derive(Debug, Clone, Copy, PartialEq, Eq, Structural)]
pub enum ReadySessionConfigAction {
    /// It fits the configuration.
    Reuse,
    /// It does not, and can be replaced.
    Restart,
    /// It does not, but tasks use its browser.
    RejectActiveLeases,
}

/// A session with a browser connection of type `B`.
#[derive(Debug, Clone, PartialEq, Eq)]
pub enum BrowserSession<B> {
    Empty,
    /// The connection is free.
    Ready { browser: B, identity: BrowserSessionIdentity },
    /// The connection is lent out, or being set up.
    InUse { close_requested: bool, identity: Option<BrowserSessionIdentity> },
}

/// The mathematical value of a [`BrowserSession`].
pub enum SessionView<B> {
    Empty,
    Ready { browser: B, identity: IdentityView },
    InUse { close_requested: bool, identity: Option<IdentityView> },
}

/// The mathematical value of an identity that may be missing.
pub open spec fn identity_view(identity: Option<BrowserSessionIdentity>) -> Option<IdentityView> {
    match identity {
        Some(identity) => Some(identity@),
        None => None,
    }
}

impl<B> View for BrowserSession<B> {
    type V = SessionView<B>;

    open spec fn view(&self) -> SessionView<B> {
        match *self {
            BrowserSession::Empty => SessionView::Empty,
            BrowserSession::Ready { browser, identity } => SessionView::Ready {
                browser,
                identity: identity@,
            },
            BrowserSession::InUse { close_requested, identity } => SessionView::InUse {
                close_requested,
                identity: identity_view(identity),
            },
        }
    }
}

/// The program that the configuration asks for; empty where there is none.
pub open spec fn wanted_executable(config: BrowserConfig, host: Host) -> Seq<char> {
    match environment::executable(config, host) {
        Some(path) => path,
        None => seq![],
    }
}

/// The session's browser is the one that the configuration asks for.
pub open spec fn fits_config(
    current: IdentityView,
    config: BrowserConfig,
    executable: Seq<char>,
    host: Host,
) -> bool {
    &&& paths::paths_match(host, current.user_data_dir, config.user_data_dir@)
    &&& managed::port_allowed(config, current.debug_port)
    &&& paths::paths_match(host, current.executable, executable)
}

/// What to do about a session with the given identity.
pub open spec fn config_action(
    current: IdentityView,
    config: BrowserConfig,
    executable: Seq<char>,
    active_leases: usize,
    host: Host,
) -> ReadySessionConfigAction {
    if fits_config(current, config, executable, host) {
        ReadySessionConfigAction::Reuse
    } else if active_leases > 0 {
        ReadySessionConfigAction::RejectActiveLeases
    } else {
        ReadySessionConfigAction::Restart
    }
}

/// What to do about a session when a given program is to run.
pub fn ready_session_config_action_with_executable(
    current: &BrowserSessionIdentity,
    config: &BrowserConfig,
    executable: &str,
    active_leases: usize,
    host: &Host,
) -> (action: ReadySessionConfigAction)
    ensures
        action == config_action(current@, *config, executable@, active_leases, *host),
{
    let profile_matches = paths::profiles_match(
        current.user_data_dir.as_str(),
        config.user_data_dir.as_str(),
        host,
    );
    let port_matches = managed::configured_port_allows_reuse(config, current.debug_port);
    let executable_matches = paths::executable_paths_match(
        current.executable.as_str(),
        executable,
        host,
    );
    if profile_matches && port_matches && executable_matches {
        ReadySessionConfigAction::Reuse
    } else if active_leases > 0 {
        ReadySessionConfigAction::RejectActiveLeases
    } else {
        ReadySessionConfigAction::Restart
    }
}

/// What to do about a session when the configured or detected program is to run.
pub fn ready_session_config_action(
    current: &BrowserSessionIdentity,
    config: &BrowserConfig,
    active_leases: usize,
    host: &Host,
) -> (action: ReadySessionConfigAction)
    ensures
        action == config_action(
            current@,
            *config,
            wanted_executable(*config, *host),
            active_leases,
            *host,
        ),
{
    let executable = match environment::browser_executable(config, host) {
        Ok(path) => path,
        Err(_) => String::new(),
    };
    ready_session_config_action_with_executable(
        current,
        config,
        executable.as_str(),
        active_leases,
        host,
    )
}

/// Whether the session's browser has to answer before the session may be used as it is: it is lent
/// out, and no other browser is asked for.
pub open spec fn asks_for_answer<B>(
    session: SessionView<B>,
    config: BrowserConfig,
    active_leases: usize,
    host: Host,
) -> bool {
    session matches SessionView::InUse { identity, .. } && (identity matches Some(current)
        ==> config_action(
        current,
        config,
        wanted_executable(config, host),
        active_leases,
        host,
    ) == ReadySessionConfigAction::Reuse)
}

/// A free session whose browser is replaced: it is usable, but another one is asked for.
pub open spec fn is_replaced<B>(
    session: SessionView<B>,
    config: BrowserConfig,
    active_leases: usize,
    host: Host,
    usable: bool,
) -> bool {
    session matches SessionView::Ready { identity, .. } && config_action(
        identity,
        config,
        wanted_executable(config, host),
        active_leases,
        host,
    ) == ReadySessionConfigAction::Restart && usable
}

/// A session that is set up anew: it is empty, its browser is unusable, or its browser is replaced.
pub open spec fn is_started<B>(
    session: SessionView<B>,
    config: BrowserConfig,
    active_leases: usize,
    host: Host,
    usable: bool,
) -> bool {
    match session {
        SessionView::Empty => true,
        SessionView::Ready { .. } => !usable || is_replaced(
            session,
            config,
            active_leases,
            host,
            usable,
        ),
        SessionView::InUse { .. } => false,
    }
}

/// The session after it was set up, given how creating a browser went and which port it is on.
/// Where no program is found or the port is unknown, the session is left as being set up.
pub open spec fn started<B, E>(
    config: BrowserConfig,
    host: Host,
    created: Result<B, Failure<E>>,
    port: Option<u16>,
) -> (SessionView<B>, Result<(), Failure<E>>) {
    let unfinished = SessionView::InUse { close_requested: false, identity: None };
    match environment::executable(config, host) {
        None => (unfinished, Err(Failure::Refused(BrowserError::NoBrowserFound))),
        Some(executable) => match created {
            Err(failure) => (SessionView::Empty, Err(failure)),
            Ok(browser) => match port {
                None => (unfinished, Err(Failure::Refused(BrowserError::DebugPortUnknown))),
                Some(debug_port) => (
                    SessionView::Ready {
                        browser,
                        identity: IdentityView {
                            user_data_dir: config.user_data_dir@,
                            debug_port,
                            executable,
                        },
                    },
                    Ok(()),
                ),
            },
        },
    }
}

/// What comes of a session that is not set up anew: it stays as it is, and either serves or is
/// refused.
pub open spec fn kept<B, E>(
    session: SessionView<B>,
    config: BrowserConfig,
    active_leases: usize,
    host: Host,
    answers: bool,
) -> Result<(), Failure<E>> {
    match session {
        SessionView::InUse { .. } => if !asks_for_answer(session, config, active_leases, host) {
            Err(Failure::Refused(BrowserError::InUseCannotSwitch))
        } else if answers {
            Ok(())
        } else {
            Err(Failure::Refused(BrowserError::InitializingOrInUse))
        },
        SessionView::Ready { identity, .. } => match config_action(
            identity,
            config,
            wanted_executable(config, host),
            active_leases,
            host,
        ) {
            ReadySessionConfigAction::RejectActiveLeases => Err(
                Failure::Refused(BrowserError::ConfigChangedDuringTasks),
            ),
            _ => Ok(()),
        },
        SessionView::Empty => Ok(()),
    }
}

/// The session and the outcome of setting it up, given what the outside replied: whether the free
/// browser is usable, whether the lent one answers, how creating a browser went and on which port.
pub open spec fn initialized<B, E>(
    session: SessionView<B>,
    config: BrowserConfig,
    active_leases: usize,
    host: Host,
    usable: bool,
    answers: bool,
    created: Result<B, Failure<E>>,
    port: Option<u16>,
) -> (SessionView<B>, Result<(), Failure<E>>) {
    if is_started(session, config, active_leases, host, usable) {
        started(config, host, created, port)
    } else {
        (session, kept(session, config, active_leases, host, answers))
    }
}

/// Puts a value in the place of the session and hands the session out.
fn replace_session<B>(session: &mut BrowserSession<B>, value: BrowserSession<B>) -> (previous:
    BrowserSession<B>)
    ensures
        previous == *old(session),
        *final(session) == value,
{
    let mut previous = value;
    core::mem::swap(session, &mut previous);
    previous
}

/// Sets the session up anew. A browser that is replaced is closed first. A browser is created only
/// where there is a program for it.
fn start_session<B, E, C, N>(
    session: &mut BrowserSession<B>,
    config: &BrowserConfig,
    host: &Host,
    close: C,
    create: N,
    replaced: bool,
) -> (outcome: Result<(), Failure<E>>) where
    C: FnOnce(B),
    N: FnOnce() -> (Result<B, Failure<E>>, Option<u16>),

    requires
        replaced ==> old(session)@ is Ready && call_requires(close, (old(session)@->browser,)),
        environment::executable(*config, *host) is Some && (replaced ==> call_ensures(
            close,
            (old(session)@->browser,),
            (),
        )) ==> call_requires(create, ()),
    ensures
        replaced ==> call_ensures(close, (old(session)@->browser,), ()),
        exists|created: Result<B, Failure<E>>, port: Option<u16>|
            (final(session)@, outcome) == #[trigger] started(*config, *host, created, port) && (
            environment::executable(*config, *host) is Some ==> call_ensures(
                create,
                (),
                (created, port),
            )),
{
    let previous = replace_session(
        session,
        BrowserSession::InUse { close_requested: false, identity: None },
    );
    match previous {
        BrowserSession::Ready { browser, .. } => {
            if replaced {
                close(browser);
            }
        },
        _ => {},
    }
    let executable = match environment::browser_executable(config, host) {
        Ok(executable) => executable,
        Err(error) => {
            let outcome: Result<(), Failure<E>> = Err(Failure::Refused(error));
            proof {
                let created: Result<B, Failure<E>> = Err(Failure::Refused(error));
                assert((session@, outcome) == started(*config, *host, created, None));
            }
            return outcome;
        },
    };
    let (created, port) = create();
    let ghost reply = created;
    let outcome: Result<(), Failure<E>> = match created {
        Err(failure) => {
            *session = BrowserSession::Empty;
            Err(failure)
        },
        Ok(browser) => match port {
            None => Err(Failure::Refused(BrowserError::DebugPortUnknown)),
            Some(debug_port) => {
                *session = BrowserSession::Ready {
                    browser,
                    identity: BrowserSessionIdentity {
                        user_data_dir: config.user_data_dir.clone(),
                        debug_port,
                        executable,
                    },
                };
                Ok(())
            },
        },
    };
    assert((session@, outcome) == started(*config, *host, reply, port));
    outcome
}

/// Makes sure that there is a session for the configuration. `usable` looks at the free browser,
/// `answers` tells whether the lent one answers, `close` closes a browser that is replaced, and
/// `create` comes by a new one and tells on which port it is. Each is asked only where its reply
/// counts: only a usable browser that does not fit is closed, and a new one is created only where
/// the session is set up anew, after the one that it replaces was closed.
pub fn init_browser_session<B, E, U, A, C, N>(
    session: &mut BrowserSession<B>,
    config: &BrowserConfig,
    active_leases: usize,
    host: &Host,
    usable: U,
    answers: A,
    close: C,
    create: N,
) -> (outcome: Result<(), Failure<E>>) where
    U: FnOnce(&B) -> bool,
    A: FnOnce() -> bool,
    C: FnOnce(B),
    N: FnOnce() -> (Result<B, Failure<E>>, Option<u16>),

    requires
        old(session)@ is Ready ==> call_requires(usable, (&old(session)@->browser,)),
        asks_for_answer(old(session)@, *config, active_leases, *host) ==> call_requires(
            answers,
            (),
        ),
        is_replaced(old(session)@, *config, active_leases, *host, true) && call_ensures(
            usable,
            (&old(session)@->browser,),
            true,
        ) ==> call_requires(close, (old(session)@->browser,)),
        forall|fit: bool| #[trigger]
            is_started(old(session)@, *config, active_leases, *host, fit)
                && environment::executable(*config, *host) is Some && (old(session)@ is Ready
                ==> call_ensures(usable, (&old(session)@->browser,), fit)) && (is_replaced(
                old(session)@,
                *config,
                active_leases,
                *host,
                fit,
            ) ==> call_ensures(close, (old(session)@->browser,), ())) ==> call_requires(create, ()),
    ensures
        exists|fit: bool, reply: bool, created: Result<B, Failure<E>>, port: Option<u16>|
            {
                &&& (final(session)@, outcome) == #[trigger] initialized(
                    old(session)@,
                    *config,
                    active_leases,
                    *host,
                    fit,
                    reply,
                    created,
                    port,
                )
                &&& old(session)@ is Ready ==> call_ensures(
                    usable,
                    (&old(session)@->browser,),
                    fit,
                )
                &&& asks_for_answer(old(session)@, *config, active_leases, *host) ==> call_ensures(
                    answers,
                    (),
                    reply,
                )
                &&& is_replaced(old(session)@, *config, active_leases, *host, fit) ==> call_ensures(
                    close,
                    (old(session)@->browser,),
                    (),
                )
                &&& is_started(old(session)@, *config, active_leases, *host, fit)
                    && environment::executable(*config, *host) is Some ==> call_ensures(
                    create,
                    (),
                    (created, port),
                )
            },
{
    let ghost before = session@;
    let ghost unasked: Result<B, Failure<E>> = Err(Failure::Refused(BrowserError::NotInitialized));
    let (fit, replaced): (bool, bool) = match &*session {
        BrowserSession::Ready { browser, identity } => {
            if usable(browser) {
                let action = ready_session_config_action(identity, config, active_leases, host);
                match action {
                    ReadySessionConfigAction::Reuse => {
                        let outcome: Result<(), Failure<E>> = Ok(());
                        assert((session@, outcome) == initialized(
                            before,
                            *config,
                            active_leases,
                            *host,
                            true,
                            false,
                            unasked,
                            None,
                        ));
                        return outcome;
                    },
                    ReadySessionConfigAction::RejectActiveLeases => {
                        let outcome: Result<(), Failure<E>> = Err(
                            Failure::Refused(BrowserError::ConfigChangedDuringTasks),
                        );
                        assert((session@, outcome) == initialized(
                            before,
                            *config,
                            active_leases,
                            *host,
                            true,
                            false,
                            unasked,
                            None,
                        ));
                        return outcome;
                    },
                    ReadySessionConfigAction::Restart => (true, true),
                }
            } else {
                (false, false)
            }
        },
        BrowserSession::InUse { identity, .. } => {
            let switched = match identity {
                Some(current) => ready_session_config_action(current, config, active_leases, host)
                    != ReadySessionConfigAction::Reuse,
                None => false,
            };
            let reply = !switched && answers();
            let outcome: Result<(), Failure<E>> = if switched {
                Err(Failure::Refused(BrowserError::InUseCannotSwitch))
            } else if reply {
                Ok(())
            } else {
                Err(Failure::Refused(BrowserError::InitializingOrInUse))
            };
            assert((session@, outcome) == initialized(
                before,
                *config,
                active_leases,
                *host,
                false,
                reply,
                unasked,
                None,
            ));
            return outcome;
        },
        BrowserSession::Empty => (false, false),
    };
    assert(is_started(before, *config, active_leases, *host, fit));
    let outcome = start_session(session, config, host, close, create, replaced);
    proof {
        let (created, port) = choose|created: Result<B, Failure<E>>, port: Option<u16>|
            (session@, outcome) == #[trigger] started(*config, *host, created, port) && (
            environment::executable(*config, *host) is Some ==> call_ensures(
                create,
                (),
                (created, port),
            ));
        assert((session@, outcome) == initialized(
            before,
            *config,
            active_leases,
            *host,
            fit,
            false,
            created,
            port,
        ));
    }
    outcome
}

/// The session after its connection was asked for, and the connection.
pub open spec fn taken<B>(session: SessionView<B>) -> (SessionView<B>, Result<B, BrowserError>) {
    match session {
        SessionView::Ready { browser, identity } => (
            SessionView::InUse { close_requested: false, identity: Some(identity) },
            Ok(browser),
        ),
        SessionView::Empty => (session, Err(BrowserError::NotInitialized)),
        SessionView::InUse { .. } => (session, Err(BrowserError::InUse)),
    }
}

/// Lends the session's connection out.
pub fn take_browser_session<B>(session: &mut BrowserSession<B>) -> (browser: Result<
    B,
    BrowserError,
>)
    ensures
        (final(session)@, browser) == taken(old(session)@),
{
    match replace_session(session, BrowserSession::Empty) {
        BrowserSession::Ready { browser, identity } => {
            *session = BrowserSession::InUse { close_requested: false, identity: Some(identity) };
            Ok(browser)
        },
        BrowserSession::Empty => Err(BrowserError::NotInitialized),
        BrowserSession::InUse { close_requested, identity } => {
            *session = BrowserSession::InUse { close_requested, identity };
            Err(BrowserError::InUse)
        },
    }
}

/// A message that says that the connection to the browser is lost.
pub open spec fn tells_disconnection(message: Seq<char>) -> bool {
    ||| text::contains_text(message, "Connection closed"@)
    ||| text::contains_text(message, "Trying to work with closed connection"@)
    ||| text::contains_text(message, "Session with given id not found"@)
    ||| text::contains_text(message, "code=-32001"@)
}

/// Whether an error says that the connection to the browser is lost.
pub fn is_browser_disconnected_error(message: &str) -> (disconnected: bool)
    ensures
        disconnected == tells_disconnection(message@),
{
    let chars = text::chars_of(message);
    let all = chars.as_slice();
    text::contains(all, "Connection closed") || text::contains(
        all,
        "Trying to work with closed connection",
    ) || text::contains(all, "Session with given id not found") || text::contains(
        all,
        "code=-32001",
    )
}

/// Whether the connection can still be used after an error.
pub fn reuse_browser_session_after_error(message: &str) -> (reusable: bool)
    ensures
        reusable == !tells_disconnection(message@),
{
    !is_browser_disconnected_error(message)
}

/// The session after its connection came back, and the browser to close. `failed` is the message
/// of the error that the borrower ended with.
pub open spec fn restored<B>(
    session: SessionView<B>,
    browser: B,
    failed: Option<Seq<char>>,
    active_leases: usize,
) -> (SessionView<B>, Option<B>) {
    let lost = failed matches Some(message) && tells_disconnection(message);
    match session {
        SessionView::InUse { close_requested, identity } => if close_requested && active_leases
            == 0 {
            (SessionView::Empty, Some(browser))
        } else if lost {
            (SessionView::Empty, None)
        } else {
            match identity {
                Some(identity) => (SessionView::Ready { browser, identity }, None),
                None => (SessionView::Empty, None),
            }
        },
        _ => (SessionView::Empty, None),
    }
}

/// Takes a lent connection back. Returns the browser where it is to be closed. A lost connection is
/// dropped without closing the browser, which a task may be about to use.
pub fn restore_browser_session<B>(
    session: &mut BrowserSession<B>,
    browser: B,
    failed: Option<&str>,
    active_leases: usize,
) -> (closing: Option<B>)
    ensures
        (final(session)@, closing) == restored(
            old(session)@,
            browser,
            match failed {
                Some(message) => Some(message@),
                None => None,
            },
            active_leases,
        ),
{
    let (close_requested, identity): (bool, Option<BrowserSessionIdentity>) =
        match replace_session(session, BrowserSession::Empty) {
        BrowserSession::InUse { close_requested, identity } => (close_requested, identity),
        _ => (false, None),
    };
    if active_leases == 0 && close_requested {
        return Some(browser);
    }
    let lost = match failed {
        Some(message) => !reuse_browser_session_after_error(message),
        None => false,
    };
    if !lost {
        if let Some(identity) = identity {
            *session = BrowserSession::Ready { browser, identity };
        }
    }
    None
}

/// The session after it was asked to close, and the browser to close at once. A lent connection is
/// closed when it comes back.
pub open spec fn closed<B>(session: SessionView<B>, active_leases: usize) -> (
    SessionView<B>,
    Result<Option<B>, BrowserError>,
) {
    if active_leases > 0 {
        (session, Err(BrowserError::TasksActive))
    } else {
        match session {
            SessionView::Ready { browser, .. } => (SessionView::Empty, Ok(Some(browser))),
            SessionView::InUse { identity, .. } => (
                SessionView::InUse { close_requested: true, identity },
                Ok(None),
            ),
            SessionView::Empty => (SessionView::Empty, Ok(None)),
        }
    }
}

/// Refuses to close the browser while tasks use it.
pub fn check_no_task_is_active(active_leases: usize) -> (checked: Result<(), BrowserError>)
    ensures
        checked == if active_leases > 0 {
            Err(BrowserError::TasksActive)
        } else {
            Ok(())
        },
{
    if active_leases > 0 {
        Err(BrowserError::TasksActive)
    } else {
        Ok(())
    }
}

/// Closes the session, or asks for it to be closed when its connection comes back. Returns the
/// browser to close at once. Tasks that use the browser keep it open.
pub fn close_browser_session<B>(session: &mut BrowserSession<B>, active_leases: usize) -> (closing:
    Result<Option<B>, BrowserError>)
    ensures
        (final(session)@, closing) == closed(old(session)@, active_leases),
{
    if let Err(refusal) = check_no_task_is_active(active_leases) {
        return Err(refusal);
    }
    match replace_session(session, BrowserSession::Empty) {
        BrowserSession::Ready { browser, .. } => Ok(Some(browser)),
        BrowserSession::InUse { identity, .. } => {
            *session = BrowserSession::InUse { close_requested: true, identity };
            Ok(None)
        },
        BrowserSession::Empty => Ok(None),
    }
}

/// The free connection of the session.
pub fn ready_browser<B>(session: &BrowserSession<B>) -> (browser: Result<&B, BrowserError>)
    ensures
        match session@ {
            SessionView::Ready { browser: free, .. } => browser matches Ok(found) && *found == free,
            _ => browser matches Err(error) && error == BrowserError::NotInitialized,
        },
{
    match session {
        BrowserSession::Ready { browser, .. } => Ok(browser),
        _ => Err(BrowserError::NotInitialized),
    }
}

/// A connection that is lent out and comes back unharmed leaves the session as it was.
pub proof fn law_taking_and_restoring_changes_nothing<B>(
    session: SessionView<B>,
    failed: Option<Seq<char>>,
    active_leases: usize,
)
    requires
        session is Ready,
        failed matches Some(message) ==> !tells_disconnection(message),
    ensures
        taken(session).1 is Ok,
        restored(taken(session).0, taken(session).1->Ok_0, failed, active_leases) == (
            session,
            None::<B>,
        ),
{
}

/// A connection is lent to one borrower at a time: it cannot be taken again before it came back,
/// and the attempt changes nothing.
pub proof fn law_a_lent_connection_cannot_be_taken<B>(session: SessionView<B>)
    ensures
        taken(taken(session).0).1 is Err,
        taken(taken(session).0).0 == taken(session).0,
{
}

/// A session that is asked to close while its connection is lent out is closed when the connection
/// comes back, unless tasks use the browser by then.
pub proof fn law_a_requested_close_happens_on_return<B>(
    session: SessionView<B>,
    browser: B,
    failed: Option<Seq<char>>,
)
    requires
        session is InUse,
    ensures
        closed(session, 0).1 == Ok::<Option<B>, BrowserError>(None),
        restored(closed(session, 0).0, browser, failed, 0) == (
            SessionView::<B>::Empty,
            Some(browser),
        ),
{
}

/// While tasks use the browser, nothing closes it: neither a request, which is refused without a
/// trace, nor a connection that comes back, nor a changed configuration.
pub proof fn law_tasks_keep_the_browser_open<B>(
    session: SessionView<B>,
    browser: B,
    failed: Option<Seq<char>>,
    config: BrowserConfig,
    host: Host,
    active_leases: usize,
    usable: bool,
)
    requires
        active_leases > 0,
    ensures
        closed(session, active_leases) == (
            session,
            Err::<Option<B>, BrowserError>(BrowserError::TasksActive),
        ),
        restored(session, browser, failed, active_leases).1 is None,
        !is_replaced(session, config, active_leases, host, usable),
{
}

/// While tasks use the browser, a session with another profile, port or program is refused and
/// stays as it is.
pub proof fn law_changed_config_is_refused_during_tasks<B, E>(
    browser: B,
    identity: IdentityView,
    config: BrowserConfig,
    host: Host,
    active_leases: usize,
    answers: bool,
    created: Result<B, Failure<E>>,
    port: Option<u16>,
)
    requires
        active_leases > 0,
        !fits_config(identity, config, wanted_executable(config, host), host),
    ensures
        initialized(
            SessionView::Ready { browser, identity },
            config,
            active_leases,
            host,
            true,
            answers,
            created,
            port,
        ) == (
            SessionView::Ready { browser, identity },
            Err::<(), Failure<E>>(Failure::Refused(BrowserError::ConfigChangedDuringTasks)),
        ),
{
}

/// A session that stands is not set up anew, so that no second browser comes up beside it: neither
/// while it is lent out, nor while its browser is usable and fits or must stay for the tasks.
pub proof fn law_a_standing_session_is_not_set_up_anew<B>(
    session: SessionView<B>,
    config: BrowserConfig,
    host: Host,
    active_leases: usize,
    usable: bool,
)
    ensures
        session is InUse ==> !is_started(session, config, active_leases, host, usable),
        session matches SessionView::Ready { identity, .. } ==> usable && (fits_config(
            identity,
            config,
            wanted_executable(config, host),
            host,
        ) || active_leases > 0) ==> !is_started(session, config, active_leases, host, usable),
{
}

/// A connection that is lost is dropped: the session is empty, and the browser is not closed unless
/// that was asked for.
pub proof fn law_a_lost_connection_empties_the_session<B>(
    session: SessionView<B>,
    browser: B,
    message: Seq<char>,
    active_leases: usize,
)
    requires
        tells_disconnection(message),
    ensures
        restored(session, browser, Some(message), active_leases).0 is Empty,
        restored(session, browser, Some(message), active_leases).1 is Some ==> (session matches
            SessionView::InUse { close_requested, .. } && close_requested && active_leases == 0),
{
}

/// A session that was set up serves the same configuration again as it is, as long as its browser
/// is usable and its port is one that the configuration allows.
pub proof fn law_a_session_serves_its_configuration_again<B, E>(
    config: BrowserConfig,
    host: Host,
    active_leases: usize,
    created: Result<B, Failure<E>>,
    port: Option<u16>,
    answers: bool,
    created_again: Result<B, Failure<E>>,
    port_again: Option<u16>,
)
    requires
        started(config, host, created, port).1 is Ok,
        managed::port_allowed(config, port->0),
        paths::absolute_parts(host, config.user_data_dir@) is Some,
        paths::absolute_parts(host, wanted_executable(config, host)) is Some,
    ensures
        initialized(
            started(config, host, created, port).0,
            config,
            active_leases,
            host,
            true,
            answers,
            created_again,
            port_again,
        ) == (started(config, host, created, port).0, Ok::<(), Failure<E>>(())),
{
    paths::law_match_reflexive(host, config.user_data_dir@);
    paths::law_match_reflexive(host, wanted_executable(config, host));
}

/// A session and its identity are looked at as they are.
pub proof fn law_sessions_are_looked_at_as_they_are<B>(
    browser: B,
    identity: BrowserSessionIdentity,
    close_requested: bool,
)
    ensures
        identity@.user_data_dir == identity.user_data_dir@,
        identity@.debug_port == identity.debug_port,
        identity@.executable == identity.executable@,
        (BrowserSession::<B>::Empty)@ is Empty,
        (BrowserSession::Ready { browser, identity })@ == (SessionView::Ready {
            browser,
            identity: identity@,
        }),
        (BrowserSession::<B>::InUse { close_requested, identity: Some(identity) })@ == (
        SessionView::<B>::InUse { close_requested, identity: Some(identity@) }),
        (BrowserSession::<B>::InUse { close_requested, identity: None })@ == (SessionView::<
            B,
        >::InUse { close_requested, identity: None }),
{
}

/// A session fits where its profile, its port and its program are the ones asked for, and each of
/// them counts.
pub proof fn law_profile_port_and_program_count(
    identity: IdentityView,
    config: BrowserConfig,
    executable: Seq<char>,
    host: Host,
    active_leases: usize,
)
    ensures
        fits_config(identity, config, executable, host) <==> {
            &&& paths::paths_match(host, identity.user_data_dir, config.user_data_dir@)
            &&& config.debug_port is None || config.debug_port == Some(0u16) || config.debug_port
                == Some(identity.debug_port)
            &&& paths::paths_match(host, identity.executable, executable)
        },
        config_action(identity, config, executable, active_leases, host)
            == ReadySessionConfigAction::Reuse <==> fits_config(identity, config, executable, host),
        config_action(identity, config, executable, active_leases, host)
            == ReadySessionConfigAction::RejectActiveLeases <==> !fits_config(
            identity,
            config,
            executable,
            host,
        ) && active_leases > 0,
{
}

/// The program that a session has to fit is the configured or detected one, and none where there is
/// no program at all.
pub proof fn law_the_wanted_program_is_the_one_to_start(config: BrowserConfig, host: Host)
    ensures
        environment::executable(config, host) matches Some(path) ==> wanted_executable(config, host)
            == path,
        environment::executable(config, host) is None ==> wanted_executable(config, host).len()
            == 0,
{
}

/// A session that is lent out stays as it is, whatever comes, and for every number of tasks. Where
/// its browser is not known or fits the configuration, it serves exactly where that browser
/// answers: further tasks can attach. It is refused for another configuration exactly where its
/// browser is known and does not fit.
pub proof fn law_a_lent_session_serves_while_it_fits_and_answers<B, E>(
    close_requested: bool,
    identity: Option<IdentityView>,
    config: BrowserConfig,
    active_leases: usize,
    host: Host,
    usable: bool,
    answers: bool,
    created: Result<B, Failure<E>>,
    port: Option<u16>,
)
    ensures
        ({
            let session = SessionView::<B>::InUse { close_requested, identity };
            let (after, outcome) = initialized::<B, E>(
                session,
                config,
                active_leases,
                host,
                usable,
                answers,
                created,
                port,
            );
            let switched = identity matches Some(current) && !(paths::paths_match(
                host,
                current.user_data_dir,
                config.user_data_dir@,
            ) && (config.debug_port is None || config.debug_port == Some(0u16) || config.debug_port
                == Some(current.debug_port)) && paths::paths_match(
                host,
                current.executable,
                wanted_executable(config, host),
            ));
            &&& after == session
            &&& outcome is Ok <==> !switched && answers
            &&& switched ==> outcome == Err::<(), Failure<E>>(
                Failure::Refused(BrowserError::InUseCannotSwitch),
            )
            &&& !switched && !answers ==> outcome == Err::<(), Failure<E>>(
                Failure::Refused(BrowserError::InitializingOrInUse),
            )
            &&& asks_for_answer(session, config, active_leases, host) <==> !switched
            &&& !is_started(session, config, active_leases, host, usable)
            &&& !is_replaced(session, config, active_leases, host, usable)
        }),
{
}

/// A free session whose browser is usable serves as it is where it fits, for every number of tasks.
/// Where it does not fit, it is refused and stays while tasks use the browser, and is closed and
/// set up anew otherwise.
pub proof fn law_a_usable_session_serves_stays_or_is_replaced<B, E>(
    browser: B,
    identity: IdentityView,
    config: BrowserConfig,
    active_leases: usize,
    host: Host,
    answers: bool,
    created: Result<B, Failure<E>>,
    port: Option<u16>,
)
    ensures
        ({
            let session = SessionView::Ready { browser, identity };
            let (after, outcome) = initialized::<B, E>(
                session,
                config,
                active_leases,
                host,
                true,
                answers,
                created,
                port,
            );
            let fits = paths::paths_match(host, identity.user_data_dir, config.user_data_dir@) && (
            config.debug_port is None || config.debug_port == Some(0u16) || config.debug_port
                == Some(identity.debug_port)) && paths::paths_match(
                host,
                identity.executable,
                wanted_executable(config, host),
            );
            &&& fits ==> after == session && outcome is Ok
            &&& !fits && active_leases > 0 ==> after == session && outcome == Err::<
                (),
                Failure<E>,
            >(Failure::Refused(BrowserError::ConfigChangedDuringTasks))
            &&& is_started(session, config, active_leases, host, true) <==> !fits && active_leases
                == 0
            &&& is_replaced(session, config, active_leases, host, true) <==> !fits
                && active_leases == 0
        }),
{
}

/// An empty session, and one whose browser is unusable, is set up anew without anything being
/// closed, for every configuration and every number of tasks.
pub proof fn law_nothing_usable_is_set_up_anew<B>(
    browser: B,
    identity: IdentityView,
    config: BrowserConfig,
    active_leases: usize,
    host: Host,
    usable: bool,
)
    ensures
        is_started(SessionView::<B>::Empty, config, active_leases, host, usable),
        !is_replaced(SessionView::<B>::Empty, config, active_leases, host, usable),
        is_started(SessionView::Ready { browser, identity }, config, active_leases, host, false),
        !is_replaced(SessionView::Ready { browser, identity }, config, active_leases, host, false),
{
}

/// Setting a session up anew: with a program, a browser and a port it is ready with exactly these;
/// a browser that did not come leaves it empty and hands the failure on; without a program or a
/// port it is left as being set up, with a refusal.
pub proof fn law_a_session_is_set_up_with_what_came<B, E>(
    session: SessionView<B>,
    config: BrowserConfig,
    active_leases: usize,
    host: Host,
    usable: bool,
    answers: bool,
    browser: B,
    failure: Failure<E>,
    debug_port: u16,
    port: Option<u16>,
)
    requires
        is_started(session, config, active_leases, host, usable),
    ensures
        environment::executable(config, host) matches Some(executable) ==> {
            &&& initialized::<B, E>(
                session,
                config,
                active_leases,
                host,
                usable,
                answers,
                Ok(browser),
                Some(debug_port),
            ) == (
                SessionView::Ready {
                    browser,
                    identity: IdentityView {
                        user_data_dir: config.user_data_dir@,
                        debug_port,
                        executable,
                    },
                },
                Ok::<(), Failure<E>>(()),
            )
            &&& initialized::<B, E>(
                session,
                config,
                active_leases,
                host,
                usable,
                answers,
                Ok(browser),
                None,
            ) == (
                SessionView::<B>::InUse { close_requested: false, identity: None },
                Err::<(), Failure<E>>(Failure::Refused(BrowserError::DebugPortUnknown)),
            )
            &&& initialized::<B, E>(
                session,
                config,
                active_leases,
                host,
                usable,
                answers,
                Err(failure),
                port,
            ) == (SessionView::<B>::Empty, Err::<(), Failure<E>>(failure))
        },
        environment::executable(config, host) is None ==> initialized::<B, E>(
            session,
            config,
            active_leases,
            host,
            usable,
            answers,
            Ok(browser),
            port,
        ) == (
            SessionView::<B>::InUse { close_requested: false, identity: None },
            Err::<(), Failure<E>>(Failure::Refused(BrowserError::NoBrowserFound)),
        ),
{
}

/// A free connection is lent out as it is and its browser remembered; anything else is refused and
/// stays.
pub proof fn law_only_a_free_connection_is_lent<B>(
    browser: B,
    identity: IdentityView,
    close_requested: bool,
    known: Option<IdentityView>,
)
    ensures
        taken(SessionView::Ready { browser, identity }) == (
            SessionView::<B>::InUse { close_requested: false, identity: Some(identity) },
            Ok::<B, BrowserError>(browser),
        ),
        taken(SessionView::<B>::Empty) == (
            SessionView::<B>::Empty,
            Err::<B, BrowserError>(BrowserError::NotInitialized),
        ),
        taken(SessionView::<B>::InUse { close_requested, identity: known }) == (
            SessionView::<B>::InUse { close_requested, identity: known },
            Err::<B, BrowserError>(BrowserError::InUse),
        ),
{
}

/// A connection that comes back is closed where that was asked for and no task runs, dropped where
/// it is lost or its browser is not known, and free again otherwise; one that was never lent is
/// dropped.
pub proof fn law_a_returned_connection_is_closed_dropped_or_free<B>(
    close_requested: bool,
    identity: Option<IdentityView>,
    browser: B,
    failed: Option<Seq<char>>,
    active_leases: usize,
    other: B,
    known: IdentityView,
)
    ensures
        ({
            let session = SessionView::<B>::InUse { close_requested, identity };
            let (after, closing) = restored(session, browser, failed, active_leases);
            let lost = failed matches Some(message) && tells_disconnection(message);
            &&& closing == if close_requested && active_leases == 0 {
                Some(browser)
            } else {
                None
            }
            &&& after is Empty <==> (close_requested && active_leases == 0) || lost || identity is None
            &&& !(close_requested && active_leases == 0) && !lost && identity is Some ==> after
                == SessionView::Ready { browser, identity: identity->0 }
        }),
        restored(SessionView::<B>::Empty, browser, failed, active_leases) == (
            SessionView::<B>::Empty,
            None::<B>,
        ),
        restored(
            SessionView::Ready { browser: other, identity: known },
            browser,
            failed,
            active_leases,
        ) == (SessionView::<B>::Empty, None::<B>),
{
}

/// A request to close: refused without a trace while a task runs; otherwise a free browser is closed
/// at once, a lent one is marked and keeps its identity, and an empty session stays empty.
pub proof fn law_a_close_request_closes_marks_or_is_refused<B>(
    session: SessionView<B>,
    browser: B,
    identity: IdentityView,
    close_requested: bool,
    known: Option<IdentityView>,
    active_leases: usize,
)
    ensures
        active_leases > 0 ==> closed(session, active_leases) == (
            session,
            Err::<Option<B>, BrowserError>(BrowserError::TasksActive),
        ),
        closed(SessionView::Ready { browser, identity }, 0) == (
            SessionView::<B>::Empty,
            Ok::<Option<B>, BrowserError>(Some(browser)),
        ),
        closed(SessionView::<B>::InUse { close_requested, identity: known }, 0) == (
            SessionView::<B>::InUse { close_requested: true, identity: known },
            Ok::<Option<B>, BrowserError>(None),
        ),
        closed(SessionView::<B>::Empty, 0) == (
            SessionView::<B>::Empty,
            Ok::<Option<B>, BrowserError>(None),
        ),
{
}

/// A message tells that the connection is lost exactly where one of four texts stands anywhere in
/// it.
pub proof fn law_four_texts_tell_a_disconnection(
    before: Seq<char>,
    after: Seq<char>,
    message: Seq<char>,
)
    ensures
        tells_disconnection(before + "Connection closed"@ + after),
        tells_disconnection(before + "Trying to work with closed connection"@ + after),
        tells_disconnection(before + "Session with given id not found"@ + after),
        tells_disconnection(before + "code=-32001"@ + after),
        tells_disconnection(message) ==> text::contains_text(message, "Connection closed"@)
            || text::contains_text(message, "Trying to work with closed connection"@)
            || text::contains_text(message, "Session with given id not found"@)
            || text::contains_text(message, "code=-32001"@),
{
    text::law_occurrence_is_between_two_texts(before, "Connection closed"@, after, message, 0);
    text::law_occurrence_is_between_two_texts(
        before,
        "Trying to work with closed connection"@,
        after,
        message,
        0,
    );
    text::law_occurrence_is_between_two_texts(
        before,
        "Session with given id not found"@,
        after,
        message,
        0,
    );
    text::law_occurrence_is_between_two_texts(before, "code=-32001"@, after, message, 0);
}

} // verus!
