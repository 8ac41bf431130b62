//! Starting a browser: which port, with which arguments, how often to try and how long to wait.

use crate::command_line;
use crate::environment::BrowserConfig;
use crate::error::{BrowserError, Failure};
use crate::text;
use vstd::prelude::*;
use vstd::string::*;

verus! {

/// How often a browser on an automatic port is started before giving up.
pub const BROWSER_START_ATTEMPTS: usize = 3;

/// How often a started browser is looked at before giving up on it.
pub const BROWSER_WAIT_ROUNDS: usize = 60;

/// What a look at a starting browser's port shows.
#[derive(Debug, Clone, Copy, PartialEq, Eq, Structural)]
pub enum BrowserLaunchAttempt {
    /// The browser answers.
    Ready(u16),
    /// Something else answers.
    PortClaimed,
    /// Nothing answers yet.
    ReadinessTimeout,
}

/// What to do about a child process that was asked whether it has ended.
#[derive(Debug, Clone, Copy, PartialEq, Eq, Structural)]
pub enum ChildPollAction {
    Exited,
    Continue,
    CleanupAndFail,
}

/// What to do about a query that runs in a child process.
#[derive(Debug, Clone, Copy, PartialEq, Eq, Structural)]
pub enum QueryWaitAction {
    /// It has ended; its output can be taken.
    TakeOutput,
    /// It could not be asked; end it and report the failure.
    CleanupAndFail,
    /// It ran too long; end it and go on without its output.
    CleanupAndGiveUp,
    /// Ask again a little later.
    Wait,
}

/// Whether the configuration leaves the choice of the port open.
pub open spec fn port_is_automatic(config: BrowserConfig) -> bool {
    match config.debug_port {
        Some(port) => port == 0,
        None => true,
    }
}

/// The most attempts at starting a browser.
pub open spec fn attempts_allowed(automatic: bool) -> int {
    if automatic {
        3
    } else {
        1
    }
}

/// `outcomes` are those of a run of attempts: all but the last failed, and the run goes on until an
/// attempt succeeds or none is left.
pub open spec fn is_attempt_run<T, E>(automatic: bool, outcomes: Seq<Result<T, E>>) -> bool {
    &&& 0 < outcomes.len() <= attempts_allowed(automatic)
    &&& forall|i: int| 0 <= i < outcomes.len() - 1 ==> #[trigger] outcomes[i] is Err
    &&& outcomes.last() is Err ==> outcomes.len() == attempts_allowed(automatic)
}

/// Whether another attempt follows after `failures` failed ones.
pub fn launch_again(automatic: bool, failures: usize) -> (again: bool)
    ensures
        again == (failures < attempts_allowed(automatic)),
{
    let attempts = if automatic {
        BROWSER_START_ATTEMPTS
    } else {
        1
    };
    failures < attempts
}

/// Attempt number `attempt` ended in a failure, as far as `launch` tells.
pub open spec fn may_fail<T, E, F: FnMut(usize) -> Result<T, E>>(launch: F, attempt: usize) -> bool {
    exists|error: E| call_ensures(launch, (attempt,), Err::<T, E>(error))
}

/// Starts a browser, trying again on an automatic port. `launch` is given the number of the
/// attempt, from zero on, and is asked for another one only once all earlier ones failed. The
/// outcome is that of the last attempt.
pub fn run_browser_launch_attempts<T, E, F>(automatic: bool, launch: F) -> (outcome: Result<
    T,
    E,
>) where F: FnMut(usize) -> Result<T, E>
    requires
        forall|attempt: usize|
            attempt < attempts_allowed(automatic) && (forall|earlier: usize|
                earlier < attempt ==> #[trigger] may_fail(launch, earlier))
                ==> #[trigger] call_requires(launch, (attempt,)),
    ensures
        exists|outcomes: Seq<Result<T, E>>| #[trigger]
            is_attempt_run(automatic, outcomes) && outcomes.last() == outcome && (forall|i: usize|
                i < outcomes.len() ==> #[trigger] call_ensures(
                    launch,
                    (i,),
                    outcomes[i as int],
                )) && call_ensures(launch, ((outcomes.len() - 1) as usize,), outcome),
{
    let mut attempt = launch;
    let ghost mut outcomes: Seq<Result<T, E>> = seq![];
    let mut failures: usize = 0;
    loop
        invariant
            failures < attempts_allowed(automatic),
            outcomes.len() == failures,
            forall|i: int| 0 <= i < outcomes.len() ==> #[trigger] outcomes[i] is Err,
            forall|i: usize|
                i < outcomes.len() ==> #[trigger] call_ensures(launch, (i,), outcomes[i as int]),
            forall|i: usize| i < failures ==> #[trigger] may_fail(launch, i),
            forall|attempt: usize|
                attempt < attempts_allowed(automatic) && (forall|earlier: usize|
                    earlier < attempt ==> #[trigger] may_fail(launch, earlier))
                    ==> #[trigger] call_requires(launch, (attempt,)),
            attempt == launch,
        decreases attempts_allowed(automatic) - failures,
    {
        let outcome = attempt(failures);
        proof {
            outcomes = outcomes.push(outcome);
        }
        if outcome.is_ok() {
            assert(is_attempt_run(automatic, outcomes));
            return outcome;
        }
        assert(may_fail(launch, failures)) by {
            assert(outcome == Err::<T, E>(outcome->Err_0));
        }
        failures += 1;
        if !launch_again(automatic, failures) {
            assert(is_attempt_run(automatic, outcomes));
            return outcome;
        }
    }
}

/// A run of attempts on a configured port lists one outcome, whatever it is. One on an automatic
/// port that ends in a failure lists three, all of them failures.
pub proof fn law_only_automatic_ports_are_retried<T, E>(outcomes: Seq<Result<T, E>>)
    ensures
        is_attempt_run(false, outcomes) <==> outcomes.len() == 1,
        is_attempt_run(true, outcomes) && outcomes.last() is Err ==> outcomes.len() == 3 && (forall|
            i: int,
        |
            0 <= i < 3 ==> #[trigger] outcomes[i] is Err),
{
}

/// Where attempt number `i` ends as `replies[i]` says, the outcome of a run is the first success
/// within the allowed attempts, reached with as many attempts as it takes; where there is none, it
/// is the last failure, and all allowed attempts were made.
pub proof fn law_first_success_or_last_failure_counts<T, E>(
    automatic: bool,
    replies: Seq<Result<T, E>>,
    outcomes: Seq<Result<T, E>>,
)
    requires
        replies.len() == attempts_allowed(automatic),
        is_attempt_run(automatic, outcomes),
        forall|i: int| 0 <= i < outcomes.len() ==> #[trigger] outcomes[i] == replies[i],
    ensures
        forall|i: int|
            0 <= i < replies.len() && #[trigger] replies[i] is Ok && (forall|j: int|
                0 <= j < i ==> #[trigger] replies[j] is Err) ==> outcomes.len() == i + 1
                && outcomes.last() == replies[i],
        (forall|i: int| 0 <= i < replies.len() ==> #[trigger] replies[i] is Err) ==> outcomes.len()
            == replies.len() && outcomes.last() == replies.last(),
{
    let last = outcomes.len() - 1;
    assert(outcomes[last] == replies[last]);
    assert forall|i: int|
        0 <= i < replies.len() && #[trigger] replies[i] is Ok && (forall|j: int|
            0 <= j < i ==> #[trigger] replies[j] is Err) implies outcomes.len() == i + 1
        && outcomes.last() == replies[i] by {
        if last < i {
            assert(replies[last] is Err);
        } else if i < last {
            assert(outcomes[i] is Err);
        }
    }
}

/// Judges a look at a starting browser's port. Who listens there is asked only where a browser
/// answers.
pub fn classify_launch_probe_with<F>(cdp_active: bool, port_owned_by_child: F) -> (attempt:
    BrowserLaunchAttempt) where F: FnOnce() -> bool
    requires
        cdp_active ==> call_requires(port_owned_by_child, ()),
    ensures
        match attempt {
            BrowserLaunchAttempt::Ready(port) => cdp_active && port == 0 && call_ensures(
                port_owned_by_child,
                (),
                true,
            ),
            BrowserLaunchAttempt::PortClaimed => cdp_active && call_ensures(
                port_owned_by_child,
                (),
                false,
            ),
            BrowserLaunchAttempt::ReadinessTimeout => !cdp_active,
        },
{
    if !cdp_active {
        return BrowserLaunchAttempt::ReadinessTimeout;
    }
    if port_owned_by_child() {
        BrowserLaunchAttempt::Ready(0)
    } else {
        BrowserLaunchAttempt::PortClaimed
    }
}

/// What an answer on the port of a starting browser means, given who listens there.
pub open spec fn launch_probe(cdp_active: bool, port_owned_by_child: bool) -> BrowserLaunchAttempt {
    if !cdp_active {
        BrowserLaunchAttempt::ReadinessTimeout
    } else if port_owned_by_child {
        BrowserLaunchAttempt::Ready(0)
    } else {
        BrowserLaunchAttempt::PortClaimed
    }
}

/// Judges a look at a starting browser's port.
pub fn classify_launch_probe(cdp_active: bool, port_owned_by_child: bool) -> (attempt:
    BrowserLaunchAttempt)
    ensures
        attempt == launch_probe(cdp_active, port_owned_by_child),
{
    let owned = || -> (owned: bool)
        ensures
            owned == port_owned_by_child,
        { port_owned_by_child };
    classify_launch_probe_with(cdp_active, owned)
}

/// What to do about a child process, given what asking it brought.
pub open spec fn poll_action<S, E>(poll: Result<Option<S>, E>) -> ChildPollAction {
    match poll {
        Ok(Some(_)) => ChildPollAction::Exited,
        Ok(None) => ChildPollAction::Continue,
        Err(_) => ChildPollAction::CleanupAndFail,
    }
}

/// What to do about a child process. `Ok(Some(_))` says that it has ended, `Ok(None)` that it runs.
pub fn child_poll_action<S, E>(result: &Result<Option<S>, E>) -> (action: ChildPollAction)
    ensures
        action == poll_action(*result),
{
    match result {
        Ok(Some(_)) => ChildPollAction::Exited,
        Ok(None) => ChildPollAction::Continue,
        Err(_) => ChildPollAction::CleanupAndFail,
    }
}

/// What to do about a query, given what asking its process brought and whether its time is up.
pub open spec fn query_step<S, E>(poll: Result<Option<S>, E>, deadline_passed: bool) -> QueryWaitAction {
    match poll_action(poll) {
        ChildPollAction::Exited => QueryWaitAction::TakeOutput,
        ChildPollAction::CleanupAndFail => QueryWaitAction::CleanupAndFail,
        ChildPollAction::Continue => if deadline_passed {
            QueryWaitAction::CleanupAndGiveUp
        } else {
            QueryWaitAction::Wait
        },
    }
}

/// What to do about a query in a child process. A query that has ended counts even where its time
/// is up.
pub fn query_wait_action<S, E>(poll: &Result<Option<S>, E>, deadline_passed: bool) -> (action:
    QueryWaitAction)
    ensures
        action == query_step(*poll, deadline_passed),
{
    match child_poll_action(poll) {
        ChildPollAction::Exited => QueryWaitAction::TakeOutput,
        ChildPollAction::CleanupAndFail => QueryWaitAction::CleanupAndFail,
        ChildPollAction::Continue => if deadline_passed {
            QueryWaitAction::CleanupAndGiveUp
        } else {
            QueryWaitAction::Wait
        },
    }
}

/// Whether the configuration leaves the choice of the port open.
pub fn debug_port_is_automatic(config: &BrowserConfig) -> (automatic: bool)
    ensures
        automatic == port_is_automatic(*config),
{
    match config.debug_port {
        Some(port) => port == 0,
        None => true,
    }
}

/// The port for a new browser: the configured one, or else one that `allocate` finds.
pub fn select_browser_debug_port<E, F>(config: &BrowserConfig, allocate: F) -> (port: Result<
    u16,
    E,
>) where F: FnOnce() -> Result<u16, E>
    requires
        port_is_automatic(*config) ==> call_requires(allocate, ()),
    ensures
        if port_is_automatic(*config) {
            call_ensures(allocate, (), port)
        } else {
            port == Ok::<u16, E>(config.debug_port->0)
        },
{
    match config.debug_port {
        Some(port) => if port == 0 {
            allocate()
        } else {
            Ok(port)
        },
        None => allocate(),
    }
}

/// Whether a port can be used for a new browser: nothing may listen there yet.
pub fn check_port_is_free(port: u16, occupied: bool) -> (checked: Result<(), BrowserError>)
    ensures
        checked == if occupied {
            Err(BrowserError::PortOccupied { port })
        } else {
            Ok(())
        },
{
    if occupied {
        Err(BrowserError::PortOccupied { port })
    } else {
        Ok(())
    }
}

/// How one attempt at starting a browser ends, given the port that was selected, whether something
/// listens there, and how the start went.
pub open spec fn launch_outcome<B, E>(
    port: Result<u16, E>,
    occupied: bool,
    launched: Result<B, Failure<E>>,
) -> Result<(B, u16), Failure<E>> {
    match port {
        Err(error) => Err(Failure::Outside(error)),
        Ok(port) => if occupied {
            Err(Failure::Refused(BrowserError::PortOccupied { port }))
        } else {
            match launched {
                Ok(browser) => Ok((browser, port)),
                Err(failure) => Err(failure),
            }
        },
    }
}

/// Makes one attempt at starting a browser. Whether something listens on the port is asked only
/// once there is one, and the browser is started only where nothing does.
pub fn attempt_browser_launch<B, E, A, O, L>(
    config: &BrowserConfig,
    allocate: A,
    occupied: O,
    launch: L,
) -> (outcome: Result<(B, u16), Failure<E>>) where
    A: FnOnce() -> Result<u16, E>,
    O: FnOnce(u16) -> bool,
    L: FnOnce(u16) -> Result<B, Failure<E>>,

    requires
        port_is_automatic(*config) ==> call_requires(allocate, ()),
        forall|port: u16|
            (if port_is_automatic(*config) {
                call_ensures(allocate, (), Ok::<u16, E>(port))
            } else {
                config.debug_port == Some(port)
            }) ==> #[trigger] call_requires(occupied, (port,)),
        forall|port: u16|
            call_ensures(occupied, (port,), false) ==> #[trigger] call_requires(launch, (port,)),
    ensures
        exists|port: Result<u16, E>, taken: bool, launched: Result<B, Failure<E>>|
            {
                &&& outcome == #[trigger] launch_outcome(port, taken, launched)
                &&& if port_is_automatic(*config) {
                    call_ensures(allocate, (), port)
                } else {
                    port == Ok::<u16, E>(config.debug_port->0)
                }
                &&& port matches Ok(port) ==> call_ensures(occupied, (port,), taken)
                &&& port matches Ok(port) ==> !taken ==> call_ensures(launch, (port,), launched)
            },
{
    let selected: Result<u16, E> = select_browser_debug_port(config, allocate);
    let ghost untried: Result<B, Failure<E>> = Err(Failure::Refused(BrowserError::NotConnected));
    match selected {
        Err(error) => {
            let outcome: Result<(B, u16), Failure<E>> = Err(Failure::Outside(error));
            assert(outcome == launch_outcome(selected, false, untried));
            outcome
        },
        Ok(port) => {
            let taken = occupied(port);
            match check_port_is_free(port, taken) {
                Err(refusal) => {
                    let outcome: Result<(B, u16), Failure<E>> = Err(Failure::Refused(refusal));
                    assert(outcome == launch_outcome(selected, taken, untried));
                    outcome
                },
                Ok(()) => {
                    let launched = launch(port);
                    let ghost result = launched;
                    let outcome: Result<(B, u16), Failure<E>> = match launched {
                        Ok(browser) => Ok((browser, port)),
                        Err(failure) => Err(failure),
                    };
                    assert(outcome == launch_outcome(selected, taken, result));
                    outcome
                },
            }
        },
    }
}

/// The arguments that a browser is started with.
pub open spec fn launch_arguments(user_data_dir: Seq<char>, port: u16) -> Seq<Seq<char>> {
    seq![
        "--remote-debugging-port="@ + text::decimal(port as nat),
        "--user-data-dir="@ + user_data_dir,
        "--window-size=1920,1080"@,
        "--no-default-browser-check"@,
        "--disable-suggestions-ui"@,
        "--no-first-run"@,
        "--disable-infobars"@,
        "--disable-popup-blocking"@,
        "--hide-crash-restore-bubble"@,
        "--disable-features=PrivacySandboxSettings4"@,
        "--disable-blink-features=AutomationControlled"@,
        "--no-sandbox"@,
    ]
}

/// The arguments that a browser is started with.
pub fn browser_launch_arguments(config: &BrowserConfig, port: u16) -> (args: Vec<String>)
    ensures
        text::texts(args@) == launch_arguments(config.user_data_dir@, port),
{
    let mut args: Vec<String> = Vec::new();
    args.push("--remote-debugging-port=".to_owned().concat(text::decimal_of(port as u32).as_str()));
    args.push("--user-data-dir=".to_owned().concat(config.user_data_dir.as_str()));
    args.push("--window-size=1920,1080".to_owned());
    args.push("--no-default-browser-check".to_owned());
    args.push("--disable-suggestions-ui".to_owned());
    args.push("--no-first-run".to_owned());
    args.push("--disable-infobars".to_owned());
    args.push("--disable-popup-blocking".to_owned());
    args.push("--hide-crash-restore-bubble".to_owned());
    args.push("--disable-features=PrivacySandboxSettings4".to_owned());
    args.push("--disable-blink-features=AutomationControlled".to_owned());
    args.push("--no-sandbox".to_owned());
    assert(text::texts(args@) =~= launch_arguments(config.user_data_dir@, port));
    args
}

/// The address of a browser's debug port on this machine.
pub fn debug_endpoint(port: u16) -> (endpoint: String)
    ensures
        endpoint@ == "127.0.0.1:"@ + text::decimal(port as nat),
{
    "127.0.0.1:".to_owned().concat(text::decimal_of(port as u32).as_str())
}

/// A browser that was started with its arguments is later recognised by them: the profile in its
/// command line is the configured one.
pub proof fn law_started_browser_shows_its_profile(
    program: Seq<char>,
    user_data_dir: Seq<char>,
    port: u16,
)
    requires
        user_data_dir.len() > 0,
        !text::begins_with(program, "--user-data-dir="@),
        program != "--user-data-dir"@,
    ensures
        command_line::arguments_state(seq![program] + launch_arguments(user_data_dir, port))
            == (command_line::CommandStateView::Alive {
            browser_process: command_line::names_browser(program),
            user_data_dir: Some(user_data_dir),
        }),
{
    reveal_strlit("--user-data-dir=");
    reveal_strlit("--user-data-dir");
    reveal_strlit("--remote-debugging-port=");
    let marker = "--user-data-dir="@;
    let args = seq![program] + launch_arguments(user_data_dir, port);
    let first = "--remote-debugging-port="@ + text::decimal(port as nat);
    let second = marker + user_data_dir;
    assert(args[0] == program && args[1] == first && args[2] == second);
    assert(first[2] == 'r' && marker[2] == 'u' && "--user-data-dir"@[2] == 'u');
    assert(!text::begins_with(first, marker)) by {
        if text::begins_with(first, marker) {
            assert(first.subrange(0, marker.len() as int)[2] == marker[2]);
        }
    }
    assert(first != "--user-data-dir"@);
    assert(second.subrange(0, marker.len() as int) =~= marker);
    assert(second.skip(marker.len() as int) =~= user_data_dir);
    assert(command_line::dir_in_arguments_from(args, 2) == Some(user_data_dir));
    assert(command_line::dir_in_arguments_from(args, 1) == Some(user_data_dir));
}

/// A decimal numeral holds no zero character.
proof fn lemma_decimal_has_no_zero_char(n: nat)
    ensures
        !text::decimal(n).contains('\0'),
    decreases n,
{
    if n >= 10 {
        lemma_decimal_has_no_zero_char(n / 10);
        let before = text::decimal(n / 10);
        assert forall|i: int| 0 <= i < text::decimal(n).len() implies text::decimal(n)[i] != '\0' by {
            if i < before.len() {
                assert(before.contains(before[i]));
            }
        }
    }
}

/// The fixed texts among the arguments are not empty and hold no zero character.
proof fn lemma_fixed_arguments_can_be_passed()
    ensures
        "--remote-debugging-port="@.len() > 0 && !"--remote-debugging-port="@.contains('\0'),
        "--user-data-dir="@.len() > 0 && !"--user-data-dir="@.contains('\0'),
        "--window-size=1920,1080"@.len() > 0 && !"--window-size=1920,1080"@.contains('\0'),
        "--no-default-browser-check"@.len() > 0 && !"--no-default-browser-check"@.contains('\0'),
        "--disable-suggestions-ui"@.len() > 0 && !"--disable-suggestions-ui"@.contains('\0'),
        "--no-first-run"@.len() > 0 && !"--no-first-run"@.contains('\0'),
        "--disable-infobars"@.len() > 0 && !"--disable-infobars"@.contains('\0'),
        "--disable-popup-blocking"@.len() > 0 && !"--disable-popup-blocking"@.contains('\0'),
        "--hide-crash-restore-bubble"@.len() > 0 && !"--hide-crash-restore-bubble"@.contains('\0'),
        "--disable-features=PrivacySandboxSettings4"@.len() > 0 && !"--disable-features=PrivacySandboxSettings4"@.contains('\0'),
        "--disable-blink-features=AutomationControlled"@.len() > 0 && !"--disable-blink-features=AutomationControlled"@.contains('\0'),
        "--no-sandbox"@.len() > 0 && !"--no-sandbox"@.contains('\0'),
{
    reveal_strlit("--remote-debugging-port=");
    reveal_strlit("--user-data-dir=");
    reveal_strlit("--window-size=1920,1080");
    reveal_strlit("--no-default-browser-check");
    reveal_strlit("--disable-suggestions-ui");
    reveal_strlit("--no-first-run");
    reveal_strlit("--disable-infobars");
    reveal_strlit("--disable-popup-blocking");
    reveal_strlit("--hide-crash-restore-bubble");
    reveal_strlit("--disable-features=PrivacySandboxSettings4");
    reveal_strlit("--disable-blink-features=AutomationControlled");
    reveal_strlit("--no-sandbox");
}

/// A text behind another holds a zero character only where one of them does.
proof fn lemma_no_zero_char_in_both(left: Seq<char>, right: Seq<char>)
    requires
        !left.contains('\0'),
        !right.contains('\0'),
    ensures
        !(left + right).contains('\0'),
{
    assert forall|i: int| 0 <= i < left.len() + right.len() implies (left + right)[i] != '\0' by {
        if i < left.len() {
            assert(left.contains(left[i]));
        } else {
            assert(right.contains(right[i - left.len()]));
        }
    }
}

/// The command line file of a browser that was started on Linux names the configured profile.
pub proof fn law_started_browser_is_recognised_by_its_file(
    program: Seq<char>,
    user_data_dir: Seq<char>,
    port: u16,
)
    requires
        program.len() > 0,
        !program.contains('\0'),
        user_data_dir.len() > 0,
        !user_data_dir.contains('\0'),
        !text::begins_with(program, "--user-data-dir="@),
        program != "--user-data-dir"@,
    ensures
        command_line::cmdline_state(
            Some(
                command_line::nul_closed(
                    command_line::encoded(seq![program] + launch_arguments(user_data_dir, port)),
                ),
            ),
        ) == (command_line::CommandStateView::Alive {
            browser_process: command_line::names_browser(program),
            user_data_dir: Some(user_data_dir),
        }),
{
    let args = seq![program] + launch_arguments(user_data_dir, port);
    lemma_fixed_arguments_can_be_passed();
    lemma_decimal_has_no_zero_char(port as nat);
    lemma_no_zero_char_in_both("--remote-debugging-port="@, text::decimal(port as nat));
    lemma_no_zero_char_in_both("--user-data-dir="@, user_data_dir);
    assert(command_line::can_be_passed(args));
    command_line::law_command_line_file_shows_the_arguments(args);
    law_started_browser_shows_its_profile(program, user_data_dir, port);
}

/// What has happened to a browser that was started and is waited for.
#[derive(Debug, Clone, Copy, PartialEq, Eq, Structural)]
pub enum LaunchEvent {
    /// Its port was looked at.
    Probed(BrowserLaunchAttempt),
    /// Connecting to it succeeded or failed.
    Connected(bool),
    /// Writing its record succeeded or failed.
    Saved(bool),
    /// Its process was asked whether it has ended.
    Polled(ChildPollAction),
    /// A pause is over.
    Paused,
}

/// Why a browser that was started is given up.
#[derive(Debug, Clone, Copy, PartialEq, Eq, Structural)]
pub enum LaunchFailure {
    /// Something else answers on its port.
    PortClaimed,
    /// Its record could not be written.
    NotSaved,
    /// Its process could not be asked whether it has ended.
    NotPolled,
    /// It ended, or could not be reached in time.
    NotConnected,
}

/// What to do next about a browser that was started.
#[derive(Debug, Clone, Copy, PartialEq, Eq, Structural)]
pub enum LaunchStep {
    /// Look at its port.
    Probe,
    /// Connect to it.
    Connect,
    /// Write its record.
    SaveRecord,
    /// Ask its process whether it has ended.
    Poll,
    /// Pause before the next look.
    Pause,
    /// Hand the connection out.
    Finish,
    /// End the process and report the failure.
    Abandon(LaunchFailure),
}

/// The wait for a browser that was started.
#[derive(Debug, Clone, Copy, PartialEq, Eq, Structural)]
pub struct LaunchWait {
    /// How many more times its port is looked at, this time included.
    pub rounds_left: usize,
}

/// The rounds that are left and the next step, after an event.
pub open spec fn launch_step(rounds_left: int, event: LaunchEvent) -> (int, LaunchStep) {
    match event {
        LaunchEvent::Probed(attempt) => (
            rounds_left,
            match attempt {
                BrowserLaunchAttempt::Ready(_) => LaunchStep::Connect,
                BrowserLaunchAttempt::PortClaimed => LaunchStep::Abandon(LaunchFailure::PortClaimed),
                BrowserLaunchAttempt::ReadinessTimeout => LaunchStep::Poll,
            },
        ),
        LaunchEvent::Connected(connected) => (
            rounds_left,
            if connected {
                LaunchStep::SaveRecord
            } else {
                LaunchStep::Poll
            },
        ),
        LaunchEvent::Saved(saved) => (
            rounds_left,
            if saved {
                LaunchStep::Finish
            } else {
                LaunchStep::Abandon(LaunchFailure::NotSaved)
            },
        ),
        LaunchEvent::Polled(action) => (
            rounds_left,
            match action {
                ChildPollAction::Exited => LaunchStep::Abandon(LaunchFailure::NotConnected),
                ChildPollAction::Continue => LaunchStep::Pause,
                ChildPollAction::CleanupAndFail => LaunchStep::Abandon(LaunchFailure::NotPolled),
            },
        ),
        LaunchEvent::Paused => if rounds_left > 1 {
            (rounds_left - 1, LaunchStep::Probe)
        } else {
            (0, LaunchStep::Abandon(LaunchFailure::NotConnected))
        },
    }
}

impl LaunchWait {
    /// The wait for a browser that has just been started. The first step is to look at its port.
    pub fn new() -> (wait: LaunchWait)
        ensures
            wait.rounds_left == 60,
    {
        LaunchWait { rounds_left: BROWSER_WAIT_ROUNDS }
    }

    /// What to do next, after an event.
    pub fn next(&mut self, event: LaunchEvent) -> (step: LaunchStep)
        ensures
            (final(self).rounds_left as int, step) == launch_step(
                old(self).rounds_left as int,
                event,
            ),
    {
        match event {
            LaunchEvent::Probed(attempt) => match attempt {
                BrowserLaunchAttempt::Ready(_) => LaunchStep::Connect,
                BrowserLaunchAttempt::PortClaimed => LaunchStep::Abandon(LaunchFailure::PortClaimed),
                BrowserLaunchAttempt::ReadinessTimeout => LaunchStep::Poll,
            },
            LaunchEvent::Connected(connected) => if connected {
                LaunchStep::SaveRecord
            } else {
                LaunchStep::Poll
            },
            LaunchEvent::Saved(saved) => if saved {
                LaunchStep::Finish
            } else {
                LaunchStep::Abandon(LaunchFailure::NotSaved)
            },
            LaunchEvent::Polled(action) => match action {
                ChildPollAction::Exited => LaunchStep::Abandon(LaunchFailure::NotConnected),
                ChildPollAction::Continue => LaunchStep::Pause,
                ChildPollAction::CleanupAndFail => LaunchStep::Abandon(LaunchFailure::NotPolled),
            },
            LaunchEvent::Paused => if self.rounds_left > 1 {
                self.rounds_left -= 1;
                LaunchStep::Probe
            } else {
                self.rounds_left = 0;
                LaunchStep::Abandon(LaunchFailure::NotConnected)
            },
        }
    }
}

/// The refusal for a failure on a port, where it is the library that refuses.
pub open spec fn refusal_for(failure: LaunchFailure, port: u16) -> Option<BrowserError> {
    match failure {
        LaunchFailure::PortClaimed => Some(BrowserError::PortClaimed { port }),
        LaunchFailure::NotConnected => Some(BrowserError::NotConnected),
        LaunchFailure::NotSaved | LaunchFailure::NotPolled => None,
    }
}

/// The refusal that a failure is reported as; none where the failed call has its own report.
pub fn launch_refusal(failure: LaunchFailure, port: u16) -> (refusal: Option<BrowserError>)
    ensures
        refusal == refusal_for(failure, port),
{
    match failure {
        LaunchFailure::PortClaimed => Some(BrowserError::PortClaimed { port }),
        LaunchFailure::NotConnected => Some(BrowserError::NotConnected),
        LaunchFailure::NotSaved => None,
        LaunchFailure::NotPolled => None,
    }
}

/// A browser is handed out only once it has been connected to and its record is written, and it is
/// connected to only where it is the one that answers on its port.
pub proof fn law_only_a_recorded_browser_is_handed_out(rounds_left: int, event: LaunchEvent)
    ensures
        launch_step(rounds_left, event).1 is Finish <==> event == LaunchEvent::Saved(true),
        launch_step(rounds_left, event).1 is SaveRecord <==> event == LaunchEvent::Connected(true),
        launch_step(rounds_left, event).1 is Connect <==> event matches LaunchEvent::Probed(
            BrowserLaunchAttempt::Ready(_),
        ),
{
}

/// A browser whose port something else answers on is given up at once.
pub proof fn law_claimed_port_is_abandoned(rounds_left: int)
    ensures
        launch_step(rounds_left, LaunchEvent::Probed(launch_probe(true, false))).1
            == LaunchStep::Abandon(LaunchFailure::PortClaimed),
{
}

/// An event tells how a step went.
pub open spec fn answers(step: LaunchStep, event: LaunchEvent) -> bool {
    match step {
        LaunchStep::Probe => event is Probed,
        LaunchStep::Connect => event is Connected,
        LaunchStep::SaveRecord => event is Saved,
        LaunchStep::Poll => event is Polled,
        LaunchStep::Pause => event is Paused,
        LaunchStep::Finish | LaunchStep::Abandon(_) => false,
    }
}

/// The wait is over.
pub open spec fn wait_is_over(step: LaunchStep) -> bool {
    step is Finish || step is Abandon
}

/// How many steps may still come.
pub open spec fn steps_left(rounds_left: int, step: LaunchStep) -> int {
    5 * rounds_left + match step {
        LaunchStep::Probe => 4int,
        LaunchStep::Connect => 3int,
        LaunchStep::SaveRecord => 2int,
        LaunchStep::Poll => 1int,
        _ => 0int,
    }
}

/// Every step brings the wait closer to its end, so it ends whatever happens.
pub proof fn law_wait_ends(rounds_left: int, step: LaunchStep, event: LaunchEvent)
    requires
        rounds_left > 0,
        answers(step, event),
    ensures
        ({
            let (left, next) = launch_step(rounds_left, event);
            wait_is_over(next) || (left > 0 && 0 <= steps_left(left, next) < steps_left(
                rounds_left,
                step,
            ))
        }),
{
}

/// The rounds that are left and the last step, after a list of events.
pub open spec fn after_events(rounds: int, events: Seq<LaunchEvent>) -> (int, LaunchStep)
    decreases events.len(),
{
    if events.len() == 0 {
        (rounds, LaunchStep::Probe)
    } else {
        launch_step(after_events(rounds, events.drop_last()).0, events.last())
    }
}

/// How many pauses are among the events.
pub open spec fn pauses(events: Seq<LaunchEvent>) -> int
    decreases events.len(),
{
    if events.len() == 0 {
        0
    } else if events.last() is Paused {
        pauses(events.drop_last()) + 1
    } else {
        pauses(events.drop_last())
    }
}

/// Each pause uses up one round, and the pause that uses up the last one ends the wait.
pub proof fn law_rounds_are_counted(rounds: int, events: Seq<LaunchEvent>)
    requires
        pauses(events) <= rounds,
    ensures
        after_events(rounds, events).0 == rounds - pauses(events),
        events.len() > 0 && events.last() is Paused && pauses(events) == rounds ==> after_events(
            rounds,
            events,
        ).1 == LaunchStep::Abandon(LaunchFailure::NotConnected),
    decreases events.len(),
{
    if events.len() > 0 {
        law_rounds_are_counted(rounds, events.drop_last());
    }
}

/// A port is picked automatically exactly where the configuration names none or zero.
pub proof fn law_only_a_named_port_is_fixed(config: BrowserConfig)
    ensures
        port_is_automatic(config) <==> config.debug_port is None || config.debug_port == Some(0u16),
{
}

/// A run of attempts has one entry on a configured port, and one to three on an automatic one. All
/// but the last are failures, and an automatic port is not given up before its third.
pub proof fn law_a_run_goes_on_until_it_succeeds<T, E>(outcomes: Seq<Result<T, E>>)
    ensures
        attempts_allowed(true) == 3,
        attempts_allowed(false) == 1,
        is_attempt_run(true, outcomes) <==> {
            ||| outcomes.len() == 1 && outcomes[0] is Ok
            ||| outcomes.len() == 2 && outcomes[0] is Err && outcomes[1] is Ok
            ||| outcomes.len() == 3 && outcomes[0] is Err && outcomes[1] is Err
        },
        is_attempt_run(false, outcomes) <==> outcomes.len() == 1,
{
}

/// A silent port is not ready whoever owns it; one that answers is ready where the browser owns it,
/// and claimed otherwise.
pub proof fn law_only_an_owned_answer_is_ready(owned: bool)
    ensures
        launch_probe(false, owned) == BrowserLaunchAttempt::ReadinessTimeout,
        launch_probe(true, true) == BrowserLaunchAttempt::Ready(0),
        launch_probe(true, false) == BrowserLaunchAttempt::PortClaimed,
{
}

/// A child that has ended is done, one that runs is waited for, and one that cannot be asked is
/// cleaned up. A query that has ended counts whatever the time, and one that runs is given up
/// exactly where its time is up.
pub proof fn law_children_are_waited_for<S, E>(status: S, error: E, deadline_passed: bool)
    ensures
        poll_action(Ok::<Option<S>, E>(Some(status))) == ChildPollAction::Exited,
        poll_action(Ok::<Option<S>, E>(None)) == ChildPollAction::Continue,
        poll_action(Err::<Option<S>, E>(error)) == ChildPollAction::CleanupAndFail,
        query_step(Ok::<Option<S>, E>(Some(status)), deadline_passed) == QueryWaitAction::TakeOutput,
        query_step(Err::<Option<S>, E>(error), deadline_passed) == QueryWaitAction::CleanupAndFail,
        query_step(Ok::<Option<S>, E>(None), true) == QueryWaitAction::CleanupAndGiveUp,
        query_step(Ok::<Option<S>, E>(None), false) == QueryWaitAction::Wait,
{
}

/// One attempt succeeds exactly where a port came, nothing listened there and the browser came up,
/// and then with that browser on that port. Whatever failed first is what is reported.
pub proof fn law_an_attempt_reports_what_failed_first<B, E>(
    port: u16,
    no_port: E,
    occupied: bool,
    browser: B,
    failure: Failure<E>,
    launched: Result<B, Failure<E>>,
)
    ensures
        launch_outcome(Ok::<u16, E>(port), false, Ok(browser)) == Ok::<(B, u16), Failure<E>>(
            (browser, port),
        ),
        launch_outcome(Ok::<u16, E>(port), false, Err::<B, Failure<E>>(failure)) == Err::<
            (B, u16),
            Failure<E>,
        >(failure),
        launch_outcome(Ok::<u16, E>(port), true, launched) == Err::<(B, u16), Failure<E>>(
            Failure::Refused(BrowserError::PortOccupied { port }),
        ),
        launch_outcome(Err::<u16, E>(no_port), occupied, launched) == Err::<(B, u16), Failure<E>>(
            Failure::Outside(no_port),
        ),
{
}

/// A browser is started on its port and its profile, named first and in full; the ten arguments
/// behind them are the same for every browser.
pub proof fn law_arguments_name_the_port_and_the_profile(
    user_data_dir: Seq<char>,
    port: u16,
    other_dir: Seq<char>,
    other_port: u16,
)
    ensures
        launch_arguments(user_data_dir, port).len() == 12,
        launch_arguments(user_data_dir, port)[0] == "--remote-debugging-port="@ + text::decimal(
            port as nat,
        ),
        launch_arguments(user_data_dir, port)[1] == "--user-data-dir="@ + user_data_dir,
        launch_arguments(user_data_dir, port).skip(2) == launch_arguments(
            other_dir,
            other_port,
        ).skip(2),
{
    assert(launch_arguments(user_data_dir, port).skip(2) =~= launch_arguments(
        other_dir,
        other_port,
    ).skip(2));
}

/// What follows each event of the wait for a started browser. Only pauses use up rounds, one each,
/// and the one that uses up the last ends the wait.
pub proof fn law_every_event_has_its_step(rounds_left: int, port: u16)
    ensures
        launch_step(rounds_left, LaunchEvent::Probed(BrowserLaunchAttempt::Ready(port))) == (
            rounds_left,
            LaunchStep::Connect,
        ),
        launch_step(rounds_left, LaunchEvent::Probed(BrowserLaunchAttempt::PortClaimed)) == (
            rounds_left,
            LaunchStep::Abandon(LaunchFailure::PortClaimed),
        ),
        launch_step(rounds_left, LaunchEvent::Probed(BrowserLaunchAttempt::ReadinessTimeout)) == (
            rounds_left,
            LaunchStep::Poll,
        ),
        launch_step(rounds_left, LaunchEvent::Connected(true)) == (
            rounds_left,
            LaunchStep::SaveRecord,
        ),
        launch_step(rounds_left, LaunchEvent::Connected(false)) == (rounds_left, LaunchStep::Poll),
        launch_step(rounds_left, LaunchEvent::Saved(true)) == (rounds_left, LaunchStep::Finish),
        launch_step(rounds_left, LaunchEvent::Saved(false)) == (
            rounds_left,
            LaunchStep::Abandon(LaunchFailure::NotSaved),
        ),
        launch_step(rounds_left, LaunchEvent::Polled(ChildPollAction::Exited)) == (
            rounds_left,
            LaunchStep::Abandon(LaunchFailure::NotConnected),
        ),
        launch_step(rounds_left, LaunchEvent::Polled(ChildPollAction::Continue)) == (
            rounds_left,
            LaunchStep::Pause,
        ),
        launch_step(rounds_left, LaunchEvent::Polled(ChildPollAction::CleanupAndFail)) == (
            rounds_left,
            LaunchStep::Abandon(LaunchFailure::NotPolled),
        ),
        rounds_left > 1 ==> launch_step(rounds_left, LaunchEvent::Paused) == (
            rounds_left - 1,
            LaunchStep::Probe,
        ),
        rounds_left <= 1 ==> launch_step(rounds_left, LaunchEvent::Paused) == (
            0int,
            LaunchStep::Abandon(LaunchFailure::NotConnected),
        ),
{
}

/// A claimed port is reported with its number and an unreachable browser as such; a record that was
/// not written and a process that cannot be asked have reports of their own.
pub proof fn law_a_given_up_browser_is_reported(port: u16)
    ensures
        refusal_for(LaunchFailure::PortClaimed, port) == Some(BrowserError::PortClaimed { port }),
        refusal_for(LaunchFailure::NotConnected, port) == Some(BrowserError::NotConnected),
        refusal_for(LaunchFailure::NotSaved, port) is None,
        refusal_for(LaunchFailure::NotPolled, port) is None,
{
}

} // verus!
