//! Which browser is installed, and whether the configuration is complete.

use crate::error::BrowserError;
use crate::paths::{Host, Platform};
use crate::text;
use vstd::prelude::*;
use vstd::string::*;

verus! {

/// How the user wants the browser to run.
#[derive(Debug, Clone, PartialEq, Eq)]
pub struct BrowserConfig {
    pub user_data_dir: String,
    pub chrome_exe_path: Option<String>,
    pub max_parallel_tasks: usize,
    /// The debug port; none or zero has one picked automatically.
    pub debug_port: Option<u16>,
}

/// What is known about the browser before it is started.
#[derive(Debug, Clone, PartialEq, Eq)]
pub struct BrowserEnvStatus {
    pub browser_found: bool,
    pub browser_name: Option<String>,
    pub browser_path: Option<String>,
    pub user_data_dir_ok: bool,
    pub user_data_dir: Option<String>,
}

/// The mathematical value of a [`BrowserEnvStatus`].
pub struct EnvStatusView {
    pub browser_found: bool,
    pub browser_name: Option<Seq<char>>,
    pub browser_path: Option<Seq<char>>,
    pub user_data_dir_ok: bool,
    pub user_data_dir: Option<Seq<char>>,
}

impl View for BrowserEnvStatus {
    type V = EnvStatusView;

    open spec fn view(&self) -> EnvStatusView {
        EnvStatusView {
            browser_found: self.browser_found,
            browser_name: self.browser_name.deep_view(),
            browser_path: self.browser_path.deep_view(),
            user_data_dir_ok: self.user_data_dir_ok,
            user_data_dir: self.user_data_dir.deep_view(),
        }
    }
}

/// A place where a browser may be installed.
#[derive(Debug, Clone, Copy)]
pub struct BrowserCandidate {
    pub name: &'static str,
    pub path: &'static str,
}

/// The names and places in a list of candidates.
pub open spec fn candidate_texts(list: Seq<BrowserCandidate>) -> Seq<(Seq<char>, Seq<char>)> {
    list.map_values(|candidate: BrowserCandidate| (candidate.name@, candidate.path@))
}

/// Where each platform keeps its browsers, the preferred ones first.
pub open spec fn candidates(platform: Platform) -> Seq<(Seq<char>, Seq<char>)> {
    match platform {
        Platform::MacOs => seq![
            ("Chrome"@, "/Applications/Google Chrome.app/Contents/MacOS/Google Chrome"@),
            ("Edge"@, "/Applications/Microsoft Edge.app/Contents/MacOS/Microsoft Edge"@),
        ],
        Platform::Windows => seq![
            ("Chrome"@, "C:\\Program Files\\Google\\Chrome\\Application\\chrome.exe"@),
            ("Chrome"@, "C:\\Program Files (x86)\\Google\\Chrome\\Application\\chrome.exe"@),
            ("Edge"@, "C:\\Program Files\\Microsoft\\Edge\\Application\\msedge.exe"@),
            ("Edge"@, "C:\\Program Files (x86)\\Microsoft\\Edge\\Application\\msedge.exe"@),
        ],
        Platform::Unix => seq![
            ("Chrome"@, "/usr/bin/google-chrome"@),
            ("Chrome"@, "/usr/bin/google-chrome-stable"@),
            ("Chrome"@, "/usr/bin/chromium-browser"@),
            ("Chrome"@, "/usr/bin/chromium"@),
            ("Edge"@, "/usr/bin/microsoft-edge"@),
            ("Edge"@, "/usr/bin/microsoft-edge-stable"@),
        ],
    }
}

/// The path is one of those that exist.
pub open spec fn exists_on(host: Host, path: Seq<char>) -> bool {
    text::texts(host.existing@).contains(path)
}

/// The first candidate from `from` on whose path exists.
pub open spec fn detected_from(host: Host, from: int) -> Option<(Seq<char>, Seq<char>)>
    decreases candidates(host.platform).len() - from,
{
    let list = candidates(host.platform);
    if from < 0 || from >= list.len() {
        None
    } else if exists_on(host, list[from].1) {
        Some(list[from])
    } else {
        detected_from(host, from + 1)
    }
}

/// The preferred installed browser: its name and its path.
pub open spec fn detected(host: Host) -> Option<(Seq<char>, Seq<char>)> {
    detected_from(host, 0)
}

/// A setting that holds something other than a way to write nothing.
pub open spec fn is_given(setting: Seq<char>) -> bool {
    let trimmed = text::trim(setting);
    trimmed.len() > 0 && trimmed != "null"@ && trimmed != "None"@
}

/// What is known about the browser on a machine.
pub open spec fn env_status(config: BrowserConfig, host: Host) -> EnvStatusView {
    let dir_ok = is_given(config.user_data_dir@);
    let found = detected(host);
    let (browser_found, browser_name, browser_path) = match config.chrome_exe_path {
        Some(path) if is_given(path@) => (exists_on(host, path@), Some("自定义路径"@), Some(path@)),
        _ => match found {
            Some((name, path)) => (true, Some(name), Some(path)),
            None => (false, None, None),
        },
    };
    EnvStatusView {
        browser_found,
        browser_name,
        browser_path,
        user_data_dir_ok: dir_ok,
        user_data_dir: if dir_ok {
            Some(config.user_data_dir@)
        } else {
            None
        },
    }
}

/// The program to start: the configured one, else the preferred installed one.
pub open spec fn executable(config: BrowserConfig, host: Host) -> Option<Seq<char>> {
    match config.chrome_exe_path {
        Some(path) if text::trim(path@).len() > 0 => Some(path@),
        _ => match detected(host) {
            Some((_, path)) => Some(path),
            None => None,
        },
    }
}

/// Where the browsers of a platform may be, the preferred ones first.
pub fn browser_candidates(platform: Platform) -> (list: Vec<BrowserCandidate>)
    ensures
        candidate_texts(list@) == candidates(platform),
{
    let list: Vec<BrowserCandidate> = match platform {
        Platform::MacOs => vec![
            BrowserCandidate { name: "Chrome", path: "/Applications/Google Chrome.app/Contents/MacOS/Google Chrome" },
            BrowserCandidate { name: "Edge", path: "/Applications/Microsoft Edge.app/Contents/MacOS/Microsoft Edge" },
        ],
        Platform::Windows => vec![
            BrowserCandidate { name: "Chrome", path: "C:\\Program Files\\Google\\Chrome\\Application\\chrome.exe" },
            BrowserCandidate { name: "Chrome", path: "C:\\Program Files (x86)\\Google\\Chrome\\Application\\chrome.exe" },
            BrowserCandidate { name: "Edge", path: "C:\\Program Files\\Microsoft\\Edge\\Application\\msedge.exe" },
            BrowserCandidate { name: "Edge", path: "C:\\Program Files (x86)\\Microsoft\\Edge\\Application\\msedge.exe" },
        ],
        Platform::Unix => vec![
            BrowserCandidate { name: "Chrome", path: "/usr/bin/google-chrome" },
            BrowserCandidate { name: "Chrome", path: "/usr/bin/google-chrome-stable" },
            BrowserCandidate { name: "Chrome", path: "/usr/bin/chromium-browser" },
            BrowserCandidate { name: "Chrome", path: "/usr/bin/chromium" },
            BrowserCandidate { name: "Edge", path: "/usr/bin/microsoft-edge" },
            BrowserCandidate { name: "Edge", path: "/usr/bin/microsoft-edge-stable" },
        ],
    };
    assert(candidate_texts(list@) =~= candidates(platform));
    list
}

/// Whether a path is one of those that exist.
fn path_exists(host: &Host, path: &str) -> (found: bool)
    ensures
        found == exists_on(*host, path@),
{
    let ghost all = text::texts(host.existing@);
    let mut i: usize = 0;
    while i < host.existing.len()
        invariant
            i <= host.existing@.len(),
            all == text::texts(host.existing@),
            forall|j: int| 0 <= j < i ==> all[j] != path@,
        decreases host.existing.len() - i,
    {
        assert(all[i as int] == host.existing@[i as int]@);
        if text::same_text(host.existing[i].as_str(), path) {
            return true;
        }
        i += 1;
    }
    false
}

/// The preferred installed browser, Chrome before Edge.
pub fn detect_browser_path(host: &Host) -> (browser: Option<(&'static str, String)>)
    ensures
        (match browser {
            Some((name, path)) => Some((name@, path@)),
            None => None,
        }) == detected(*host),
{
    let list = browser_candidates(host.platform);
    let ghost all = candidates(host.platform);
    assert(all.len() == list@.len());
    let mut i: usize = 0;
    while i < list.len()
        invariant
            i <= list@.len(),
            all == candidates(host.platform),
            candidate_texts(list@) == all,
            detected(*host) == detected_from(*host, i as int),
        decreases list.len() - i,
    {
        assert(candidate_texts(list@)[i as int] == all[i as int]);
        if path_exists(host, list[i].path) {
            return Some((list[i].name, list[i].path.to_owned()));
        }
        i += 1;
    }
    None
}

/// Whether a setting was given.
fn setting_is_given(setting: &str) -> (given: bool)
    ensures
        given == is_given(setting@),
{
    let trimmed = text::trimmed(setting);
    let null = text::chars_of("null");
    let none = text::chars_of("None");
    trimmed.len() > 0 && !text::same_chars(trimmed.as_slice(), null.as_slice())
        && !text::same_chars(trimmed.as_slice(), none.as_slice())
}

/// What is known about the browser before it is started.
pub fn check_browser_env_status(config: &BrowserConfig, host: &Host) -> (status: BrowserEnvStatus)
    ensures
        status@ == env_status(*config, *host),
{
    let explicit: Option<String> = match &config.chrome_exe_path {
        Some(path) => if setting_is_given(path.as_str()) {
            Some(path.clone())
        } else {
            None
        },
        None => None,
    };
    let (browser_found, browser_name, browser_path): (bool, Option<String>, Option<String>) =
        match explicit {
        Some(path) => (
            path_exists(host, path.as_str()),
            Some("自定义路径".to_owned()),
            Some(path),
        ),
        None => match detect_browser_path(host) {
            Some((name, path)) => (true, Some(name.to_owned()), Some(path)),
            None => (false, None, None),
        },
    };
    let user_data_dir_ok = setting_is_given(config.user_data_dir.as_str());
    let user_data_dir = if user_data_dir_ok {
        Some(config.user_data_dir.clone())
    } else {
        None
    };
    BrowserEnvStatus { browser_found, browser_name, browser_path, user_data_dir_ok, user_data_dir }
}

/// The program to start.
pub fn browser_executable(config: &BrowserConfig, host: &Host) -> (program: Result<
    String,
    BrowserError,
>)
    ensures
        match program {
            Ok(path) => executable(*config, *host) == Some(path@),
            Err(error) => executable(*config, *host) is None && error
                == BrowserError::NoBrowserFound,
        },
{
    if let Some(path) = &config.chrome_exe_path {
        if text::trimmed(path.as_str()).len() > 0 {
            return Ok(path.clone());
        }
    }
    match detect_browser_path(host) {
        Some((_, path)) => Ok(path),
        None => Err(BrowserError::NoBrowserFound),
    }
}

/// What is detected is the first candidate that exists.
proof fn lemma_detected_from(host: Host, from: int)
    requires
        0 <= from,
    ensures
        match detected_from(host, from) {
            Some(found) => exists|i: int|
                from <= i < candidates(host.platform).len() && candidates(host.platform)[i] == found
                    && #[trigger] exists_on(host, candidates(host.platform)[i].1) && (forall|j: int|
                    from <= j < i ==> !#[trigger] exists_on(host, candidates(host.platform)[j].1)),
            None => forall|j: int|
                from <= j < candidates(host.platform).len() ==> !#[trigger] exists_on(
                    host,
                    candidates(host.platform)[j].1,
                ),
        },
    decreases candidates(host.platform).len() - from,
{
    let list = candidates(host.platform);
    if from < list.len() && !exists_on(host, list[from].1) {
        lemma_detected_from(host, from + 1);
        if let Some(found) = detected_from(host, from + 1) {
            let i = choose|i: int|
                from + 1 <= i < list.len() && list[i] == found && #[trigger] exists_on(
                    host,
                    list[i].1,
                ) && (forall|j: int| from + 1 <= j < i ==> !#[trigger] exists_on(host, list[j].1));
            assert(exists_on(host, list[i].1));
        }
    }
}

/// A browser is detected exactly when one of the platform's candidates exists, and what is
/// detected exists.
pub proof fn law_detects_what_exists(host: Host)
    ensures
        detected(host) is Some <==> exists|i: int|
            0 <= i < candidates(host.platform).len() && #[trigger] exists_on(
                host,
                candidates(host.platform)[i].1,
            ),
        detected(host) matches Some((_, path)) ==> exists_on(host, path),
{
    lemma_detected_from(host, 0);
}

/// Edge is chosen only where no Chrome exists.
pub proof fn law_chrome_before_edge(host: Host, i: int)
    requires
        0 <= i < candidates(host.platform).len(),
        candidates(host.platform)[i].0 == "Chrome"@,
        exists_on(host, candidates(host.platform)[i].1),
    ensures
        detected(host) matches Some((name, _)) && name == "Chrome"@,
{
    reveal_strlit("Chrome");
    reveal_strlit("Edge");
    assert("Edge"@.len() == 4 && "Chrome"@.len() == 6);
    let list = candidates(host.platform);
    lemma_detected_from(host, 0);
    let found = detected(host)->0;
    let k = choose|k: int|
        0 <= k < list.len() && list[k] == found && #[trigger] exists_on(host, list[k].1) && (
        forall|j: int| 0 <= j < k ==> !#[trigger] exists_on(host, list[j].1));
    assert(k <= i);
    assert(forall|a: int, b: int|
        #![trigger list[a], list[b]]
        0 <= a <= b < list.len() && list[b].0 == "Chrome"@ ==> list[a].0 == "Chrome"@);
}

/// A status is looked at as it is.
pub proof fn law_a_status_is_looked_at_as_it_is(status: BrowserEnvStatus)
    ensures
        status@.browser_found == status.browser_found,
        status@.user_data_dir_ok == status.user_data_dir_ok,
        status.browser_name is None <==> status@.browser_name is None,
        status.browser_path is None <==> status@.browser_path is None,
        status.user_data_dir is None <==> status@.user_data_dir is None,
        status.browser_name matches Some(name) ==> status@.browser_name == Some(name@),
        status.browser_path matches Some(path) ==> status@.browser_path == Some(path@),
        status.user_data_dir matches Some(dir) ==> status@.user_data_dir == Some(dir@),
{
}

/// Which places a platform's browsers may be in.
pub proof fn law_each_platform_has_its_places(place: int)
    ensures
        candidates(Platform::MacOs).len() == 2,
        candidates(Platform::Windows).len() == 4,
        candidates(Platform::Unix).len() == 6,
        0 <= place < 2 ==> candidates(Platform::MacOs)[place].0 == if place < 1 {
            "Chrome"@
        } else {
            "Edge"@
        },
        0 <= place < 4 ==> candidates(Platform::Windows)[place].0 == if place < 2 {
            "Chrome"@
        } else {
            "Edge"@
        },
        0 <= place < 6 ==> candidates(Platform::Unix)[place].0 == if place < 4 {
            "Chrome"@
        } else {
            "Edge"@
        },
        candidates(Platform::MacOs)[0].1
            == "/Applications/Google Chrome.app/Contents/MacOS/Google Chrome"@,
        candidates(Platform::MacOs)[1].1
            == "/Applications/Microsoft Edge.app/Contents/MacOS/Microsoft Edge"@,
        candidates(Platform::Windows)[0].1
            == "C:\\Program Files\\Google\\Chrome\\Application\\chrome.exe"@,
        candidates(Platform::Windows)[1].1
            == "C:\\Program Files (x86)\\Google\\Chrome\\Application\\chrome.exe"@,
        candidates(Platform::Windows)[2].1
            == "C:\\Program Files\\Microsoft\\Edge\\Application\\msedge.exe"@,
        candidates(Platform::Windows)[3].1
            == "C:\\Program Files (x86)\\Microsoft\\Edge\\Application\\msedge.exe"@,
        candidates(Platform::Unix)[0].1 == "/usr/bin/google-chrome"@,
        candidates(Platform::Unix)[1].1 == "/usr/bin/google-chrome-stable"@,
        candidates(Platform::Unix)[2].1 == "/usr/bin/chromium-browser"@,
        candidates(Platform::Unix)[3].1 == "/usr/bin/chromium"@,
        candidates(Platform::Unix)[4].1 == "/usr/bin/microsoft-edge"@,
        candidates(Platform::Unix)[5].1 == "/usr/bin/microsoft-edge-stable"@,
{
}

/// The browser that is detected is the first one of the platform's list whose path exists.
pub proof fn law_the_first_existing_place_is_detected(host: Host, place: int)
    requires
        0 <= place <= candidates(host.platform).len(),
        forall|j: int|
            0 <= j < place ==> !text::texts(host.existing@).contains(
                (#[trigger] candidates(host.platform)[j]).1,
            ),
        place < candidates(host.platform).len() ==> text::texts(host.existing@).contains(
            candidates(host.platform)[place].1,
        ),
    ensures
        detected(host) == if place < candidates(host.platform).len() {
            Some(candidates(host.platform)[place])
        } else {
            None
        },
{
    lemma_places_are_passed_over(host, 0, place);
}

/// Places that do not exist are passed over.
proof fn lemma_places_are_passed_over(host: Host, from: int, place: int)
    requires
        0 <= from <= place <= candidates(host.platform).len(),
        forall|j: int|
            from <= j < place ==> !text::texts(host.existing@).contains(
                (#[trigger] candidates(host.platform)[j]).1,
            ),
    ensures
        detected_from(host, from) == detected_from(host, place),
    decreases place - from,
{
    if from < place {
        assert(!exists_on(host, candidates(host.platform)[from].1));
        lemma_places_are_passed_over(host, from + 1, place);
    }
}

/// A setting is given exactly where something other than white space, `null` and `None` stands
/// between the white space at its ends.
pub proof fn law_a_setting_is_what_stands_between_white_space(
    before: Seq<char>,
    core: Seq<char>,
    after: Seq<char>,
)
    requires
        text::is_blank(before),
        text::is_blank(after),
        core.len() > 0 ==> !text::white_space(core[0]) && !text::white_space(core.last()),
    ensures
        core.len() > 0 ==> (is_given(before + core + after) <==> core != "null"@ && core
            != "None"@),
        !is_given(before),
{
    text::law_trimming_takes_the_ends_off(before, core, after);
}

/// The status reports the configured program where one is given, and says whether it exists; else
/// the detected one; and the profile exactly where one is given.
pub proof fn law_the_status_reports_what_is_there(config: BrowserConfig, host: Host)
    ensures
        ({
            let status = env_status(config, host);
            let explicit = config.chrome_exe_path matches Some(path) && is_given(path@);
            &&& explicit ==> status.browser_path == Some(config.chrome_exe_path->0@)
                && status.browser_name == Some("自定义路径"@) && (status.browser_found
                <==> text::texts(host.existing@).contains(config.chrome_exe_path->0@))
            &&& !explicit ==> match detected(host) {
                Some(found) => status.browser_found && status.browser_name == Some(found.0)
                    && status.browser_path == Some(found.1),
                None => !status.browser_found && status.browser_name is None
                    && status.browser_path is None,
            }
            &&& status.user_data_dir_ok <==> is_given(config.user_data_dir@)
            &&& status.user_data_dir == if is_given(config.user_data_dir@) {
                Some(config.user_data_dir@)
            } else {
                None
            }
        }),
{
}

/// The program to start is the configured one, as it is written, wherever it holds more than white
/// space; else the detected one.
pub proof fn law_the_configured_program_is_started(config: BrowserConfig, host: Host)
    ensures
        config.chrome_exe_path matches Some(path) && text::trim(path@).len() > 0 ==> executable(
            config,
            host,
        ) == Some(config.chrome_exe_path->0@),
        config.chrome_exe_path is None || text::trim(config.chrome_exe_path->0@).len() == 0
            ==> executable(config, host) == match detected(host) {
            Some(found) => Some(found.1),
            None => None,
        },
{
}

/// A candidate is looked at as it is.
pub proof fn law_candidates_are_looked_at_as_they_are(list: Seq<BrowserCandidate>, i: int)
    requires
        0 <= i < list.len(),
    ensures
        candidate_texts(list).len() == list.len(),
        candidate_texts(list)[i] == (list[i].name@, list[i].path@),
{
}

} // verus!
