//! What a process's command line says: whether it is a browser, and which profile it runs on.

use crate::text;
use vstd::prelude::*;
use vstd::slice::{slice_subrange, slice_to_vec};
use vstd::string::*;

verus! {

/// What is known of a process from its command line.
#[derive(Debug, Clone, PartialEq, Eq)]
pub enum ProcessCommandState {
    /// The process runs.
    Alive { browser_process: bool, user_data_dir: Option<String> },
    /// There is no such process.
    Dead,
    /// The command line could not be read.
    Unknown,
}

/// The mathematical value of a [`ProcessCommandState`].
pub enum CommandStateView {
    Alive { browser_process: bool, user_data_dir: Option<Seq<char>> },
    Dead,
    Unknown,
}

impl View for ProcessCommandState {
    type V = CommandStateView;

    open spec fn view(&self) -> CommandStateView {
        match self {
            ProcessCommandState::Alive { browser_process, user_data_dir } => CommandStateView::Alive {
                browser_process: *browser_process,
                user_data_dir: user_data_dir.deep_view(),
            },
            ProcessCommandState::Dead => CommandStateView::Dead,
            ProcessCommandState::Unknown => CommandStateView::Unknown,
        }
    }
}

/// Why reading what the system holds about a process failed.
#[derive(Debug, Clone, Copy, PartialEq, Eq)]
pub struct ReadFailure {
    /// The file does not exist.
    pub not_found: bool,
    /// The system reports that there is no such process.
    pub no_such_process: bool,
}

/// A command line that names a known browser.
pub open spec fn names_browser(command: Seq<char>) -> bool {
    let lower = text::ascii_lower(command);
    ||| text::contains_text(lower, "google chrome"@)
    ||| text::contains_text(lower, "chrome.exe"@)
    ||| text::contains_text(lower, "chromium"@)
    ||| text::contains_text(lower, "microsoft edge"@)
    ||| text::contains_text(lower, "msedge.exe"@)
}

/// A value that is there only if it holds a character.
pub open spec fn nonempty(value: Seq<char>) -> Option<Seq<char>> {
    if value.len() > 0 {
        Some(value)
    } else {
        None
    }
}

/// What stands in `command` from `from` up to the next `mark`.
pub open spec fn until(command: Seq<char>, from: int, mark: char) -> Option<Seq<char>> {
    match text::position_from(command, mark, from) {
        Some(end) => Some(command.subrange(from, end)),
        None => None,
    }
}

/// Where the value of an option begins whose name ends at `from`: behind white space and at most
/// one equals sign.
pub open spec fn value_start(command: Seq<char>, from: int) -> int {
    let sign = text::after_white(command, from);
    let after = if sign < command.len() && command[sign] == '=' {
        sign + 1
    } else {
        sign
    };
    text::after_white(command, after)
}

/// The value that begins at `start`. It runs up to the quote that closes the argument or the
/// value, or up to white space where there is no quote.
pub open spec fn value_at(command: Seq<char>, start: int, argument_quoted: bool) -> Option<Seq<char>> {
    if argument_quoted {
        until(command, start, '"')
    } else if start < command.len() && command[start] == '"' {
        until(command, start + 1, '"')
    } else if start < command.len() && command[start] == '\'' {
        until(command, start + 1, '\'')
    } else {
        Some(command.subrange(start, text::after_word(command, start)))
    }
}

/// The profile directory in a command line that is one string.
pub open spec fn dir_in_command(command: Seq<char>) -> Option<Seq<char>> {
    match text::find_in(command, "--user-data-dir"@) {
        Some(at) => {
            let start = value_start(command, at + "--user-data-dir"@.len());
            match value_at(command, start, at > 0 && command[at - 1] == '"') {
                Some(value) => nonempty(value),
                None => None,
            }
        },
        None => None,
    }
}

/// An option's value, from `from` on, opens with a quote.
pub open spec fn opens_with_quote(command: Seq<char>, from: int) -> bool {
    let start = text::after_white(command, from);
    ||| text::occurs_at(command, "=\""@, start)
    ||| text::occurs_at(command, "='"@, start)
    ||| start < command.len() && (command[start] == '"' || command[start] == '\'')
}

/// The profile directory in a command line whose arguments were joined with blanks. A value
/// without quotes that a blank follows is ambiguous: it may have been cut short.
pub open spec fn dir_in_joined_command(command: Seq<char>) -> Option<Seq<char>> {
    match text::find_in(command, "--user-data-dir"@) {
        Some(at) => {
            let end = at + "--user-data-dir"@.len();
            if end >= command.len() || !(command[end] == '=' || text::white_space(command[end])) {
                None
            } else {
                match dir_in_command(command) {
                    Some(value) => if !opens_with_quote(command, end) && text::position_from(
                        command,
                        ' ',
                        end,
                    ) is Some && text::contains_text(command, value.push(' ')) {
                        None
                    } else {
                        Some(value)
                    },
                    None => None,
                }
            }
        },
        None => None,
    }
}

/// The profile directory in a list of arguments, looked for from argument `from` on.
pub open spec fn dir_in_arguments_from(args: Seq<Seq<char>>, from: int) -> Option<Seq<char>>
    decreases args.len() - from,
{
    if from < 0 || from >= args.len() {
        None
    } else if text::begins_with(args[from], "--user-data-dir="@) {
        nonempty(args[from].skip("--user-data-dir="@.len() as int))
    } else if args[from] == "--user-data-dir"@ {
        if from + 1 < args.len() {
            nonempty(args[from + 1])
        } else {
            None
        }
    } else {
        dir_in_arguments_from(args, from + 1)
    }
}

/// The profile directory in a list of arguments.
pub open spec fn dir_in_arguments(args: Seq<Seq<char>>) -> Option<Seq<char>> {
    dir_in_arguments_from(args, 0)
}

/// What a list of arguments says of its process; the first one names the program.
pub open spec fn arguments_state(args: Seq<Seq<char>>) -> CommandStateView {
    if args.len() == 0 {
        CommandStateView::Unknown
    } else {
        CommandStateView::Alive {
            browser_process: names_browser(args[0]),
            user_data_dir: dir_in_arguments(args),
        }
    }
}

/// Whether a command line names a known browser.
pub fn command_identifies_browser(command: &str) -> (browser: bool)
    ensures
        browser == names_browser(command@),
{
    let lower = text::lowered(command);
    text::contains(lower.as_slice(), "google chrome") || text::contains(
        lower.as_slice(),
        "chrome.exe",
    ) || text::contains(lower.as_slice(), "chromium") || text::contains(
        lower.as_slice(),
        "microsoft edge",
    ) || text::contains(lower.as_slice(), "msedge.exe")
}

/// The profile directory that a command line names.
pub fn command_user_data_dir(command: &str) -> (dir: Option<String>)
    ensures
        dir.deep_view() == dir_in_command(command@),
{
    let chars = text::chars_of(command);
    let all = chars.as_slice();
    let marker = text::chars_of("--user-data-dir");
    proof {
        text::lemma_find_from(command@, "--user-data-dir"@, 0);
    }
    let at = match text::find(all, marker.as_slice()) {
        Some(at) => at,
        None => return None,
    };
    let argument_quoted = at > 0 && all[at - 1] == '"';
    let sign = text::skip_white(all, at + marker.len());
    let after = if sign < all.len() && all[sign] == '=' {
        sign + 1
    } else {
        sign
    };
    let open = text::skip_white(all, after);
    let (start, end): (usize, usize) = if argument_quoted {
        proof {
            text::lemma_position_from(command@, '"', open as int);
        }
        match text::position_of_char(all, '"', open) {
            Some(end) => (open, end),
            None => return None,
        }
    } else if open < all.len() && (all[open] == '"' || all[open] == '\'') {
        let quote = all[open];
        proof {
            text::lemma_position_from(command@, quote, open + 1);
        }
        match text::position_of_char(all, quote, open + 1) {
            Some(end) => (open + 1, end),
            None => return None,
        }
    } else {
        (open, text::skip_word(all, open))
    };
    if start == end {
        None
    } else {
        Some(command.substring_char(start, end).to_owned())
    }
}

/// The profile directory that a joined command line names beyond doubt.
pub fn macos_command_user_data_dir(command: &str) -> (dir: Option<String>)
    ensures
        dir.deep_view() == dir_in_joined_command(command@),
{
    let chars = text::chars_of(command);
    let all = chars.as_slice();
    let marker = text::chars_of("--user-data-dir");
    proof {
        text::lemma_find_from(command@, "--user-data-dir"@, 0);
    }
    let end = match text::find(all, marker.as_slice()) {
        Some(at) => at + marker.len(),
        None => return None,
    };
    if end >= all.len() || !(all[end] == '=' || text::is_white_space(all[end])) {
        return None;
    }
    let value = match command_user_data_dir(command) {
        Some(value) => value,
        None => return None,
    };
    let start = text::skip_white(all, end);
    let quoted = text::stands_at(all, text::chars_of("=\"").as_slice(), start) || text::stands_at(
        all,
        text::chars_of("='").as_slice(),
        start,
    ) || (start < all.len() && (all[start] == '"' || all[start] == '\''));
    let mut cut = text::chars_of(value.as_str());
    cut.push(' ');
    proof {
        text::lemma_find_from(command@, cut@, 0);
    }
    if !quoted && text::position_of_char(all, ' ', end).is_some() && text::find(
        all,
        cut.as_slice(),
    ).is_some() {
        None
    } else {
        Some(value)
    }
}

/// The profile directory that a list of decoded arguments names.
pub fn user_data_dir_of_arguments(args: &Vec<String>) -> (dir: Option<String>)
    ensures
        dir.deep_view() == dir_in_arguments(text::texts(args@)),
{
    let ghost list = text::texts(args@);
    let marker = text::chars_of("--user-data-dir=");
    let mut i: usize = 0;
    while i < args.len()
        invariant
            i <= args@.len(),
            list == text::texts(args@),
            marker@ == "--user-data-dir="@,
            dir_in_arguments(list) == dir_in_arguments_from(list, i as int),
        decreases args.len() - i,
    {
        let arg = args[i].as_str();
        assert(list[i as int] == arg@);
        let chars = text::chars_of(arg);
        if text::starts_with(chars.as_slice(), "--user-data-dir=") {
            if chars.len() == marker.len() {
                return None;
            }
            let value = arg.substring_char(marker.len(), chars.len()).to_owned();
            assert(value@ =~= arg@.skip(marker@.len() as int));
            return Some(value);
        }
        if text::same_text(arg, "--user-data-dir") {
            if i + 1 < args.len() {
                assert(list[i + 1] == args@[i + 1]@);
                let next = args[i + 1].as_str();
                if next.is_empty() {
                    return None;
                }
                return Some(next.to_owned());
            }
            return None;
        }
        i += 1;
    }
    None
}

/// What a list of decoded arguments says of its process.
pub fn state_of_arguments(args: &Vec<String>) -> (state: ProcessCommandState)
    ensures
        state@ == arguments_state(text::texts(args@)),
{
    if args.len() == 0 {
        return ProcessCommandState::Unknown;
    }
    assert(text::texts(args@)[0] == args@[0]@);
    ProcessCommandState::Alive {
        browser_process: command_identifies_browser(args[0].as_str()),
        user_data_dir: user_data_dir_of_arguments(args),
    }
}

/// What `String::from_utf8_lossy` makes of a run of bytes.
pub uninterp spec fn lossy_text(bytes: Seq<u8>) -> Seq<char>;

/// Decodes bytes with std's `String::from_utf8_lossy`. Of the text it claims that it is a function
/// of the bytes, and that bytes that are valid UTF-8 are decoded as UTF-8. Where replacement
/// characters stand for invalid bytes is left to the name `lossy_text`.
#[verifier::external_body]
fn decode_lossy(bytes: &[u8]) -> (decoded: String)
    ensures
        decoded@ == lossy_text(bytes@),
        vstd::utf8::valid_utf8(bytes@) ==> decoded@ == vstd::utf8::decode_utf8(bytes@),
{
    String::from_utf8_lossy(bytes).into_owned()
}

/// The text of a run of bytes: what they hold where they are valid UTF-8, and else what is left of
/// it once replacement characters stand for the invalid bytes.
pub open spec fn decoded_text(bytes: Seq<u8>) -> Seq<char> {
    if vstd::utf8::valid_utf8(bytes) {
        vstd::utf8::decode_utf8(bytes)
    } else {
        lossy_text(bytes)
    }
}

/// Decodes bytes, valid UTF-8 or not.
pub(crate) fn text_of_bytes(bytes: &[u8]) -> (decoded: String)
    ensures
        decoded@ == decoded_text(bytes@),
{
    decode_lossy(bytes)
}

/// A list of byte strings, decoded one by one.
pub open spec fn decoded_texts(list: Seq<Seq<u8>>) -> Seq<Seq<char>> {
    list.map_values(|bytes: Seq<u8>| decoded_text(bytes))
}

/// The bytes of every slice in a list.
pub open spec fn slices(list: Seq<&[u8]>) -> Seq<Seq<u8>> {
    list.map_values(|bytes: &[u8]| bytes@)
}

/// The parts of `bytes` between zero bytes, without the empty ones.
pub open spec fn nul_parts(bytes: Seq<u8>) -> Seq<Seq<u8>>
    decreases bytes.len(),
{
    if bytes.len() == 0 {
        seq![]
    } else {
        match text::position_from(bytes, 0u8, 0) {
            Some(end) => {
                proof {
                    text::lemma_position_from(bytes, 0u8, 0);
                }
                let rest = nul_parts(bytes.skip(end + 1));
                if end > 0 {
                    seq![bytes.take(end)] + rest
                } else {
                    rest
                }
            },
            None => seq![bytes],
        }
    }
}

/// What the bytes of a process's command line file say; without bytes, nothing is known.
pub open spec fn cmdline_state(bytes: Option<Seq<u8>>) -> CommandStateView {
    match bytes {
        Some(bytes) => arguments_state(decoded_texts(nul_parts(bytes))),
        None => CommandStateView::Unknown,
    }
}

/// Decodes every byte string of a list.
fn decode_all(list: &[&[u8]]) -> (decoded: Vec<String>)
    ensures
        text::texts(decoded@) == decoded_texts(slices(list@)),
{
    let mut decoded: Vec<String> = Vec::new();
    let mut i: usize = 0;
    while i < list.len()
        invariant
            i <= list@.len(),
            decoded@.len() == i,
            forall|j: int| 0 <= j < i ==> #[trigger] decoded@[j]@ == decoded_text(list@[j]@),
        decreases list.len() - i,
    {
        decoded.push(text_of_bytes(list[i]));
        i += 1;
    }
    assert(text::texts(decoded@) =~= decoded_texts(slices(list@)));
    decoded
}

/// The profile directory that a list of undecoded arguments names.
pub fn command_user_data_dir_from_argv(args: &[&[u8]]) -> (dir: Option<String>)
    ensures
        dir.deep_view() == dir_in_arguments(decoded_texts(slices(args@))),
{
    let decoded = decode_all(args);
    user_data_dir_of_arguments(&decoded)
}

/// Parts bytes at the zero bytes.
fn split_nul(bytes: &[u8]) -> (parts: Vec<&[u8]>)
    ensures
        slices(parts@) == nul_parts(bytes@),
{
    let mut parts: Vec<&[u8]> = Vec::new();
    let mut at: usize = 0;
    assert(bytes@.skip(0) =~= bytes@);
    while at < bytes.len()
        invariant
            at <= bytes@.len(),
            slices(parts@) + nul_parts(bytes@.skip(at as int)) == nul_parts(bytes@),
        decreases bytes.len() - at,
    {
        let ghost before = slices(parts@);
        let rest = slice_subrange(bytes, at, bytes.len());
        assert(rest@ =~= bytes@.skip(at as int));
        proof {
            text::lemma_position_from(rest@, 0u8, 0);
        }
        match text::position_of_byte(rest, 0, 0) {
            Some(end) => {
                let ghost next = bytes@.skip(at + end + 1);
                assert(rest@.skip(end + 1) =~= next);
                if end > 0 {
                    let part = slice_subrange(rest, 0, end);
                    parts.push(part);
                    assert(part@ =~= rest@.take(end as int));
                    assert(slices(parts@) =~= before.push(part@));
                    assert(before.push(part@) + nul_parts(next) =~= before + (seq![part@]
                        + nul_parts(next)));
                }
                at = at + end + 1;
            },
            None => {
                parts.push(rest);
                at = bytes.len();
                assert(nul_parts(bytes@.skip(at as int)) =~= seq![]);
                assert(slices(parts@) =~= before + seq![rest@]);
                assert(slices(parts@) + nul_parts(bytes@.skip(at as int)) =~= slices(parts@));
            },
        }
    }
    assert(nul_parts(bytes@.skip(at as int)) =~= seq![]);
    assert(slices(parts@) =~= slices(parts@) + nul_parts(bytes@.skip(at as int)));
    parts
}

/// What the command line file of a Linux process says.
pub fn linux_cmdline_state(bytes: Option<&[u8]>) -> (state: ProcessCommandState)
    ensures
        state@ == cmdline_state(
            match bytes {
                Some(bytes) => Some(bytes@),
                None => None,
            },
        ),
{
    match bytes {
        Some(bytes) => {
            let parts = split_nul(bytes);
            let decoded = decode_all(parts.as_slice());
            state_of_arguments(&decoded)
        },
        None => ProcessCommandState::Unknown,
    }
}

/// What the outcome of reading a command line file shows of its process.
pub open spec fn state_of_file(result: Result<Vec<u8>, ReadFailure>) -> CommandStateView {
    match result {
        Ok(bytes) => cmdline_state(Some(bytes@)),
        Err(failure) => if failure.not_found {
            CommandStateView::Dead
        } else {
            CommandStateView::Unknown
        },
    }
}

/// What the outcome of reading a Linux process's command line file says. Only a file that does not
/// exist shows that the process is gone.
pub fn linux_cmdline_state_from_result(result: Result<Vec<u8>, ReadFailure>) -> (state:
    ProcessCommandState)
    ensures
        state@ == state_of_file(result),
{
    match result {
        Ok(bytes) => linux_cmdline_state(Some(bytes.as_slice())),
        Err(failure) => if failure.not_found {
            ProcessCommandState::Dead
        } else {
            ProcessCommandState::Unknown
        },
    }
}

/// Four bytes as an unsigned number, the least significant byte first.
pub open spec fn little_endian(bytes: Seq<u8>) -> int {
    bytes[0] + 0x100 * bytes[1] + 0x1_0000 * bytes[2] + 0x100_0000 * bytes[3]
}

/// Four bytes as a signed number in the byte order of the machine.
pub open spec fn native_i32(bytes: Seq<u8>) -> int {
    let unsigned = match vstd::endian::endianness() {
        vstd::endian::Endian::Little => little_endian(bytes),
        vstd::endian::Endian::Big => little_endian(bytes.reverse()),
    };
    if unsigned < 0x8000_0000 {
        unsigned
    } else {
        unsigned - 0x1_0000_0000
    }
}

/// Calls std's `i32::from_ne_bytes`, of which it claims that the number is the one that the four
/// bytes hold in the machine's own byte order, in two's complement.
#[verifier::external_body]
fn i32_from_native(bytes: [u8; 4]) -> (number: i32)
    ensures
        number == native_i32(bytes@),
{
    i32::from_ne_bytes(bytes)
}

/// The first index from `from` on that holds a byte other than zero, or the end of `bytes`.
pub open spec fn after_zeros(bytes: Seq<u8>, from: int) -> int
    decreases bytes.len() - from,
{
    if from < 0 || from >= bytes.len() || bytes[from] != 0 {
        from
    } else {
        after_zeros(bytes, from + 1)
    }
}

/// Where the arguments begin in a process argument block: behind the count, the program's path and
/// the zero bytes that follow it.
pub open spec fn arguments_start(bytes: Seq<u8>) -> int {
    match text::position_from(bytes, 0u8, 4) {
        Some(end) => after_zeros(bytes, end),
        None => bytes.len() as int,
    }
}

/// Up to `count` arguments from `from` on, each closed by a zero byte. Empty ones are passed over;
/// an argument that nothing closes makes the block malformed.
pub open spec fn closed_arguments(bytes: Seq<u8>, from: int, count: int) -> Option<Seq<Seq<u8>>>
    decreases bytes.len() - from,
{
    if from < 0 || from >= bytes.len() || count <= 0 {
        Some(seq![])
    } else {
        match text::position_from(bytes, 0u8, from) {
            Some(end) => {
                proof {
                    text::lemma_position_from(bytes, 0u8, from);
                }
                if end > from {
                    match closed_arguments(bytes, end + 1, count - 1) {
                        Some(rest) => Some(seq![bytes.subrange(from, end)] + rest),
                        None => None,
                    }
                } else {
                    closed_arguments(bytes, end + 1, count)
                }
            },
            None => None,
        }
    }
}

/// The arguments in a process argument block that announces `count` of them: all of them, or none.
pub open spec fn block_arguments(bytes: Seq<u8>, count: int) -> Option<Seq<Seq<u8>>> {
    match closed_arguments(bytes, arguments_start(bytes), count) {
        Some(args) => if args.len() == count {
            Some(args)
        } else {
            None
        },
        None => None,
    }
}

/// The arguments in a process argument block, which opens with their number.
pub open spec fn procargs(bytes: Seq<u8>) -> Option<Seq<Seq<u8>>> {
    if bytes.len() < 4 || native_i32(bytes.take(4)) <= 0 {
        None
    } else {
        block_arguments(bytes, native_i32(bytes.take(4)))
    }
}

/// The arguments of a parsed block.
pub open spec fn parsed_arguments(args: Option<Vec<Vec<u8>>>) -> Option<Seq<Seq<u8>>> {
    match args {
        Some(args) => Some(text::rows(args@)),
        None => None,
    }
}

/// Reads `count` arguments out of a process argument block.
pub fn read_block_arguments(bytes: &[u8], count: i32) -> (args: Option<Vec<Vec<u8>>>)
    requires
        bytes@.len() >= 4,
        count > 0,
    ensures
        parsed_arguments(args) == block_arguments(bytes@, count as int),
{
    proof {
        text::lemma_position_from(bytes@, 0u8, 4);
    }
    let mut at: usize = match text::position_of_byte(bytes, 0, 4) {
        Some(end) => end,
        None => bytes.len(),
    };
    while at < bytes.len() && bytes[at] == 0
        invariant
            at <= bytes@.len(),
            arguments_start(bytes@) == after_zeros(bytes@, at as int),
        decreases bytes.len() - at,
    {
        at += 1;
    }
    let mut args: Vec<Vec<u8>> = Vec::new();
    let mut left: i32 = count;
    let ghost start = at as int;
    while at < bytes.len() && left > 0
        invariant
            at <= bytes@.len(),
            0 <= left <= count,
            args@.len() == count - left,
            start == arguments_start(bytes@),
            closed_arguments(bytes@, start, count as int) == match closed_arguments(
                bytes@,
                at as int,
                left as int,
            ) {
                Some(rest) => Some(text::rows(args@) + rest),
                None => None,
            },
        decreases bytes.len() - at,
    {
        let ghost before = text::rows(args@);
        proof {
            text::lemma_position_from(bytes@, 0u8, at as int);
        }
        match text::position_of_byte(bytes, 0, at) {
            Some(end) => {
                if end > at {
                    let arg = slice_to_vec(slice_subrange(bytes, at, end));
                    args.push(arg);
                    left -= 1;
                    proof {
                        assert(text::rows(args@) =~= before.push(arg@));
                        if let Some(rest) = closed_arguments(bytes@, end + 1, left as int) {
                            assert(before.push(arg@) + rest =~= before + (seq![arg@] + rest));
                        }
                    }
                }
                at = end + 1;
            },
            None => return None,
        }
    }
    assert(text::rows(args@) + seq![] =~= text::rows(args@));
    if left == 0 {
        Some(args)
    } else {
        None
    }
}

/// The arguments in the block that macOS keeps of a process.
pub fn parse_macos_procargs(bytes: &[u8]) -> (args: Option<Vec<Vec<u8>>>)
    ensures
        parsed_arguments(args) == procargs(bytes@),
{
    if bytes.len() < 4 {
        return None;
    }
    let head: [u8; 4] = [bytes[0], bytes[1], bytes[2], bytes[3]];
    assert(head@ =~= bytes@.take(4));
    let count = i32_from_native(head);
    if count <= 0 {
        return None;
    }
    read_block_arguments(bytes, count)
}

/// What the outcome of reading a process's arguments shows of it.
pub open spec fn state_of_block(result: Result<Vec<Vec<u8>>, ReadFailure>) -> CommandStateView {
    match result {
        Ok(args) => arguments_state(decoded_texts(text::rows(args@))),
        Err(failure) => if failure.no_such_process {
            CommandStateView::Dead
        } else {
            CommandStateView::Unknown
        },
    }
}

/// What the outcome of reading a macOS process's arguments says. Only the system's word that there
/// is no such process shows that it is gone.
pub fn macos_procargs_state_from_result(result: Result<Vec<Vec<u8>>, ReadFailure>) -> (state:
    ProcessCommandState)
    ensures
        state@ == state_of_block(result),
{
    match result {
        Ok(args) => {
            let mut list: Vec<&[u8]> = Vec::new();
            let mut i: usize = 0;
            while i < args.len()
                invariant
                    i <= args@.len(),
                    list@.len() == i,
                    forall|j: int| 0 <= j < i ==> #[trigger] list@[j]@ == args@[j]@,
                decreases args.len() - i,
            {
                list.push(args[i].as_slice());
                i += 1;
            }
            assert(slices(list@) =~= text::rows(args@));
            let decoded = decode_all(list.as_slice());
            state_of_arguments(&decoded)
        },
        Err(failure) => if failure.no_such_process {
            ProcessCommandState::Dead
        } else {
            ProcessCommandState::Unknown
        },
    }
}

/// The bytes of a command line file: each argument, closed by a zero byte.
pub open spec fn nul_closed(args: Seq<Seq<u8>>) -> Seq<u8>
    decreases args.len(),
{
    if args.len() == 0 {
        seq![]
    } else {
        args[0].push(0u8) + nul_closed(args.drop_first())
    }
}

/// Arguments that a file of zero-closed ones can hold: none is empty or holds a zero byte.
pub open spec fn can_be_closed(args: Seq<Seq<u8>>) -> bool {
    forall|i: int| 0 <= i < args.len() ==> (#[trigger] args[i]).len() > 0 && !args[i].contains(0u8)
}

/// A zero byte behind a run without one is found at the end of the run.
proof fn lemma_run_ends(before: Seq<u8>, run: Seq<u8>, rest: Seq<u8>)
    requires
        !run.contains(0u8),
    ensures
        text::position_from(before + (run.push(0u8) + rest), 0u8, before.len() as int) == Some(
            before.len() + run.len() as int,
        ),
{
    let whole = before + (run.push(0u8) + rest);
    let end = before.len() + run.len() as int;
    text::lemma_position_from(whole, 0u8, before.len() as int);
    assert(whole[end] == 0u8);
    match text::position_from(whole, 0u8, before.len() as int) {
        Some(at) => {
            if at < end {
                assert(whole[at] == run[at - before.len()]);
                assert(run.contains(whole[at]));
            }
        },
        None => {},
    }
}

/// Reading a command line file gives back the arguments that were written to it.
pub proof fn law_closed_arguments_are_parted_again(args: Seq<Seq<u8>>)
    requires
        can_be_closed(args),
    ensures
        nul_parts(nul_closed(args)) == args,
    decreases args.len(),
{
    if args.len() > 0 {
        let first = args[0];
        let others = args.drop_first();
        let rest = nul_closed(others);
        let whole = nul_closed(args);
        assert(can_be_closed(others)) by {
            assert forall|i: int| 0 <= i < others.len() implies (#[trigger] others[i]).len() > 0
                && !others[i].contains(0u8) by {
                assert(others[i] == args[i + 1]);
            }
        }
        lemma_run_ends(seq![], first, rest);
        assert(seq![] + (first.push(0u8) + rest) =~= whole);
        assert(whole.take(first.len() as int) =~= first);
        assert(whole.skip(first.len() as int + 1) =~= rest);
        law_closed_arguments_are_parted_again(others);
        assert(seq![first] + others =~= args);
    } else {
        assert(args =~= seq![]);
    }
}

/// Arguments that stand zero-closed behind `before` are read from there, whatever follows them.
proof fn lemma_closed_arguments_are_read(before: Seq<u8>, args: Seq<Seq<u8>>, rest: Seq<u8>)
    requires
        can_be_closed(args),
    ensures
        closed_arguments(
            before + (nul_closed(args) + rest),
            before.len() as int,
            args.len() as int,
        ) == Some(args),
    decreases args.len(),
{
    let whole = before + (nul_closed(args) + rest);
    if args.len() == 0 {
        assert(args =~= seq![]);
    } else {
        let first = args[0];
        let others = args.drop_first();
        assert(can_be_closed(others)) by {
            assert forall|i: int| 0 <= i < others.len() implies (#[trigger] others[i]).len() > 0
                && !others[i].contains(0u8) by {
                assert(others[i] == args[i + 1]);
            }
        }
        let behind = nul_closed(others) + rest;
        assert(whole =~= before + (first.push(0u8) + behind));
        lemma_run_ends(before, first, behind);
        let end = before.len() + first.len() as int;
        assert(whole.subrange(before.len() as int, end) =~= first);
        let next = before + first.push(0u8);
        assert(whole =~= next + behind);
        lemma_closed_arguments_are_read(next, others, rest);
        assert(seq![first] + others =~= args);
    }
}

/// Zero bytes end where another byte stands.
proof fn lemma_zeros_end(bytes: Seq<u8>, from: int, to: int)
    requires
        0 <= from <= to < bytes.len(),
        forall|i: int| from <= i < to ==> bytes[i] == 0,
        bytes[to] != 0,
    ensures
        after_zeros(bytes, from) == to,
    decreases to - from,
{
    if from < to {
        lemma_zeros_end(bytes, from + 1, to);
    }
}

/// Reading a process argument block gives back the arguments that it holds, whatever follows them:
/// behind four bytes for their number, the program's path and at least one zero byte.
pub proof fn law_block_arguments_are_read(
    head: Seq<u8>,
    path: Seq<u8>,
    zeros: Seq<u8>,
    args: Seq<Seq<u8>>,
    rest: Seq<u8>,
)
    requires
        head.len() == 4,
        !path.contains(0u8),
        zeros.len() > 0,
        forall|i: int| 0 <= i < zeros.len() ==> zeros[i] == 0,
        args.len() > 0,
        can_be_closed(args),
        native_i32(head) == args.len(),
    ensures
        procargs(head + path + zeros + nul_closed(args) + rest) == Some(args),
{
    let before = head + path + zeros;
    let whole = before + nul_closed(args) + rest;
    assert(whole.take(4) =~= head);
    let tail = zeros.drop_first() + nul_closed(args) + rest;
    assert(zeros[0] == 0);
    assert(head + (path.push(0u8) + tail) =~= whole);
    lemma_run_ends(head, path, tail);
    let first = args[0];
    assert(first.len() > 0 && !first.contains(0u8));
    assert(first[0] != 0) by {
        assert(first.contains(first[0]));
    }
    assert(nul_closed(args)[0] == first[0]);
    assert(whole[before.len() as int] == first[0]);
    assert forall|i: int| 4 + path.len() <= i < before.len() implies whole[i] == 0 by {
        assert(whole[i] == zeros[i - 4 - path.len()]);
    }
    lemma_zeros_end(whole, 4 + path.len() as int, before.len() as int);
    assert(whole =~= before + (nul_closed(args) + rest));
    lemma_closed_arguments_are_read(before, args, rest);
}

/// A list of texts, each encoded as UTF-8.
pub open spec fn encoded(args: Seq<Seq<char>>) -> Seq<Seq<u8>> {
    args.map_values(|arg: Seq<char>| vstd::utf8::encode_utf8(arg))
}

/// Arguments that a process can be started with: none is empty or holds a zero character.
pub open spec fn can_be_passed(args: Seq<Seq<char>>) -> bool {
    forall|i: int|
        0 <= i < args.len() ==> (#[trigger] args[i]).len() > 0 && !args[i].contains('\0')
}

/// Only the zero character is encoded with a zero byte.
proof fn lemma_scalar_bytes(scalar: u32)
    by (bit_vector)
    requires
        scalar != 0,
    ensures
        scalar <= 0x7F ==> vstd::utf8::leading_byte_width_1(scalar) != 0,
        vstd::utf8::leading_byte_width_2(scalar) != 0,
        vstd::utf8::leading_byte_width_3(scalar) != 0,
        vstd::utf8::leading_byte_width_4(scalar) != 0,
        vstd::utf8::last_continuation_byte(scalar) != 0,
        vstd::utf8::second_last_continuation_byte(scalar) != 0,
        vstd::utf8::third_last_continuation_byte(scalar) != 0,
{
}

/// A text without the zero character is encoded without a zero byte, and in as many bytes as it has
/// characters at the least.
proof fn lemma_encoding_has_no_zero(chars: Seq<char>)
    requires
        !chars.contains('\0'),
    ensures
        vstd::utf8::encode_utf8(chars).len() >= chars.len(),
        !vstd::utf8::encode_utf8(chars).contains(0u8),
    decreases chars.len(),
{
    if chars.len() > 0 {
        let rest = chars.drop_first();
        assert(chars.contains(chars[0]));
        assert(!rest.contains('\0')) by {
            if rest.contains('\0') {
                let i = choose|i: int| 0 <= i < rest.len() && rest[i] == '\0';
                assert(chars[i + 1] == '\0');
            }
        }
        lemma_encoding_has_no_zero(rest);
        let scalar = chars[0] as u32;
        assert(chars[0] != '\0');
        vstd::utf8::char_u32_cast(chars[0], scalar);
        vstd::utf8::char_is_scalar(chars[0]);
        assert('\0' as u32 == 0);
        lemma_scalar_bytes(scalar);
        let first = vstd::utf8::encode_scalar(scalar);
        let behind = vstd::utf8::encode_utf8(rest);
        assert forall|i: int| 0 <= i < first.len() + behind.len() implies (first + behind)[i] != 0 by {
            if i >= first.len() {
                assert(behind.contains(behind[i - first.len()]));
            }
        }
    }
}

/// Arguments that are encoded as UTF-8 are decoded to what they were.
pub proof fn law_encoded_arguments_are_decoded(args: Seq<Seq<char>>)
    ensures
        decoded_texts(encoded(args)) == args,
{
    assert forall|i: int| 0 <= i < args.len() implies decoded_texts(encoded(args))[i] == args[i] by {
        vstd::utf8::encode_utf8_valid_utf8(args[i]);
        vstd::utf8::encode_utf8_decode_utf8(args[i]);
    }
    assert(decoded_texts(encoded(args)) =~= args);
}

/// Arguments that a process can be started with can be closed by zero bytes.
proof fn lemma_encoded_can_be_closed(args: Seq<Seq<char>>)
    requires
        can_be_passed(args),
    ensures
        can_be_closed(encoded(args)),
{
    assert forall|i: int| 0 <= i < args.len() implies (#[trigger] encoded(args)[i]).len() > 0
        && !encoded(args)[i].contains(0u8) by {
        assert(args[i].len() > 0 && !args[i].contains('\0'));
        lemma_encoding_has_no_zero(args[i]);
    }
}

/// The command line file of a Linux process tells of the arguments that the process was started
/// with, blanks and all.
pub proof fn law_command_line_file_shows_the_arguments(args: Seq<Seq<char>>)
    requires
        can_be_passed(args),
    ensures
        cmdline_state(Some(nul_closed(encoded(args)))) == arguments_state(args),
{
    lemma_encoded_can_be_closed(args);
    law_closed_arguments_are_parted_again(encoded(args));
    law_encoded_arguments_are_decoded(args);
}

/// The argument block of a macOS process tells of the arguments that the process was started with,
/// blanks and all.
pub proof fn law_argument_block_shows_the_arguments(
    head: Seq<u8>,
    path: Seq<u8>,
    zeros: Seq<u8>,
    args: Seq<Seq<char>>,
    rest: Seq<u8>,
)
    requires
        head.len() == 4,
        !path.contains(0u8),
        zeros.len() > 0,
        forall|i: int| 0 <= i < zeros.len() ==> zeros[i] == 0,
        args.len() > 0,
        can_be_passed(args),
        native_i32(head) == args.len(),
    ensures
        procargs(head + path + zeros + nul_closed(encoded(args)) + rest) matches Some(found)
            && decoded_texts(found) == args,
{
    lemma_encoded_can_be_closed(args);
    law_block_arguments_are_read(head, path, zeros, encoded(args), rest);
    law_encoded_arguments_are_decoded(args);
}

/// The option's name holds fifteen characters, and moved along itself it never fits: neither its
/// first nor its last character would stand on an equal one.
proof fn lemma_option_has_no_overlap()
    ensures
        "--user-data-dir"@.len() == 15,
        forall|shift: int|
            0 < shift < 15 ==> "--user-data-dir"@[14 - shift] != "--user-data-dir"@[14]
                || "--user-data-dir"@[0] != #[trigger] "--user-data-dir"@[shift],
{
    reveal_strlit("--user-data-dir");
}

/// Behind a text that does not hold the option's name, the name is found where it stands: it does
/// not overlap itself.
proof fn lemma_option_is_found(before: Seq<char>, rest: Seq<char>)
    requires
        !text::contains_text(before, "--user-data-dir"@),
    ensures
        text::find_in(before + "--user-data-dir"@ + rest, "--user-data-dir"@) == Some(
            before.len() as int,
        ),
{
    lemma_option_has_no_overlap();
    let marker = "--user-data-dir"@;
    let whole = before + marker + rest;
    let place = before.len() as int;
    text::lemma_find_from(whole, marker, 0);
    assert(whole.subrange(place, place + marker.len()) =~= marker);
    assert(text::occurs_at(whole, marker, place));
    assert forall|j: int| 0 <= j < place implies !text::occurs_at(whole, marker, j) by {
        if text::occurs_at(whole, marker, j) {
            assert forall|i: int| 0 <= i < marker.len() implies whole[j + i] == #[trigger] marker[i]
                by {
                assert(whole.subrange(j, j + marker.len())[i] == marker[i]);
            }
            if j + marker.len() <= place {
                assert(before.subrange(j, j + marker.len()) =~= marker);
                assert(text::occurs_at(before, marker, j));
            } else {
                let shift = place - j;
                assert(0 < shift < marker.len());
                assert(whole[place + (14 - shift)] == marker[14 - shift]);
                assert(whole[j + 14] == marker[14]);
                assert(whole[place] == marker[0]);
                assert(whole[j + shift] == marker[shift]);
            }
        }
    }
}

/// A quoted value is read whole, blanks included.
pub proof fn law_quoted_profile_is_read(
    before: Seq<char>,
    quote: char,
    value: Seq<char>,
    after: Seq<char>,
)
    requires
        !text::contains_text(before, "--user-data-dir"@),
        before.len() > 0 ==> before.last() != '"',
        quote == '"' || quote == '\'',
        value.len() > 0,
        !value.contains(quote),
    ensures
        dir_in_command(
            before + "--user-data-dir"@ + (seq!['=', quote] + value.push(quote) + after),
        ) == Some(value),
{
    let marker = "--user-data-dir"@;
    let rest = seq!['=', quote] + value.push(quote) + after;
    let whole = before + marker + rest;
    lemma_option_is_found(before, rest);
    let sign = before.len() + marker.len() as int;
    assert(whole[sign] == '=');
    assert(whole[sign + 1] == quote);
    assert(before.len() > 0 ==> whole[before.len() - 1] == before.last());
    assert(value_start(whole, sign) == sign + 1);
    let start = sign + 2;
    let end = start + value.len() as int;
    text::lemma_position_from(whole, quote, start);
    assert(whole[end] == quote);
    assert forall|j: int| start <= j < end implies whole[j] != quote by {
        assert(whole[j] == value[j - start]);
        assert(value.contains(value[j - start]));
    }
    assert(whole.subrange(start, end) =~= value);
}

/// The value of an argument that is quoted as a whole is read up to the closing quote.
pub proof fn law_quoted_argument_is_read(before: Seq<char>, value: Seq<char>, after: Seq<char>)
    requires
        !text::contains_text(before.push('"'), "--user-data-dir"@),
        value.len() > 0,
        !text::white_space(value[0]),
        !value.contains('"'),
    ensures
        dir_in_command(
            before.push('"') + "--user-data-dir"@ + (seq!['='] + value.push('"') + after),
        ) == Some(value),
{
    let marker = "--user-data-dir"@;
    let opened = before.push('"');
    let rest = seq!['='] + value.push('"') + after;
    let whole = opened + marker + rest;
    lemma_option_is_found(opened, rest);
    let sign = opened.len() + marker.len() as int;
    assert(whole[sign] == '=');
    assert(whole[sign + 1] == value[0]);
    assert(whole[opened.len() - 1] == '"');
    assert(value_start(whole, sign) == sign + 1);
    let start = sign + 1;
    let end = start + value.len() as int;
    text::lemma_position_from(whole, '"', start);
    assert(whole[end] == '"');
    assert forall|j: int| start <= j < end implies whole[j] != '"' by {
        assert(whole[j] == value[j - start]);
        assert(value.contains(value[j - start]));
    }
    assert(whole.subrange(start, end) =~= value);
}

/// A command line that was put together with blanks names a profile only where a plain reading
/// names the same one.
pub proof fn law_joined_reading_is_cautious(command: Seq<char>)
    ensures
        dir_in_joined_command(command) is Some ==> dir_in_joined_command(command)
            == dir_in_command(command),
{
}

/// A state is looked at as it is.
pub proof fn law_states_are_looked_at_as_they_are(browser_process: bool, dir: String)
    ensures
        (ProcessCommandState::Alive { browser_process, user_data_dir: Some(dir) })@ == (
        CommandStateView::Alive { browser_process, user_data_dir: Some(dir@) }),
        (ProcessCommandState::Alive { browser_process, user_data_dir: None })@ == (
        CommandStateView::Alive { browser_process, user_data_dir: None }),
        ProcessCommandState::Dead@ is Dead,
        ProcessCommandState::Unknown@ is Unknown,
{
}

/// One of the names by which browsers are known.
pub open spec fn is_browser_name(name: Seq<char>) -> bool {
    ||| name == "google chrome"@
    ||| name == "chrome.exe"@
    ||| name == "chromium"@
    ||| name == "microsoft edge"@
    ||| name == "msedge.exe"@
}

/// A command line names a browser exactly where one of the five names stands in it, in whatever
/// case and whatever stands around it.
pub proof fn law_a_browser_is_named_anywhere_in_any_case(
    before: Seq<char>,
    name: Seq<char>,
    after: Seq<char>,
    command: Seq<char>,
)
    ensures
        text::ascii_lower(name) == "google chrome"@ || text::ascii_lower(name) == "chrome.exe"@
            || text::ascii_lower(name) == "chromium"@ || text::ascii_lower(name)
            == "microsoft edge"@ || text::ascii_lower(name) == "msedge.exe"@ ==> names_browser(
            before + name + after,
        ),
        names_browser(command) ==> exists|from: int, to: int|
            0 <= from <= to <= command.len() && is_browser_name(
                text::ascii_lower(#[trigger] command.subrange(from, to)),
            ),
{
    let lower = text::ascii_lower(before + name + after);
    let low = text::ascii_lower(name);
    assert(lower =~= text::ascii_lower(before) + low + text::ascii_lower(after));
    text::law_occurrence_is_between_two_texts(
        text::ascii_lower(before),
        low,
        text::ascii_lower(after),
        lower,
        0,
    );
    if names_browser(command) {
        let folded = text::ascii_lower(command);
        let found = if text::contains_text(folded, "google chrome"@) {
            "google chrome"@
        } else if text::contains_text(folded, "chrome.exe"@) {
            "chrome.exe"@
        } else if text::contains_text(folded, "chromium"@) {
            "chromium"@
        } else if text::contains_text(folded, "microsoft edge"@) {
            "microsoft edge"@
        } else {
            "msedge.exe"@
        };
        assert(text::contains_text(folded, found));
        let at = choose|at: int| text::occurs_at(folded, found, at);
        let part = command.subrange(at, at + found.len());
        assert(text::ascii_lower(part) =~= folded.subrange(at, at + found.len()));
        assert(is_browser_name(text::ascii_lower(part)));
    }
}

/// The value of the option, behind its name, white space, at most one equals sign and white space
/// again: where it begins.
proof fn lemma_value_start(
    before: Seq<char>,
    first: Seq<char>,
    sign: bool,
    second: Seq<char>,
    tail: Seq<char>,
)
    requires
        text::is_blank(first),
        text::is_blank(second),
        tail.len() > 0 ==> !text::white_space(tail[0]),
        !sign ==> second.len() == 0 && (tail.len() > 0 ==> tail[0] != '='),
    ensures
        ({
            let equals: Seq<char> = if sign {
                seq!['=']
            } else {
                seq![]
            };
            let whole = before + (first + equals + second + tail);
            value_start(whole, before.len() as int) == before.len() + first.len() + equals.len()
                + second.len()
        }),
{
    let equals: Seq<char> = if sign {
        seq!['=']
    } else {
        seq![]
    };
    let whole = before + (first + equals + second + tail);
    let start = before.len() + first.len() as int;
    if sign {
        let behind = equals + second + tail;
        assert(behind[0] == '=');
        text::lemma_blank_ends(before, first, behind);
        assert(before + first + behind =~= whole);
        assert(whole[start] == '=');
        text::lemma_blank_ends(before + first + equals, second, tail);
        assert(before + first + equals + second + tail =~= whole);
    } else {
        text::lemma_blank_ends(before, first, tail);
        assert(before + first + tail =~= whole);
        if tail.len() > 0 {
            assert(whole[start] == tail[0]);
        }
        text::lemma_blank_ends(before + first, second, tail);
        assert(before + first + second + tail =~= whole);
    }
}

/// What stands up to a mark.
proof fn lemma_until(before: Seq<char>, value: Seq<char>, mark: char, rest: Seq<char>)
    requires
        !value.contains(mark),
    ensures
        until(before + (value.push(mark) + rest), before.len() as int, mark) == Some(value),
        until(before + value, before.len() as int, mark) is None,
{
    let whole = before + (value.push(mark) + rest);
    let from = before.len() as int;
    let end = from + value.len();
    text::lemma_position_from(whole, mark, from);
    assert(whole[end] == mark);
    let at = text::position_from(whole, mark, from);
    assert(at is Some && at->0 == end) by {
        if at->0 < end {
            assert(whole[at->0] == value[at->0 - from]);
            assert(value.contains(whole[at->0]));
        }
    }
    assert(whole.subrange(from, end) =~= value);
    text::lemma_position_from(before + value, mark, from);
    if let Some(k) = text::position_from(before + value, mark, from) {
        assert((before + value)[k] == value[k - from]);
        assert(value.contains(value[k - from]));
    }
}

/// A command line without the option names no profile.
pub proof fn law_no_option_no_profile(command: Seq<char>)
    requires
        !text::contains_text(command, "--user-data-dir"@),
    ensures
        dir_in_command(command) is None,
        dir_in_joined_command(command) is None,
{
    text::lemma_find_from(command, "--user-data-dir"@, 0);
    if let Some(at) = text::find_in(command, "--user-data-dir"@) {
        assert(text::occurs_at(command, "--user-data-dir"@, at));
    }
}

/// A command line up to where the value of the option begins: white space, at most one equals sign
/// and white space follow the option's name.
pub open spec fn with_option(
    before: Seq<char>,
    first: Seq<char>,
    sign: bool,
    second: Seq<char>,
) -> Seq<char> {
    let equals: Seq<char> = if sign {
        seq!['=']
    } else {
        seq![]
    };
    before + "--user-data-dir"@ + (first + equals + second)
}

/// A command line with the option is read from where the option's value begins.
proof fn lemma_command_value(
    before: Seq<char>,
    first: Seq<char>,
    sign: bool,
    second: Seq<char>,
    tail: Seq<char>,
)
    requires
        !text::contains_text(before, "--user-data-dir"@),
        text::is_blank(first),
        text::is_blank(second),
        tail.len() > 0 ==> !text::white_space(tail[0]),
        !sign ==> second.len() == 0 && (tail.len() > 0 ==> tail[0] != '='),
    ensures
        ({
            let front = with_option(before, first, sign, second);
            dir_in_command(front + tail) == match value_at(
                front + tail,
                front.len() as int,
                before.len() > 0 && before.last() == '"',
            ) {
                Some(value) => nonempty(value),
                None => None,
            }
        }),
{
    let marker = "--user-data-dir"@;
    let equals: Seq<char> = if sign {
        seq!['=']
    } else {
        seq![]
    };
    let gap = first + equals + second;
    let front = before + marker + gap;
    let whole = front + tail;
    lemma_option_is_found(before, gap + tail);
    assert(before + marker + (gap + tail) =~= whole);
    lemma_value_start(before + marker, first, sign, second, tail);
    assert((before + marker) + (first + equals + second + tail) =~= whole);
    assert(before.len() > 0 ==> whole[before.len() - 1] == before.last());
}

/// An option without a value names no profile.
pub proof fn law_no_value_no_profile(
    before: Seq<char>,
    first: Seq<char>,
    sign: bool,
    second: Seq<char>,
)
    requires
        !text::contains_text(before, "--user-data-dir"@),
        text::is_blank(first),
        text::is_blank(second),
        !sign ==> second.len() == 0,
    ensures
        dir_in_command(with_option(before, first, sign, second)) is None,
{
    let none: Seq<char> = seq![];
    let front = with_option(before, first, sign, second);
    lemma_command_value(before, first, sign, second, none);
    assert(front + none =~= front);
    lemma_until(front, none, '"', none);
}

/// A value in quotes of either kind runs up to the next such quote, blanks and all. An empty one is
/// none, and so is one that nothing closes.
pub proof fn law_a_quoted_value_runs_to_its_quote(
    before: Seq<char>,
    first: Seq<char>,
    sign: bool,
    second: Seq<char>,
    quote: char,
    value: Seq<char>,
    rest: Seq<char>,
)
    requires
        !text::contains_text(before, "--user-data-dir"@),
        text::is_blank(first),
        text::is_blank(second),
        !sign ==> second.len() == 0,
        before.len() > 0 ==> before.last() != '"',
        quote == '"' || quote == '\'',
        !value.contains(quote),
    ensures
        dir_in_command(
            with_option(before, first, sign, second) + (seq![quote] + (value.push(quote) + rest)),
        ) == if value.len() > 0 {
            Some(value)
        } else {
            None
        },
        dir_in_command(with_option(before, first, sign, second) + (seq![quote] + value)) is None,
{
    let front = with_option(before, first, sign, second);
    let closed = seq![quote] + (value.push(quote) + rest);
    let unclosed = seq![quote] + value;
    assert(closed[0] == quote && unclosed[0] == quote);
    assert(!text::white_space(quote) && quote != '=');
    lemma_command_value(before, first, sign, second, closed);
    lemma_command_value(before, first, sign, second, unclosed);
    assert((front + closed)[front.len() as int] == quote);
    assert((front + unclosed)[front.len() as int] == quote);
    lemma_until(front.push(quote), value, quote, rest);
    assert(front.push(quote) + (value.push(quote) + rest) =~= front + closed);
    assert(front.push(quote) + value =~= front + unclosed);
}

/// A value without quotes runs up to white space or the end of the command line.
pub proof fn law_a_plain_value_runs_to_white_space(
    before: Seq<char>,
    first: Seq<char>,
    sign: bool,
    second: Seq<char>,
    value: Seq<char>,
    rest: Seq<char>,
)
    requires
        !text::contains_text(before, "--user-data-dir"@),
        text::is_blank(first),
        text::is_blank(second),
        !sign ==> second.len() == 0,
        before.len() > 0 ==> before.last() != '"',
        value.len() > 0,
        text::is_solid(value),
        value[0] != '"' && value[0] != '\'',
        !sign ==> value[0] != '=',
        rest.len() > 0 ==> text::white_space(rest[0]),
    ensures
        dir_in_command(with_option(before, first, sign, second) + (value + rest)) == Some(value),
{
    let front = with_option(before, first, sign, second);
    let tail = value + rest;
    assert(tail[0] == value[0]);
    assert(!text::white_space(value[0]));
    lemma_command_value(before, first, sign, second, tail);
    assert((front + tail)[front.len() as int] == value[0]);
    text::lemma_word_ends(front, value, rest);
    assert(front + value + rest =~= front + tail);
    assert((front + tail).subrange(front.len() as int, (front.len() + value.len()) as int)
        =~= value);
}

/// The value of an argument that opens with a quote runs up to the next one, blanks and all. An
/// empty one is none, and so is one that nothing closes.
pub proof fn law_a_quoted_argument_runs_to_its_quote(
    before: Seq<char>,
    first: Seq<char>,
    sign: bool,
    second: Seq<char>,
    value: Seq<char>,
    rest: Seq<char>,
)
    requires
        !text::contains_text(before, "--user-data-dir"@),
        text::is_blank(first),
        text::is_blank(second),
        !sign ==> second.len() == 0,
        before.len() > 0 && before.last() == '"',
        !value.contains('"'),
        value.len() > 0 ==> !text::white_space(value[0]),
        value.len() > 0 && !sign ==> value[0] != '=',
    ensures
        dir_in_command(with_option(before, first, sign, second) + (value.push('"') + rest))
            == if value.len() > 0 {
            Some(value)
        } else {
            None
        },
        dir_in_command(with_option(before, first, sign, second) + value) is None,
{
    let front = with_option(before, first, sign, second);
    let tail = value.push('"') + rest;
    assert(tail[0] == if value.len() > 0 {
        value[0]
    } else {
        '"'
    });
    lemma_command_value(before, first, sign, second, tail);
    lemma_until(front, value, '"', rest);
    lemma_command_value(before, first, sign, second, value);
}

/// Two characters stand at a place.
proof fn lemma_two_characters(command: Seq<char>, at: int)
    requires
        0 <= at,
    ensures
        text::occurs_at(command, "=\""@, at) <==> at + 1 < command.len() && command[at] == '='
            && command[at + 1] == '"',
        text::occurs_at(command, "='"@, at) <==> at + 1 < command.len() && command[at] == '='
            && command[at + 1] == '\'',
{
    reveal_strlit("=\"");
    reveal_strlit("='");
    if at + 1 < command.len() {
        let two = command.subrange(at, at + 2);
        assert(two[0] == command[at] && two[1] == command[at + 1]);
        if command[at] == '=' && command[at + 1] == '"' {
            assert(two =~= "=\""@);
        }
        if command[at] == '=' && command[at + 1] == '\'' {
            assert(two =~= "='"@);
        }
    }
}

/// A command line whose arguments were joined with blanks names the profile that a plain reading
/// finds, with these exceptions: none, where neither an equals sign nor white space follows the
/// option's name; and none, where the value opens without a quote, a blank stands anywhere behind
/// the name, and the value followed by a blank stands in the command line.
pub proof fn law_a_joined_command_line_is_read_with_caution(
    before: Seq<char>,
    blank: Seq<char>,
    tail: Seq<char>,
)
    requires
        !text::contains_text(before, "--user-data-dir"@),
        text::is_blank(blank),
        tail.len() > 0 ==> !text::white_space(tail[0]),
    ensures
        ({
            let command = before + "--user-data-dir"@ + (blank + tail);
            let quoted = tail.len() > 0 && (tail[0] == '"' || tail[0] == '\'' || (tail[0] == '='
                && tail.len() > 1 && (tail[1] == '"' || tail[1] == '\'')));
            dir_in_joined_command(command) == if blank.len() == 0 && (tail.len() == 0 || tail[0]
                != '=') {
                None
            } else {
                match dir_in_command(command) {
                    Some(value) => if !quoted && (blank + tail).contains(' ')
                        && text::contains_text(command, value.push(' ')) {
                        None
                    } else {
                        Some(value)
                    },
                    None => None,
                }
            }
        }),
{
    let marker = "--user-data-dir"@;
    let behind = blank + tail;
    let command = before + marker + behind;
    let end = before.len() + marker.len() as int;
    lemma_option_is_found(before, behind);
    text::lemma_blank_ends(before + marker, blank, tail);
    assert(before + marker + blank + tail =~= command);
    let start = end + blank.len();
    lemma_two_characters(command, start);
    assert(tail.len() > 0 ==> command[start] == tail[0]);
    assert(tail.len() > 1 ==> command[start + 1] == tail[1]);
    if blank.len() > 0 {
        assert(command[end] == blank[0]);
    } else if tail.len() > 0 {
        assert(command[end] == tail[0]);
    }
    text::lemma_position_from(command, ' ', end);
    if behind.contains(' ') {
        let i = choose|i: int| 0 <= i < behind.len() && behind[i] == ' ';
        assert(command[end + i] == ' ');
    }
    if let Some(at) = text::position_from(command, ' ', end) {
        assert(behind[at - end] == command[at]);
        assert(behind.contains(behind[at - end]));
    }
}

/// Arguments of which none is the option, alone or with its value.
pub open spec fn without_option(args: Seq<Seq<char>>) -> bool {
    forall|i: int|
        0 <= i < args.len() ==> !text::begins_with(#[trigger] args[i], "--user-data-dir="@)
            && args[i] != "--user-data-dir"@
}

/// Arguments that are not the option are passed over.
proof fn lemma_arguments_are_passed_over(args: Seq<Seq<char>>, from: int, to: int)
    requires
        0 <= from <= to <= args.len(),
        without_option(args.take(to)),
    ensures
        dir_in_arguments_from(args, from) == dir_in_arguments_from(args, to),
    decreases to - from,
{
    if from < to {
        assert(args.take(to)[from] == args[from]);
        lemma_arguments_are_passed_over(args, from + 1, to);
    }
}

/// The option in a list of arguments: its value stands behind an equals sign in the same argument,
/// or is the next argument, whole and whatever it holds. An empty value is none, the first option
/// counts, and without the option there is no profile.
pub proof fn law_the_first_option_names_the_profile(
    before: Seq<Seq<char>>,
    value: Seq<char>,
    after: Seq<Seq<char>>,
)
    requires
        without_option(before),
    ensures
        dir_in_arguments(before) is None,
        dir_in_arguments(before.push("--user-data-dir="@ + value) + after) == if value.len() > 0 {
            Some(value)
        } else {
            None
        },
        dir_in_arguments(before.push("--user-data-dir"@).push(value) + after) == if value.len()
            > 0 {
            Some(value)
        } else {
            None
        },
        dir_in_arguments(before.push("--user-data-dir"@)) is None,
{
    reveal_strlit("--user-data-dir=");
    reveal_strlit("--user-data-dir");
    let sign = "--user-data-dir="@;
    let name = "--user-data-dir"@;
    let at = before.len() as int;
    assert(before.take(at) =~= before);
    lemma_arguments_are_passed_over(before, 0, at);
    let one = before.push(sign + value) + after;
    assert(one.take(at) =~= before);
    lemma_arguments_are_passed_over(one, 0, at);
    assert(one[at] == sign + value);
    assert((sign + value).subrange(0, sign.len() as int) =~= sign);
    assert((sign + value).skip(sign.len() as int) =~= value);
    let two = before.push(name).push(value) + after;
    assert(two.take(at) =~= before);
    lemma_arguments_are_passed_over(two, 0, at);
    assert(two[at] == name && two[at + 1] == value);
    assert(!text::begins_with(name, sign));
    let cut = before.push(name);
    assert(cut.take(at) =~= before);
    lemma_arguments_are_passed_over(cut, 0, at);
}

/// A list of arguments tells by its first one whether the process is a browser and by the option on
/// which profile it runs; an empty list tells nothing.
pub proof fn law_the_first_argument_is_the_program(program: Seq<char>, args: Seq<Seq<char>>)
    ensures
        arguments_state(Seq::<Seq<char>>::empty()) is Unknown,
        arguments_state(seq![program] + args) == (CommandStateView::Alive {
            browser_process: names_browser(program),
            user_data_dir: dir_in_arguments(seq![program] + args),
        }),
{
    assert((seq![program] + args)[0] == program);
}

/// A command line file is parted at its zero bytes, and parts without a byte are left out.
pub proof fn law_a_file_is_parted_at_zero_bytes(run: Seq<u8>, rest: Seq<u8>)
    requires
        !run.contains(0u8),
    ensures
        nul_parts(Seq::<u8>::empty()) == Seq::<Seq<u8>>::empty(),
        run.len() > 0 ==> nul_parts(run) == seq![run],
        run.len() > 0 ==> nul_parts(run.push(0u8) + rest) == seq![run] + nul_parts(rest),
        nul_parts(seq![0u8] + rest) == nul_parts(rest),
{
    let none: Seq<u8> = seq![];
    text::lemma_position_from(run, 0u8, 0);
    if let Some(at) = text::position_from(run, 0u8, 0) {
        assert(run.contains(run[at]));
    }
    lemma_run_ends(none, run, rest);
    lemma_run_ends(none, none, rest);
    let whole = run.push(0u8) + rest;
    assert(none + whole =~= whole);
    assert(whole.take(run.len() as int) =~= run);
    assert(whole.skip(run.len() as int + 1) =~= rest);
    let bare = seq![0u8] + rest;
    assert(none + (none.push(0u8) + rest) =~= bare);
    assert(bare.skip(1) =~= rest);
}

/// Bytes are decoded as UTF-8 where they are valid, and each part of a list by itself.
pub proof fn law_valid_bytes_are_decoded(bytes: Seq<u8>, list: Seq<Seq<u8>>, i: int)
    ensures
        vstd::utf8::valid_utf8(bytes) ==> decoded_text(bytes) == vstd::utf8::decode_utf8(bytes),
        !vstd::utf8::valid_utf8(bytes) ==> decoded_text(bytes) == lossy_text(bytes),
        decoded_texts(list).len() == list.len(),
        0 <= i < list.len() ==> decoded_texts(list)[i] == decoded_text(list[i]),
        cmdline_state(Some(bytes)) == arguments_state(decoded_texts(nul_parts(bytes))),
        cmdline_state(None) is Unknown,
{
}

/// Only a file that does not exist shows that a Linux process is gone, and only the system's word
/// that a macOS one is; any other failure shows nothing.
pub proof fn law_only_certainty_shows_that_a_process_is_gone(
    failure: ReadFailure,
    bytes: Vec<u8>,
    args: Vec<Vec<u8>>,
)
    ensures
        state_of_file(Err(failure)) is Dead <==> failure.not_found,
        state_of_file(Err(failure)) is Unknown <==> !failure.not_found,
        state_of_file(Ok(bytes)) == cmdline_state(Some(bytes@)),
        state_of_block(Err(failure)) is Dead <==> failure.no_such_process,
        state_of_block(Err(failure)) is Unknown <==> !failure.no_such_process,
        state_of_block(Ok(args)) == arguments_state(decoded_texts(text::rows(args@))),
{
}

/// Arguments are read one by one: each ends at a zero byte, empty ones do not count, reading stops
/// with the number that is asked for or at the end of the block, and an argument that nothing closes
/// spoils the block.
pub proof fn law_block_arguments_are_read_one_by_one(
    before: Seq<u8>,
    run: Seq<u8>,
    rest: Seq<u8>,
    count: int,
)
    requires
        !run.contains(0u8),
        count > 0,
    ensures
        closed_arguments(before, before.len() as int, count) == Some(Seq::<Seq<u8>>::empty()),
        closed_arguments(before + rest, before.len() as int, 0) == Some(Seq::<Seq<u8>>::empty()),
        run.len() > 0 ==> closed_arguments(before + run, before.len() as int, count) is None,
        ({
            let bytes = before + (run.push(0u8) + rest);
            let next = before.len() + run.len() as int + 1;
            closed_arguments(bytes, before.len() as int, count) == if run.len() == 0 {
                closed_arguments(bytes, next, count)
            } else {
                match closed_arguments(bytes, next, count - 1) {
                    Some(others) => Some(seq![run] + others),
                    None => None,
                }
            }
        }),
{
    let bytes = before + (run.push(0u8) + rest);
    lemma_run_ends(before, run, rest);
    assert(bytes.subrange(before.len() as int, (before.len() + run.len()) as int) =~= run);
    let cut = before + run;
    text::lemma_position_from(cut, 0u8, before.len() as int);
    if let Some(at) = text::position_from(cut, 0u8, before.len() as int) {
        assert(cut[at] == run[at - before.len()]);
        assert(run.contains(run[at - before.len()]));
    }
}

/// A process argument block holds what it announces or nothing: a block that is too short for its
/// number, or announces none, holds nothing; any other is read behind the program's path and the
/// zero bytes that follow it, and counts only with as many arguments as it announces.
pub proof fn law_a_block_holds_what_it_announces(
    head: Seq<u8>,
    path: Seq<u8>,
    zeros: Seq<u8>,
    rest: Seq<u8>,
    short: Seq<u8>,
)
    requires
        head.len() == 4,
        !path.contains(0u8),
        zeros.len() > 0,
        forall|i: int| 0 <= i < zeros.len() ==> zeros[i] == 0,
        rest.len() > 0 ==> rest[0] != 0,
        short.len() < 4,
    ensures
        procargs(short) is None,
        native_i32(head) <= 0 ==> procargs(head + path + zeros + rest) is None,
        native_i32(head) > 0 ==> procargs(head + path) is None,
        native_i32(head) > 0 ==> procargs(head + path + zeros + rest) == match closed_arguments(
            head + path + zeros + rest,
            (head + path + zeros).len() as int,
            native_i32(head),
        ) {
            Some(args) => if args.len() == native_i32(head) {
                Some(args)
            } else {
                None
            },
            None => None,
        },
{
    let before = head + path + zeros;
    let whole = before + rest;
    assert(whole.take(4) =~= head);
    assert((head + path).take(4) =~= head);
    let tail = zeros.drop_first() + rest;
    assert(zeros[0] == 0);
    assert(head + (path.push(0u8) + tail) =~= whole);
    lemma_run_ends(head, path, tail);
    assert forall|i: int| 4 + path.len() <= i < before.len() implies whole[i] == 0 by {
        assert(whole[i] == zeros[i - 4 - path.len()]);
    }
    lemma_zeros_run(whole, 4 + path.len() as int, before.len() as int);
    text::lemma_position_from(head + path, 0u8, 4);
    if let Some(at) = text::position_from(head + path, 0u8, 4) {
        assert((head + path)[at] == path[at - 4]);
        assert(path.contains(path[at - 4]));
    }
}

/// Zero bytes end where another byte stands or the bytes end.
proof fn lemma_zeros_run(bytes: Seq<u8>, from: int, to: int)
    requires
        0 <= from <= to <= bytes.len(),
        forall|i: int| from <= i < to ==> bytes[i] == 0,
        to < bytes.len() ==> bytes[to] != 0,
    ensures
        after_zeros(bytes, from) == to,
    decreases to - from,
{
    if from < to {
        lemma_zeros_run(bytes, from + 1, to);
    }
}

} // verus!
