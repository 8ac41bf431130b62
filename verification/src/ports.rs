//! Who listens on a port, judged from what each operating system reports.

use crate::text;
use vstd::prelude::*;
use vstd::string::*;

verus! {

/// Whether a process listens on a port.
#[derive(Debug, Clone, Copy, PartialEq, Eq, Structural)]
pub enum PortOwnership {
    Owned,
    NotOwned,
    /// The evidence is incomplete or malformed.
    Unknown,
}

/// The last index before `to` that holds `item`.
pub open spec fn last_position(chars: Seq<char>, item: char, to: int) -> Option<int>
    decreases to,
{
    if to <= 0 || to > chars.len() {
        None
    } else if chars[to - 1] == item {
        Some(to - 1)
    } else {
        last_position(chars, item, to - 1)
    }
}

/// What one line of a socket table says of `port`, given the inodes of the process's sockets:
/// nothing, that the process listens there, or that the table is malformed.
pub open spec fn line_verdict(line: Seq<char>, inodes: Seq<Seq<char>>, port: u16) -> Option<
    PortOwnership,
> {
    let fields = text::words(line);
    if fields.len() <= 9 {
        Some(PortOwnership::Unknown)
    } else {
        match last_position(fields[1], ':', fields[1].len() as int) {
            Some(colon) => if fields[3] == "0A"@ && fields[1].skip(colon + 1) == text::port_hex(port)
                && inodes.contains(fields[9]) {
                Some(PortOwnership::Owned)
            } else {
                None
            },
            None => Some(PortOwnership::Unknown),
        }
    }
}

/// What the lines of a socket table say, from line `from` on. The first line that says something
/// decides.
pub open spec fn lines_verdict(
    lines: Seq<Seq<char>>,
    from: int,
    inodes: Seq<Seq<char>>,
    port: u16,
) -> Option<PortOwnership>
    decreases lines.len() - from,
{
    if from < 0 || from >= lines.len() {
        None
    } else {
        match line_verdict(lines[from], inodes, port) {
            Some(verdict) => Some(verdict),
            None => lines_verdict(lines, from + 1, inodes, port),
        }
    }
}

/// What a socket table says. A table that is not empty opens with its header line.
pub open spec fn table_verdict(content: Seq<char>, inodes: Seq<Seq<char>>, port: u16) -> Option<
    PortOwnership,
> {
    let lines = text::lines(content);
    if content.len() > 0 && !(lines.len() > 0 && text::contains_text(
        lines[0],
        "local_address"@,
    )) {
        Some(PortOwnership::Unknown)
    } else {
        lines_verdict(lines, 1, inodes, port)
    }
}

/// What the socket tables say together, from table `from` on.
pub open spec fn tables_verdict(
    tables: Seq<Result<String, ()>>,
    from: int,
    inodes: Seq<Seq<char>>,
    port: u16,
) -> PortOwnership
    decreases tables.len() - from,
{
    if from < 0 || from >= tables.len() {
        PortOwnership::NotOwned
    } else {
        match table_verdict(tables[from]->Ok_0@, inodes, port) {
            Some(verdict) => verdict,
            None => tables_verdict(tables, from + 1, inodes, port),
        }
    }
}

/// The evidence that Linux offers is whole: every file descriptor was read, the process holds a
/// socket, and both socket tables were read.
pub open spec fn linux_evidence_whole(
    fd_complete: bool,
    inodes: Seq<Seq<char>>,
    tables: Seq<Result<String, ()>>,
) -> bool {
    &&& fd_complete
    &&& inodes.len() > 0
    &&& tables.len() == 2
    &&& forall|i: int| 0 <= i < tables.len() ==> #[trigger] tables[i] is Ok
}

/// Whether a process listens on a port, judged from the inodes of its sockets and the two socket
/// tables of the system.
pub open spec fn linux_ownership(
    fd_complete: bool,
    inodes: Seq<Seq<char>>,
    tables: Seq<Result<String, ()>>,
    port: u16,
) -> PortOwnership {
    if linux_evidence_whole(fd_complete, inodes, tables) {
        tables_verdict(tables, 0, inodes, port)
    } else {
        PortOwnership::Unknown
    }
}

/// The last place before the end of `chars` that holds `item`.
fn last_position_of(chars: &[char], item: char) -> (place: Option<usize>)
    ensures
        match place {
            Some(at) => at < chars@.len() && last_position(chars@, item, chars@.len() as int)
                == Some(at as int),
            None => last_position(chars@, item, chars@.len() as int) is None,
        },
{
    let mut to: usize = chars.len();
    while to > 0
        invariant
            to <= chars@.len(),
            last_position(chars@, item, chars@.len() as int) == last_position(
                chars@,
                item,
                to as int,
            ),
        decreases to,
    {
        if chars[to - 1] == item {
            return Some(to - 1);
        }
        to -= 1;
    }
    None
}

/// Whether a list of strings holds the given characters.
fn list_holds(list: &[String], item: &[char]) -> (found: bool)
    ensures
        found == text::texts(list@).contains(item@),
{
    let ghost all = text::texts(list@);
    let mut i: usize = 0;
    while i < list.len()
        invariant
            i <= list@.len(),
            all == text::texts(list@),
            forall|j: int| 0 <= j < i ==> all[j] != item@,
        decreases list.len() - i,
    {
        let chars = text::chars_of(list[i].as_str());
        assert(all[i as int] == chars@);
        if text::same_chars(chars.as_slice(), item) {
            return true;
        }
        i += 1;
    }
    false
}

/// Reads one line of a socket table.
fn read_line(line: &[char], inodes: &[String], port: u16) -> (verdict: Option<PortOwnership>)
    ensures
        verdict == line_verdict(line@, text::texts(inodes@), port),
{
    let fields = text::words_of(line);
    let ghost all = text::words(line@);
    assert(all.len() == fields@.len());
    assert(forall|j: int| 0 <= j < fields@.len() ==> all[j] == #[trigger] fields@[j]@);
    if fields.len() <= 9 {
        return Some(PortOwnership::Unknown);
    }
    let address = fields[1].as_slice();
    let colon = match last_position_of(address, ':') {
        Some(colon) => colon,
        None => return Some(PortOwnership::Unknown),
    };
    let digits = text::port_hex_of(port);
    let local = vstd::slice::slice_subrange(address, colon + 1, address.len());
    assert(local@ =~= all[1].skip(colon + 1));
    let state = text::chars_of("0A");
    if text::same_chars(fields[3].as_slice(), state.as_slice()) && text::same_chars(
        local,
        digits.as_slice(),
    ) && list_holds(inodes, fields[9].as_slice()) {
        Some(PortOwnership::Owned)
    } else {
        None
    }
}

/// Reads one socket table.
fn read_table(content: &str, inodes: &[String], port: u16) -> (verdict: Option<PortOwnership>)
    ensures
        verdict == table_verdict(content@, text::texts(inodes@), port),
{
    let list = text::lines_of(content);
    let ghost all = text::lines(content@);
    assert(all.len() == list@.len());
    assert(forall|j: int| 0 <= j < list@.len() ==> all[j] == #[trigger] list@[j]@);
    if !content.is_empty() && !(list.len() > 0 && text::contains(
        list[0].as_slice(),
        "local_address",
    )) {
        return Some(PortOwnership::Unknown);
    }
    let mut i: usize = 1;
    while i < list.len()
        invariant
            1 <= i,
            all == text::lines(content@),
            all.len() == list@.len(),
            forall|j: int| 0 <= j < list@.len() ==> all[j] == #[trigger] list@[j]@,
            table_verdict(content@, text::texts(inodes@), port) == lines_verdict(
                all,
                i as int,
                text::texts(inodes@),
                port,
            ),
        decreases list.len() - i,
    {
        assert(all[i as int] == list@[i as int]@);
        let verdict = read_line(list[i].as_slice(), inodes, port);
        if verdict.is_some() {
            return verdict;
        }
        i += 1;
    }
    None
}

/// Whether a process listens on `port`, from what Linux shows of it.
pub fn linux_port_ownership_from_evidence(
    fd_complete: bool,
    socket_inodes: &[String],
    tables: &[Result<String, ()>],
    port: u16,
) -> (ownership: PortOwnership)
    ensures
        ownership == linux_ownership(
            fd_complete,
            text::texts(socket_inodes@),
            tables@,
            port,
        ),
{
    if !fd_complete || socket_inodes.len() == 0 || tables.len() != 2 {
        return PortOwnership::Unknown;
    }
    let mut i: usize = 0;
    while i < tables.len()
        invariant
            i <= tables@.len(),
            forall|j: int| 0 <= j < i ==> #[trigger] tables@[j] is Ok,
        decreases tables.len() - i,
    {
        if tables[i].is_err() {
            return PortOwnership::Unknown;
        }
        i += 1;
    }
    let mut k: usize = 0;
    while k < tables.len()
        invariant
            k <= tables@.len(),
            forall|j: int| 0 <= j < tables@.len() ==> #[trigger] tables@[j] is Ok,
            linux_ownership(
                fd_complete,
                text::texts(socket_inodes@),
                tables@,
                port,
            ) == tables_verdict(
                tables@,
                k as int,
                text::texts(socket_inodes@),
                port,
            ),
        decreases tables.len() - k,
    {
        match &tables[k] {
            Ok(content) => {
                if let Some(verdict) = read_table(content.as_str(), socket_inodes, port) {
                    return verdict;
                }
            },
            Err(_) => {},
        }
        k += 1;
    }
    PortOwnership::NotOwned
}

/// The inode in the target of a socket's link, `socket:[inode]`.
pub open spec fn link_inode(target: Seq<char>) -> Option<Seq<char>> {
    if text::begins_with(target, "socket:["@) && target.len() > "socket:["@.len() && target.last()
        == ']' {
        Some(target.subrange("socket:["@.len() as int, target.len() - 1))
    } else {
        None
    }
}

/// The inodes in a list of link targets, in order.
pub open spec fn link_inodes(targets: Seq<Option<String>>) -> Seq<Seq<char>>
    decreases targets.len(),
{
    if targets.len() == 0 {
        seq![]
    } else {
        let before = link_inodes(targets.drop_last());
        match targets.last() {
            Some(target) => match link_inode(target@) {
                Some(inode) => before.push(inode),
                None => before,
            },
            None => before,
        }
    }
}

/// The inode of the socket that a file descriptor's link leads to.
pub fn socket_inode(target: &str) -> (inode: Option<String>)
    ensures
        inode.deep_view() == link_inode(target@),
{
    let chars = text::chars_of(target);
    let prefix = text::chars_of("socket:[");
    if text::starts_with(chars.as_slice(), "socket:[") && chars.len() > prefix.len() && chars[chars.len()
        - 1] == ']' {
        Some(target.substring_char(prefix.len(), chars.len() - 1).to_owned())
    } else {
        None
    }
}

/// Gathers the socket inodes of a process from the links of its file descriptors. A link that could
/// not be read is `None`, and leaves the list incomplete.
pub fn socket_inodes_of_links(targets: &Vec<Option<String>>) -> (gathered: (bool, Vec<String>))
    ensures
        gathered.0 == links_complete(targets@),
        text::texts(gathered.1@) == link_inodes(targets@),
{
    let mut complete = true;
    let mut inodes: Vec<String> = Vec::new();
    let mut i: usize = 0;
    assert(text::texts(inodes@) =~= link_inodes(targets@.take(0)));
    while i < targets.len()
        invariant
            i <= targets@.len(),
            complete == (forall|j: int| 0 <= j < i ==> #[trigger] targets@[j] is Some),
            text::texts(inodes@) == link_inodes(targets@.take(i as int)),
        decreases targets.len() - i,
    {
        let ghost before = text::texts(inodes@);
        assert(targets@.take(i + 1).drop_last() =~= targets@.take(i as int));
        match &targets[i] {
            Some(target) => {
                if let Some(inode) = socket_inode(target.as_str()) {
                    inodes.push(inode);
                    assert(text::texts(inodes@) =~= before.push(inode@));
                }
            },
            None => {
                complete = false;
            },
        }
        i += 1;
    }
    assert(targets@.take(i as int) =~= targets@);
    (complete, inodes)
}

/// Every link in a list was read.
pub open spec fn links_complete(targets: Seq<Option<String>>) -> bool {
    forall|i: int| 0 <= i < targets.len() ==> #[trigger] targets[i] is Some
}

/// Whether a Linux process listens on a port, judged from the links of its file descriptors and
/// the socket tables. Descriptors that could not be listed leave it open.
pub open spec fn linux_process_ownership(
    targets: Option<Seq<Option<String>>>,
    tables: Seq<Result<String, ()>>,
    port: u16,
) -> PortOwnership {
    match targets {
        Some(targets) => linux_ownership(
            links_complete(targets),
            link_inodes(targets),
            tables,
            port,
        ),
        None => PortOwnership::Unknown,
    }
}

/// Whether a Linux process listens on `port`. There are no links where its file descriptors could
/// not be listed.
pub fn linux_process_port_ownership(
    targets: Option<&Vec<Option<String>>>,
    tables: &[Result<String, ()>],
    port: u16,
) -> (ownership: PortOwnership)
    ensures
        ownership == linux_process_ownership(
            match targets {
                Some(targets) => Some(targets@),
                None => None,
            },
            tables@,
            port,
        ),
{
    match targets {
        Some(targets) => {
            let (complete, inodes) = socket_inodes_of_links(targets);
            linux_port_ownership_from_evidence(complete, inodes.as_slice(), tables, port)
        },
        None => PortOwnership::Unknown,
    }
}

/// Some line of `stdout` reads `wanted`.
pub open spec fn has_line(stdout: Seq<char>, wanted: Seq<char>) -> bool {
    text::lines(stdout).contains(wanted)
}

/// What the port query on Windows says: nothing unless it ran to its end.
pub open spec fn windows_ownership(command_succeeded: bool, stdout: Seq<char>) -> PortOwnership {
    if !command_succeeded || !has_line(stdout, "PORT_QUERY_OK=1"@) {
        PortOwnership::Unknown
    } else if has_line(stdout, "OWNS=1"@) {
        PortOwnership::Owned
    } else if has_line(stdout, "OWNS=0"@) {
        PortOwnership::NotOwned
    } else {
        PortOwnership::Unknown
    }
}

/// Whether some line reads `wanted`.
fn any_line(list: &Vec<Vec<char>>, wanted: &str) -> (found: bool)
    ensures
        found == text::rows(list@).contains(wanted@),
{
    let ghost all = text::rows(list@);
    let chars = text::chars_of(wanted);
    let mut i: usize = 0;
    while i < list.len()
        invariant
            i <= list@.len(),
            all == text::rows(list@),
            chars@ == wanted@,
            forall|j: int| 0 <= j < i ==> all[j] != wanted@,
        decreases list.len() - i,
    {
        assert(all[i as int] == list@[i as int]@);
        if text::same_chars(list[i].as_slice(), chars.as_slice()) {
            return true;
        }
        i += 1;
    }
    false
}

/// Whether a process listens on a port, from the output of the query on Windows.
pub fn windows_port_ownership(command_succeeded: bool, stdout: &str) -> (ownership: PortOwnership)
    ensures
        ownership == windows_ownership(command_succeeded, stdout@),
{
    let list = text::lines_of(stdout);
    if !command_succeeded || !any_line(&list, "PORT_QUERY_OK=1") {
        PortOwnership::Unknown
    } else if any_line(&list, "OWNS=1") {
        PortOwnership::Owned
    } else if any_line(&list, "OWNS=0") {
        PortOwnership::NotOwned
    } else {
        PortOwnership::Unknown
    }
}

/// What the way in which `lsof` ended says.
pub open spec fn lsof_ownership(
    exit_code: Option<i32>,
    stdout: Seq<u8>,
    stderr: Seq<u8>,
) -> PortOwnership {
    if exit_code == Some(0i32) && stdout.len() > 0 {
        PortOwnership::Owned
    } else if exit_code == Some(1i32) && stdout.len() == 0 && stderr.len() == 0 {
        PortOwnership::NotOwned
    } else {
        PortOwnership::Unknown
    }
}

/// Whether a process listens on a port, from how `lsof` ended. Only a clean and silent exit with
/// status one says that it does not.
pub fn lsof_port_ownership(exit_code: Option<i32>, stdout: &[u8], stderr: &[u8]) -> (ownership:
    PortOwnership)
    ensures
        ownership == lsof_ownership(exit_code, stdout@, stderr@),
{
    match exit_code {
        Some(code) => if code == 0 && stdout.len() > 0 {
            PortOwnership::Owned
        } else if code == 1 && stdout.len() == 0 && stderr.len() == 0 {
            PortOwnership::NotOwned
        } else {
            PortOwnership::Unknown
        },
        None => PortOwnership::Unknown,
    }
}

/// Evidence with a gap decides nothing.
pub proof fn law_partial_evidence_is_unknown(
    fd_complete: bool,
    inodes: Seq<Seq<char>>,
    tables: Seq<Result<String, ()>>,
    port: u16,
)
    requires
        !linux_evidence_whole(fd_complete, inodes, tables),
    ensures
        linux_ownership(fd_complete, inodes, tables, port) == PortOwnership::Unknown,
{
}

/// Line `line` of table `table` shows one of the sockets listening on the port.
pub open spec fn some_line_shows_it(
    tables: Seq<Result<String, ()>>,
    inodes: Seq<Seq<char>>,
    port: u16,
    table: int,
    line: int,
) -> bool {
    &&& 0 <= table < tables.len()
    &&& 1 <= line < text::lines(tables[table]->Ok_0@).len()
    &&& line_verdict(text::lines(tables[table]->Ok_0@)[line], inodes, port) == Some(
        PortOwnership::Owned,
    )
}

/// The line that decides a table.
proof fn lemma_deciding_line(
    lines: Seq<Seq<char>>,
    from: int,
    inodes: Seq<Seq<char>>,
    port: u16,
) -> (line: int)
    requires
        0 <= from,
        lines_verdict(lines, from, inodes, port) == Some(PortOwnership::Owned),
    ensures
        from <= line < lines.len(),
        line_verdict(lines[line], inodes, port) == Some(PortOwnership::Owned),
    decreases lines.len() - from,
{
    if line_verdict(lines[from], inodes, port) is Some {
        from
    } else {
        lemma_deciding_line(lines, from + 1, inodes, port)
    }
}

/// The table and the line that decide.
proof fn lemma_deciding_table(
    tables: Seq<Result<String, ()>>,
    from: int,
    inodes: Seq<Seq<char>>,
    port: u16,
) -> (place: (int, int))
    requires
        0 <= from,
        tables_verdict(tables, from, inodes, port) == PortOwnership::Owned,
    ensures
        some_line_shows_it(tables, inodes, port, place.0, place.1),
    decreases tables.len() - from,
{
    let content = tables[from]->Ok_0@;
    if table_verdict(content, inodes, port) is Some {
        let line = lemma_deciding_line(text::lines(content), 1, inodes, port);
        (from, line)
    } else {
        lemma_deciding_table(tables, from + 1, inodes, port)
    }
}

/// Linux reports a process as the owner of a port only where some line of a socket table shows one
/// of the process's sockets listening there.
pub proof fn law_ownership_rests_on_a_line(
    fd_complete: bool,
    inodes: Seq<Seq<char>>,
    tables: Seq<Result<String, ()>>,
    port: u16,
)
    requires
        linux_ownership(fd_complete, inodes, tables, port) == PortOwnership::Owned,
    ensures
        exists|table: int, line: int| some_line_shows_it(tables, inodes, port, table, line),
{
    let place = lemma_deciding_table(tables, 0, inodes, port);
    assert(some_line_shows_it(tables, inodes, port, place.0, place.1));
}

/// A line of a socket table shows at most one port as owned.
pub proof fn law_a_line_shows_one_port(
    line: Seq<char>,
    inodes: Seq<Seq<char>>,
    left: u16,
    right: u16,
)
    requires
        line_verdict(line, inodes, left) == Some(PortOwnership::Owned),
        line_verdict(line, inodes, right) == Some(PortOwnership::Owned),
    ensures
        left == right,
{
    text::law_port_hex_injective(left, right);
}

/// On Windows nothing is decided before the query has said that it ran to its end.
pub proof fn law_unfinished_query_is_unknown(command_succeeded: bool, stdout: Seq<char>)
    requires
        !command_succeeded || !has_line(stdout, "PORT_QUERY_OK=1"@),
    ensures
        windows_ownership(command_succeeded, stdout) == PortOwnership::Unknown,
{
}

/// The last place of an item is behind all others.
proof fn lemma_last_position(chars: Seq<char>, item: char, to: int)
    requires
        0 <= to <= chars.len(),
    ensures
        match last_position(chars, item, to) {
            Some(at) => 0 <= at < to && chars[at] == item && (forall|j: int|
                at < j < to ==> chars[j] != item),
            None => forall|j: int| 0 <= j < to ==> chars[j] != item,
        },
    decreases to,
{
    if to > 0 && chars[to - 1] != item {
        lemma_last_position(chars, item, to - 1);
    }
}

/// A line of a socket table that is too short or has no colon in its second word is malformed. A
/// line with ten words or more, however many follow the tenth, and a colon there never is.
pub proof fn law_ten_words_and_a_colon_make_a_line(
    line: Seq<char>,
    inodes: Seq<Seq<char>>,
    port: u16,
)
    ensures
        line_verdict(line, inodes, port) == Some(PortOwnership::Unknown) <==> text::words(line).len()
            < 10 || !text::words(line)[1].contains(':'),
        line_verdict(line, inodes, port) != Some(PortOwnership::NotOwned),
{
    if text::words(line).len() >= 10 {
        let address = text::words(line)[1];
        lemma_last_position(address, ':', address.len() as int);
        if let Some(at) = last_position(address, ':', address.len() as int) {
            assert(address.contains(address[at]));
        }
    }
}

/// A line whose second word is an address, a colon and the port in four hexadecimal digits, whose
/// fourth word is the state of a listening socket and whose tenth word is one of the inodes shows
/// the port as owned, however many words follow.
pub proof fn law_a_listening_line_shows_the_port(
    line: Seq<char>,
    address: Seq<char>,
    inodes: Seq<Seq<char>>,
    port: u16,
)
    requires
        text::words(line).len() >= 10,
        text::words(line)[1] == address.push(':') + text::port_hex(port),
        text::words(line)[3] == "0A"@,
        inodes.contains(text::words(line)[9]),
    ensures
        line_verdict(line, inodes, port) == Some(PortOwnership::Owned),
{
    let word = text::words(line)[1];
    let digits = text::port_hex(port);
    text::law_port_hex_is_read_again(port);
    lemma_last_position(word, ':', word.len() as int);
    assert(word[address.len() as int] == ':');
    let at = last_position(word, ':', word.len() as int)->0;
    assert(at == address.len()) by {
        if at > address.len() {
            assert(word[at] == digits[at - address.len() - 1]);
            assert(digits.contains(word[at]));
        }
    }
    assert(word.skip(at + 1) =~= digits);
}

/// A line shows a port as owned only where its words say so.
pub proof fn law_an_owned_port_stands_in_the_line(
    line: Seq<char>,
    inodes: Seq<Seq<char>>,
    port: u16,
)
    requires
        line_verdict(line, inodes, port) == Some(PortOwnership::Owned),
    ensures
        text::words(line).len() >= 10,
        exists|address: Seq<char>|
            text::words(line)[1] == #[trigger] address.push(':') + text::port_hex(port),
        text::words(line)[3] == "0A"@,
        inodes.contains(text::words(line)[9]),
{
    let word = text::words(line)[1];
    lemma_last_position(word, ':', word.len() as int);
    let at = last_position(word, ':', word.len() as int)->0;
    let address = word.take(at);
    assert(word =~= address.push(':') + word.skip(at + 1));
}

/// Lines that say nothing are passed over.
proof fn lemma_lines_pass(
    lines: Seq<Seq<char>>,
    from: int,
    to: int,
    inodes: Seq<Seq<char>>,
    port: u16,
)
    requires
        0 <= from <= to <= lines.len(),
        forall|j: int| from <= j < to ==> line_verdict(#[trigger] lines[j], inodes, port) is None,
    ensures
        lines_verdict(lines, from, inodes, port) == lines_verdict(lines, to, inodes, port),
    decreases to - from,
{
    if from < to {
        assert(line_verdict(lines[from], inodes, port) is None);
        lemma_lines_pass(lines, from + 1, to, inodes, port);
    }
}

/// A well-formed table: empty, or opened by a header line and without a malformed line.
pub open spec fn is_well_formed(content: Seq<char>) -> bool {
    let lines = text::lines(content);
    content.len() > 0 ==> lines.len() > 0 && text::contains_text(lines[0], "local_address"@) && (
    forall|j: int|
        1 <= j < lines.len() ==> text::words(#[trigger] lines[j]).len() >= 10 && text::words(
            lines[j],
        )[1].contains(':'))
}

/// A line behind the header shows the port as owned.
pub open spec fn shows_owned(content: Seq<char>, inodes: Seq<Seq<char>>, port: u16) -> bool {
    exists|j: int|
        1 <= j < text::lines(content).len() && line_verdict(
            #[trigger] text::lines(content)[j],
            inodes,
            port,
        ) == Some(PortOwnership::Owned)
}

/// An empty text has no lines.
proof fn lemma_empty_table(content: Seq<char>)
    requires
        content.len() == 0,
    ensures
        text::lines(content).len() == 0,
{
}

/// A table that opens with its header and shows the port as owned before any malformed line says
/// that the process listens, whatever follows.
pub proof fn law_a_listening_line_decides_its_table(
    content: Seq<char>,
    inodes: Seq<Seq<char>>,
    port: u16,
    line: int,
)
    requires
        text::lines(content).len() > 0,
        text::contains_text(text::lines(content)[0], "local_address"@),
        1 <= line < text::lines(content).len(),
        line_verdict(text::lines(content)[line], inodes, port) == Some(PortOwnership::Owned),
        forall|j: int|
            1 <= j < line ==> text::words(#[trigger] text::lines(content)[j]).len() >= 10
                && text::words(text::lines(content)[j])[1].contains(':'),
    ensures
        table_verdict(content, inodes, port) == Some(PortOwnership::Owned),
{
    let lines = text::lines(content);
    lemma_first_telling_line(lines, 1, line, inodes, port);
}

/// Before a line that shows the port as owned, no line that is not malformed says otherwise.
proof fn lemma_first_telling_line(
    lines: Seq<Seq<char>>,
    from: int,
    line: int,
    inodes: Seq<Seq<char>>,
    port: u16,
)
    requires
        0 <= from <= line < lines.len(),
        line_verdict(lines[line], inodes, port) == Some(PortOwnership::Owned),
        forall|j: int|
            from <= j < line ==> text::words(#[trigger] lines[j]).len() >= 10 && text::words(
                lines[j],
            )[1].contains(':'),
    ensures
        lines_verdict(lines, from, inodes, port) == Some(PortOwnership::Owned),
    decreases line - from,
{
    if from < line {
        assert(text::words(lines[from]).len() >= 10);
        law_ten_words_and_a_colon_make_a_line(lines[from], inodes, port);
        lemma_first_telling_line(lines, from + 1, line, inodes, port);
    }
}

/// What a well-formed table says: that the process listens where a line shows it, and nothing
/// otherwise.
proof fn lemma_well_formed_table(content: Seq<char>, inodes: Seq<Seq<char>>, port: u16)
    requires
        is_well_formed(content),
    ensures
        table_verdict(content, inodes, port) == if shows_owned(content, inodes, port) {
            Some(PortOwnership::Owned)
        } else {
            None
        },
{
    let lines = text::lines(content);
    if content.len() == 0 {
        lemma_empty_table(content);
    } else if shows_owned(content, inodes, port) {
        let line = choose|j: int|
            1 <= j < lines.len() && line_verdict(#[trigger] lines[j], inodes, port) == Some(
                PortOwnership::Owned,
            );
        law_a_listening_line_decides_its_table(content, inodes, port, line);
    } else {
        assert forall|j: int| 1 <= j < lines.len() implies line_verdict(
            #[trigger] lines[j],
            inodes,
            port,
        ) is None by {
            law_ten_words_and_a_colon_make_a_line(lines[j], inodes, port);
        }
        lemma_lines_pass(lines, 1, lines.len() as int, inodes, port);
    }
}

/// Whole evidence, with every link read, a socket held and both tables read: the port is owned where
/// the first table says so, or the second does behind a well-formed first one. Two well-formed
/// tables decide it by whether some line shows it, and only two well-formed tables leave it unowned.
pub proof fn law_whole_evidence_decides(
    first: String,
    second: String,
    inodes: Seq<Seq<char>>,
    port: u16,
)
    requires
        inodes.len() > 0,
    ensures
        ({
            let tables = seq![Ok::<String, ()>(first), Ok::<String, ()>(second)];
            let verdict = linux_ownership(true, inodes, tables, port);
            &&& table_verdict(first@, inodes, port) == Some(PortOwnership::Owned) ==> verdict
                == PortOwnership::Owned
            &&& is_well_formed(first@) && !shows_owned(first@, inodes, port) && table_verdict(
                second@,
                inodes,
                port,
            ) == Some(PortOwnership::Owned) ==> verdict == PortOwnership::Owned
            &&& is_well_formed(first@) && is_well_formed(second@) ==> verdict == if shows_owned(
                first@,
                inodes,
                port,
            ) || shows_owned(second@, inodes, port) {
                PortOwnership::Owned
            } else {
                PortOwnership::NotOwned
            }
            &&& verdict == PortOwnership::NotOwned ==> is_well_formed(first@) && is_well_formed(
                second@,
            )
        }),
{
    let tables = seq![Ok::<String, ()>(first), Ok::<String, ()>(second)];
    assert(tables[0] is Ok && tables[1] is Ok);
    assert(forall|i: int| 0 <= i < tables.len() ==> #[trigger] tables[i] is Ok);
    assert(tables_verdict(tables, 2, inodes, port) == PortOwnership::NotOwned);
    if is_well_formed(first@) {
        lemma_well_formed_table(first@, inodes, port);
    }
    if is_well_formed(second@) {
        lemma_well_formed_table(second@, inodes, port);
    }
    lemma_silent_table_is_well_formed(first@, inodes, port);
    lemma_silent_table_is_well_formed(second@, inodes, port);
    lemma_table_never_denies(first@, inodes, port);
    lemma_table_never_denies(second@, inodes, port);
    assert(tables_verdict(tables, 1, inodes, port) == match table_verdict(second@, inodes, port) {
        Some(verdict) => verdict,
        None => tables_verdict(tables, 2, inodes, port),
    });
    assert(tables_verdict(tables, 0, inodes, port) == match table_verdict(first@, inodes, port) {
        Some(verdict) => verdict,
        None => tables_verdict(tables, 1, inodes, port),
    });
}

/// A table that says nothing is well-formed.
proof fn lemma_silent_table_is_well_formed(content: Seq<char>, inodes: Seq<Seq<char>>, port: u16)
    ensures
        table_verdict(content, inodes, port) is None ==> is_well_formed(content),
{
    if table_verdict(content, inodes, port) is None {
        let lines = text::lines(content);
        assert forall|j: int| 1 <= j < lines.len() implies text::words(#[trigger] lines[j]).len()
            >= 10 && text::words(lines[j])[1].contains(':') by {
            lemma_silent_lines(lines, 1, j, inodes, port);
            law_ten_words_and_a_colon_make_a_line(lines[j], inodes, port);
        }
    }
}

/// Where the lines say nothing, no line does.
proof fn lemma_silent_lines(
    lines: Seq<Seq<char>>,
    from: int,
    line: int,
    inodes: Seq<Seq<char>>,
    port: u16,
)
    requires
        0 <= from <= line < lines.len(),
        lines_verdict(lines, from, inodes, port) is None,
    ensures
        line_verdict(lines[line], inodes, port) is None,
    decreases line - from,
{
    if from < line {
        lemma_silent_lines(lines, from + 1, line, inodes, port);
    }
}

/// No line, and so no table, says by itself that the process does not listen.
proof fn lemma_table_never_denies(content: Seq<char>, inodes: Seq<Seq<char>>, port: u16)
    ensures
        table_verdict(content, inodes, port) != Some(PortOwnership::NotOwned),
{
    lemma_lines_never_deny(text::lines(content), 1, inodes, port);
}

/// No line says by itself that the process does not listen.
proof fn lemma_lines_never_deny(
    lines: Seq<Seq<char>>,
    from: int,
    inodes: Seq<Seq<char>>,
    port: u16,
)
    requires
        0 <= from,
    ensures
        lines_verdict(lines, from, inodes, port) != Some(PortOwnership::NotOwned),
    decreases lines.len() - from,
{
    if from < lines.len() {
        law_ten_words_and_a_colon_make_a_line(lines[from], inodes, port);
        lemma_lines_never_deny(lines, from + 1, inodes, port);
    }
}

/// With a link that was not read, without a socket, or without both tables, nothing is known.
pub proof fn law_gaps_leave_the_port_unknown(
    fd_complete: bool,
    inodes: Seq<Seq<char>>,
    tables: Seq<Result<String, ()>>,
    port: u16,
    i: int,
)
    requires
        !fd_complete || inodes.len() == 0 || tables.len() != 2 || (0 <= i < 2 && tables[i] is Err),
    ensures
        linux_ownership(fd_complete, inodes, tables, port) == PortOwnership::Unknown,
{
}

/// A link leads to a socket exactly where it reads `socket:[inode]`, and names that inode.
pub proof fn law_socket_links_are_told_apart(target: Seq<char>, inode: Seq<char>)
    ensures
        link_inode(target) == Some(inode) <==> target == "socket:["@ + inode.push(']'),
{
    reveal_strlit("socket:[");
    let prefix = "socket:["@;
    let whole = prefix + inode.push(']');
    if target == whole {
        assert(target.subrange(0, prefix.len() as int) =~= prefix);
        assert(target.subrange(prefix.len() as int, target.len() - 1) =~= inode);
    }
    if link_inode(target) == Some(inode) {
        assert(target =~= target.subrange(0, prefix.len() as int) + target.subrange(
            prefix.len() as int,
            target.len() - 1,
        ).push(target.last()));
    }
}

/// Links are gathered one by one: one that leads to a socket adds its inode, any other adds nothing,
/// and one that was not read leaves the list incomplete.
pub proof fn law_links_are_gathered_one_by_one(targets: Seq<Option<String>>, target: String)
    ensures
        link_inodes(Seq::<Option<String>>::empty()) == Seq::<Seq<char>>::empty(),
        link_inodes(targets.push(Some(target))) == match link_inode(target@) {
            Some(inode) => link_inodes(targets).push(inode),
            None => link_inodes(targets),
        },
        link_inodes(targets.push(None)) == link_inodes(targets),
        links_complete(Seq::<Option<String>>::empty()),
        links_complete(targets.push(Some(target))) == links_complete(targets),
        !links_complete(targets.push(None)),
{
    let read = targets.push(Some(target));
    let unread = targets.push(None);
    assert(read.drop_last() =~= targets);
    assert(unread.drop_last() =~= targets);
    assert(unread[targets.len() as int] is None);
    if links_complete(targets) {
        assert forall|i: int| 0 <= i < read.len() implies #[trigger] read[i] is Some by {
            if i < targets.len() {
                assert(targets[i] is Some);
            }
        }
    }
    if links_complete(read) {
        assert forall|i: int| 0 <= i < targets.len() implies #[trigger] targets[i] is Some by {
            assert(read[i] is Some);
        }
    }
}

/// A Linux process is judged by the links of its descriptors and the tables alone; without its
/// links nothing is known.
pub proof fn law_a_process_is_judged_by_its_links(
    targets: Seq<Option<String>>,
    tables: Seq<Result<String, ()>>,
    port: u16,
    i: int,
)
    ensures
        linux_process_ownership(None, tables, port) == PortOwnership::Unknown,
        0 <= i < targets.len() && targets[i] is None ==> linux_process_ownership(
            Some(targets),
            tables,
            port,
        ) == PortOwnership::Unknown,
        (forall|k: int| 0 <= k < targets.len() ==> #[trigger] targets[k] is Some)
            ==> linux_process_ownership(Some(targets), tables, port) == linux_ownership(
            true,
            link_inodes(targets),
            tables,
            port,
        ),
{
}

/// On Windows a line of the finished query says that the process listens, or that it does not; the
/// first word counts before the second, and without either nothing is known.
pub proof fn law_windows_lines_decide(stdout: Seq<char>)
    ensures
        windows_ownership(true, stdout) == PortOwnership::Owned <==> text::lines(stdout).contains(
            "PORT_QUERY_OK=1"@,
        ) && text::lines(stdout).contains("OWNS=1"@),
        windows_ownership(true, stdout) == PortOwnership::NotOwned <==> text::lines(
            stdout,
        ).contains("PORT_QUERY_OK=1"@) && !text::lines(stdout).contains("OWNS=1"@) && text::lines(
            stdout,
        ).contains("OWNS=0"@),
        windows_ownership(false, stdout) == PortOwnership::Unknown,
{
}

/// What `lsof` says: a listing with success shows the port as owned, a clean and silent failure with
/// status one as not owned, and anything else says nothing.
pub proof fn law_lsof_must_be_clear(exit_code: Option<i32>, stdout: Seq<u8>, stderr: Seq<u8>)
    ensures
        lsof_ownership(exit_code, stdout, stderr) == PortOwnership::Owned <==> exit_code == Some(
            0i32,
        ) && stdout.len() > 0,
        lsof_ownership(exit_code, stdout, stderr) == PortOwnership::NotOwned <==> exit_code == Some(
            1i32,
        ) && stdout.len() == 0 && stderr.len() == 0,
{
}

/// A table is read line by line. Where it is empty, or opens with its header and no line behind that
/// tells anything, it says nothing. Where it opens otherwise, or a malformed line comes before one
/// that shows the port, nothing is known.
pub proof fn law_a_table_is_read_line_by_line(
    content: Seq<char>,
    inodes: Seq<Seq<char>>,
    port: u16,
    line: int,
)
    ensures
        content.len() == 0 ==> table_verdict(content, inodes, port) is None,
        content.len() > 0 && (text::lines(content).len() == 0 || !text::contains_text(
            text::lines(content)[0],
            "local_address"@,
        )) ==> table_verdict(content, inodes, port) == Some(PortOwnership::Unknown),
        text::lines(content).len() > 0 && text::contains_text(
            text::lines(content)[0],
            "local_address"@,
        ) && (forall|j: int|
            1 <= j < text::lines(content).len() ==> line_verdict(
                #[trigger] text::lines(content)[j],
                inodes,
                port,
            ) is None) ==> table_verdict(content, inodes, port) is None,
        text::lines(content).len() > 0 && text::contains_text(
            text::lines(content)[0],
            "local_address"@,
        ) && 1 <= line < text::lines(content).len() && (text::words(text::lines(content)[line]).len()
            < 10 || !text::words(text::lines(content)[line])[1].contains(':')) && (forall|j: int|
            1 <= j < line ==> line_verdict(
                #[trigger] text::lines(content)[j],
                inodes,
                port,
            ) is None) ==> table_verdict(content, inodes, port) == Some(PortOwnership::Unknown),
{
    let lines = text::lines(content);
    if content.len() == 0 {
        lemma_empty_table(content);
    }
    if lines.len() > 0 && (forall|j: int|
        1 <= j < lines.len() ==> line_verdict(#[trigger] lines[j], inodes, port) is None) {
        lemma_lines_pass(lines, 1, lines.len() as int, inodes, port);
    }
    if 1 <= line < lines.len() && (forall|j: int|
        1 <= j < line ==> line_verdict(#[trigger] lines[j], inodes, port) is None) {
        lemma_lines_pass(lines, 1, line, inodes, port);
        law_ten_words_and_a_colon_make_a_line(lines[line], inodes, port);
    }
}

/// The first of two tables that says something decides, and two silent tables leave the port
/// unowned.
pub proof fn law_two_tables_are_read_in_turn(
    first: String,
    second: String,
    inodes: Seq<Seq<char>>,
    port: u16,
)
    requires
        inodes.len() > 0,
    ensures
        linux_ownership(
            true,
            inodes,
            seq![Ok::<String, ()>(first), Ok::<String, ()>(second)],
            port,
        ) == match (table_verdict(first@, inodes, port), table_verdict(second@, inodes, port)) {
            (Some(verdict), _) => verdict,
            (None, Some(verdict)) => verdict,
            (None, None) => PortOwnership::NotOwned,
        },
{
    let tables = seq![Ok::<String, ()>(first), Ok::<String, ()>(second)];
    assert(tables[0] is Ok && tables[1] is Ok);
    assert(forall|i: int| 0 <= i < tables.len() ==> #[trigger] tables[i] is Ok);
    assert(tables_verdict(tables, 2, inodes, port) == PortOwnership::NotOwned);
    assert(tables_verdict(tables, 1, inodes, port) == match table_verdict(second@, inodes, port) {
        Some(verdict) => verdict,
        None => tables_verdict(tables, 2, inodes, port),
    });
}

/// With whole evidence, a line that shows one of the sockets listening on the port makes the port
/// owned, where its table opens with the header and no malformed line comes before it; in the second
/// table, where the first says nothing.
pub proof fn law_a_listening_line_in_a_table_owns_the_port(
    table: String,
    other: String,
    inodes: Seq<Seq<char>>,
    port: u16,
    line: int,
    address: Seq<char>,
)
    requires
        text::lines(table@).len() > 0,
        text::contains_text(text::lines(table@)[0], "local_address"@),
        1 <= line < text::lines(table@).len(),
        text::words(text::lines(table@)[line]).len() >= 10,
        text::words(text::lines(table@)[line])[1] == address.push(':') + text::port_hex(port),
        text::words(text::lines(table@)[line])[3] == "0A"@,
        inodes.contains(text::words(text::lines(table@)[line])[9]),
        forall|j: int|
            1 <= j < line ==> text::words(#[trigger] text::lines(table@)[j]).len() >= 10
                && text::words(text::lines(table@)[j])[1].contains(':'),
    ensures
        linux_ownership(
            true,
            inodes,
            seq![Ok::<String, ()>(table), Ok::<String, ()>(other)],
            port,
        ) == PortOwnership::Owned,
        table_verdict(other@, inodes, port) is None ==> linux_ownership(
            true,
            inodes,
            seq![Ok::<String, ()>(other), Ok::<String, ()>(table)],
            port,
        ) == PortOwnership::Owned,
{
    law_a_listening_line_shows_the_port(text::lines(table@)[line], address, inodes, port);
    law_a_listening_line_decides_its_table(table@, inodes, port, line);
    law_two_tables_are_read_in_turn(table, other, inodes, port);
    law_two_tables_are_read_in_turn(other, table, inodes, port);
}

} // verus!
