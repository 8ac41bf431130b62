//! When two path texts name the same profile directory or program.

use crate::text;
use vstd::prelude::*;
use vstd::string::*;

verus! {

/// The operating system that the browser runs on.
#[derive(Debug, Clone, Copy, PartialEq, Eq, Structural)]
pub enum Platform {
    MacOs,
    Windows,
    /// Linux and other Unix-like systems.
    Unix,
}

/// One component of a path.
#[derive(Debug, Clone, PartialEq, Eq)]
pub enum PathComponent {
    /// A drive or share, on Windows.
    Prefix(String),
    RootDir,
    CurDir,
    ParentDir,
    Normal(String),
}

/// The mathematical value of a [`PathComponent`].
pub enum PathPart {
    Prefix(Seq<char>),
    RootDir,
    CurDir,
    ParentDir,
    Normal(Seq<char>),
}

impl View for PathComponent {
    type V = PathPart;

    open spec fn view(&self) -> PathPart {
        match self {
            PathComponent::Prefix(name) => PathPart::Prefix(name@),
            PathComponent::RootDir => PathPart::RootDir,
            PathComponent::CurDir => PathPart::CurDir,
            PathComponent::ParentDir => PathPart::ParentDir,
            PathComponent::Normal(name) => PathPart::Normal(name@),
        }
    }
}

/// A path text together with the components of the absolute path that it stands for.
#[derive(Debug, Clone, PartialEq, Eq)]
pub struct ListedPath {
    pub text: String,
    pub components: Vec<PathComponent>,
}

/// What the machine shows that a decision may depend on.
#[derive(Debug, Clone, PartialEq, Eq)]
pub struct Host {
    pub platform: Platform,
    /// Those of the program paths in question that exist.
    pub existing: Vec<String>,
    /// The working directory, where it is known.
    pub current_dir: Option<String>,
    /// On Windows, how the system takes apart the paths in question. Elsewhere it is not looked at.
    pub listed: Vec<ListedPath>,
}

/// The mathematical value of a list of components.
pub open spec fn parts_of(components: Seq<PathComponent>) -> Seq<PathPart> {
    components.map_values(|component: PathComponent| component@)
}

/// What a name between two slashes stands for. An empty name and a single dot stand for nothing.
pub open spec fn segment_parts(segment: Seq<char>) -> Seq<PathPart> {
    if segment.len() == 0 || segment == "."@ {
        seq![]
    } else if segment == ".."@ {
        seq![PathPart::ParentDir]
    } else {
        seq![PathPart::Normal(segment)]
    }
}

/// What the names in a path stand for, slash by slash.
pub open spec fn segments(path: Seq<char>) -> Seq<PathPart>
    decreases path.len(),
{
    match text::position_from(path, '/', 0) {
        Some(end) => {
            proof {
                text::lemma_position_from(path, '/', 0);
            }
            segment_parts(path.take(end)) + segments(path.skip(end + 1))
        },
        None => segment_parts(path),
    }
}

/// A Unix path that does not depend on the working directory.
pub open spec fn is_rooted(path: Seq<char>) -> bool {
    path.len() > 0 && path[0] == '/'
}

/// The parts of a Unix path.
pub open spec fn unix_parts(path: Seq<char>) -> Seq<PathPart> {
    if is_rooted(path) {
        seq![PathPart::RootDir] + segments(path)
    } else {
        segments(path)
    }
}

/// `path` seen from the directory `dir`.
pub open spec fn joined(dir: Seq<char>, path: Seq<char>) -> Seq<char> {
    if dir.len() == 0 || dir.last() == '/' {
        dir + path
    } else {
        dir.push('/') + path
    }
}

/// The parts that the system lists for a path, looked for from entry `from` on.
pub open spec fn listed_parts(listed: Seq<ListedPath>, path: Seq<char>, from: int) -> Option<
    Seq<PathPart>,
>
    decreases listed.len() - from,
{
    if from < 0 || from >= listed.len() {
        None
    } else if listed[from].text@ == path {
        Some(parts_of(listed[from].components@))
    } else {
        listed_parts(listed, path, from + 1)
    }
}

/// The parts of the absolute path that a text stands for on a machine, where they are known.
pub open spec fn absolute_parts(host: Host, path: Seq<char>) -> Option<Seq<PathPart>> {
    if host.platform == Platform::Windows {
        listed_parts(host.listed@, path, 0)
    } else if is_rooted(path) {
        Some(unix_parts(path))
    } else {
        match host.current_dir {
            Some(dir) => Some(unix_parts(joined(dir@, path))),
            None => None,
        }
    }
}

/// One more part behind a normalized path.
pub open spec fn step(path: Seq<PathPart>, part: PathPart) -> Seq<PathPart> {
    match part {
        PathPart::CurDir => path,
        PathPart::ParentDir => if path.len() > 0 && path.last() is Normal {
            path.drop_last()
        } else {
            path
        },
        part => path.push(part),
    }
}

/// A path without steps in place or back. Above the root there is only the root.
pub open spec fn normalized(parts: Seq<PathPart>) -> Seq<PathPart>
    decreases parts.len(),
{
    if parts.len() == 0 {
        seq![]
    } else {
        step(normalized(parts.drop_last()), parts.last())
    }
}

/// The normalized absolute path that a text stands for.
pub open spec fn normal_path(host: Host, path: Seq<char>) -> Option<Seq<PathPart>> {
    match absolute_parts(host, path) {
        Some(parts) => Some(normalized(parts)),
        None => None,
    }
}

/// A part with ASCII letters in lower case.
pub open spec fn lower_part(part: PathPart) -> PathPart {
    match part {
        PathPart::Prefix(name) => PathPart::Prefix(text::ascii_lower(name)),
        PathPart::Normal(name) => PathPart::Normal(text::ascii_lower(name)),
        part => part,
    }
}

/// What counts of a part when paths are compared: on Windows, ASCII case does not.
pub open spec fn comparable(platform: Platform, part: PathPart) -> PathPart {
    if platform == Platform::Windows {
        lower_part(part)
    } else {
        part
    }
}

/// Two normalized paths are the same to the platform.
pub open spec fn same_path(platform: Platform, left: Seq<PathPart>, right: Seq<PathPart>) -> bool {
    &&& left.len() == right.len()
    &&& forall|i: int|
        0 <= i < left.len() ==> comparable(platform, #[trigger] left[i]) == comparable(
            platform,
            right[i],
        )
}

/// Two texts name the same path, and both could be resolved.
pub open spec fn paths_match(host: Host, left: Seq<char>, right: Seq<char>) -> bool {
    match (normal_path(host, left), normal_path(host, right)) {
        (Some(left), Some(right)) => same_path(host.platform, left, right),
        _ => false,
    }
}

/// A copy of a component.
fn copy_component(component: &PathComponent) -> (copy: PathComponent)
    ensures
        copy@ == component@,
{
    match component {
        PathComponent::Prefix(name) => PathComponent::Prefix(name.clone()),
        PathComponent::RootDir => PathComponent::RootDir,
        PathComponent::CurDir => PathComponent::CurDir,
        PathComponent::ParentDir => PathComponent::ParentDir,
        PathComponent::Normal(name) => PathComponent::Normal(name.clone()),
    }
}

/// Takes a Unix path apart.
fn split_unix(path: &str) -> (components: Vec<PathComponent>)
    ensures
        parts_of(components@) == unix_parts(path@),
{
    let chars = text::chars_of(path);
    let all = chars.as_slice();
    let mut components: Vec<PathComponent> = Vec::new();
    if all.len() > 0 && all[0] == '/' {
        components.push(PathComponent::RootDir);
        assert(parts_of(components@) =~= seq![PathPart::RootDir]);
    } else {
        assert(parts_of(components@) =~= seq![]);
    }
    let mut at: usize = 0;
    let mut done = false;
    assert(all@.skip(0) =~= all@);
    assert(parts_of(components@) + segments(all@.skip(0)) =~= unix_parts(path@));
    while !done
        invariant
            at <= all@.len(),
            all@ == path@,
            !done ==> parts_of(components@) + segments(all@.skip(at as int)) == unix_parts(path@),
            done ==> parts_of(components@) == unix_parts(path@),
        decreases
            all.len() - at,
            if done {
                0int
            } else {
                1int
            },
    {
        let ghost before = parts_of(components@);
        let rest = vstd::slice::slice_subrange(all, at, all.len());
        assert(rest@ =~= all@.skip(at as int));
        proof {
            text::lemma_position_from(rest@, '/', 0);
        }
        let end = match text::position_of_char(rest, '/', 0) {
            Some(end) => end,
            None => {
                done = true;
                rest.len()
            },
        };
        let segment = vstd::slice::slice_subrange(rest, 0, end);
        assert(segment@ =~= rest@.take(end as int));
        if done {
            assert(segment@ =~= rest@);
        }
        let dot = text::chars_of(".");
        let dots = text::chars_of("..");
        if segment.len() == 0 || text::same_chars(segment, dot.as_slice()) {
            assert(parts_of(components@) =~= before + segment_parts(segment@));
        } else if text::same_chars(segment, dots.as_slice()) {
            components.push(PathComponent::ParentDir);
            assert(parts_of(components@) =~= before + segment_parts(segment@));
        } else {
            let name = path.substring_char(at, at + end).to_owned();
            assert(name@ =~= segment@);
            components.push(PathComponent::Normal(name));
            assert(parts_of(components@) =~= before + segment_parts(segment@));
        }
        if !done {
            assert(rest@.skip(end + 1) =~= all@.skip(at + end + 1));
            assert((before + segment_parts(segment@)) + segments(all@.skip(at + end + 1))
                =~= before + (segment_parts(segment@) + segments(all@.skip(at + end + 1))));
            at = at + end + 1;
        }
    }
    components
}

/// Puts a relative path behind a directory.
fn join_path(dir: &str, path: &str) -> (whole: String)
    ensures
        whole@ == joined(dir@, path@),
{
    let chars = text::chars_of(dir);
    let mut whole = dir.to_owned();
    if chars.len() > 0 && chars[chars.len() - 1] != '/' {
        whole.append("/");
        proof {
            reveal_strlit("/");
        }
        assert(whole@ =~= dir@.push('/'));
    }
    whole.append(path);
    whole
}

/// Takes a list of components to its normal form.
fn normalize(components: &Vec<PathComponent>) -> (normal: Vec<PathComponent>)
    ensures
        parts_of(normal@) == normalized(parts_of(components@)),
{
    let ghost all = parts_of(components@);
    let mut normal: Vec<PathComponent> = Vec::new();
    let mut i: usize = 0;
    assert(parts_of(normal@) =~= normalized(all.take(0)));
    while i < components.len()
        invariant
            i <= components@.len(),
            all == parts_of(components@),
            parts_of(normal@) == normalized(all.take(i as int)),
        decreases components.len() - i,
    {
        let ghost before = parts_of(normal@);
        assert(before.len() == normal@.len());
        assert(all.take(i + 1).drop_last() =~= all.take(i as int));
        assert(all.take(i + 1).last() == components@[i as int]@);
        match &components[i] {
            PathComponent::CurDir => {},
            PathComponent::ParentDir => {
                if normal.len() > 0 {
                    assert(before.last() == normal@.last()@);
                    let is_name = match &normal[normal.len() - 1] {
                        PathComponent::Normal(_) => true,
                        _ => false,
                    };
                    if is_name {
                        normal.pop();
                        assert(parts_of(normal@) =~= before.drop_last());
                    }
                }
            },
            component => {
                let copy = copy_component(component);
                normal.push(copy);
                assert(parts_of(normal@) =~= before.push(copy@));
            },
        }
        i += 1;
    }
    assert(all.take(i as int) =~= all);
    normal
}

/// The components of the normalized absolute path that a text stands for. There are none where the
/// text depends on an unknown working directory, or where the system has not listed it.
pub fn normalize_profile_path(path: &str, host: &Host) -> (normal: Option<Vec<PathComponent>>)
    ensures
        (match normal {
            Some(components) => Some(parts_of(components@)),
            None => None,
        }) == normal_path(*host, path@),
{
    if host.platform == Platform::Windows {
        let mut i: usize = 0;
        while i < host.listed.len()
            invariant
                i <= host.listed@.len(),
                host.platform == Platform::Windows,
                absolute_parts(*host, path@) == listed_parts(host.listed@, path@, i as int),
            decreases host.listed.len() - i,
        {
            if text::same_text(host.listed[i].text.as_str(), path) {
                return Some(normalize(&host.listed[i].components));
            }
            i += 1;
        }
        return None;
    }
    let chars = text::chars_of(path);
    if chars.len() > 0 && chars[0] == '/' {
        let components = split_unix(path);
        return Some(normalize(&components));
    }
    match &host.current_dir {
        Some(dir) => {
            let whole = join_path(dir.as_str(), path);
            let components = split_unix(whole.as_str());
            Some(normalize(&components))
        },
        None => None,
    }
}

/// Whether two names are the same to the platform.
fn same_name(left: &str, right: &str, platform: Platform) -> (same: bool)
    ensures
        same == (if platform == Platform::Windows {
            text::ascii_lower(left@) == text::ascii_lower(right@)
        } else {
            left@ == right@
        }),
{
    if platform == Platform::Windows {
        text::same_chars(text::lowered(left).as_slice(), text::lowered(right).as_slice())
    } else {
        text::same_text(left, right)
    }
}

/// Whether two components are the same to the platform.
fn same_component(left: &PathComponent, right: &PathComponent, platform: Platform) -> (same: bool)
    ensures
        same == (comparable(platform, left@) == comparable(platform, right@)),
{
    match (left, right) {
        (PathComponent::Prefix(l), PathComponent::Prefix(r)) => same_name(
            l.as_str(),
            r.as_str(),
            platform,
        ),
        (PathComponent::Normal(l), PathComponent::Normal(r)) => same_name(
            l.as_str(),
            r.as_str(),
            platform,
        ),
        (PathComponent::RootDir, PathComponent::RootDir) => true,
        (PathComponent::CurDir, PathComponent::CurDir) => true,
        (PathComponent::ParentDir, PathComponent::ParentDir) => true,
        _ => false,
    }
}

/// Whether two texts name the same profile directory.
pub fn profiles_match(left: &str, right: &str, host: &Host) -> (same: bool)
    ensures
        same == paths_match(*host, left@, right@),
{
    match (normalize_profile_path(left, host), normalize_profile_path(right, host)) {
        (Some(l), Some(r)) => {
            if l.len() != r.len() {
                return false;
            }
            let ghost lp = parts_of(l@);
            let ghost rp = parts_of(r@);
            let mut i: usize = 0;
            while i < l.len()
                invariant
                    i <= l@.len(),
                    l@.len() == r@.len(),
                    lp == parts_of(l@),
                    rp == parts_of(r@),
                    paths_match(*host, left@, right@) == same_path(host.platform, lp, rp),
                    forall|j: int|
                        0 <= j < i ==> comparable(host.platform, #[trigger] lp[j]) == comparable(
                            host.platform,
                            rp[j],
                        ),
                decreases l.len() - i,
            {
                assert(lp[i as int] == l@[i as int]@ && rp[i as int] == r@[i as int]@);
                if !same_component(&l[i], &r[i], host.platform) {
                    return false;
                }
                i += 1;
            }
            true
        },
        _ => false,
    }
}

/// Whether two texts name the same program.
pub fn executable_paths_match(left: &str, right: &str, host: &Host) -> (same: bool)
    ensures
        same == paths_match(*host, left@, right@),
{
    profiles_match(left, right, host)
}

/// A normalized path holds no steps in place or back.
pub open spec fn is_normal(parts: Seq<PathPart>) -> bool {
    forall|i: int|
        0 <= i < parts.len() ==> !(#[trigger] parts[i] is CurDir) && !(parts[i] is ParentDir)
}

/// Normalizing leaves no steps in place or back.
pub proof fn law_normalized_is_normal(parts: Seq<PathPart>)
    ensures
        is_normal(normalized(parts)),
    decreases parts.len(),
{
    if parts.len() > 0 {
        law_normalized_is_normal(parts.drop_last());
    }
}

/// What is normal stays as it is.
proof fn lemma_normal_is_kept(parts: Seq<PathPart>)
    requires
        is_normal(parts),
    ensures
        normalized(parts) == parts,
    decreases parts.len(),
{
    if parts.len() > 0 {
        assert(is_normal(parts.drop_last()));
        lemma_normal_is_kept(parts.drop_last());
        assert(parts.drop_last().push(parts.last()) =~= parts);
    }
}

/// Normalizing twice is normalizing once.
pub proof fn law_normalize_idempotent(parts: Seq<PathPart>)
    ensures
        normalized(normalized(parts)) == normalized(parts),
{
    law_normalized_is_normal(parts);
    lemma_normal_is_kept(normalized(parts));
}

/// Two beginnings with the same normal form stay the same whatever follows them.
proof fn lemma_same_beginning(left: Seq<PathPart>, right: Seq<PathPart>, rest: Seq<PathPart>)
    requires
        normalized(left) == normalized(right),
    ensures
        normalized(left + rest) == normalized(right + rest),
    decreases rest.len(),
{
    if rest.len() == 0 {
        assert(left + rest =~= left);
        assert(right + rest =~= right);
    } else {
        lemma_same_beginning(left, right, rest.drop_last());
        assert((left + rest).drop_last() =~= left + rest.drop_last());
        assert((right + rest).drop_last() =~= right + rest.drop_last());
    }
}

/// A step in place changes nothing.
pub proof fn law_step_in_place(dir: Seq<PathPart>, rest: Seq<PathPart>)
    ensures
        normalized(dir.push(PathPart::CurDir) + rest) == normalized(dir + rest),
{
    assert(dir.push(PathPart::CurDir).drop_last() =~= dir);
    lemma_same_beginning(dir.push(PathPart::CurDir), dir, rest);
}

/// A step into a directory and back changes nothing.
pub proof fn law_step_in_and_back(dir: Seq<PathPart>, name: Seq<char>, rest: Seq<PathPart>)
    ensures
        normalized(dir.push(PathPart::Normal(name)).push(PathPart::ParentDir) + rest)
            == normalized(dir + rest),
{
    let inside = dir.push(PathPart::Normal(name));
    let back = inside.push(PathPart::ParentDir);
    assert(inside.drop_last() =~= dir);
    assert(back.drop_last() =~= inside);
    assert(normalized(inside) == normalized(dir).push(PathPart::Normal(name)));
    assert(normalized(back) == normalized(inside).drop_last());
    assert(normalized(back) =~= normalized(dir));
    lemma_same_beginning(back, dir, rest);
}

/// The names of a path are those before a slash and those behind it.
proof fn lemma_segments_around_slash(before: Seq<char>, after: Seq<char>)
    ensures
        segments(before.push('/') + after) == segments(before) + segments(after),
    decreases before.len(),
{
    let whole = before.push('/') + after;
    text::lemma_position_from(before, '/', 0);
    text::lemma_position_from(whole, '/', 0);
    match text::position_from(before, '/', 0) {
        Some(end) => {
            let first = text::position_from(whole, '/', 0);
            assert(whole[end] == '/');
            assert(first is Some);
            assert(first->0 == end) by {
                if first->0 < end {
                    assert(whole[first->0] == before[first->0]);
                }
            }
            assert(whole.take(end) =~= before.take(end));
            assert(whole.skip(end + 1) =~= before.skip(end + 1).push('/') + after);
            lemma_segments_around_slash(before.skip(end + 1), after);
            assert(segments(whole) =~= segments(before) + segments(after));
        },
        None => {
            let end = before.len() as int;
            let first = text::position_from(whole, '/', 0);
            assert(whole[end] == '/');
            assert(first is Some);
            assert(first->0 == end) by {
                if first->0 < end {
                    assert(whole[first->0] == before[first->0]);
                }
            }
            assert(whole.take(end) =~= before);
            assert(whole.skip(end + 1) =~= after);
        },
    }
}

/// The parts of a Unix path are those before a slash within it and the names behind that slash.
proof fn lemma_unix_parts_around_slash(dir: Seq<char>, rest: Seq<char>)
    requires
        is_rooted(dir),
    ensures
        unix_parts(dir.push('/') + rest) == unix_parts(dir) + segments(rest),
{
    lemma_segments_around_slash(dir, rest);
    assert((dir.push('/') + rest)[0] == dir[0]);
    assert(unix_parts(dir.push('/') + rest) =~= unix_parts(dir) + segments(rest));
}

/// On Unix, `dir/./rest` and `dir/rest` name the same path.
pub proof fn law_dot_segment_is_ignored(host: Host, dir: Seq<char>, rest: Seq<char>)
    requires
        host.platform != Platform::Windows,
        is_rooted(dir),
    ensures
        paths_match(host, dir.push('/').push('.').push('/') + rest, dir.push('/') + rest),
{
    reveal_strlit(".");
    let dotted = dir.push('/').push('.').push('/') + rest;
    let inner = seq!['.'].push('/') + rest;
    assert(dotted =~= dir.push('/') + inner);
    assert((dir.push('/') + inner)[0] == dir[0]);
    assert((dir.push('/') + rest)[0] == dir[0]);
    assert(seq!['.'] =~= "."@);
    lemma_segments_around_slash(seq!['.'], rest);
    text::lemma_position_from(seq!['.'], '/', 0);
    assert(segments(seq!['.']) =~= seq![]);
    assert(segments(inner) =~= segments(rest));
    lemma_unix_parts_around_slash(dir, inner);
    lemma_unix_parts_around_slash(dir, rest);
}

/// On Unix, `dir/name/../rest` and `dir/rest` name the same path.
pub proof fn law_parent_segment_steps_back(
    host: Host,
    dir: Seq<char>,
    name: Seq<char>,
    rest: Seq<char>,
)
    requires
        host.platform != Platform::Windows,
        is_rooted(dir),
        name.len() > 0,
        !name.contains('/'),
        name != "."@,
        name != ".."@,
    ensures
        paths_match(
            host,
            (dir.push('/') + name.push('/')).push('.').push('.').push('/') + rest,
            dir.push('/') + rest,
        ),
{
    reveal_strlit(".");
    reveal_strlit("..");
    let long = (dir.push('/') + name.push('/')).push('.').push('.').push('/') + rest;
    let back = seq!['.', '.'].push('/') + rest;
    let inner = name.push('/') + back;
    assert(long =~= dir.push('/') + inner);
    assert((dir.push('/') + inner)[0] == dir[0]);
    assert((dir.push('/') + rest)[0] == dir[0]);
    assert(seq!['.', '.'] =~= ".."@);
    assert("."@.len() == 1 && ".."@.len() == 2);
    text::lemma_position_from(seq!['.', '.'], '/', 0);
    assert(segments(seq!['.', '.']) =~= seq![PathPart::ParentDir]);
    text::lemma_position_from(name, '/', 0);
    assert(segments(name) =~= seq![PathPart::Normal(name)]);
    lemma_segments_around_slash(seq!['.', '.'], rest);
    lemma_segments_around_slash(name, back);
    lemma_unix_parts_around_slash(dir, inner);
    lemma_unix_parts_around_slash(dir, rest);
    let base = unix_parts(dir);
    assert(base + segments(inner) =~= base.push(PathPart::Normal(name)).push(PathPart::ParentDir)
        + segments(rest));
    law_step_in_and_back(base, name, segments(rest));
}

/// The root alone is normal.
proof fn lemma_root_is_kept()
    ensures
        normalized(seq![PathPart::RootDir]) == seq![PathPart::RootDir],
{
    let root = seq![PathPart::RootDir];
    assert(is_normal(root));
    lemma_normal_is_kept(root);
}

/// The root has no parent: a step back from it stays there.
pub proof fn law_root_has_no_parent(rest: Seq<PathPart>)
    ensures
        normalized(seq![PathPart::RootDir, PathPart::ParentDir] + rest) == normalized(
            seq![PathPart::RootDir] + rest,
        ),
{
    let root = seq![PathPart::RootDir];
    let above = seq![PathPart::RootDir, PathPart::ParentDir];
    assert(above.drop_last() =~= root);
    lemma_root_is_kept();
    lemma_same_beginning(above, root, rest);
}

/// On Unix, `/../rest` and `/rest` stand for the same normalized path.
pub proof fn law_parent_of_the_root_is_the_root(host: Host, rest: Seq<char>)
    requires
        host.platform != Platform::Windows,
    ensures
        normal_path(host, seq!['/', '.', '.', '/'] + rest) == normal_path(host, seq!['/'] + rest),
{
    reveal_strlit("..");
    reveal_strlit(".");
    let above = seq!['/', '.', '.', '/'] + rest;
    let below = seq!['/'] + rest;
    let empty: Seq<char> = seq![];
    let back = seq!['.', '.'];
    assert(back =~= ".."@);
    assert("."@.len() == 1);
    text::lemma_position_from(empty, '/', 0);
    text::lemma_position_from(back, '/', 0);
    assert(segments(empty) =~= seq![]);
    assert(segments(back) =~= seq![PathPart::ParentDir]);
    assert(above =~= empty.push('/') + (back.push('/') + rest));
    assert(below =~= empty.push('/') + rest);
    lemma_segments_around_slash(empty, back.push('/') + rest);
    lemma_segments_around_slash(back, rest);
    lemma_segments_around_slash(empty, rest);
    assert(unix_parts(above) =~= seq![PathPart::RootDir, PathPart::ParentDir] + segments(rest));
    assert(unix_parts(below) =~= seq![PathPart::RootDir] + segments(rest));
    law_root_has_no_parent(segments(rest));
}

/// A name that stands for an entry of a directory.
pub open spec fn is_name(name: Seq<char>) -> bool {
    name.len() > 0 && !name.contains('/') && name != "."@ && name != ".."@
}

/// A part of a Unix path behind its root: a name, or a step back.
pub open spec fn is_segment(part: PathPart) -> bool {
    match part {
        PathPart::Normal(name) => is_name(name),
        PathPart::ParentDir => true,
        _ => false,
    }
}

/// A normalized absolute Unix path: the root and names behind it.
pub open spec fn is_absolute_normal(parts: Seq<PathPart>) -> bool {
    &&& parts.len() > 0
    &&& parts[0] is RootDir
    &&& forall|i: int| 1 <= i < parts.len() ==> #[trigger] parts[i] is Normal && is_segment(parts[i])
}

/// The parts between slashes are names and steps back.
proof fn lemma_segments_are_segments(path: Seq<char>)
    ensures
        forall|i: int| 0 <= i < segments(path).len() ==> is_segment(#[trigger] segments(path)[i]),
    decreases path.len(),
{
    text::lemma_position_from(path, '/', 0);
    match text::position_from(path, '/', 0) {
        Some(end) => {
            lemma_segments_are_segments(path.skip(end + 1));
            let name = path.take(end);
            assert(!name.contains('/')) by {
                if name.contains('/') {
                    let i = choose|i: int| 0 <= i < name.len() && name[i] == '/';
                    assert(path[i] == '/');
                }
            }
            let first = segment_parts(name);
            let rest = segments(path.skip(end + 1));
            assert forall|i: int| 0 <= i < segments(path).len() implies is_segment(
                #[trigger] segments(path)[i],
            ) by {
                if i >= first.len() {
                    assert(segments(path)[i] == rest[i - first.len()]);
                }
            }
        },
        None => {
            assert(!path.contains('/'));
        },
    }
}

/// Names and steps back behind the root are normalized to the root and names.
proof fn lemma_rooted_is_normalized(rest: Seq<PathPart>)
    requires
        forall|i: int| 0 <= i < rest.len() ==> is_segment(#[trigger] rest[i]),
    ensures
        is_absolute_normal(normalized(seq![PathPart::RootDir] + rest)),
    decreases rest.len(),
{
    let root = seq![PathPart::RootDir];
    if rest.len() == 0 {
        assert(root + rest =~= root);
        lemma_root_is_kept();
    } else {
        let before = rest.drop_last();
        assert forall|i: int| 0 <= i < before.len() implies is_segment(#[trigger] before[i]) by {
            assert(is_segment(rest[i]));
        }
        lemma_rooted_is_normalized(before);
        assert((root + rest).drop_last() =~= root + before);
        assert(is_segment(rest[rest.len() - 1]));
        assert((root + rest).last() == rest.last());
    }
}

/// Off Windows, a path is left unresolved only where it is relative and the working directory is
/// not known.
pub proof fn law_only_relative_paths_need_a_directory(host: Host, path: Seq<char>)
    requires
        host.platform != Platform::Windows,
    ensures
        normal_path(host, path) is None <==> !is_rooted(path) && host.current_dir is None,
{
}

/// Off Windows, what a path is normalized to is absolute: the root, and behind it names alone. The
/// working directory that a relative path is seen from is itself absolute.
pub proof fn law_normal_path_is_absolute(host: Host, path: Seq<char>)
    requires
        host.platform != Platform::Windows,
        is_rooted(path) || (host.current_dir matches Some(dir) && is_rooted(dir@)),
    ensures
        normal_path(host, path) matches Some(normal) && is_absolute_normal(normal) && is_normal(
            normal,
        ),
{
    let whole = if is_rooted(path) {
        path
    } else {
        joined(host.current_dir->0@, path)
    };
    assert(is_rooted(whole));
    lemma_segments_are_segments(whole);
    lemma_rooted_is_normalized(segments(whole));
    law_normalized_is_normal(unix_parts(whole));
}

/// Names, each behind a slash.
pub open spec fn names_text(names: Seq<PathPart>) -> Seq<char>
    decreases names.len(),
{
    if names.len() == 0 {
        seq![]
    } else {
        names_text(names.drop_last()).push('/') + names.last()->Normal_0
    }
}

/// A normalized absolute Unix path, written out.
pub open spec fn path_text(parts: Seq<PathPart>) -> Seq<char> {
    if parts.len() <= 1 {
        seq!['/']
    } else {
        names_text(parts.skip(1))
    }
}

/// Names that are written out are read again.
proof fn lemma_names_are_read(names: Seq<PathPart>)
    requires
        forall|i: int|
            0 <= i < names.len() ==> #[trigger] names[i] is Normal && is_segment(names[i]),
    ensures
        segments(names_text(names)) == names,
        names.len() > 0 ==> is_rooted(names_text(names)),
    decreases names.len(),
{
    if names.len() == 0 {
        let empty: Seq<char> = seq![];
        text::lemma_position_from(empty, '/', 0);
        assert(names_text(names) =~= empty);
        assert(segments(empty) =~= seq![]);
        assert(names =~= seq![]);
    } else {
        let before = names.drop_last();
        assert forall|i: int| 0 <= i < before.len() implies #[trigger] before[i] is Normal
            && is_segment(before[i]) by {
            assert(names[i] is Normal && is_segment(names[i]));
        }
        lemma_names_are_read(before);
        let last = names[names.len() - 1];
        assert(last is Normal && is_segment(last));
        let name = last->Normal_0;
        text::lemma_position_from(name, '/', 0);
        if let Some(at) = text::position_from(name, '/', 0) {
            assert(name.contains(name[at]));
        }
        assert(segments(name) =~= seq![last]);
        lemma_segments_around_slash(names_text(before), name);
        assert(before + seq![last] =~= names);
        assert(names_text(names)[0] == '/');
    }
}

/// Off Windows, a normalized path that is written out is normalized to itself again.
pub proof fn law_normalizing_a_normal_path_keeps_it(host: Host, path: Seq<char>)
    requires
        host.platform != Platform::Windows,
        is_rooted(path) || (host.current_dir matches Some(dir) && is_rooted(dir@)),
    ensures
        normal_path(host, path) matches Some(normal) && normal_path(host, path_text(normal)) == Some(
            normal,
        ),
{
    law_normal_path_is_absolute(host, path);
    let normal = normal_path(host, path)->0;
    let names = normal.skip(1);
    assert forall|i: int| 0 <= i < names.len() implies #[trigger] names[i] is Normal && is_segment(
        names[i],
    ) by {
        assert(normal[i + 1] is Normal && is_segment(normal[i + 1]));
    }
    lemma_names_are_read(names);
    let written = path_text(normal);
    if names.len() == 0 {
        let empty: Seq<char> = seq![];
        text::lemma_position_from(empty, '/', 0);
        assert(written =~= empty.push('/') + empty);
        lemma_segments_around_slash(empty, empty);
        assert(segments(empty) =~= seq![]);
        assert(segments(written) =~= seq![]);
    }
    assert(seq![PathPart::RootDir] + names =~= normal);
    assert(unix_parts(written) =~= normal);
    lemma_normal_is_kept(normal);
}

/// A path that can be resolved matches itself.
pub proof fn law_match_reflexive(host: Host, path: Seq<char>)
    requires
        absolute_parts(host, path) is Some,
    ensures
        paths_match(host, path, path),
{
}

/// Matching does not depend on the order of the two paths.
pub proof fn law_match_symmetric(host: Host, left: Seq<char>, right: Seq<char>)
    ensures
        paths_match(host, left, right) == paths_match(host, right, left),
{
    if let (Some(l), Some(r)) = (normal_path(host, left), normal_path(host, right)) {
        assert(same_path(host.platform, l, r) ==> same_path(host.platform, r, l)) by {
            if same_path(host.platform, l, r) {
                assert forall|i: int| 0 <= i < r.len() implies comparable(
                    host.platform,
                    #[trigger] r[i],
                ) == comparable(host.platform, l[i]) by {
                    assert(comparable(host.platform, l[i]) == comparable(host.platform, r[i]));
                }
            }
        }
        assert(same_path(host.platform, r, l) ==> same_path(host.platform, l, r)) by {
            if same_path(host.platform, r, l) {
                assert forall|i: int| 0 <= i < l.len() implies comparable(
                    host.platform,
                    #[trigger] l[i],
                ) == comparable(host.platform, r[i]) by {
                    assert(comparable(host.platform, r[i]) == comparable(host.platform, l[i]));
                }
            }
        }
    }
}

/// Two paths that match a third match each other.
pub proof fn law_match_transitive(
    host: Host,
    left: Seq<char>,
    middle: Seq<char>,
    right: Seq<char>,
)
    requires
        paths_match(host, left, middle),
        paths_match(host, middle, right),
    ensures
        paths_match(host, left, right),
{
    let l = normal_path(host, left)->0;
    let m = normal_path(host, middle)->0;
    let r = normal_path(host, right)->0;
    assert forall|i: int| 0 <= i < l.len() implies comparable(host.platform, #[trigger] l[i])
        == comparable(host.platform, r[i]) by {
        assert(comparable(host.platform, l[i]) == comparable(host.platform, m[i]));
        assert(comparable(host.platform, m[i]) == comparable(host.platform, r[i]));
    }
}

/// Off Windows, two texts match exactly where both can be resolved and their normalized paths are
/// the same in every component. On Windows, the case of ASCII letters in names and prefixes is left
/// out of account, and nothing else.
pub proof fn law_match_is_equality_of_normal_paths(host: Host, left: Seq<char>, right: Seq<char>)
    ensures
        host.platform != Platform::Windows ==> (paths_match(host, left, right) <==> normal_path(
            host,
            left,
        ) is Some && normal_path(host, left) == normal_path(host, right)),
        host.platform == Platform::Windows ==> (paths_match(host, left, right) <==> match (
            normal_path(host, left),
            normal_path(host, right),
        ) {
            (Some(l), Some(r)) => l.len() == r.len() && (forall|i: int|
                0 <= i < l.len() ==> match (#[trigger] l[i], r[i]) {
                    (PathPart::Normal(a), PathPart::Normal(b)) => text::ascii_lower(a)
                        == text::ascii_lower(b),
                    (PathPart::Prefix(a), PathPart::Prefix(b)) => text::ascii_lower(a)
                        == text::ascii_lower(b),
                    (a, b) => a == b,
                }),
            _ => false,
        }),
{
    if let (Some(l), Some(r)) = (normal_path(host, left), normal_path(host, right)) {
        if host.platform != Platform::Windows {
            if paths_match(host, left, right) {
                assert forall|i: int| 0 <= i < l.len() implies l[i] == r[i] by {
                    assert(comparable(host.platform, l[i]) == comparable(host.platform, r[i]));
                }
                assert(l =~= r);
            }
        } else if paths_match(host, left, right) {
            assert forall|i: int| 0 <= i < l.len() implies match (#[trigger] l[i], r[i]) {
                (PathPart::Normal(a), PathPart::Normal(b)) => text::ascii_lower(a)
                    == text::ascii_lower(b),
                (PathPart::Prefix(a), PathPart::Prefix(b)) => text::ascii_lower(a)
                    == text::ascii_lower(b),
                (a, b) => a == b,
            } by {
                assert(comparable(host.platform, l[i]) == comparable(host.platform, r[i]));
            }
        }
    }
}

/// Two paths whose normalized forms differ in any one component do not match, off Windows.
pub proof fn law_every_component_counts(host: Host, left: Seq<char>, right: Seq<char>, i: int)
    requires
        host.platform != Platform::Windows,
        normal_path(host, left) is Some,
        normal_path(host, right) is Some,
        0 <= i < normal_path(host, left)->0.len(),
        i >= normal_path(host, right)->0.len() || normal_path(host, left)->0[i] != normal_path(
            host,
            right,
        )->0[i],
    ensures
        !paths_match(host, left, right),
        !paths_match(host, right, left),
{
    law_match_is_equality_of_normal_paths(host, left, right);
    law_match_is_equality_of_normal_paths(host, right, left);
}

/// Normalizing goes part by part: a step in place is left out, a step back takes the name before it
/// away, and everything else is kept.
pub proof fn law_normalizing_goes_part_by_part(parts: Seq<PathPart>, name: Seq<char>)
    ensures
        normalized(Seq::<PathPart>::empty()) == Seq::<PathPart>::empty(),
        normalized(parts.push(PathPart::CurDir)) == normalized(parts),
        normalized(parts.push(PathPart::Normal(name))) == normalized(parts).push(
            PathPart::Normal(name),
        ),
        normalized(parts.push(PathPart::Prefix(name))) == normalized(parts).push(
            PathPart::Prefix(name),
        ),
        normalized(parts.push(PathPart::RootDir)) == normalized(parts).push(PathPart::RootDir),
        normalized(parts.push(PathPart::ParentDir)) == if normalized(parts).len() > 0 && normalized(
            parts,
        ).last() is Normal {
            normalized(parts).drop_last()
        } else {
            normalized(parts)
        },
{
    assert(parts.push(PathPart::CurDir).drop_last() =~= parts);
    assert(parts.push(PathPart::Normal(name)).drop_last() =~= parts);
    assert(parts.push(PathPart::Prefix(name)).drop_last() =~= parts);
    assert(parts.push(PathPart::RootDir).drop_last() =~= parts);
    assert(parts.push(PathPart::ParentDir).drop_last() =~= parts);
}

/// What one name between slashes adds to a normalized path that ends in a name or at the root.
pub open spec fn with_name(dir: Seq<PathPart>, name: Seq<char>) -> Seq<PathPart> {
    if name.len() == 0 || name == "."@ {
        dir
    } else if name == ".."@ {
        if dir.len() > 1 {
            dir.drop_last()
        } else {
            dir
        }
    } else {
        dir.push(PathPart::Normal(name))
    }
}

/// A name without a slash is one segment.
proof fn lemma_one_segment(name: Seq<char>)
    requires
        !name.contains('/'),
    ensures
        segments(name) == segment_parts(name),
{
    text::lemma_position_from(name, '/', 0);
    if let Some(at) = text::position_from(name, '/', 0) {
        assert(name.contains(name[at]));
    }
}

/// One more segment behind the parts of an absolute path.
proof fn lemma_one_more_segment(parts: Seq<PathPart>, name: Seq<char>)
    requires
        is_absolute_normal(normalized(parts)),
    ensures
        normalized(parts + segment_parts(name)) == with_name(normalized(parts), name),
{
    law_normalizing_goes_part_by_part(parts, name);
    let normal = normalized(parts);
    assert(normal.len() > 1 ==> normal[normal.len() - 1] is Normal);
    if name.len() == 0 || name == "."@ {
        assert(parts + segment_parts(name) =~= parts);
    } else if name == ".."@ {
        assert(parts + segment_parts(name) =~= parts.push(PathPart::ParentDir));
    } else {
        assert(parts + segment_parts(name) =~= parts.push(PathPart::Normal(name)));
    }
}

/// Off Windows, a slash stands for the root, and a name behind it for an entry of the root.
pub proof fn law_an_absolute_path_begins_at_the_root(host: Host, name: Seq<char>)
    requires
        host.platform != Platform::Windows,
        !name.contains('/'),
    ensures
        normal_path(host, seq!['/']) == Some(seq![PathPart::RootDir]),
        normal_path(host, seq!['/'] + name) == Some(
            if name.len() == 0 || name == "."@ || name == ".."@ {
                seq![PathPart::RootDir]
            } else {
                seq![PathPart::RootDir, PathPart::Normal(name)]
            },
        ),
{
    let none: Seq<char> = seq![];
    let root = seq![PathPart::RootDir];
    lemma_root_is_kept();
    lemma_one_segment(none);
    lemma_one_segment(name);
    lemma_segments_around_slash(none, none);
    lemma_segments_around_slash(none, name);
    assert(none.push('/') + none =~= seq!['/']);
    assert(none.push('/') + name =~= seq!['/'] + name);
    assert(segment_parts(none) =~= seq![]);
    assert(unix_parts(seq!['/']) =~= root);
    assert(unix_parts(seq!['/'] + name) =~= root + segment_parts(name));
    lemma_one_more_segment(root, name);
    assert(with_name(root, name) =~= if name.len() == 0 || name == "."@ || name == ".."@ {
        root
    } else {
        seq![PathPart::RootDir, PathPart::Normal(name)]
    });
}

/// Off Windows, a name behind a path and a slash adds one component to the path. An empty name and
/// a single dot add nothing, and two dots take the last name away, but never the root.
pub proof fn law_one_more_name_is_one_more_component(
    host: Host,
    dir: Seq<char>,
    name: Seq<char>,
)
    requires
        host.platform != Platform::Windows,
        dir.len() > 0,
        dir[0] == '/',
        !name.contains('/'),
    ensures
        normal_path(host, dir) matches Some(normal) && normal.len() > 0 && normal_path(
            host,
            dir.push('/') + name,
        ) == Some(
            if name.len() == 0 || name == "."@ {
                normal
            } else if name == ".."@ {
                if normal.len() > 1 {
                    normal.drop_last()
                } else {
                    normal
                }
            } else {
                normal.push(PathPart::Normal(name))
            },
        ),
{
    law_normal_path_is_absolute(host, dir);
    lemma_one_segment(name);
    lemma_unix_parts_around_slash(dir, name);
    assert((dir.push('/') + name)[0] == dir[0]);
    lemma_one_more_segment(unix_parts(dir), name);
}

/// Off Windows, a relative path is seen from the working directory.
pub proof fn law_a_relative_path_is_seen_from_the_directory(
    host: Host,
    dir: String,
    path: Seq<char>,
)
    requires
        host.platform != Platform::Windows,
        host.current_dir == Some(dir),
        dir@.len() > 0,
        dir@[0] == '/',
        path.len() == 0 || path[0] != '/',
    ensures
        normal_path(host, path) == normal_path(host, dir@.push('/') + path),
{
    let whole = dir@.push('/') + path;
    assert(whole[0] == '/');
    if dir@.last() == '/' {
        let front = dir@.drop_last();
        assert(front.push('/') =~= dir@);
        lemma_segments_around_slash(front, path);
        lemma_segments_around_slash(dir@, path);
        let none: Seq<char> = seq![];
        lemma_one_segment(none);
        lemma_segments_around_slash(front, none);
        assert(front.push('/') + none =~= dir@);
        assert(front.push('/') + path =~= dir@ + path);
        assert(segments(dir@) =~= segments(front));
        assert((dir@ + path)[0] == '/');
        assert(unix_parts(dir@ + path) =~= unix_parts(whole));
    }
}

/// On Windows, a path is taken apart as the system lists it: the first entry with its text counts,
/// and a path without an entry is left unresolved.
pub proof fn law_windows_paths_are_taken_as_listed(host: Host, path: Seq<char>, i: int)
    requires
        host.platform == Platform::Windows,
        0 <= i <= host.listed@.len(),
        forall|j: int| 0 <= j < i ==> (#[trigger] host.listed@[j]).text@ != path,
        i < host.listed@.len() ==> host.listed@[i].text@ == path,
    ensures
        normal_path(host, path) == if i < host.listed@.len() {
            Some(
                normalized(
                    host.listed@[i].components@.map_values(|component: PathComponent| component@),
                ),
            )
        } else {
            None
        },
{
    lemma_listed_from(host.listed@, path, 0, i);
    if i < host.listed@.len() {
        assert(parts_of(host.listed@[i].components@) =~= host.listed@[i].components@.map_values(
            |component: PathComponent| component@,
        ));
    }
}

/// Entries with another text are passed over.
proof fn lemma_listed_from(listed: Seq<ListedPath>, path: Seq<char>, from: int, to: int)
    requires
        0 <= from <= to <= listed.len(),
        forall|j: int| from <= j < to ==> (#[trigger] listed[j]).text@ != path,
    ensures
        listed_parts(listed, path, from) == listed_parts(listed, path, to),
    decreases to - from,
{
    if from < to {
        assert(listed[from].text@ != path);
        lemma_listed_from(listed, path, from + 1, to);
    }
}

/// A component is looked at as what it is.
pub proof fn law_components_are_looked_at_as_they_are(name: String)
    ensures
        PathComponent::Prefix(name)@ == PathPart::Prefix(name@),
        PathComponent::RootDir@ == PathPart::RootDir,
        PathComponent::CurDir@ == PathPart::CurDir,
        PathComponent::ParentDir@ == PathPart::ParentDir,
        PathComponent::Normal(name)@ == PathPart::Normal(name@),
{
}

} // verus!
