//! Paths on the device, by the rules that the host has for its own paths.
//!
//! A path is a prefix, which only Windows knows, then a root separator, a leading `.` or nothing,
//! and then components between separators. Empty components and further `.` components carry no
//! meaning, except that under a verbatim prefix `.` is a component like any other.

use vstd::prelude::*;

use crate::text::{characters, joined, same_text};

verus! {

/// Whose rules hold for paths.
#[derive(Clone, Copy, PartialEq, Eq, Structural, Debug)]
pub enum Host {
    Unix,
    Windows,
}

/// What separates the components of a path.
#[derive(Clone, Copy, PartialEq, Eq, Structural, Debug)]
pub enum Separators {
    /// `/`.
    Slash,
    /// `/` and `\`.
    Both,
    /// `\`.
    Backslash,
}

/// The kinds of prefixes.
#[derive(Clone, Copy, PartialEq, Eq, Structural, Debug)]
pub enum PrefixKind {
    /// No prefix.
    Nothing,
    /// A drive, as in `C:`.
    Drive,
    /// A share or a device, as in `\\server\share` and `\\.\COM1`.
    Network,
    /// A verbatim prefix, as in `\\?\C:` and `\\?\UNC\server\share`.
    Verbatim,
}

/// The prefix of a path.
pub struct Prefix {
    pub kind: PrefixKind,
    pub len: nat,
}

/// Whether a character separates components.
pub open spec fn separates(seps: Separators, c: char) -> bool {
    match seps {
        Separators::Slash => c == '/',
        Separators::Both => c == '/' || c == '\\',
        Separators::Backslash => c == '\\',
    }
}

/// What separates components on a host.
pub open spec fn separators_on(host: Host) -> Separators {
    match host {
        Host::Unix => Separators::Slash,
        Host::Windows => Separators::Both,
    }
}

/// The separator that a host puts in.
pub open spec fn main_separator(host: Host) -> char {
    match host {
        Host::Unix => '/',
        Host::Windows => '\\',
    }
}

/// The place of the next separator, or the end of the path.
pub open spec fn next_separator(path: Seq<char>, seps: Separators, from: nat) -> nat
    decreases path.len() - from,
{
    if from >= path.len() {
        path.len()
    } else if separates(seps, path[from as int]) {
        from
    } else {
        next_separator(path, seps, from + 1)
    }
}

/// Whether a drive is named at a place: a letter and a colon.
pub open spec fn names_drive(path: Seq<char>, at: nat) -> bool {
    &&& at + 2 <= path.len()
    &&& 'a' <= path[at as int] <= 'z' || 'A' <= path[at as int] <= 'Z'
    &&& path[at as int + 1] == ':'
}

/// Where a server and a share end that are named from a place on: with the server if no share
/// follows.
pub open spec fn share_end(path: Seq<char>, seps: Separators, from: nat) -> nat {
    let server_end = next_separator(path, seps, from);
    let end = next_separator(path, seps, server_end + 1);
    if end > server_end + 1 {
        end
    } else {
        server_end
    }
}

/// The prefix of a path that starts with `\\?\`.
pub open spec fn verbatim_prefix(path: Seq<char>) -> Prefix {
    let len = if path.len() >= 8 && path[4] == 'U' && path[5] == 'N' && path[6] == 'C' && separates(
        Separators::Both,
        path[7],
    ) {
        share_end(path, Separators::Backslash, 8)
    } else if names_drive(path, 4) && (path.len() == 6 || separates(Separators::Both, path[6])) {
        6
    } else {
        next_separator(path, Separators::Backslash, 4)
    };
    Prefix { kind: PrefixKind::Verbatim, len }
}

/// The prefix of a path that starts with two separators and is not verbatim. A share needs a
/// server and a name.
pub open spec fn network_prefix(path: Seq<char>) -> Prefix {
    if path.len() >= 4 && path[2] == '.' && separates(Separators::Both, path[3]) {
        Prefix { kind: PrefixKind::Network, len: next_separator(path, Separators::Both, 4) }
    } else {
        let server_end = next_separator(path, Separators::Both, 2);
        let end = share_end(path, Separators::Both, 2);
        if server_end > 2 && end > server_end {
            Prefix { kind: PrefixKind::Network, len: end }
        } else {
            Prefix { kind: PrefixKind::Nothing, len: 0 }
        }
    }
}

/// The prefix of a path.
pub open spec fn prefix_of(host: Host, path: Seq<char>) -> Prefix {
    if host == Host::Unix {
        Prefix { kind: PrefixKind::Nothing, len: 0 }
    } else if path.len() >= 2 && separates(Separators::Both, path[0]) && separates(
        Separators::Both,
        path[1],
    ) {
        if path.len() >= 4 && path[0] == '\\' && path[1] == '\\' && path[2] == '?' && path[3]
            == '\\' {
            verbatim_prefix(path)
        } else {
            network_prefix(path)
        }
    } else if names_drive(path, 0) {
        Prefix { kind: PrefixKind::Drive, len: 2 }
    } else {
        Prefix { kind: PrefixKind::Nothing, len: 0 }
    }
}

/// Whether a separator stands where the prefix of a path ends.
pub open spec fn is_rooted(host: Host, path: Seq<char>) -> bool {
    let len = prefix_of(host, path).len;
    len < path.len() && separates(separators_on(host), path[len as int])
}

/// Whether a path starts, after a drive at most, with a `.` component.
pub open spec fn leads_with_dot(host: Host, path: Seq<char>) -> bool {
    let prefix = prefix_of(host, path);
    let len = prefix.len as int;
    &&& prefix.kind == PrefixKind::Nothing || prefix.kind == PrefixKind::Drive
    &&& len < path.len() && path[len] == '.'
    &&& path.len() == len + 1 || separates(separators_on(host), path[len + 1])
}

/// Where the components of a path start: after the prefix and the root separator or leading `.`.
pub open spec fn body_start(host: Host, path: Seq<char>) -> nat {
    let len = prefix_of(host, path).len;
    if is_rooted(host, path) || leads_with_dot(host, path) {
        len + 1
    } else {
        len
    }
}

/// What separates the components of a path: only `\` under a verbatim prefix.
pub open spec fn separators_of(host: Host, path: Seq<char>) -> Separators {
    if prefix_of(host, path).kind == PrefixKind::Verbatim {
        Separators::Backslash
    } else {
        separators_on(host)
    }
}

/// Where the last component of a path starts, if its components start at `from`.
pub open spec fn last_start(path: Seq<char>, seps: Separators, from: nat) -> nat
    decreases path.len(),
{
    if path.len() <= from || separates(seps, path.last()) {
        path.len()
    } else if path.len() == from + 1 {
        from
    } else {
        last_start(path.drop_last(), seps, from)
    }
}

/// The last component of a path.
pub open spec fn last_component(path: Seq<char>, seps: Separators, from: nat) -> Seq<char> {
    path.skip(last_start(path, seps, from) as int)
}

/// A path without its last component and the separator before it.
pub open spec fn without_last(path: Seq<char>, seps: Separators, from: nat) -> Seq<char> {
    let start = last_start(path, seps, from);
    if start > from {
        path.take(start - 1)
    } else {
        path.take(from as int)
    }
}

/// Whether a component carries no meaning.
pub open spec fn is_idle(seps: Separators, component: Seq<char>) -> bool {
    component.len() == 0 || component == seq!['.'] && seps != Separators::Backslash
}

/// A path without the idle components at its end.
pub open spec fn trimmed(path: Seq<char>, seps: Separators, from: nat) -> Seq<char>
    decreases path.len(),
{
    if path.len() > from && is_idle(seps, last_component(path, seps, from)) {
        proof {
            lemma_without_last(path, seps, from);
        }
        trimmed(without_last(path, seps, from), seps, from)
    } else {
        path
    }
}

/// A path without the idle components at its end, by the rules of a host.
pub open spec fn core_of(host: Host, path: Seq<char>) -> Seq<char> {
    trimmed(path, separators_of(host, path), body_start(host, path))
}

/// The components of a path that are not empty.
pub open spec fn components(path: Seq<char>, seps: Separators, from: nat) -> Seq<Seq<char>>
    decreases path.len(),
{
    if path.len() <= from {
        seq![]
    } else {
        proof {
            lemma_without_last(path, seps, from);
        }
        let before = components(without_last(path, seps, from), seps, from);
        let last = last_component(path, seps, from);
        if last.len() == 0 {
            before
        } else {
            before.push(last)
        }
    }
}

/// The components of a path, by the rules of a host.
pub open spec fn components_of(host: Host, path: Seq<char>) -> Seq<Seq<char>> {
    components(path, separators_of(host, path), body_start(host, path))
}

/// Where one component leads from a list of components: `.` nowhere and `..` back over a name.
pub open spec fn followed_one(at: Seq<Seq<char>>, component: Seq<char>) -> Seq<Seq<char>> {
    if component == seq!['.'] {
        at
    } else if component == seq!['.', '.'] {
        if at.len() > 0 && at.last() != seq!['.'] && at.last() != seq!['.', '.'] {
            at.drop_last()
        } else {
            at
        }
    } else {
        at.push(component)
    }
}

/// Where components lead from a list of components.
pub open spec fn followed(at: Seq<Seq<char>>, way: Seq<Seq<char>>) -> Seq<Seq<char>>
    decreases way.len(),
{
    if way.len() == 0 {
        at
    } else {
        followed_one(followed(at, way.drop_last()), way.last())
    }
}

/// Components with a `\` before each.
pub open spec fn spelled(components: Seq<Seq<char>>) -> Seq<char>
    decreases components.len(),
{
    if components.len() == 0 {
        seq![]
    } else {
        spelled(components.drop_last()) + seq!['\\'] + components.last()
    }
}

/// `name` seen from a `base` with a verbatim prefix: the path is spelled anew, and `.` and `..` in
/// `name` are followed.
pub open spec fn verbatim_join(base: Seq<char>, name: Seq<char>) -> Seq<char> {
    let rooted = is_rooted(Host::Windows, name);
    let at = if rooted {
        seq![]
    } else {
        components_of(Host::Windows, base)
    };
    let all = followed(at, components_of(Host::Windows, name));
    let prefix = base.take(prefix_of(Host::Windows, base).len as int);
    if all.len() == 0 && (rooted || is_rooted(Host::Windows, base)) {
        prefix + seq!['\\']
    } else {
        prefix + spelled(all)
    }
}

/// Whether a separator is missing between a path and what is put behind it. A bare drive needs
/// none.
pub open spec fn lacks_separator(host: Host, base: Seq<char>) -> bool {
    &&& base.len() > 0
    &&& !separates(separators_on(host), base.last())
    &&& !(prefix_of(host, base).kind == PrefixKind::Drive && base.len() == 2)
}

/// `name` put behind `base`.
pub open spec fn appended(host: Host, base: Seq<char>, name: Seq<char>) -> Seq<char> {
    if lacks_separator(host, base) {
        base + seq![main_separator(host)] + name
    } else {
        base + name
    }
}

/// `name` seen from `base`: a name with a prefix stands for itself, one with a root replaces all
/// but the prefix of `base`, and any other is put behind `base`.
pub open spec fn join_of(host: Host, base: Seq<char>, name: Seq<char>) -> Seq<char> {
    if prefix_of(host, name).kind != PrefixKind::Nothing {
        name
    } else if prefix_of(host, base).kind == PrefixKind::Verbatim && name.len() > 0 {
        verbatim_join(base, name)
    } else if is_rooted(host, name) {
        base.take(prefix_of(host, base).len as int) + name
    } else {
        appended(host, base, name)
    }
}

/// The directory that holds what a path names: none for a bare prefix or root and for the empty
/// path.
pub open spec fn parent_of(host: Host, path: Seq<char>) -> Option<Seq<char>> {
    let seps = separators_of(host, path);
    let from = body_start(host, path);
    let core = core_of(host, path);
    if core.len() > from {
        Some(trimmed(without_last(core, seps, from), seps, from))
    } else if prefix_of(host, path).kind == PrefixKind::Nothing && core.len() > 0 && core[0] == '.' {
        Some(seq![])
    } else {
        None
    }
}

/// The name of what a path names, if its last component is a name.
pub open spec fn file_name_of(host: Host, path: Seq<char>) -> Option<Seq<char>> {
    let seps = separators_of(host, path);
    let from = body_start(host, path);
    let core = core_of(host, path);
    let last = last_component(core, seps, from);
    if core.len() > from && last != seq!['.', '.'] && last != seq!['.'] {
        Some(last)
    } else {
        None
    }
}

proof fn lemma_next_separator(path: Seq<char>, seps: Separators, from: nat)
    ensures
        next_separator(path, seps, from) <= path.len(),
        from <= path.len() ==> from <= next_separator(path, seps, from),
        next_separator(path, seps, from) < path.len() ==> separates(
            seps,
            path[next_separator(path, seps, from) as int],
        ),
    decreases path.len() - from,
{
    if from < path.len() && !separates(seps, path[from as int]) {
        lemma_next_separator(path, seps, from + 1);
    }
}

/// A prefix and what follows it lie in the path.
proof fn lemma_body_start(host: Host, path: Seq<char>)
    ensures
        prefix_of(host, path).len <= body_start(host, path) <= path.len(),
{
    lemma_next_separator(path, Separators::Backslash, 8);
    lemma_next_separator(
        path,
        Separators::Backslash,
        next_separator(path, Separators::Backslash, 8) + 1,
    );
    lemma_next_separator(path, Separators::Backslash, 4);
    lemma_next_separator(path, Separators::Both, 4);
    lemma_next_separator(path, Separators::Both, 2);
    lemma_next_separator(path, Separators::Both, next_separator(path, Separators::Both, 2) + 1);
}

proof fn lemma_last_start(path: Seq<char>, seps: Separators, from: nat)
    requires
        from < path.len(),
    ensures
        from <= last_start(path, seps, from) <= path.len(),
        last_start(path, seps, from) > from ==> separates(
            seps,
            path[last_start(path, seps, from) - 1],
        ),
        forall|i: int|
            last_start(path, seps, from) <= i < path.len() ==> !separates(seps, #[trigger] path[i]),
    decreases path.len(),
{
    if !separates(seps, path.last()) && path.len() > from + 1 {
        lemma_last_start(path.drop_last(), seps, from);
        let start = last_start(path.drop_last(), seps, from);
        assert forall|i: int| start <= i < path.len() implies !separates(
            seps,
            #[trigger] path[i],
        ) by {
            if i < path.len() - 1 {
                assert(path[i] == path.drop_last()[i]);
            }
        }
    }
}

/// The start of the last component is the only place of its kind.
proof fn lemma_last_start_unique(path: Seq<char>, seps: Separators, from: nat, at: nat)
    requires
        from <= at <= path.len(),
        from < path.len(),
        at > from ==> separates(seps, path[at - 1]),
        forall|i: int| at <= i < path.len() ==> !separates(seps, #[trigger] path[i]),
    ensures
        last_start(path, seps, from) == at,
{
    lemma_last_start(path, seps, from);
    let start = last_start(path, seps, from);
    if start < at {
        assert(separates(seps, path[at - 1]));
    }
}

/// Taking the last component away leaves a shorter path that still holds what comes before the
/// components.
pub proof fn lemma_without_last(path: Seq<char>, seps: Separators, from: nat)
    requires
        path.len() > from,
    ensures
        from <= without_last(path, seps, from).len() < path.len(),
        without_last(path, seps, from) == path.take(without_last(path, seps, from).len() as int),
{
    lemma_last_start(path, seps, from);
    let shorter = without_last(path, seps, from);
    assert(shorter =~= path.take(shorter.len() as int));
}

proof fn lemma_trimmed(path: Seq<char>, seps: Separators, from: nat)
    requires
        from <= path.len(),
    ensures
        from <= trimmed(path, seps, from).len() <= path.len(),
        trimmed(path, seps, from) == path.take(trimmed(path, seps, from).len() as int),
    decreases path.len(),
{
    if path.len() > from && is_idle(seps, last_component(path, seps, from)) {
        lemma_without_last(path, seps, from);
        let shorter = without_last(path, seps, from);
        lemma_trimmed(shorter, seps, from);
        let n = trimmed(shorter, seps, from).len() as int;
        assert(path.take(shorter.len() as int).take(n) =~= path.take(n));
    } else {
        assert(path =~= path.take(path.len() as int));
    }
}

/// Whether `name` can stand between separators as a component that carries meaning.
pub open spec fn is_component(host: Host, name: Seq<char>) -> bool {
    &&& name.len() > 0
    &&& name != seq!['.']
    &&& forall|i: int| 0 <= i < name.len() ==> !separates(separators_on(host), #[trigger] name[i])
}

/// Whether a name goes behind a directory's path without changing how that path is read. On Unix
/// every component does.
pub open spec fn extends(host: Host, dir: Seq<char>, name: Seq<char>) -> bool {
    let path = join_of(host, dir, name);
    &&& path == appended(host, dir, name)
    &&& lacks_separator(host, dir) || dir.len() == body_start(host, dir) || separates(
        separators_of(host, dir),
        dir.last(),
    )
    &&& separators_of(host, path) == separators_of(host, dir)
    &&& body_start(host, path) == body_start(host, dir)
}

/// Whether `path` is `root` or lies below it.
pub open spec fn is_inside(host: Host, root: Seq<char>, path: Seq<char>) -> bool {
    &&& root.len() <= path.len()
    &&& path.take(root.len() as int) == root
    &&& root.len() < path.len() ==> separates(separators_on(host), root.last()) || separates(
        separators_on(host),
        path[root.len() as int],
    )
}

/// Where one step up from `path` leads when `root` bounds the way: to the parent, or to `root` if
/// the parent's path is the shorter one.
pub open spec fn climbed(host: Host, root: Seq<char>, path: Seq<char>) -> Option<Seq<char>> {
    match parent_of(host, path) {
        Some(dir) => Some(
            if vstd::utf8::encode_utf8(dir).len() < vstd::utf8::encode_utf8(root).len() {
                root
            } else {
                dir
            },
        ),
        None => None,
    }
}

/// Law: on Unix a component goes behind every directory's path.
pub proof fn unix_components_extend(dir: Seq<char>, name: Seq<char>)
    requires
        is_component(Host::Unix, name),
    ensures
        extends(Host::Unix, dir, name),
{
    let path = join_of(Host::Unix, dir, name);
    assert(!separates(Separators::Slash, name[0]));
    if dir.len() == 0 {
        assert(path =~= name);
        if name.len() == 1 && name[0] == '.' {
            assert(name =~= seq!['.']);
        }
        if name.len() > 1 {
            assert(!separates(Separators::Slash, name[1]));
        }
    } else {
        assert(path[0] == dir[0]);
        if dir.len() > 1 {
            assert(path[1] == dir[1]);
        } else if dir[0] == '.' {
            assert(path[1] == '/');
        }
    }
}

/// Law: on Windows a component without a prefix goes behind every directory's path that does not
/// start with two separators.
pub proof fn windows_components_extend(dir: Seq<char>, name: Seq<char>)
    requires
        is_component(Host::Windows, name),
        prefix_of(Host::Windows, name).kind == PrefixKind::Nothing,
        !(dir.len() >= 2 && separates(Separators::Both, dir[0]) && separates(
            Separators::Both,
            dir[1],
        )),
    ensures
        extends(Host::Windows, dir, name),
{
    let path = join_of(Host::Windows, dir, name);
    assert(!separates(Separators::Both, name[0]));
    if dir.len() == 0 {
        assert(path =~= name);
        if name.len() == 1 && name[0] == '.' {
            assert(name =~= seq!['.']);
        }
        if name.len() > 1 {
            assert(!separates(Separators::Both, name[1]));
        }
    } else {
        assert(path[0] == dir[0]);
        if dir.len() == 1 {
            assert(separates(Separators::Both, dir[0]) || path[1] == '\\');
        } else {
            assert(path[1] == dir[1]);
            if names_drive(dir, 0) {
                if dir.len() == 2 {
                    assert(path[2] == name[0]);
                    if name.len() == 1 && name[0] == '.' {
                        assert(name =~= seq!['.']);
                    }
                    if name.len() > 1 {
                        assert(path[3] == name[1]);
                        assert(!separates(Separators::Both, name[1]));
                    }
                } else {
                    assert(path[2] == dir[2]);
                    if dir.len() > 3 {
                        assert(path[3] == dir[3]);
                    } else if dir[2] == '.' {
                        assert(path[3] == '\\');
                    }
                }
            }
        }
    }
}

proof fn lemma_joined_last(host: Host, dir: Seq<char>, name: Seq<char>)
    requires
        is_component(host, name),
        extends(host, dir, name),
    ensures
        ({
            let path = join_of(host, dir, name);
            let seps = separators_of(host, dir);
            let from = body_start(host, dir);
            &&& from < path.len()
            &&& last_component(path, seps, from) == name
            &&& core_of(host, path) == path
            &&& trimmed(without_last(path, seps, from), seps, from) == core_of(host, dir)
        }),
{
    let path = join_of(host, dir, name);
    let seps = separators_of(host, dir);
    let from = body_start(host, dir);
    let start = (path.len() - name.len()) as nat;
    lemma_body_start(host, dir);
    assert forall|i: int| start <= i < path.len() implies !separates(seps, #[trigger] path[i]) by {
        assert(path[i] == name[i - start]);
        assert(!separates(separators_on(host), name[i - start]));
    }
    if start > from {
        assert(separates(seps, path[start - 1]));
    }
    lemma_last_start_unique(path, seps, from, start);
    assert(last_component(path, seps, from) =~= name);
    if lacks_separator(host, dir) {
        assert(without_last(path, seps, from) =~= dir);
    } else if start == from {
        assert(without_last(path, seps, from) =~= dir);
    } else {
        assert(without_last(path, seps, from) =~= dir.take(dir.len() - 1));
        lemma_last_start_unique(dir, seps, from, dir.len());
        assert(last_component(dir, seps, from).len() == 0);
        assert(without_last(dir, seps, from) =~= dir.take(dir.len() - 1));
    }
}

/// Law: going into a directory and up again leads back, up to idle components at the end of the
/// path that was left.
pub proof fn parent_of_joined(host: Host, dir: Seq<char>, name: Seq<char>)
    requires
        is_component(host, name),
        host == Host::Unix || extends(host, dir, name),
    ensures
        parent_of(host, join_of(host, dir, name)) == Some(core_of(host, dir)),
{
    if host == Host::Unix {
        unix_components_extend(dir, name);
    }
    lemma_joined_last(host, dir, name);
}

/// Law: the name of an item in a directory is found again in the item's path.
pub proof fn file_name_of_joined(host: Host, dir: Seq<char>, name: Seq<char>)
    requires
        is_component(host, name),
        host == Host::Unix || extends(host, dir, name),
        name != seq!['.', '.'],
    ensures
        file_name_of(host, join_of(host, dir, name)) == Some(name),
{
    if host == Host::Unix {
        unix_components_extend(dir, name);
    }
    lemma_joined_last(host, dir, name);
}

/// Law: an item's path lies below the directory's path that it was put behind, unless that is a
/// bare drive.
pub proof fn joined_is_inside(host: Host, dir: Seq<char>, name: Seq<char>)
    requires
        dir.len() > 0,
        join_of(host, dir, name) == appended(host, dir, name),
        name.len() > 0 ==> lacks_separator(host, dir) || separates(
            separators_on(host),
            dir.last(),
        ),
    ensures
        is_inside(host, dir, join_of(host, dir, name)),
{
    assert(join_of(host, dir, name).take(dir.len() as int) =~= dir);
}

/// A parent's path is the beginning of the path.
proof fn lemma_parent_prefix(host: Host, path: Seq<char>)
    ensures
        parent_of(host, path) matches Some(dir) ==> dir.len() <= path.len() && dir == path.take(
            dir.len() as int,
        ),
{
    let seps = separators_of(host, path);
    let from = body_start(host, path);
    let core = core_of(host, path);
    lemma_body_start(host, path);
    lemma_trimmed(path, seps, from);
    if core.len() > from {
        lemma_without_last(core, seps, from);
        let shorter = without_last(core, seps, from);
        lemma_trimmed(shorter, seps, from);
        let dir = trimmed(shorter, seps, from);
        assert(dir =~= path.take(dir.len() as int));
    } else {
        assert(path.take(0) =~= seq![]);
    }
}

/// What is left out at the end of a text takes up room.
pub proof fn lemma_encoded_prefix(whole: Seq<char>, n: int)
    requires
        0 <= n <= whole.len(),
    ensures
        vstd::utf8::encode_utf8(whole.take(n)).len() + (whole.len() - n) <= vstd::utf8::encode_utf8(
            whole,
        ).len(),
    decreases whole.len(),
{
    if n > 0 {
        assert(whole.take(n).drop_first() =~= whole.drop_first().take(n - 1));
        lemma_encoded_prefix(whole.drop_first(), n - 1);
    } else if whole.len() > 0 {
        assert(whole.take(0) =~= whole.drop_first().take(0));
        lemma_encoded_prefix(whole.drop_first(), 0);
    } else {
        assert(whole.take(0) =~= whole);
    }
}

/// Law: a step up from inside a root stays inside it.
pub proof fn climbed_stays_inside(host: Host, root: Seq<char>, path: Seq<char>)
    requires
        is_inside(host, root, path),
    ensures
        climbed(host, root, path) matches Some(dir) ==> is_inside(host, root, dir),
{
    lemma_parent_prefix(host, path);
    assert(root.take(root.len() as int) =~= root);
    if let Some(dir) = parent_of(host, path) {
        let n = dir.len() as int;
        if n < root.len() {
            assert(dir =~= root.take(n));
            lemma_encoded_prefix(root, n);
        } else {
            assert(dir.take(root.len() as int) =~= path.take(root.len() as int));
            if root.len() < n {
                assert(dir[root.len() as int] == path[root.len() as int]);
            }
        }
    }
}

/// Decides whether a character separates components.
fn is_separator(seps: Separators, c: char) -> (yes: bool)
    ensures
        yes == separates(seps, c),
{
    match seps {
        Separators::Slash => c == '/',
        Separators::Both => c == '/' || c == '\\',
        Separators::Backslash => c == '\\',
    }
}

/// What separates components on a host.
fn host_separators(host: Host) -> (seps: Separators)
    ensures
        seps == separators_on(host),
{
    match host {
        Host::Unix => Separators::Slash,
        Host::Windows => Separators::Both,
    }
}

/// Finds the next separator.
fn find_separator(chars: &Vec<char>, seps: Separators, from: usize) -> (at: usize)
    ensures
        at == next_separator(chars@, seps, from as nat),
        at <= chars@.len(),
{
    if from >= chars.len() {
        return chars.len();
    }
    let mut i: usize = from;
    while i < chars.len() && !is_separator(seps, chars[i])
        invariant
            from <= i <= chars@.len(),
            next_separator(chars@, seps, i as nat) == next_separator(chars@, seps, from as nat),
        decreases chars@.len() - i,
    {
        i += 1;
    }
    i
}

/// Decides whether a drive is named at a place.
fn is_drive(chars: &Vec<char>, at: usize) -> (yes: bool)
    requires
        at <= 4,
    ensures
        yes == names_drive(chars@, at as nat),
{
    chars.len() >= at + 2 && ('a' <= chars[at] && chars[at] <= 'z' || 'A' <= chars[at] && chars[at]
        <= 'Z') && chars[at + 1] == ':'
}

/// Finds the end of a server and a share.
fn find_share_end(chars: &Vec<char>, seps: Separators, from: usize) -> (end: usize)
    ensures
        end == share_end(chars@, seps, from as nat),
{
    let server_end = find_separator(chars, seps, from);
    if server_end >= chars.len() {
        return server_end;
    }
    let end = find_separator(chars, seps, server_end + 1);
    if end > server_end + 1 {
        end
    } else {
        server_end
    }
}

/// Finds the prefix of a path.
fn find_prefix(host: Host, chars: &Vec<char>) -> (prefix: (PrefixKind, usize))
    ensures
        prefix.0 == prefix_of(host, chars@).kind,
        prefix.1 == prefix_of(host, chars@).len,
        prefix.1 <= chars@.len(),
{
    proof {
        lemma_body_start(host, chars@);
    }
    let both = Separators::Both;
    let n = chars.len();
    match host {
        Host::Unix => {
            return (PrefixKind::Nothing, 0);
        },
        Host::Windows => {},
    }
    if n >= 2 && is_separator(both, chars[0]) && is_separator(both, chars[1]) {
        if n >= 4 && chars[0] == '\\' && chars[1] == '\\' && chars[2] == '?' && chars[3] == '\\' {
            let len = if n >= 8 && chars[4] == 'U' && chars[5] == 'N' && chars[6] == 'C'
                && is_separator(both, chars[7]) {
                find_share_end(chars, Separators::Backslash, 8)
            } else if is_drive(chars, 4) && (n == 6 || is_separator(both, chars[6])) {
                6
            } else {
                find_separator(chars, Separators::Backslash, 4)
            };
            (PrefixKind::Verbatim, len)
        } else if n >= 4 && chars[2] == '.' && is_separator(both, chars[3]) {
            (PrefixKind::Network, find_separator(chars, both, 4))
        } else {
            let server_end = find_separator(chars, both, 2);
            let end = find_share_end(chars, both, 2);
            if server_end > 2 && end > server_end {
                (PrefixKind::Network, end)
            } else {
                (PrefixKind::Nothing, 0)
            }
        }
    } else if is_drive(chars, 0) {
        (PrefixKind::Drive, 2)
    } else {
        (PrefixKind::Nothing, 0)
    }
}

/// How a path is read.
struct Reading {
    kind: PrefixKind,
    prefix: usize,
    rooted: bool,
    seps: Separators,
    start: usize,
}

/// Reads what comes before the components of a path.
fn read_start(host: Host, chars: &Vec<char>) -> (reading: Reading)
    ensures
        reading.kind == prefix_of(host, chars@).kind,
        reading.prefix == prefix_of(host, chars@).len,
        reading.rooted == is_rooted(host, chars@),
        reading.seps == separators_of(host, chars@),
        reading.start == body_start(host, chars@),
        reading.prefix <= reading.start <= chars@.len(),
{
    proof {
        lemma_body_start(host, chars@);
    }
    let (kind, prefix) = find_prefix(host, chars);
    let both = host_separators(host);
    let n = chars.len();
    let rooted = prefix < n && is_separator(both, chars[prefix]);
    let dotted = match kind {
        PrefixKind::Nothing | PrefixKind::Drive => prefix < n && chars[prefix] == '.' && (n - prefix
            == 1 || is_separator(both, chars[prefix + 1])),
        _ => false,
    };
    let seps = match kind {
        PrefixKind::Verbatim => Separators::Backslash,
        _ => both,
    };
    let start = if rooted || dotted {
        prefix + 1
    } else {
        prefix
    };
    Reading { kind, prefix, rooted, seps, start }
}

/// Finds the last component of the first `n` characters.
fn start_at(chars: &Vec<char>, n: usize, seps: Separators, from: usize) -> (start: usize)
    requires
        from < n <= chars@.len(),
    ensures
        start == last_start(chars@.take(n as int), seps, from as nat),
        from <= start <= n,
{
    let mut i: usize = n;
    while i > from && !is_separator(seps, chars[i - 1])
        invariant
            from <= i <= n <= chars@.len(),
            forall|k: int| i <= k < n ==> !separates(seps, #[trigger] chars@[k]),
        decreases i,
    {
        i -= 1;
    }
    proof {
        lemma_last_start_unique(chars@.take(n as int), seps, from as nat, i as nat);
    }
    i
}

/// Shortens the first `n` characters by their last component.
fn shorter_at(chars: &Vec<char>, n: usize, seps: Separators, from: usize) -> (len: usize)
    requires
        from < n <= chars@.len(),
    ensures
        from <= len < n,
        chars@.take(len as int) == without_last(chars@.take(n as int), seps, from as nat),
{
    let start = start_at(chars, n, seps, from);
    let len: usize = if start > from {
        start - 1
    } else {
        from
    };
    proof {
        assert(chars@.take(len as int) =~= chars@.take(n as int).take(len as int));
    }
    len
}

/// Drops the idle components at the end of the first `n` characters.
fn trimmed_at(chars: &Vec<char>, n: usize, seps: Separators, from: usize) -> (len: usize)
    requires
        from <= n <= chars@.len(),
    ensures
        from <= len <= n,
        chars@.take(len as int) == trimmed(chars@.take(n as int), seps, from as nat),
{
    let mut m: usize = n;
    loop
        invariant
            from <= m <= n <= chars@.len(),
            trimmed(chars@.take(m as int), seps, from as nat) == trimmed(
                chars@.take(n as int),
                seps,
                from as nat,
            ),
        decreases m,
    {
        let ghost here = chars@.take(m as int);
        if m <= from {
            return m;
        }
        let start = start_at(chars, m, seps, from);
        let verbatim = match seps {
            Separators::Backslash => true,
            _ => false,
        };
        proof {
            let last = last_component(here, seps, from as nat);
            assert(last =~= chars@.subrange(start as int, m as int));
            if m - start == 1 && chars@[start as int] == '.' {
                assert(last =~= seq!['.']);
            }
            if last == seq!['.'] {
                assert(last[0] == '.');
            }
        }
        if start < m && (verbatim || !(m - start == 1 && chars[start] == '.')) {
            return m;
        }
        m = shorter_at(chars, m, seps, from);
    }
}

/// The model of a list of texts.
pub open spec fn texts_view(texts: Seq<String>) -> Seq<Seq<char>> {
    Seq::new(texts.len(), |i: int| texts[i]@)
}

/// Lists the components of the first `n` characters of a path.
fn components_at(
    path: &str,
    chars: &Vec<char>,
    n: usize,
    seps: Separators,
    from: usize,
) -> (list: Vec<String>)
    requires
        chars@ == path@,
        n <= chars@.len(),
    ensures
        texts_view(list@) == components(chars@.take(n as int), seps, from as nat),
    decreases n,
{
    if n <= from {
        let list: Vec<String> = Vec::new();
        proof {
            assert(texts_view(list@) =~= seq![]);
        }
        return list;
    }
    let start = start_at(chars, n, seps, from);
    let shorter = shorter_at(chars, n, seps, from);
    let mut list = components_at(path, chars, shorter, seps, from);
    let ghost before = list@;
    if start < n {
        list.push(path.substring_char(start, n).to_owned());
        proof {
            assert(list@.last()@ =~= last_component(chars@.take(n as int), seps, from as nat));
            assert(texts_view(list@) =~= texts_view(before).push(list@.last()@));
        }
    }
    list
}

/// Decides whether a text is one dot, or two.
fn is_dot(text: &str, two: bool) -> (yes: bool)
    ensures
        yes == (text@ == if two {
            seq!['.', '.']
        } else {
            seq!['.']
        }),
{
    proof {
        reveal_strlit(".");
        reveal_strlit("..");
        assert("."@ =~= seq!['.']);
        assert(".."@ =~= seq!['.', '.']);
    }
    if two {
        same_text(text, "..")
    } else {
        same_text(text, ".")
    }
}

/// Follows components from a list of components.
fn follow(at: Vec<String>, way: Vec<String>) -> (list: Vec<String>)
    ensures
        texts_view(list@) == followed(texts_view(at@), texts_view(way@)),
{
    let mut list = at;
    let ghost begin = texts_view(at@);
    let ghost all = texts_view(way@);
    proof {
        assert(all.take(0) =~= seq![]);
    }
    for component in iter: way
        invariant
            all == texts_view(iter.seq()),
            texts_view(list@) == followed(begin, all.take(iter.index())),
    {
        let ghost before = list@;
        proof {
            let i = iter.index();
            assert(all.take(i + 1).drop_last() =~= all.take(i));
            assert(all.take(i + 1).last() == component@);
        }
        if is_dot(component.as_str(), false) {
        } else if is_dot(component.as_str(), true) {
            let n = list.len();
            if n > 0 {
                let last = list[n - 1].as_str();
                if !is_dot(last, false) && !is_dot(last, true) {
                    let _ = list.pop();
                    proof {
                        assert(texts_view(list@) =~= texts_view(before).drop_last());
                    }
                }
            }
        } else {
            list.push(component);
            proof {
                assert(texts_view(list@) =~= texts_view(before).push(component@));
            }
        }
    }
    proof {
        assert(all.take(all.len() as int) =~= all);
    }
    list
}

/// Puts a name behind a base with a verbatim prefix.
fn join_verbatim(base: &str, dir: &Vec<char>, name: &str, chars: &Vec<char>) -> (path: String)
    requires
        dir@ == base@,
        chars@ == name@,
    ensures
        path@ == verbatim_join(base@, name@),
{
    let from = read_start(Host::Windows, dir);
    let to = read_start(Host::Windows, chars);
    proof {
        assert(dir@.take(dir@.len() as int) =~= base@);
        assert(chars@.take(chars@.len() as int) =~= name@);
    }
    let at: Vec<String> = if to.rooted {
        let none: Vec<String> = Vec::new();
        proof {
            assert(texts_view(none@) =~= seq![]);
        }
        none
    } else {
        components_at(base, dir, dir.len(), from.seps, from.start)
    };
    let way = components_at(name, chars, chars.len(), to.seps, to.start);
    let all = follow(at, way);
    let ghost texts = texts_view(all@);
    let mut path = base.substring_char(0, from.prefix).to_owned();
    let ghost prefix = path@;
    proof {
        reveal_strlit("\\");
        assert("\\"@ =~= seq!['\\']);
        assert(prefix =~= base@.take(from.prefix as int));
        assert(texts.take(0) =~= seq![]);
    }
    if all.len() == 0 && (to.rooted || from.rooted) {
        path.append("\\");
        return path;
    }
    let mut i: usize = 0;
    while i < all.len()
        invariant
            i <= all@.len(),
            texts == texts_view(all@),
            "\\"@ == seq!['\\'],
            path@ == prefix + spelled(texts.take(i as int)),
        decreases all@.len() - i,
    {
        proof {
            assert(texts.take(i + 1).drop_last() =~= texts.take(i as int));
            assert(texts.take(i + 1).last() == all@[i as int]@);
        }
        path.append("\\");
        path.append(all[i].as_str());
        i += 1;
        proof {
            assert(path@ =~= prefix + spelled(texts.take(i as int)));
        }
    }
    proof {
        assert(texts.take(i as int) =~= texts);
    }
    path
}

/// Puts a name behind a directory's path.
pub fn join(host: Host, base: &str, name: &str) -> (path: String)
    ensures
        path@ == join_of(host, base@, name@),
{
    let chars = characters(name);
    let dir = characters(base);
    let (kind, _) = find_prefix(host, &chars);
    match kind {
        PrefixKind::Nothing => {},
        _ => {
            return name.to_owned();
        },
    }
    let from = read_start(host, &dir);
    match from.kind {
        PrefixKind::Verbatim => {
            if chars.len() > 0 {
                return join_verbatim(base, &dir, name, &chars);
            }
        },
        _ => {},
    }
    if read_start(host, &chars).rooted {
        let root = base.substring_char(0, from.prefix);
        proof {
            assert(root@ =~= base@.take(from.prefix as int));
        }
        return joined(root, name);
    }
    let bare_drive = match from.kind {
        PrefixKind::Drive => dir.len() == 2,
        _ => false,
    };
    if dir.len() == 0 || is_separator(host_separators(host), dir[dir.len() - 1]) || bare_drive {
        joined(base, name)
    } else {
        let separator = match host {
            Host::Unix => "/",
            Host::Windows => "\\",
        };
        proof {
            reveal_strlit("/");
            reveal_strlit("\\");
            assert("/"@ =~= seq!['/']);
            assert("\\"@ =~= seq!['\\']);
        }
        joined(joined(base, separator).as_str(), name)
    }
}

/// The directory that holds what `path` names.
pub fn parent(host: Host, path: &str) -> (dir: Option<String>)
    ensures
        match dir {
            Some(dir) => parent_of(host, path@) == Some(dir@),
            None => parent_of(host, path@) is None,
        },
{
    let chars = characters(path);
    proof {
        assert(chars@.take(chars@.len() as int) =~= path@);
    }
    let reading = read_start(host, &chars);
    let n = trimmed_at(&chars, chars.len(), reading.seps, reading.start);
    if n > reading.start {
        let shorter = shorter_at(&chars, n, reading.seps, reading.start);
        let m = trimmed_at(&chars, shorter, reading.seps, reading.start);
        proof {
            assert(path@.subrange(0, m as int) =~= chars@.take(m as int));
        }
        return Some(path.substring_char(0, m).to_owned());
    }
    match reading.kind {
        PrefixKind::Nothing if n > 0 && chars[0] == '.' => Some(String::new()),
        _ => None,
    }
}

/// The name of what `path` names.
pub fn file_name(host: Host, path: &str) -> (name: Option<String>)
    ensures
        match name {
            Some(name) => file_name_of(host, path@) == Some(name@),
            None => file_name_of(host, path@) is None,
        },
{
    let chars = characters(path);
    proof {
        assert(chars@.take(chars@.len() as int) =~= path@);
    }
    let reading = read_start(host, &chars);
    let n = trimmed_at(&chars, chars.len(), reading.seps, reading.start);
    if n <= reading.start {
        return None;
    }
    let start = start_at(&chars, n, reading.seps, reading.start);
    let name = path.substring_char(start, n).to_owned();
    proof {
        assert(last_component(chars@.take(n as int), reading.seps, reading.start as nat)
            =~= path@.subrange(start as int, n as int));
    }
    if is_dot(name.as_str(), false) || is_dot(name.as_str(), true) {
        None
    } else {
        Some(name)
    }
}

} // verus!
