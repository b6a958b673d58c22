//! What paths on the device are made of, said character by character.

use vstd::prelude::*;

use crate::remote_path::{self, Host, PrefixKind, Separators};

verus! {

/// Whether a character is a separator on Windows.
pub open spec fn is_slash(c: char) -> bool {
    c == '/' || c == '\\'
}

/// Whether no character of a stretch of a path is a slash of either kind.
pub open spec fn no_slash(path: Seq<char>, from: int, to: int) -> bool {
    forall|i: int| from <= i < to ==> !is_slash(#[trigger] path[i])
}

/// Whether no character of a stretch of a path is a backslash.
pub open spec fn no_backslash(path: Seq<char>, from: int, to: int) -> bool {
    forall|i: int| from <= i < to ==> #[trigger] path[i] != '\\'
}

/// Whether no character of a stretch of a path separates components.
pub open spec fn unbroken(path: Seq<char>, seps: Separators, from: int, to: int) -> bool {
    forall|i: int| from <= i < to ==> !remote_path::separates(seps, #[trigger] path[i])
}

/// Whether a path starts with two slashes of either kind.
pub open spec fn starts_twice(path: Seq<char>) -> bool {
    path.len() >= 2 && is_slash(path[0]) && is_slash(path[1])
}

/// Whether a path starts with `\\?\`.
pub open spec fn starts_verbatim(path: Seq<char>) -> bool {
    path.len() >= 4 && path[0] == '\\' && path[1] == '\\' && path[2] == '?' && path[3] == '\\'
}

/// Whether a letter and a colon stand at a place.
pub open spec fn drive_at(path: Seq<char>, at: int) -> bool {
    &&& at + 1 < path.len()
    &&& 'a' <= path[at] <= 'z' || 'A' <= path[at] <= 'Z'
    &&& path[at + 1] == ':'
}

/// Law: a slash separates everywhere but under a verbatim prefix, a backslash on Windows, and
/// nothing else anywhere; each host puts in its own.
pub proof fn slashes_separate(c: char)
    ensures
        remote_path::separates(Separators::Slash, c) <==> c == '/',
        remote_path::separates(Separators::Both, c) <==> c == '/' || c == '\\',
        remote_path::separates(Separators::Backslash, c) <==> c == '\\',
        remote_path::separators_on(Host::Unix) == Separators::Slash,
        remote_path::separators_on(Host::Windows) == Separators::Both,
        remote_path::main_separator(Host::Unix) == '/',
        remote_path::main_separator(Host::Windows) == '\\',
{
}

proof fn lemma_next_separator_at(path: Seq<char>, seps: Separators, from: nat, at: nat)
    requires
        from <= at <= path.len(),
        unbroken(path, seps, from as int, at as int),
        at < path.len() ==> remote_path::separates(seps, path[at as int]),
    ensures
        remote_path::next_separator(path, seps, from) == at,
    decreases at - from,
{
    if from < at {
        assert(!remote_path::separates(seps, path[from as int]));
        lemma_next_separator_at(path, seps, from + 1, at);
    }
}

proof fn lemma_next_separator_is(path: Seq<char>, seps: Separators, from: nat)
    requires
        from <= path.len(),
    ensures
        ({
            let at = remote_path::next_separator(path, seps, from);
            &&& from <= at <= path.len()
            &&& unbroken(path, seps, from as int, at as int)
            &&& at < path.len() ==> remote_path::separates(seps, path[at as int])
        }),
    decreases path.len() - from,
{
    if from < path.len() && !remote_path::separates(seps, path[from as int]) {
        lemma_next_separator_is(path, seps, from + 1);
        let at = remote_path::next_separator(path, seps, from);
        assert forall|i: int| from <= i < at implies !remote_path::separates(
            seps,
            #[trigger] path[i],
        ) by {
            if i > from {
                assert(from + 1 <= i);
            }
        }
    }
}

/// Law: on Unix no path has a prefix; on Windows a path that does not start with two slashes has
/// one where it starts with a drive.
pub proof fn drives_are_prefixes(path: Seq<char>)
    ensures
        remote_path::prefix_of(Host::Unix, path).kind == PrefixKind::Nothing,
        remote_path::prefix_of(Host::Unix, path).len == 0,
        !starts_twice(path) && drive_at(path, 0) ==> remote_path::prefix_of(
            Host::Windows,
            path,
        ).kind == PrefixKind::Drive && remote_path::prefix_of(Host::Windows, path).len == 2,
        !starts_twice(path) && !drive_at(path, 0) ==> remote_path::prefix_of(
            Host::Windows,
            path,
        ).kind == PrefixKind::Nothing && remote_path::prefix_of(Host::Windows, path).len == 0,
{
}

/// Whether a server's name ends at one place of a path and a share's name at another.
pub open spec fn share_at(path: Seq<char>, server: int, share: int) -> bool {
    &&& 2 < server && server + 1 < share <= path.len()
    &&& no_slash(path, 2, server) && is_slash(path[server])
    &&& no_slash(path, server + 1, share)
    &&& share < path.len() ==> is_slash(path[share])
}

/// Law: on Windows a path that starts with two slashes and is not verbatim has a device or a share
/// as its prefix, where it names one.
pub proof fn shares_and_devices_are_prefixes(path: Seq<char>, server: int, end: int)
    requires
        starts_twice(path),
        !starts_verbatim(path),
    ensures
        ({
            let prefix = remote_path::prefix_of(Host::Windows, path);
            let device = path.len() >= 4 && path[2] == '.' && is_slash(path[3]);
            &&& device && 4 <= end <= path.len() && no_slash(path, 4, end) && (end == path.len()
                || is_slash(path[end])) ==> prefix.kind == PrefixKind::Network && prefix.len == end
            &&& !device && share_at(path, server, end) ==> prefix.kind == PrefixKind::Network
                && prefix.len == end
            &&& !device && prefix.kind != PrefixKind::Nothing ==> exists|s: int, e: int|
                share_at(path, s, e)
            &&& !device && prefix.kind == PrefixKind::Nothing ==> prefix.len == 0
        }),
{
    let both = Separators::Both;
    let device = path.len() >= 4 && path[2] == '.' && is_slash(path[3]);
    lemma_next_separator_is(path, both, 2);
    let s = remote_path::next_separator(path, both, 2);
    if s < path.len() {
        lemma_next_separator_is(path, both, s + 1);
    }
    if device {
        if 4 <= end <= path.len() && no_slash(path, 4, end) && (end == path.len() || is_slash(
            path[end],
        )) {
            lemma_next_separator_at(path, both, 4, end as nat);
        }
    } else {
        if share_at(path, server, end) {
            lemma_next_separator_at(path, both, 2, server as nat);
            lemma_next_separator_at(path, both, (server + 1) as nat, end as nat);
        }
        if remote_path::prefix_of(Host::Windows, path).kind != PrefixKind::Nothing {
            let e = remote_path::next_separator(path, both, s + 1);
            assert(share_at(path, s as int, e as int));
        }
    }
}

/// Law: on Windows a path that starts with `\\?\` has a verbatim prefix: a drive that stands alone,
/// a server and a share after `UNC`, or else the first name.
pub proof fn verbatim_prefixes(path: Seq<char>, first: int, second: int)
    requires
        starts_verbatim(path),
    ensures
        ({
            let prefix = remote_path::prefix_of(Host::Windows, path);
            let unc = path.len() >= 8 && path[4] == 'U' && path[5] == 'N' && path[6] == 'C'
                && is_slash(path[7]);
            let drive = drive_at(path, 4) && (path.len() == 6 || is_slash(path[6]));
            &&& prefix.kind == PrefixKind::Verbatim
            &&& unc && 8 <= first < path.len() && no_backslash(path, 8, first) && path[first]
                == '\\' && first < second <= path.len() && no_backslash(path, first + 1, second)
                && (second == path.len() || path[second] == '\\') ==> prefix.len == (if second
                > first + 1 {
                second
            } else {
                first
            })
            &&& unc && no_backslash(path, 8, path.len() as int) ==> prefix.len == path.len()
            &&& !unc && drive ==> prefix.len == 6
            &&& !unc && !drive && 4 <= first <= path.len() && no_backslash(path, 4, first) && (first
                == path.len() || path[first] == '\\') ==> prefix.len == first
        }),
{
    let back = Separators::Backslash;
    let unc = path.len() >= 8 && path[4] == 'U' && path[5] == 'N' && path[6] == 'C' && is_slash(
        path[7],
    );
    if unc {
        if 8 <= first < path.len() && no_backslash(path, 8, first) && path[first] == '\\' && first
            < second <= path.len() && no_backslash(path, first + 1, second) && (second
            == path.len() || path[second] == '\\') {
            lemma_next_separator_at(path, back, 8, first as nat);
            lemma_next_separator_at(path, back, (first + 1) as nat, second as nat);
        }
        if no_backslash(path, 8, path.len() as int) {
            lemma_next_separator_at(path, back, 8, path.len());
        }
    } else if 4 <= first <= path.len() && no_backslash(path, 4, first) && (first == path.len()
        || path[first] == '\\') {
        lemma_next_separator_at(path, back, 4, first as nat);
    }
}

/// Law: the components of a path start behind its prefix and a separator or a lone dot there; a
/// dot counts so only where neither a share nor a verbatim prefix comes before it. Only backslashes
/// separate under a verbatim prefix.
pub proof fn components_start_behind_the_root(host: Host, path: Seq<char>)
    ensures
        ({
            let prefix = remote_path::prefix_of(host, path);
            let n = prefix.len as int;
            let seps = remote_path::separators_on(host);
            let rooted = n < path.len() && remote_path::separates(seps, path[n]);
            let plain = prefix.kind == PrefixKind::Nothing || prefix.kind == PrefixKind::Drive;
            let dotted = plain && n < path.len() && path[n] == '.' && (n + 1 == path.len()
                || remote_path::separates(seps, path[n + 1]));
            &&& remote_path::is_rooted(host, path) == rooted
            &&& rooted || dotted ==> remote_path::body_start(host, path) == n + 1
            &&& !rooted && !dotted ==> remote_path::body_start(host, path) == n
            &&& prefix.kind == PrefixKind::Verbatim ==> remote_path::separators_of(host, path)
                == Separators::Backslash
            &&& prefix.kind != PrefixKind::Verbatim ==> remote_path::separators_of(host, path)
                == seps
        }),
{
}

/// Law: on Unix a name goes behind a path with one slash between them, unless it starts with one
/// itself.
pub proof fn unix_joins_with_a_slash(base: Seq<char>, name: Seq<char>)
    ensures
        name.len() > 0 && name[0] == '/' ==> remote_path::join_of(Host::Unix, base, name) == name,
        (name.len() == 0 || name[0] != '/') && (base.len() == 0 || base.last() == '/')
            ==> remote_path::join_of(Host::Unix, base, name) == base + name,
        (name.len() == 0 || name[0] != '/') && base.len() > 0 && base.last() != '/'
            ==> remote_path::join_of(Host::Unix, base, name) == base + seq!['/'] + name,
{
    assert(base.take(0) + name =~= name);
}

/// Law: on Windows a name with a prefix stands for itself, one that starts with a slash keeps the
/// prefix of the path alone, and any other goes behind the path, with a backslash between them
/// unless a slash or a bare drive stands there. Verbatim paths are another matter.
pub proof fn windows_joins_with_a_backslash(base: Seq<char>, name: Seq<char>)
    ensures
        ({
            let path = remote_path::join_of(Host::Windows, base, name);
            let before = remote_path::prefix_of(Host::Windows, base);
            let bare = remote_path::prefix_of(Host::Windows, name).kind == PrefixKind::Nothing;
            let plain = before.kind != PrefixKind::Verbatim || name.len() == 0;
            let rooted = name.len() > 0 && is_slash(name[0]);
            let closed = base.len() == 0 || is_slash(base.last()) || base.len() == 2 && drive_at(
                base,
                0,
            );
            &&& !bare ==> path == name
            &&& bare && plain && rooted ==> path == base.take(before.len as int) + name
            &&& bare && plain && !rooted && closed ==> path == base + name
            &&& bare && plain && !rooted && !closed ==> path == base + seq!['\\'] + name
            &&& bare && !plain ==> path == remote_path::verbatim_join(base, name)
        }),
{
    assert(remote_path::prefix_of(Host::Windows, name).kind == PrefixKind::Nothing
        ==> remote_path::prefix_of(Host::Windows, name).len == 0);
}

/// Law: behind a verbatim path a name is followed component by component from the components of the
/// path, or from the prefix where the name starts with a slash, and all is spelled with
/// backslashes behind the prefix.
pub proof fn verbatim_joins_follow_the_name(base: Seq<char>, name: Seq<char>)
    requires
        remote_path::prefix_of(Host::Windows, base).kind == PrefixKind::Verbatim,
        remote_path::prefix_of(Host::Windows, name).kind == PrefixKind::Nothing,
        name.len() > 0,
    ensures
        ({
            let prefix = base.take(remote_path::prefix_of(Host::Windows, base).len as int);
            let n = prefix.len() as int;
            let rooted = is_slash(name[0]);
            let at = if rooted {
                Seq::<Seq<char>>::empty()
            } else {
                remote_path::components(
                    base,
                    Separators::Backslash,
                    remote_path::body_start(Host::Windows, base),
                )
            };
            let way = remote_path::components(
                name,
                Separators::Both,
                remote_path::body_start(Host::Windows, name),
            );
            let all = remote_path::followed(at, way);
            let path = remote_path::join_of(Host::Windows, base, name);
            &&& all.len() > 0 ==> path == prefix + remote_path::spelled(all)
            &&& all.len() == 0 && (rooted || n < base.len() && is_slash(base[n])) ==> path == prefix
                + seq!['\\']
            &&& all.len() == 0 && !rooted && !(n < base.len() && is_slash(base[n])) ==> path
                == prefix
        }),
{
    lemma_prefix_fits(base);
    assert(remote_path::prefix_of(Host::Windows, name).len == 0);
    let prefix = base.take(remote_path::prefix_of(Host::Windows, base).len as int);
    assert(prefix + Seq::<char>::empty() =~= prefix);
}

proof fn lemma_prefix_fits(path: Seq<char>)
    ensures
        remote_path::prefix_of(Host::Windows, path).len <= path.len(),
{
    let both = Separators::Both;
    let back = Separators::Backslash;
    if starts_twice(path) {
        lemma_next_separator_is(path, both, 2);
        let s = remote_path::next_separator(path, both, 2);
        if s < path.len() {
            lemma_next_separator_is(path, both, s + 1);
        }
        if path.len() >= 4 {
            lemma_next_separator_is(path, both, 4);
            lemma_next_separator_is(path, back, 4);
        }
        if path.len() >= 8 {
            lemma_next_separator_is(path, back, 8);
            let t = remote_path::next_separator(path, back, 8);
            if t < path.len() {
                lemma_next_separator_is(path, back, t + 1);
            }
        }
    }
}

/// Law: a dot leads nowhere, two dots lead back over a name and over nothing else, and a name leads
/// on; components are spelled one after the other, each behind a backslash.
pub proof fn components_are_followed_and_spelled(
    at: Seq<Seq<char>>,
    way: Seq<Seq<char>>,
    c: Seq<char>,
)
    ensures
        remote_path::followed(at, Seq::<Seq<char>>::empty()) == at,
        remote_path::spelled(Seq::<Seq<char>>::empty()) == Seq::<char>::empty(),
        remote_path::spelled(at.push(c)) == remote_path::spelled(at) + seq!['\\'] + c,
        ({
            let here = remote_path::followed(at, way);
            let there = remote_path::followed(at, way.push(c));
            &&& c == seq!['.'] ==> there == here
            &&& c == seq!['.', '.'] && (here.len() == 0 || here.last() == seq!['.'] || here.last()
                == seq!['.', '.']) ==> there == here
            &&& c == seq!['.', '.'] && here.len() > 0 && here.last() != seq!['.'] && here.last()
                != seq!['.', '.'] ==> there == here.take(here.len() - 1)
            &&& c != seq!['.'] && c != seq!['.', '.'] ==> there == here.push(c)
        }),
{
    assert(at.push(c).drop_last() =~= at);
    assert(way.push(c).drop_last() =~= way);
    let here = remote_path::followed(at, way);
    if here.len() > 0 {
        assert(here.drop_last() =~= here.take(here.len() - 1));
    }
    assert(seq!['.'].len() != seq!['.', '.'].len());
}

proof fn lemma_last_start_at(path: Seq<char>, seps: Separators, from: nat, at: nat)
    requires
        from <= at <= path.len(),
        from < path.len(),
        at > from ==> remote_path::separates(seps, path[at - 1]),
        unbroken(path, seps, at as int, path.len() as int),
    ensures
        remote_path::last_start(path, seps, from) == at,
    decreases path.len(),
{
    if at < path.len() {
        assert(!remote_path::separates(seps, path[path.len() - 1]));
        if path.len() > from + 1 {
            let shorter = path.drop_last();
            assert forall|i: int| at <= i < shorter.len() implies !remote_path::separates(
                seps,
                #[trigger] shorter[i],
            ) by {
                assert(shorter[i] == path[i]);
            }
            lemma_last_start_at(shorter, seps, from, at);
        }
    }
}

/// Law: the last component of a path starts behind the last separator, or where the components
/// start; what is left without it ends before that separator.
pub proof fn last_components_stand_behind_the_last_separator(
    path: Seq<char>,
    seps: Separators,
    from: nat,
    at: nat,
)
    requires
        from <= at <= path.len(),
        from < path.len(),
        at > from ==> remote_path::separates(seps, path[at - 1]),
        unbroken(path, seps, at as int, path.len() as int),
    ensures
        remote_path::last_component(path, seps, from) == path.subrange(
            at as int,
            path.len() as int,
        ),
        at > from ==> remote_path::without_last(path, seps, from) == path.subrange(0, at - 1),
        at == from ==> remote_path::without_last(path, seps, from) == path.subrange(
            0,
            from as int,
        ),
{
    lemma_last_start_at(path, seps, from, at);
}

/// Law: a component is listed behind those before it, unless it is empty.
pub proof fn components_are_listed_in_order(
    path: Seq<char>,
    seps: Separators,
    from: nat,
    at: nat,
)
    requires
        from <= at <= path.len(),
        from < path.len(),
        at > from ==> remote_path::separates(seps, path[at - 1]),
        unbroken(path, seps, at as int, path.len() as int),
    ensures
        ({
            let before = remote_path::components(
                if at > from {
                    path.subrange(0, at - 1)
                } else {
                    path.subrange(0, from as int)
                },
                seps,
                from,
            );
            let all = remote_path::components(path, seps, from);
            &&& at < path.len() ==> all == before.push(
                path.subrange(at as int, path.len() as int),
            )
            &&& at == path.len() ==> all == before
            &&& remote_path::components(path.take(from as int), seps, from).len() == 0
        }),
{
    last_components_stand_behind_the_last_separator(path, seps, from, at);
}

/// Law: a path is trimmed at its end by empty components and single dots, and by nothing else; a
/// dot stays under a verbatim prefix. What is left ends in another component or holds none.
pub proof fn trimming_takes_idle_components(path: Seq<char>, seps: Separators, from: nat)
    requires
        from <= path.len(),
    ensures
        ({
            let k = remote_path::trimmed(path, seps, from).len() as int;
            &&& from <= k <= path.len()
            &&& remote_path::trimmed(path, seps, from) == path.take(k)
            &&& forall|i: int, j: int|
                k <= i < j <= path.len() && #[trigger] unbroken(path, seps, i, j) ==> j == i + 1
                    && path[i] == '.' && seps != Separators::Backslash
            &&& from < k < path.len() ==> remote_path::separates(seps, path[k])
            &&& k > from ==> !remote_path::separates(seps, path[k - 1])
            &&& k > from && path[k - 1] == '.' && (k == from + 1 || remote_path::separates(
                seps,
                path[k - 2],
            )) ==> seps == Separators::Backslash
        }),
    decreases path.len(),
{
    let t = remote_path::trimmed(path, seps, from);
    if path.len() > from {
        let s = last_separator(path, seps, from);
        last_components_stand_behind_the_last_separator(path, seps, from, s);
        let last = remote_path::last_component(path, seps, from);
        if remote_path::is_idle(seps, last) {
            let shorter = remote_path::without_last(path, seps, from);
            let m = shorter.len() as int;
            trimming_takes_idle_components(shorter, seps, from);
            let k = t.len() as int;
            assert(path.take(k) =~= shorter.take(k));
            assert forall|i: int, j: int|
                k <= i < j <= path.len() && #[trigger] unbroken(path, seps, i, j) implies j == i + 1
                && path[i] == '.' && seps != Separators::Backslash by {
                if j <= m {
                    assert forall|x: int| i <= x < j implies !remote_path::separates(
                        seps,
                        #[trigger] shorter[x],
                    ) by {
                        assert(shorter[x] == path[x]);
                    }
                    assert(unbroken(shorter, seps, i, j));
                } else {
                    if i < s && s > from {
                        assert(i <= s - 1 < j);
                        assert(remote_path::separates(seps, path[s - 1]));
                    }
                    assert(i >= s);
                    assert(last.len() > 0);
                    assert(last[0] == '.');
                    assert(last.len() == 1);
                }
            }
            if k > from {
                assert(shorter[k - 1] == path[k - 1]);
                if k >= 2 {
                    assert(shorter[k - 2] == path[k - 2]);
                }
                if k < m {
                    assert(shorter[k] == path[k]);
                } else {
                    assert(m == s - 1);
                }
            }
        } else {
            assert(path.take(path.len() as int) =~= path);
            let k = path.len() as int;
            if path[k - 1] == '.' && (k == from + 1 || remote_path::separates(seps, path[k - 2])) {
                assert(s == k - 1) by {
                    if s < k - 1 {
                        assert(!remote_path::separates(seps, path[k - 2]));
                    }
                }
                assert(last =~= seq!['.']);
            }
        }
    } else {
        assert(path.take(path.len() as int) =~= path);
    }
}

/// Where the last component starts.
proof fn last_separator(path: Seq<char>, seps: Separators, from: nat) -> (at: nat)
    requires
        from < path.len(),
    ensures
        from <= at <= path.len(),
        at > from ==> remote_path::separates(seps, path[at - 1]),
        unbroken(path, seps, at as int, path.len() as int),
    decreases path.len(),
{
    if remote_path::separates(seps, path.last()) {
        path.len()
    } else if path.len() == from + 1 {
        from
    } else {
        let shorter = path.drop_last();
        let at = last_separator(shorter, seps, from);
        assert forall|i: int| at <= i < path.len() implies !remote_path::separates(
            seps,
            #[trigger] path[i],
        ) by {
            if i < shorter.len() {
                assert(shorter[i] == path[i]);
            }
        }
        if at > from {
            assert(shorter[at - 1] == path[at - 1]);
        }
        at
    }
}

/// Law: a path is read without the idle components at its end.
pub proof fn paths_are_read_trimmed(host: Host, path: Seq<char>)
    ensures
        remote_path::core_of(host, path) == remote_path::trimmed(
            path,
            remote_path::separators_of(host, path),
            remote_path::body_start(host, path),
        ),
{
}

/// Law: the last component of a trimmed path is its name, unless it is made of dots, and the parent
/// is what stands before it, trimmed.
pub proof fn parents_stand_before_the_name(host: Host, path: Seq<char>, at: nat)
    requires
        ({
            let core = remote_path::core_of(host, path);
            let seps = remote_path::separators_of(host, path);
            let from = remote_path::body_start(host, path);
            &&& from <= at < core.len()
            &&& at > from ==> remote_path::separates(seps, core[at - 1])
            &&& unbroken(core, seps, at as int, core.len() as int)
        }),
    ensures
        ({
            let core = remote_path::core_of(host, path);
            let seps = remote_path::separators_of(host, path);
            let from = remote_path::body_start(host, path);
            let name = core.subrange(at as int, core.len() as int);
            let rest = if at > from {
                core.subrange(0, at - 1)
            } else {
                core.subrange(0, from as int)
            };
            &&& remote_path::parent_of(host, path) == Some(remote_path::trimmed(rest, seps, from))
            &&& name == seq!['.'] || name == seq!['.', '.'] ==> remote_path::file_name_of(
                host,
                path,
            ) is None
            &&& name != seq!['.'] && name != seq!['.', '.'] ==> remote_path::file_name_of(
                host,
                path,
            ) == Some(name)
        }),
{
    let core = remote_path::core_of(host, path);
    last_components_stand_behind_the_last_separator(
        core,
        remote_path::separators_of(host, path),
        remote_path::body_start(host, path),
        at,
    );
}

/// Law: a path without components has no name, and no parent unless it is a single dot, whose
/// parent is empty.
pub proof fn roots_have_no_parent(host: Host, path: Seq<char>)
    requires
        remote_path::core_of(host, path).len() <= remote_path::body_start(host, path),
    ensures
        remote_path::file_name_of(host, path) is None,
        ({
            let core = remote_path::core_of(host, path);
            let dot = remote_path::prefix_of(host, path).kind == PrefixKind::Nothing && core.len()
                > 0 && core[0] == '.';
            &&& dot ==> remote_path::parent_of(host, path) == Some(Seq::<char>::empty())
            &&& !dot ==> remote_path::parent_of(host, path) is None
        }),
{
}

} // verus!
