//! What the process environment decides: where configurations are looked for,
//! and whether a privilege dialog can be shown.

use crate::paths::{joined, path_bytes, same_path, ConfigPath};
use crate::text::readable;
use vstd::prelude::*;
use vstd::utf8::*;

verus! {

/// The environment variables that matter. For those that only matter by being
/// set, whether they are.
pub struct Environment {
    /// `WAYLAND_DISPLAY` is set.
    pub wayland_display: bool,
    /// `WAYLAND_SOCKET` is set.
    pub wayland_socket: bool,
    /// `DISPLAY` is set.
    pub display: bool,
    /// The value of `WG_QUICK_CONFIG_DIR`.
    pub wg_quick_config_dir: Option<ConfigPath>,
    /// The value of `HOME`.
    pub home: Option<ConfigPath>,
}

/// The path in an option.
pub open spec fn path_in(p: Option<ConfigPath>) -> Option<Seq<u8>> {
    match p {
        Some(p) => Some(p@),
        None => None,
    }
}

/// A list of one item or of none.
pub open spec fn listed(p: Option<Seq<u8>>) -> Seq<Seq<u8>> {
    match p {
        Some(p) => seq![p],
        None => Seq::empty(),
    }
}

/// The directory of the system's own configurations.
pub open spec fn system_dir() -> Seq<u8> {
    encode_utf8("/etc/wireguard"@)
}

/// The directory below a home directory.
pub open spec fn home_dir(home: Seq<u8>) -> Seq<u8> {
    joined(home, encode_utf8(".config/wireguard"@))
}

impl Environment {
    /// Whether a display server can be reached.
    pub open spec fn graphical(&self) -> bool {
        self.wayland_display || self.wayland_socket || self.display
    }

    /// The directories to look in, in order: the user's choice, the one that
    /// `WG_QUICK_CONFIG_DIR` gives, the system's, the one in the home directory.
    pub open spec fn dirs_to_try(&self, custom: Option<Seq<u8>>) -> Seq<Seq<u8>> {
        listed(custom) + listed(path_in(self.wg_quick_config_dir)) + seq![system_dir()] + listed(
            match path_in(self.home) {
                Some(home) => Some(home_dir(home)),
                None => None,
            },
        )
    }
}

/// Some item of `s` is the same path as `p`.
pub open spec fn spelled_in(s: Seq<Seq<u8>>, p: Seq<u8>) -> bool {
    exists|i: int| 0 <= i < s.len() && same_path(#[trigger] s[i], p)
}

/// `dirs` without the items that are the same path as an earlier one.
pub open spec fn first_spellings(dirs: Seq<Seq<u8>>) -> Seq<Seq<u8>>
    decreases dirs.len(),
{
    if dirs.len() == 0 {
        Seq::empty()
    } else {
        let head = dirs.drop_last();
        if spelled_in(head, dirs.last()) {
            first_spellings(head)
        } else {
            first_spellings(head).push(dirs.last())
        }
    }
}

/// Dropping later spellings loses no path.
proof fn lemma_first_spellings_cover(dirs: Seq<Seq<u8>>, p: Seq<u8>)
    ensures
        spelled_in(dirs, p) <==> spelled_in(first_spellings(dirs), p),
    decreases dirs.len(),
{
    if dirs.len() > 0 {
        let head = dirs.drop_last();
        let last = dirs.last();
        let kept = first_spellings(head);
        let all = first_spellings(dirs);
        lemma_first_spellings_cover(head, p);
        lemma_spelled_push(head, last, p);
        assert(head.push(last) =~= dirs);
        if spelled_in(head, last) {
            if same_path(last, p) {
                let i = choose|i: int| 0 <= i < head.len() && same_path(#[trigger] head[i], last);
                assert(same_path(head[i], p));
            }
        } else {
            lemma_spelled_push(kept, last, p);
        }
    }
}

/// `spelled_in` after one more item.
proof fn lemma_spelled_push(s: Seq<Seq<u8>>, x: Seq<u8>, p: Seq<u8>)
    ensures
        spelled_in(s.push(x), p) <==> spelled_in(s, p)
            || same_path(x, p),
{
    let t = s.push(x);
    if spelled_in(s, p) {
        let i = choose|i: int| 0 <= i < s.len() && same_path(#[trigger] s[i], p);
        assert(same_path(t[i], p));
    }
    if same_path(x, p) {
        assert(same_path(t[s.len() as int], p));
    }
    if spelled_in(t, p) {
        let i = choose|i: int| 0 <= i < t.len() && same_path(#[trigger] t[i], p);
        if i < s.len() {
            assert(same_path(s[i], p));
        }
    }
}

/// Whether the session has a display, so that a privilege dialog can be shown.
pub fn has_graphical_session(env: &Environment) -> (res: bool)
    ensures
        res == env.graphical(),
{
    env.wayland_display || env.wayland_socket || env.display
}

/// What the user is told where privileges are missing and cannot be asked for.
pub open spec fn guidance() -> Seq<char> {
    "Insufficient privileges, and no graphical privilege dialog is available. Please re-run NB WireSmart as a user with the required privileges (for example via sudo)."@
}

/// The text of the guidance.
pub fn permission_guidance_message() -> (res: String)
    ensures
        res@ == guidance(),
{
    "Insufficient privileges, and no graphical privilege dialog is available. Please re-run NB WireSmart as a user with the required privileges (for example via sudo).".to_owned()
}

/// Appends `dir` unless the list has it already under some spelling.
fn push_new(dirs: &mut Vec<ConfigPath>, dir: ConfigPath)
    ensures
        path_bytes(final(dirs)@) == if spelled_in(path_bytes(old(dirs)@), dir@) {
            path_bytes(old(dirs)@)
        } else {
            path_bytes(old(dirs)@).push(dir@)
        },
{
    let ghost have = path_bytes(dirs@);
    let mut i: usize = 0;
    while i < dirs.len()
        invariant
            i <= dirs@.len(),
            dirs == old(dirs),
            have == path_bytes(dirs@),
            forall|j: int| 0 <= j < i ==> !same_path(#[trigger] have[j], dir@),
        decreases dirs@.len() - i,
    {
        if dirs[i].same_as(&dir) {
            assert(same_path(have[i as int], dir@));
            return ;
        }
        assert(have[i as int] == dirs@[i as int]@);
        i = i + 1;
    }
    dirs.push(dir);
    assert(path_bytes(dirs@) =~= have.push(dir@));
}

/// The directories to look in for configurations, each once.
pub fn candidate_config_dirs(custom_dir: Option<ConfigPath>, env: &Environment) -> (res: Vec<
    ConfigPath,
>)
    ensures
        path_bytes(res@) == first_spellings(env.dirs_to_try(path_in(custom_dir))),
{
    let mut dirs: Vec<ConfigPath> = Vec::new();
    let ghost custom = path_in(custom_dir);
    if let Some(dir) = custom_dir {
        dirs.push(dir);
    }
    assert(path_bytes(dirs@) =~= listed(custom));
    let ghost first = path_bytes(dirs@);
    if let Some(dir) = &env.wg_quick_config_dir {
        dirs.push(dir.clone());
    }
    assert(path_bytes(dirs@) =~= first + listed(path_in(env.wg_quick_config_dir)));
    let ghost second = path_bytes(dirs@);
    dirs.push(ConfigPath::from_text("/etc/wireguard"));
    assert(path_bytes(dirs@) =~= second + seq![system_dir()]);
    let ghost third = path_bytes(dirs@);
    if let Some(home) = &env.home {
        dirs.push(home.join(&ConfigPath::from_text(".config/wireguard")));
    }
    let ghost all = env.dirs_to_try(custom);
    assert(path_bytes(dirs@) =~= all);
    let mut unique: Vec<ConfigPath> = Vec::new();
    let mut i: usize = 0;
    assert(path_bytes(unique@) =~= first_spellings(all.take(0)));
    while i < dirs.len()
        invariant
            i <= dirs@.len(),
            all == path_bytes(dirs@),
            path_bytes(unique@) == first_spellings(all.take(i as int)),
        decreases dirs@.len() - i,
    {
        proof {
            let head = all.take(i as int);
            assert(all.take(i + 1).drop_last() =~= head);
            assert(all.take(i + 1).last() == dirs@[i as int]@);
            lemma_first_spellings_cover(head, dirs@[i as int]@);
        }
        push_new(&mut unique, dirs[i].clone());
        i = i + 1;
    }
    assert(all.take(all.len() as int) =~= all);
    unique
}

/// A directory, and whether it is there.
pub struct ProbedDir {
    pub path: ConfigPath,
    pub exists: bool,
}

/// The first of the directories that is there.
pub open spec fn first_existing(probed: Seq<ProbedDir>) -> Option<Seq<u8>>
    decreases probed.len(),
{
    if probed.len() == 0 {
        None
    } else if probed[0].exists {
        Some(probed[0].path@)
    } else {
        first_existing(probed.drop_first())
    }
}

/// The directory to show where the user has named none: the first that is
/// there, else the first.
pub open spec fn dir_to_show(probed: Seq<ProbedDir>) -> Option<Seq<u8>> {
    match first_existing(probed) {
        Some(p) => Some(p),
        None => if probed.len() > 0 {
            Some(probed[0].path@)
        } else {
            None
        },
    }
}

/// Picks the directory to show where the user has named none.
pub fn default_config_dir(probed: &Vec<ProbedDir>) -> (res: Option<ConfigPath>)
    ensures
        path_in(res) == dir_to_show(probed@),
{
    let mut i: usize = 0;
    assert(probed@.skip(0) =~= probed@);
    while i < probed.len()
        invariant
            i <= probed@.len(),
            first_existing(probed@) == first_existing(probed@.skip(i as int)),
        decreases probed@.len() - i,
    {
        if probed[i].exists {
            return Some(probed[i].path.clone());
        }
        assert(probed@.skip(i as int).drop_first() =~= probed@.skip(i + 1));
        i = i + 1;
    }
    if probed.len() > 0 {
        Some(probed[0].path.clone())
    } else {
        None
    }
}

/// The default directory as a hint for the user.
pub fn default_config_dir_display(probed: &Vec<ProbedDir>) -> (res: String)
    ensures
        res@ == match dir_to_show(probed@) {
            Some(p) => readable(p),
            None => "/etc/wireguard"@,
        },
{
    match default_config_dir(probed) {
        Some(dir) => dir.display(),
        None => "/etc/wireguard".to_owned(),
    }
}

/// No directory is looked in twice.
pub proof fn law_candidates_differ(dirs: Seq<Seq<u8>>, i: int, j: int)
    requires
        0 <= i < j < first_spellings(dirs).len(),
    ensures
        !same_path(first_spellings(dirs)[i], first_spellings(dirs)[j]),
    decreases dirs.len(),
{
    let head = dirs.drop_last();
    let kept = first_spellings(head);
    let last = dirs.last();
    if spelled_in(head, last) || j < kept.len() {
        law_candidates_differ(head, i, j);
    } else {
        lemma_first_spellings_cover(head, last);
        if same_path(kept[i], last) {
            assert(spelled_in(kept, last));
        }
    }
}

/// Every directory that was to be tried is looked in, under some spelling.
pub proof fn law_no_candidate_lost(dirs: Seq<Seq<u8>>, i: int)
    requires
        0 <= i < dirs.len(),
    ensures
        spelled_in(first_spellings(dirs), dirs[i]),
{
    assert(same_path(dirs[i], dirs[i]));
    assert(spelled_in(dirs, dirs[i]));
    lemma_first_spellings_cover(dirs, dirs[i]);
}

/// What is to be tried first is looked in first.
pub proof fn law_first_candidate(dirs: Seq<Seq<u8>>)
    requires
        dirs.len() > 0,
    ensures
        first_spellings(dirs).len() > 0,
        first_spellings(dirs)[0] == dirs[0],
    decreases dirs.len(),
{
    let head = dirs.drop_last();
    if head.len() > 0 {
        law_first_candidate(head);
    } else {
        assert(first_spellings(head) =~= Seq::<Seq<u8>>::empty());
    }
}

/// One more directory in front removes its own later spellings and nothing else.
proof fn lemma_spellings_behind(first: Seq<u8>, dirs: Seq<Seq<u8>>)
    ensures
        first_spellings(seq![first] + dirs) == seq![first] + first_spellings(dirs).filter(
            |d: Seq<u8>| !same_path(first, d),
        ),
    decreases dirs.len(),
{
    let other = |d: Seq<u8>| !same_path(first, d);
    let all = seq![first] + dirs;
    reveal(Seq::filter);
    if dirs.len() == 0 {
        assert(all.drop_last() =~= Seq::<Seq<u8>>::empty());
        assert(first_spellings(all.drop_last()) =~= Seq::<Seq<u8>>::empty());
        assert(first_spellings(all) =~= seq![first]);
        assert(first_spellings(dirs).filter(other) =~= Seq::<Seq<u8>>::empty());
    } else {
        let head = dirs.drop_last();
        let last = dirs.last();
        let kept = first_spellings(head);
        lemma_spellings_behind(first, head);
        assert(all.drop_last() =~= seq![first] + head);
        assert(spelled_in(seq![first] + head, last) <==> same_path(first, last) || spelled_in(
            head,
            last,
        )) by {
            let both = seq![first] + head;
            assert(both[0] == first);
            if spelled_in(both, last) {
                let i = choose|i: int| 0 <= i < both.len() && same_path(#[trigger] both[i], last);
                if i > 0 {
                    assert(same_path(head[i - 1], last));
                }
            }
            if spelled_in(head, last) {
                let i = choose|i: int| 0 <= i < head.len() && same_path(#[trigger] head[i], last);
                assert(same_path(both[i + 1], last));
            }
        }
        if !spelled_in(head, last) {
            assert(kept.push(last).drop_last() =~= kept);
            assert(kept.push(last).filter(other) == if other(last) {
                kept.filter(other).push(last)
            } else {
                kept.filter(other)
            });
            if !same_path(first, last) {
                assert((seq![first] + kept.filter(other)).push(last) =~= seq![first] + kept.filter(
                    other,
                ).push(last));
            }
        }
    }
}

/// The user's choice comes first, and takes the place of its own spellings among
/// the other candidates. Those that are left keep their order.
pub proof fn law_custom_dir_comes_first(env: Environment, custom: Seq<u8>)
    ensures
        first_spellings(env.dirs_to_try(Some(custom))) == seq![custom] + first_spellings(
            env.dirs_to_try(None),
        ).filter(|d: Seq<u8>| !same_path(custom, d)),
{
    assert(env.dirs_to_try(Some(custom)) =~= seq![custom] + env.dirs_to_try(None));
    lemma_spellings_behind(custom, env.dirs_to_try(None));
}

/// Wherever the environment points, the system's directory is looked in, and
/// the user's choice comes first.
pub proof fn law_system_dir_is_tried(env: Environment, custom: Option<Seq<u8>>)
    ensures
        ({
            let dirs = first_spellings(env.dirs_to_try(custom));
            &&& spelled_in(dirs, system_dir())
            &&& custom matches Some(c) ==> dirs[0] == c
        }),
{
    let all = env.dirs_to_try(custom);
    let k = (listed(custom) + listed(path_in(env.wg_quick_config_dir))).len() as int;
    assert(all[k] == system_dir());
    law_no_candidate_lost(all, k);
    law_first_candidate(all);
}

/// A session is graphical iff one of the three variables is set, whatever else
/// the environment holds.
pub proof fn law_graphical(env: Environment)
    ensures
        !env.graphical() <==> !env.wayland_display && !env.wayland_socket && !env.display,
{
}

/// Without further directories, the system's directory is the one candidate.
pub proof fn law_system_dir_alone(env: Environment)
    requires
        env.wg_quick_config_dir is None,
        env.home is None,
    ensures
        first_spellings(env.dirs_to_try(None)) == seq![encode_utf8("/etc/wireguard"@)],
{
    let all = env.dirs_to_try(None);
    assert(all =~= seq![encode_utf8("/etc/wireguard"@)]);
    assert(all.drop_last() =~= Seq::<Seq<u8>>::empty());
    reveal_with_fuel(first_spellings, 2);
    assert(first_spellings(all) =~= all);
}

/// A directory that `WG_QUICK_CONFIG_DIR` names comes first, and takes the place of
/// its own spellings among the other candidates, which keep their order.
pub proof fn law_wg_quick_dir_comes_first(env: Environment, dir: ConfigPath)
    requires
        env.wg_quick_config_dir == Some(dir),
    ensures
        ({
            let without = Environment { wg_quick_config_dir: None, ..env };
            first_spellings(env.dirs_to_try(None)) == seq![dir@] + first_spellings(
                without.dirs_to_try(None),
            ).filter(|d: Seq<u8>| !same_path(dir@, d))
        }),
{
    let without = Environment { wg_quick_config_dir: None, ..env };
    assert(env.dirs_to_try(None) =~= seq![dir@] + without.dirs_to_try(None));
    lemma_spellings_behind(dir@, without.dirs_to_try(None));
}

/// A home directory adds the directory `.config/wireguard` below it as the last
/// candidate, unless that is a candidate already, and changes nothing else.
pub proof fn law_home_dir_comes_last(env: Environment, custom: Option<Seq<u8>>, home: ConfigPath)
    requires
        env.home == Some(home),
    ensures
        ({
            let without = Environment { home: None, ..env };
            let others = first_spellings(without.dirs_to_try(custom));
            let dir = joined(home@, encode_utf8(".config/wireguard"@));
            first_spellings(env.dirs_to_try(custom)) == if exists|i: int|
                0 <= i < others.len() && same_path(#[trigger] others[i], dir) {
                others
            } else {
                others.push(dir)
            }
        }),
{
    let without = Environment { home: None, ..env };
    let all = env.dirs_to_try(custom);
    let dir = joined(home@, encode_utf8(".config/wireguard"@));
    assert(all.drop_last() =~= without.dirs_to_try(custom));
    assert(all.last() == dir);
    lemma_first_spellings_cover(without.dirs_to_try(custom), dir);
}

/// Whatever else is set, the directory that `WG_QUICK_CONFIG_DIR` names and the one
/// in the home directory are candidates under some spelling. The former comes
/// before the system's directory, unless that is the user's own choice.
pub proof fn law_environment_dirs_are_tried(env: Environment, custom: Option<Seq<u8>>)
    ensures
        ({
            let dirs = first_spellings(env.dirs_to_try(custom));
            &&& env.home matches Some(home) ==> exists|i: int|
                0 <= i < dirs.len() && same_path(
                    #[trigger] dirs[i],
                    joined(home@, encode_utf8(".config/wireguard"@)),
                )
            &&& env.wg_quick_config_dir matches Some(dir) ==> exists|i: int|
                0 <= i < dirs.len() && same_path(#[trigger] dirs[i], dir@)
            &&& env.wg_quick_config_dir matches Some(dir) ==> forall|i: int, j: int|
                0 <= i < dirs.len() && 0 <= j < dirs.len() && same_path(#[trigger] dirs[i], dir@)
                    && same_path(#[trigger] dirs[j], encode_utf8("/etc/wireguard"@)) && !(
                custom matches Some(c) && same_path(c, encode_utf8("/etc/wireguard"@))) ==> i <= j
        }),
{
    let all = env.dirs_to_try(custom);
    let dirs = first_spellings(all);
    if let Some(home) = env.home {
        assert(all.last() == joined(home@, encode_utf8(".config/wireguard"@)));
        law_no_candidate_lost(all, all.len() - 1);
    }
    if let Some(dir) = env.wg_quick_config_dir {
        let k = listed(custom).len() as int;
        assert(all[k] == dir@);
        law_no_candidate_lost(all, k);
        law_first_candidate(all);
        law_wg_quick_dir_comes_first(env, dir);
        let w = if custom is Some && !same_path(custom.unwrap(), dir@) {
            1int
        } else {
            0
        };
        if let Some(c) = custom {
            law_custom_dir_comes_first(env, c);
            if !same_path(c, dir@) {
                lemma_filter_first(first_spellings(env.dirs_to_try(None)), c);
            }
        }
        assert(w < dirs.len() && same_path(dirs[w], dir@));
        assert forall|i: int, j: int|
            0 <= i < dirs.len() && 0 <= j < dirs.len() && same_path(#[trigger] dirs[i], dir@)
                && same_path(#[trigger] dirs[j], encode_utf8("/etc/wireguard"@)) && !(custom matches
                Some(c) && same_path(c, encode_utf8("/etc/wireguard"@))) implies i <= j by {
            if i < w {
                law_candidates_differ(all, i, w);
            }
            if w < i {
                law_candidates_differ(all, w, i);
            }
            if w == 1 && j == 0 {
                assert(dirs[0] == custom.unwrap());
            }
        }
    }
}

/// The first item stays the first where it is not filtered out.
proof fn lemma_filter_first(s: Seq<Seq<u8>>, other: Seq<u8>)
    requires
        s.len() > 0,
        !same_path(other, s[0]),
    ensures
        s.filter(|d: Seq<u8>| !same_path(other, d)).len() > 0,
        s.filter(|d: Seq<u8>| !same_path(other, d))[0] == s[0],
    decreases s.len(),
{
    reveal(Seq::filter);
    let keep = |d: Seq<u8>| !same_path(other, d);
    let head = s.drop_last();
    if head.len() > 0 {
        lemma_filter_first(head, other);
    } else {
        assert(head.filter(keep) =~= Seq::<Seq<u8>>::empty());
    }
}

/// The directory to show is the first that is there, else the first of all. There
/// is none to show only where there are no candidates.
pub proof fn law_dir_to_show(probed: Seq<ProbedDir>, i: int)
    requires
        0 <= i < probed.len(),
    ensures
        probed[i].exists && (forall|j: int| 0 <= j < i ==> !(#[trigger] probed[j]).exists)
            ==> dir_to_show(probed) == Some(probed[i].path@),
        (forall|j: int| 0 <= j < probed.len() ==> !(#[trigger] probed[j]).exists) ==> dir_to_show(
            probed,
        ) == Some(probed[0].path@),
        dir_to_show(Seq::<ProbedDir>::empty()) is None,
{
    if probed[i].exists && (forall|j: int| 0 <= j < i ==> !(#[trigger] probed[j]).exists) {
        lemma_first_existing(probed, i);
    }
    if forall|j: int| 0 <= j < probed.len() ==> !(#[trigger] probed[j]).exists {
        lemma_first_existing(probed, probed.len() as int);
    }
}

/// The first directory that is there, where those before `i` are not.
proof fn lemma_first_existing(probed: Seq<ProbedDir>, i: int)
    requires
        0 <= i <= probed.len(),
        forall|j: int| 0 <= j < i ==> !(#[trigger] probed[j]).exists,
        i < probed.len() ==> probed[i].exists,
    ensures
        first_existing(probed) == if i < probed.len() {
            Some(probed[i].path@)
        } else {
            None
        },
    decreases probed.len(),
{
    if probed.len() > 0 && i > 0 {
        let rest = probed.drop_first();
        assert(!probed[0].exists);
        assert forall|j: int| 0 <= j < i - 1 implies !(#[trigger] rest[j]).exists by {
            assert(rest[j] == probed[j + 1]);
        }
        assert(i < probed.len() ==> rest[i - 1] == probed[i]);
        lemma_first_existing(rest, i - 1);
    }
}

/// What `candidate_config_dirs` returns holds the directory that the user chose, the
/// one that `WG_QUICK_CONFIG_DIR` names, the system's and the one in the home
/// directory, each under some spelling, none twice and no other. The user's choice
/// comes first.
pub proof fn law_candidates_returned(
    custom_dir: Option<ConfigPath>,
    env: Environment,
    res: Vec<ConfigPath>,
    i: int,
    j: int,
)
    requires
        call_ensures(candidate_config_dirs, (custom_dir, &env), res),
    ensures
        exists|k: int|
            0 <= k < res@.len() && same_path(
                (#[trigger] res@[k])@,
                encode_utf8("/etc/wireguard"@),
            ),
        custom_dir matches Some(dir) ==> res@.len() > 0 && res@[0]@ == dir@,
        env.wg_quick_config_dir matches Some(dir) ==> exists|k: int|
            0 <= k < res@.len() && same_path((#[trigger] res@[k])@, dir@),
        env.home matches Some(home) ==> exists|k: int|
            0 <= k < res@.len() && same_path(
                (#[trigger] res@[k])@,
                joined(home@, encode_utf8(".config/wireguard"@)),
            ),
        0 <= i < j < res@.len() ==> !same_path(res@[i]@, res@[j]@),
        0 <= i < res@.len() ==> {
            ||| res@[i]@ == encode_utf8("/etc/wireguard"@)
            ||| custom_dir matches Some(dir) && res@[i]@ == dir@
            ||| env.wg_quick_config_dir matches Some(dir) && res@[i]@ == dir@
            ||| env.home matches Some(home) && res@[i]@ == joined(
                home@,
                encode_utf8(".config/wireguard"@),
            )
        },
{
    let custom = path_in(custom_dir);
    let all = env.dirs_to_try(custom);
    let dirs = first_spellings(all);
    assert(forall|k: int| 0 <= k < res@.len() ==> dirs[k] == (#[trigger] res@[k])@);
    law_system_dir_is_tried(env, custom);
    law_environment_dirs_are_tried(env, custom);
    let s = choose|k: int| 0 <= k < dirs.len() && same_path(#[trigger] dirs[k], system_dir());
    assert(same_path(res@[s]@, encode_utf8("/etc/wireguard"@)));
    if let Some(dir) = env.wg_quick_config_dir {
        let k = choose|k: int| 0 <= k < dirs.len() && same_path(#[trigger] dirs[k], dir@);
        assert(same_path(res@[k]@, dir@));
    }
    if let Some(home) = env.home {
        let h = joined(home@, encode_utf8(".config/wireguard"@));
        let k = choose|k: int| 0 <= k < dirs.len() && same_path(#[trigger] dirs[k], h);
        assert(same_path(res@[k]@, h));
    }
    if 0 <= i < j < res@.len() {
        law_candidates_differ(all, i, j);
    }
    if 0 <= i < res@.len() {
        lemma_first_spellings_are_given(all, i);
        let k = choose|k: int| 0 <= k < all.len() && all[k] == dirs[i];
        assert(all[k] == res@[i]@);
    }
}

/// What is kept was given.
proof fn lemma_first_spellings_are_given(dirs: Seq<Seq<u8>>, i: int)
    requires
        0 <= i < first_spellings(dirs).len(),
    ensures
        exists|k: int| 0 <= k < dirs.len() && dirs[k] == first_spellings(dirs)[i],
    decreases dirs.len(),
{
    let head = dirs.drop_last();
    if i < first_spellings(head).len() {
        lemma_first_spellings_are_given(head, i);
        let k = choose|k: int| 0 <= k < head.len() && head[k] == first_spellings(head)[i];
        assert(dirs[k] == first_spellings(dirs)[i]);
    } else {
        assert(dirs[dirs.len() - 1] == first_spellings(dirs)[i]);
    }
}

/// What `has_graphical_session` returns: whether one of the three variables is set.
pub proof fn law_graphical_returned(env: Environment, res: bool)
    requires
        call_ensures(has_graphical_session, (&env,), res),
    ensures
        !res <==> !env.wayland_display && !env.wayland_socket && !env.display,
{
    law_graphical(env);
}

/// What `default_config_dir_display` returns: the first directory that is there, else
/// the first of all, else the system's.
pub proof fn law_default_dir_returned(probed: Vec<ProbedDir>, res: String, i: int)
    requires
        call_ensures(default_config_dir_display, (&probed,), res),
    ensures
        0 <= i < probed@.len() && probed@[i].exists && (forall|j: int|
            0 <= j < i ==> !(#[trigger] probed@[j]).exists) ==> res@ == readable(
            probed@[i].path@,
        ),
        probed@.len() > 0 && (forall|j: int|
            0 <= j < probed@.len() ==> !(#[trigger] probed@[j]).exists) ==> res@ == readable(
            probed@[0].path@,
        ),
        probed@.len() == 0 ==> res@ == "/etc/wireguard"@,
{
    if 0 <= i < probed@.len() {
        law_dir_to_show(probed@, i);
    }
    if probed@.len() > 0 {
        law_dir_to_show(probed@, 0);
    }
}

/// What `permission_guidance_message` returns, and what the guidance is wherever the
/// user is given it.
pub proof fn law_guidance(res: String)
    requires
        call_ensures(permission_guidance_message, (), res),
    ensures
        res@ == guidance(),
        guidance()
            == "Insufficient privileges, and no graphical privilege dialog is available. Please re-run NB WireSmart as a user with the required privileges (for example via sudo)."@,
{
}

} // verus!
