//! Tunnels and the table that discovery fills.

use crate::paths::{extension_of, file_name, last_dot, lemma_last_dot, stem_of, ConfigPath};
use crate::paths::{file_extension, file_stem, DOT};
use crate::paths::{law_parted_at_the_last_dot, law_stem_and_extension};
use crate::text::{comes_before, text_before, utf8_text};
use crate::text::{lemma_text_before_order, lemma_text_before_trans};
use vstd::prelude::*;
use vstd::utf8::*;

verus! {

/// A configured tunnel: the interface name and the file that configures it.
#[derive(Debug)]
pub struct Tunnel {
    pub name: String,
    pub path: ConfigPath,
}

/// What a `Tunnel` holds.
#[verifier::ext_equal]
pub struct TunnelModel {
    pub name: Seq<char>,
    pub path: Seq<u8>,
}

impl View for Tunnel {
    type V = TunnelModel;

    open spec fn view(&self) -> TunnelModel {
        TunnelModel { name: self.name@, path: self.path@ }
    }
}

impl Clone for Tunnel {
    fn clone(&self) -> (res: Self)
        ensures
            res@ == self@,
    {
        Tunnel { name: self.name.clone(), path: self.path.clone() }
    }
}

/// What a vector of tunnels holds.
pub open spec fn tunnel_models(v: Seq<Tunnel>) -> Seq<TunnelModel> {
    v.map_values(|t: Tunnel| t@)
}

/// `.conf`, with which the name of a configuration file ends.
pub open spec fn conf_suffix() -> Seq<u8> {
    seq![0x2e, 0x63, 0x6f, 0x6e, 0x66]
}

/// Whether the file name `f` ends in `.conf`.
pub open spec fn ends_in_conf(f: Seq<u8>) -> bool {
    f.len() >= 5 && f.skip(f.len() - 5) == conf_suffix()
}

/// Whether a file found in a readable directory is taken for a tunnel's: its
/// name is UTF-8 and ends in `.conf`.
pub open spec fn is_tunnel_file(path: Seq<u8>) -> bool {
    file_name(path) matches Some(f) && valid_utf8(f) && ends_in_conf(f)
}

/// Whether the privileged helper reports a file: its extension is `conf`.
pub open spec fn has_conf_extension(path: Seq<u8>) -> bool {
    file_name(path) matches Some(f) && extension_of(f) == Some(seq![0x63u8, 0x6f, 0x6e, 0x66])
}

/// The tunnel that a file configures is named after the file's stem. There is
/// none where the file name is not UTF-8.
pub open spec fn tunnel_name(path: Seq<u8>) -> Option<Seq<char>> {
    match file_name(path) {
        Some(f) => if valid_utf8(f) {
            Some(decode_utf8(stem_of(f)))
        } else {
            None
        },
        None => None,
    }
}

/// A table of tunnels after `path` was offered to it. The first path under a
/// name stays.
pub open spec fn with_path(table: Map<Seq<char>, Seq<u8>>, path: Seq<u8>) -> Map<
    Seq<char>,
    Seq<u8>,
> {
    match tunnel_name(path) {
        Some(name) => if table.dom().contains(name) {
            table
        } else {
            table.insert(name, path)
        },
        None => table,
    }
}

/// A table after `paths` were offered to it in order.
pub open spec fn with_paths(table: Map<Seq<char>, Seq<u8>>, paths: Seq<Seq<u8>>) -> Map<
    Seq<char>,
    Seq<u8>,
>
    decreases paths.len(),
{
    if paths.len() == 0 {
        table
    } else {
        with_path(with_paths(table, paths.drop_last()), paths.last())
    }
}

/// Strictly ascending by name.
pub open spec fn sorted_by_name(s: Seq<TunnelModel>) -> bool {
    forall|i: int, j: int| 0 <= i < j < s.len() ==> text_before(s[i].name, s[j].name)
}

/// Whether `name` is in the list.
pub open spec fn lists_name(s: Seq<TunnelModel>, name: Seq<char>) -> bool {
    exists|i: int| 0 <= i < s.len() && s[i].name == name
}

/// The path that the list gives under `name`.
pub open spec fn path_under(s: Seq<TunnelModel>, name: Seq<char>) -> Seq<u8> {
    s[choose|i: int| 0 <= i < s.len() && s[i].name == name].path
}

/// The list `s` holds exactly the entries of `table`, ascending by name.
pub open spec fn is_listing(s: Seq<TunnelModel>, table: Map<Seq<char>, Seq<u8>>) -> bool {
    &&& sorted_by_name(s)
    &&& forall|i: int| #![trigger s[i]]
        0 <= i < s.len() ==> table.dom().contains(s[i].name) && table[s[i].name] == s[i].path
    &&& forall|n: Seq<char>| #[trigger] table.dom().contains(n) ==> lists_name(s, n)
}

/// Tunnels by name, each name once.
pub struct TunnelTable {
    entries: Vec<Tunnel>,
}

impl View for TunnelTable {
    type V = Map<Seq<char>, Seq<u8>>;

    closed spec fn view(&self) -> Map<Seq<char>, Seq<u8>> {
        let list = tunnel_models(self.entries@);
        Map::new(|n: Seq<char>| lists_name(list, n), |n: Seq<char>| path_under(list, n))
    }
}

impl TunnelTable {
    /// The names ascend strictly.
    pub closed spec fn wf(&self) -> bool {
        sorted_by_name(tunnel_models(self.entries@))
    }

    /// What is stored is a listing of the view.
    proof fn lemma_listing(&self)
        requires
            self.wf(),
        ensures
            is_listing(tunnel_models(self.entries@), self@),
    {
        let s = tunnel_models(self.entries@);
        assert forall|i: int| #![trigger s[i]] 0 <= i < s.len() implies self@.dom().contains(
            s[i].name,
        ) && self@[s[i].name] == s[i].path by {
            assert(lists_name(s, s[i].name));
            let k = choose|k: int| 0 <= k < s.len() && s[k].name == s[i].name;
            lemma_text_before_order(s[i].name, s[i].name);
            assert(k == i) by {
                if k < i {
                    assert(text_before(s[k].name, s[i].name));
                } else if i < k {
                    assert(text_before(s[i].name, s[k].name));
                }
            }
        }
    }

    /// A table without tunnels.
    pub fn new() -> (res: Self)
        ensures
            res.wf(),
            res@ == Map::<Seq<char>, Seq<u8>>::empty(),
    {
        let res = TunnelTable { entries: Vec::new() };
        assert(res@ =~= Map::<Seq<char>, Seq<u8>>::empty());
        res
    }

    /// Whether the table holds no tunnel.
    pub fn is_empty(&self) -> (res: bool)
        requires
            self.wf(),
        ensures
            res == (self@ == Map::<Seq<char>, Seq<u8>>::empty()),
    {
        let ghost s = tunnel_models(self.entries@);
        proof {
            self.lemma_listing();
            if s.len() > 0 {
                assert(self@.dom().contains(s[0].name));
            } else {
                assert(self@ =~= Map::<Seq<char>, Seq<u8>>::empty());
            }
        }
        self.entries.len() == 0
    }

    /// Adds a tunnel unless one of its name is there.
    fn insert_if_absent(&mut self, tunnel: Tunnel)
        requires
            old(self).wf(),
        ensures
            final(self).wf(),
            final(self)@ == if old(self)@.dom().contains(tunnel.name@) {
                old(self)@
            } else {
                old(self)@.insert(tunnel.name@, tunnel.path@)
            },
    {
        let ghost s = tunnel_models(self.entries@);
        let ghost name = tunnel.name@;
        let ghost t = tunnel@;
        proof {
            self.lemma_listing();
        }
        let mut i: usize = 0;
        while i < self.entries.len() && comes_before(&self.entries[i].name, &tunnel.name)
            invariant
                i <= self.entries@.len(),
                self == old(self),
                s == tunnel_models(self.entries@),
                name == tunnel.name@,
                forall|j: int| 0 <= j < i ==> text_before(#[trigger] s[j].name, name),
            decreases self.entries@.len() - i,
        {
            assert(s[i as int].name == self.entries@[i as int].name@);
            i = i + 1;
        }
        if i < self.entries.len() && self.entries[i].name == tunnel.name {
            assert(s[i as int].name == name);
            return ;
        }
        proof {
            assert forall|j: int| i <= j < s.len() implies text_before(
                name,
                #[trigger] s[j].name,
            ) by {
                assert(s[i as int].name == self.entries@[i as int].name@);
                lemma_text_before_order(s[i as int].name, name);
                if i < j {
                    lemma_text_before_trans(name, s[i as int].name, s[j].name);
                }
            }
            assert(!lists_name(s, name)) by {
                lemma_text_before_order(name, name);
            }
        }
        self.entries.insert(i, tunnel);
        proof {
            let r = tunnel_models(self.entries@);
            assert(r =~= s.insert(i as int, t));
            assert forall|a: int, b: int| 0 <= a < b < r.len() implies text_before(
                r[a].name,
                r[b].name,
            ) by {
                if a < i && b < i {
                    assert(r[a] == s[a] && r[b] == s[b]);
                } else if a < i && b == i {
                    assert(r[a] == s[a]);
                } else if a < i {
                    assert(r[a] == s[a] && r[b] == s[b - 1]);
                } else if a == i {
                    assert(r[b] == s[b - 1]);
                } else {
                    assert(r[a] == s[a - 1] && r[b] == s[b - 1]);
                }
            }
            self.lemma_listing();
            let goal = old(self)@.insert(name, t.path);
            assert forall|n: Seq<char>| #[trigger]
                self@.dom().contains(n) == goal.dom().contains(n) by {
                if lists_name(s, n) {
                    let k = choose|k: int| 0 <= k < s.len() && s[k].name == n;
                    assert(r[if k < i {
                        k
                    } else {
                        k + 1
                    }].name == n);
                }
                if n == name {
                    assert(r[i as int].name == n);
                }
                if lists_name(r, n) {
                    let k = choose|k: int| 0 <= k < r.len() && r[k].name == n;
                    if k < i {
                        assert(s[k].name == n);
                    } else if k > i {
                        assert(s[k - 1].name == n);
                    }
                }
            }
            assert forall|n: Seq<char>| #[trigger] self@.dom().contains(n) implies self@[n]
                == goal[n] by {
                let k = choose|k: int| 0 <= k < r.len() && r[k].name == n;
                assert(self@[r[k].name] == r[k].path);
                if k < i {
                    assert(s[k] == r[k]);
                } else if k > i {
                    assert(s[k - 1] == r[k]);
                }
            }
            assert(self@ =~= goal);
        }
    }

    /// The tunnels, ascending by name.
    pub fn into_tunnels(self) -> (res: Vec<Tunnel>)
        requires
            self.wf(),
        ensures
            is_listing(tunnel_models(res@), self@),
    {
        proof {
            self.lemma_listing();
        }
        self.entries
    }
}

/// Whether the file name `f` ends in `.conf`.
fn conf_name(f: &Vec<u8>) -> (res: bool)
    ensures
        res == ends_in_conf(f@),
{
    let n: usize = f.len();
    if n < 5 {
        return false;
    }
    let ghost tail = f@.skip(n - 5);
    let res = f[n - 5] == 0x2e && f[n - 4] == 0x63 && f[n - 3] == 0x6f && f[n - 2] == 0x6e && f[n
        - 1] == 0x66;
    proof {
        if res {
            assert(tail =~= conf_suffix());
        } else {
            assert(tail[0] == f@[n - 5] && tail[1] == f@[n - 4] && tail[2] == f@[n - 3] && tail[3]
                == f@[n - 2] && tail[4] == f@[n - 1]);
        }
    }
    res
}

/// Decides whether a file found in a readable directory is taken for a
/// tunnel's.
pub fn tunnel_file(path: &ConfigPath) -> (res: bool)
    ensures
        res == is_tunnel_file(path@),
{
    match path.file_name() {
        Some(f) => utf8_text(f.as_slice()).is_some() && conf_name(&f),
        None => false,
    }
}

/// Decides whether the privileged helper reports a file.
pub fn conf_extension(path: &ConfigPath) -> (res: bool)
    ensures
        res == has_conf_extension(path@),
{
    match path.file_name() {
        Some(f) => match file_extension(&f) {
            Some(e) => {
                let res = e.len() == 4 && e[0] == 0x63 && e[1] == 0x6f && e[2] == 0x6e && e[3]
                    == 0x66;
                proof {
                    if res {
                        assert(e@ =~= seq![0x63u8, 0x6f, 0x6e, 0x66]);
                    }
                }
                res
            },
            None => false,
        },
        None => false,
    }
}

/// The stem of a UTF-8 file name is UTF-8: it is cut at a dot.
pub proof fn lemma_stem_is_utf8(f: Seq<u8>)
    requires
        valid_utf8(f),
    ensures
        valid_utf8(stem_of(f)),
{
    lemma_last_dot(f);
    let k = last_dot(f);
    if k > 0 {
        is_char_boundary_iff_not_is_continuation_byte(f, k);
        utf8_byte_ranges_bitwise(f[k]);
        valid_utf8_split(f, k);
        assert(f.take(k) =~= f.subrange(0, k));
    }
}

/// Offers a configuration file to the table: its tunnel is added unless the
/// file name is not UTF-8 or a tunnel of that name is there.
pub fn insert_tunnel_from_path(entries: &mut TunnelTable, path: ConfigPath)
    requires
        old(entries).wf(),
    ensures
        final(entries).wf(),
        final(entries)@ == with_path(old(entries)@, path@),
{
    let f = match path.file_name() {
        Some(f) => f,
        None => return ,
    };
    if utf8_text(f.as_slice()).is_none() {
        return ;
    }
    let stem = file_stem(&f);
    proof {
        lemma_stem_is_utf8(f@);
    }
    match utf8_text(stem.as_slice()) {
        Some(name) => entries.insert_if_absent(Tunnel { name, path }),
        None => {},
    }
}

/// Offers files to the table, in order.
pub fn insert_tunnels_from_paths(entries: &mut TunnelTable, paths: &Vec<ConfigPath>)
    requires
        old(entries).wf(),
    ensures
        final(entries).wf(),
        final(entries)@ == with_paths(old(entries)@, crate::paths::path_bytes(paths@)),
{
    let ghost all = crate::paths::path_bytes(paths@);
    let mut i: usize = 0;
    while i < paths.len()
        invariant
            i <= paths@.len(),
            all == crate::paths::path_bytes(paths@),
            entries.wf(),
            entries@ == with_paths(old(entries)@, all.take(i as int)),
        decreases paths@.len() - i,
    {
        insert_tunnel_from_path(entries, paths[i].clone());
        assert(all.take(i + 1).drop_last() =~= all.take(i as int));
        assert(all.take(i + 1).last() == paths@[i as int]@);
        i = i + 1;
    }
    assert(all.take(all.len() as int) =~= all);
}

/// Some path before `k` configures a tunnel called `name`.
pub open spec fn named_before(paths: Seq<Seq<u8>>, k: int, name: Seq<char>) -> bool {
    exists|i: int| 0 <= i < k && tunnel_name(#[trigger] paths[i]) == Some(name)
}

/// Of the files offered under one name, the first is the tunnel's: a table that
/// started empty holds exactly the names that were offered, each with the first
/// path that was offered under it.
pub proof fn law_first_path_wins(paths: Seq<Seq<u8>>, k: int)
    requires
        0 <= k < paths.len(),
        tunnel_name(paths[k]) is Some,
        !named_before(paths, k, tunnel_name(paths[k]).unwrap()),
    ensures
        ({
            let table = with_paths(Map::empty(), paths);
            let name = tunnel_name(paths[k]).unwrap();
            table.dom().contains(name) && table[name] == paths[k]
        }),
    decreases paths.len(),
{
    let head = paths.drop_last();
    let name = tunnel_name(paths[k]).unwrap();
    if k == paths.len() - 1 {
        law_only_offered_names(head, name);
        if named_before(head, head.len() as int, name) {
            let i = choose|i: int| 0 <= i < head.len() && tunnel_name(#[trigger] head[i]) == Some(name);
            assert(paths[i] == head[i]);
        }
    } else {
        assert(head[k] == paths[k]);
        if named_before(head, k, name) {
            let i = choose|i: int| 0 <= i < k && tunnel_name(#[trigger] head[i]) == Some(name);
            assert(paths[i] == head[i]);
        }
        law_first_path_wins(head, k);
    }
}

/// A table that started empty holds a name iff some file was offered under it.
pub proof fn law_only_offered_names(paths: Seq<Seq<u8>>, name: Seq<char>)
    ensures
        with_paths(Map::empty(), paths).dom().contains(name) <==> named_before(
            paths,
            paths.len() as int,
            name,
        ),
    decreases paths.len(),
{
    if paths.len() > 0 {
        let head = paths.drop_last();
        law_only_offered_names(head, name);
        if named_before(head, head.len() as int, name) {
            let i = choose|i: int| 0 <= i < head.len() && tunnel_name(#[trigger] head[i]) == Some(name);
            assert(paths[i] == head[i]);
        }
        if named_before(paths, paths.len() as int, name) {
            let i = choose|i: int|
                0 <= i < paths.len() && tunnel_name(#[trigger] paths[i]) == Some(name);
            if i < head.len() {
                assert(paths[i] == head[i]);
            }
        }
        if tunnel_name(paths.last()) == Some(name) {
            assert(tunnel_name(paths[paths.len() - 1]) == Some(name));
        }
    }
}

/// Offering files changes nothing about the tunnels that are already there.
pub proof fn law_earlier_tunnels_stay(
    table: Map<Seq<char>, Seq<u8>>,
    paths: Seq<Seq<u8>>,
    name: Seq<char>,
)
    requires
        table.dom().contains(name),
    ensures
        with_paths(table, paths).dom().contains(name),
        with_paths(table, paths)[name] == table[name],
    decreases paths.len(),
{
    if paths.len() > 0 {
        law_earlier_tunnels_stay(table, paths.drop_last(), name);
    }
}

/// Offering `a` and then `b` is offering both in a row.
pub proof fn law_offers_add_up(
    table: Map<Seq<char>, Seq<u8>>,
    a: Seq<Seq<u8>>,
    b: Seq<Seq<u8>>,
)
    ensures
        with_paths(with_paths(table, a), b) == with_paths(table, a + b),
    decreases b.len(),
{
    if b.len() == 0 {
        assert(a + b =~= a);
    } else {
        law_offers_add_up(table, a, b.drop_last());
        assert((a + b).drop_last() =~= a + b.drop_last());
    }
}

/// A second file under the same name changes nothing.
pub proof fn law_same_name_changes_nothing(
    table: Map<Seq<char>, Seq<u8>>,
    first: Seq<u8>,
    second: Seq<u8>,
)
    requires
        tunnel_name(first) == tunnel_name(second),
    ensures
        with_path(with_path(table, first), second) == with_path(table, first),
{
}

/// The order in which files of different names are offered does not matter.
pub proof fn law_offers_commute(table: Map<Seq<char>, Seq<u8>>, a: Seq<u8>, b: Seq<u8>)
    requires
        tunnel_name(a) != tunnel_name(b),
    ensures
        with_path(with_path(table, a), b) == with_path(with_path(table, b), a),
{
    assert(with_path(with_path(table, a), b) =~= with_path(with_path(table, b), a));
}

/// Every name in the table is the stem of the file that it stands for.
pub open spec fn named_by_stems(table: Map<Seq<char>, Seq<u8>>) -> bool {
    forall|name: Seq<char>| #[trigger]
        table.dom().contains(name) ==> (file_name(table[name]) matches Some(f) && valid_utf8(f)
            && name == decode_utf8(stem_of(f)))
}

/// However files are offered, every name in the table is the stem of its file.
pub proof fn law_names_are_stems(table: Map<Seq<char>, Seq<u8>>, paths: Seq<Seq<u8>>)
    requires
        named_by_stems(table),
    ensures
        named_by_stems(with_paths(table, paths)),
    decreases paths.len(),
{
    if paths.len() > 0 {
        law_names_are_stems(table, paths.drop_last());
    }
}

/// A table that started empty names its tunnels by the stems of their files.
pub proof fn law_offered_names_are_stems(paths: Seq<Seq<u8>>)
    ensures
        named_by_stems(with_paths(Map::empty(), paths)),
{
    law_names_are_stems(Map::empty(), paths);
}

/// Both listings agree up to where the first ends.
proof fn lemma_listings_agree(
    a: Seq<TunnelModel>,
    b: Seq<TunnelModel>,
    table: Map<Seq<char>, Seq<u8>>,
    i: int,
)
    requires
        is_listing(a, table),
        is_listing(b, table),
        0 <= i < a.len(),
    ensures
        i < b.len(),
        a[i] == b[i],
    decreases i,
{
    assert forall|j: int| 0 <= j < i implies j < b.len() && a[j] == b[j] by {
        lemma_listings_agree(a, b, table, j);
    }
    assert(table.dom().contains(a[i].name));
    assert(lists_name(b, a[i].name));
    let k = choose|k: int| 0 <= k < b.len() && b[k].name == a[i].name;
    lemma_text_before_order(a[i].name, a[i].name);
    if k < i {
        assert(text_before(a[k].name, a[i].name));
    }
    assert(table.dom().contains(b[i].name));
    assert(lists_name(a, b[i].name));
    let l = choose|l: int| 0 <= l < a.len() && a[l].name == b[i].name;
    lemma_text_before_order(b[i].name, b[i].name);
    lemma_text_before_order(a[i].name, b[i].name);
    if l < i {
        assert(text_before(b[l].name, b[i].name));
    }
    if l > i && k > i {
        assert(text_before(a[i].name, a[l].name));
        assert(text_before(b[i].name, b[k].name));
    }
}

/// A table has one listing.
pub proof fn law_listing_is_unique(
    a: Seq<TunnelModel>,
    b: Seq<TunnelModel>,
    table: Map<Seq<char>, Seq<u8>>,
)
    requires
        is_listing(a, table),
        is_listing(b, table),
    ensures
        a == b,
{
    if a.len() > b.len() {
        lemma_listings_agree(a, b, table, b.len() as int);
    }
    if b.len() > a.len() {
        lemma_listings_agree(b, a, table, a.len() as int);
    }
    assert forall|i: int| 0 <= i < a.len() implies a[i] == b[i] by {
        lemma_listings_agree(a, b, table, i);
    }
    assert(a =~= b);
}

/// A listing has as many items as there are names.
pub proof fn law_listing_counts_names(s: Seq<TunnelModel>, table: Map<Seq<char>, Seq<u8>>)
    requires
        is_listing(s, table),
    ensures
        table.dom().finite(),
        s.len() == table.dom().len(),
{
    let names = s.map_values(|t: TunnelModel| t.name);
    assert forall|i: int, j: int| 0 <= i < j < names.len() implies names[i] != names[j] by {
        lemma_text_before_order(names[i], names[i]);
        assert(text_before(s[i].name, s[j].name));
    }
    assert(names.no_duplicates());
    names.unique_seq_to_set();
    assert(names.to_set() =~= table.dom()) by {
        assert forall|n: Seq<char>| names.to_set().contains(n) <==> table.dom().contains(n) by {
            if names.contains(n) {
                let i = choose|i: int| 0 <= i < names.len() && names[i] == n;
                assert(table.dom().contains(s[i].name));
            }
            if table.dom().contains(n) {
                assert(lists_name(s, n));
                let i = choose|i: int| 0 <= i < s.len() && s[i].name == n;
                assert(names[i] == n);
            }
        }
    }
}

/// The front end and the privileged helper pick the same files, as long as the
/// file name is UTF-8 and is not `.conf` alone.
pub proof fn law_helper_picks_the_same_files(path: Seq<u8>)
    requires
        file_name(path) matches Some(f) ==> valid_utf8(f) && f != conf_suffix(),
    ensures
        is_tunnel_file(path) <==> has_conf_extension(path),
{
    if let Some(f) = file_name(path) {
        lemma_last_dot(f);
        let conf = seq![0x63u8, 0x6f, 0x6e, 0x66];
        let n = f.len();
        if ends_in_conf(f) {
            let tail = f.skip(n - 5);
            assert(f[n - 5] == tail[0] && f[n - 4] == tail[1] && f[n - 3] == tail[2] && f[n - 2]
                == tail[3] && f[n - 1] == tail[4]);
            assert(last_dot(f) == n - 5);
            if n == 5 {
                assert(f =~= conf_suffix());
            }
            assert(f.skip(n - 4) =~= conf);
        }
        if extension_of(f) == Some(conf) {
            let e = f.skip(last_dot(f) + 1);
            assert(e.len() == 4);
            assert(f.skip(n - 5) =~= conf_suffix()) by {
                assert(f[n - 4] == e[0] && f[n - 3] == e[1] && f[n - 2] == e[2] && f[n - 1] == e[3]);
            }
        }
    }
}

/// Every file taken for a tunnel's has a tunnel name.
pub proof fn law_tunnel_files_have_names(path: Seq<u8>)
    requires
        is_tunnel_file(path),
    ensures
        tunnel_name(path) is Some,
{
}

/// The bytes of `.conf`.
proof fn lemma_conf_suffix()
    ensures
        encode_utf8(".conf"@) == seq![0x2eu8, 0x63, 0x6f, 0x6e, 0x66],
{
    reveal_strlit(".conf");
    is_ascii_chars_encode_utf8(".conf"@);
    assert(encode_utf8(".conf"@) =~= seq![0x2eu8, 0x63, 0x6f, 0x6e, 0x66]);
}

/// The front end takes a file for a tunnel's iff its name is UTF-8 and ends in
/// `.conf`. The helper reports a file iff something comes before such an ending.
/// It matters neither where the file lies nor how long its name is.
pub proof fn law_conf_files(path: Seq<u8>, stem: Seq<u8>)
    ensures
        file_name(path) == Some(stem + encode_utf8(".conf"@)) ==> {
            &&& is_tunnel_file(path) <==> valid_utf8(stem + encode_utf8(".conf"@))
            &&& has_conf_extension(path) <==> stem.len() > 0
        },
        is_tunnel_file(path) || has_conf_extension(path) ==> (file_name(path) matches Some(f)
            && f.len() >= 5 && f == f.take(f.len() - 5) + encode_utf8(".conf"@)),
{
    let conf = seq![0x63u8, 0x6f, 0x6e, 0x66];
    lemma_conf_suffix();
    let whole = stem + encode_utf8(".conf"@);
    assert(whole.skip(whole.len() - 5) =~= conf_suffix());
    assert(whole =~= stem.push(DOT) + conf);
    assert(seq![DOT] + conf =~= conf_suffix());
    assert(!conf.contains(DOT));
    law_parted_at_the_last_dot(stem, conf);
    if stem.len() == 0 {
        assert(whole =~= seq![DOT] + conf);
    }
    if let Some(f) = file_name(path) {
        if is_tunnel_file(path) {
            assert(f =~= f.take(f.len() - 5) + f.skip(f.len() - 5));
        }
        if has_conf_extension(path) {
            law_stem_and_extension(f);
            let s = stem_of(f);
            assert(f.len() == s.len() + 5);
            assert(f.take(f.len() - 5) =~= s);
            assert(f =~= s + conf_suffix());
        }
    }
}

/// Every file whose name is UTF-8 has a tunnel name, and no other: what comes
/// before the last dot of the file name, or the whole of it where no dot parts it.
pub proof fn law_tunnel_name(path: Seq<u8>, stem: Seq<u8>, extension: Seq<u8>)
    requires
        !extension.contains(DOT),
    ensures
        tunnel_name(path) is Some <==> file_name(path) is Some && valid_utf8(
            file_name(path).unwrap(),
        ),
        file_name(path) == Some(stem.push(DOT) + extension) && stem.len() > 0 && valid_utf8(
            stem.push(DOT) + extension,
        ) ==> tunnel_name(path) == Some(decode_utf8(stem)),
        file_name(path) == Some(extension) && valid_utf8(extension) ==> tunnel_name(path) == Some(
            decode_utf8(extension),
        ),
        file_name(path) == Some(seq![DOT] + extension) && valid_utf8(seq![DOT] + extension)
            ==> tunnel_name(path) == Some(decode_utf8(seq![DOT] + extension)),
{
    law_parted_at_the_last_dot(stem, extension);
}

/// A listing holds the tunnels of the table, all of them and no others, each
/// before those whose names come after its own.
pub proof fn law_listing_holds_the_table(s: Seq<TunnelModel>, table: Map<Seq<char>, Seq<u8>>)
    ensures
        is_listing(s, table) <==> {
            &&& forall|t: TunnelModel| #[trigger]
                s.contains(t) <==> table.dom().contains(t.name) && table[t.name] == t.path
            &&& forall|i: int, j: int|
                0 <= i < j < s.len() ==> text_before(#[trigger] s[i].name, #[trigger] s[j].name)
        },
{
    let holds = forall|t: TunnelModel| #[trigger]
        s.contains(t) <==> table.dom().contains(t.name) && table[t.name] == t.path;
    if is_listing(s, table) {
        assert forall|t: TunnelModel| #[trigger]
            s.contains(t) <==> table.dom().contains(t.name) && table[t.name] == t.path by {
            if table.dom().contains(t.name) && table[t.name] == t.path {
                assert(lists_name(s, t.name));
                let i = choose|i: int| 0 <= i < s.len() && s[i].name == t.name;
                assert(s[i] == t);
            }
        }
    }
    if holds {
        assert forall|i: int| #![trigger s[i]] 0 <= i < s.len() implies table.dom().contains(
            s[i].name,
        ) && table[s[i].name] == s[i].path by {
            assert(s.contains(s[i]));
        }
        assert forall|n: Seq<char>| #[trigger] table.dom().contains(n) implies lists_name(s, n) by {
            let t = TunnelModel { name: n, path: table[n] };
            assert(s.contains(t));
            let i = choose|i: int| 0 <= i < s.len() && s[i] == t;
            assert(s[i].name == n);
        }
    }
}

/// What `tunnel_file` and `conf_extension` return of a file in a directory: whether
/// its name ends in `.conf`, and for the helper whether something comes before that.
pub proof fn law_conf_files_returned(
    path: ConfigPath,
    stem: Seq<u8>,
    front_end: bool,
    helper: bool,
)
    requires
        call_ensures(tunnel_file, (&path,), front_end),
        call_ensures(conf_extension, (&path,), helper),
    ensures
        file_name(path@) == Some(stem + encode_utf8(".conf"@)) ==> {
            &&& front_end <==> valid_utf8(stem + encode_utf8(".conf"@))
            &&& helper <==> stem.len() > 0
        },
        front_end || helper ==> (file_name(path@) matches Some(f) && f.len() >= 5 && f == f.take(
            f.len() - 5,
        ) + encode_utf8(".conf"@)),
{
    law_conf_files(path@, stem);
}

/// What `insert_tunnel_from_path` leaves: the tunnels that were there, and the one
/// that the file configures unless its name was taken.
pub proof fn law_offer_taken(entries: &mut TunnelTable, path: ConfigPath, name: Seq<char>)
    requires
        call_ensures(insert_tunnel_from_path, (entries, path), ()),
    ensures
        final(entries)@.dom().contains(name) <==> old(entries)@.dom().contains(name)
            || tunnel_name(path@) == Some(name),
        old(entries)@.dom().contains(name) ==> final(entries)@[name] == old(entries)@[name],
        !old(entries)@.dom().contains(name) && tunnel_name(path@) == Some(name) ==> final(
            entries
        )@[name] == path@,
{
}

/// What `into_tunnels` returns: the tunnels of the table, all of them and no others,
/// ascending by name.
pub proof fn law_tunnels_returned(table: TunnelTable, res: Vec<Tunnel>, i: int, j: int)
    requires
        call_ensures(TunnelTable::into_tunnels, (table,), res),
    ensures
        0 <= i < res@.len() ==> table@.dom().contains(res@[i].name@) && table@[res@[i].name@]
            == res@[i].path@,
        0 <= i < j < res@.len() ==> text_before(res@[i].name@, res@[j].name@),
        res@.len() == table@.dom().len(),
{
    let s = tunnel_models(res@);
    law_listing_holds_the_table(s, table@);
    law_listing_counts_names(s, table@);
    if 0 <= i < res@.len() {
        assert(s[i] == res@[i]@);
        assert(s.contains(s[i]));
        if i < j < res@.len() {
            assert(s[j] == res@[j]@);
            assert(text_before(s[i].name, s[j].name));
        }
    }
}

} // verus!
