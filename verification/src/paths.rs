//! File system paths as the bytes that Linux gives them.
//!
//! A path is a list of names between slashes. Empty names and single dots stand
//! for nothing, except for a dot at the very start of a relative path.

use crate::text::{lossy_text, readable};
use vstd::prelude::*;
use vstd::utf8::*;

verus! {

/// The separator of names in a path.
pub const SLASH: u8 = 0x2f;

/// The byte that parts a file name from its extension.
pub const DOT: u8 = 0x2e;

/// A path, absolute or relative. Its bytes need not be UTF-8.
#[derive(Debug)]
pub struct ConfigPath {
    pub bytes: Vec<u8>,
}

impl View for ConfigPath {
    type V = Seq<u8>;

    open spec fn view(&self) -> Seq<u8> {
        self.bytes@
    }
}

impl Clone for ConfigPath {
    fn clone(&self) -> (res: Self)
        ensures
            res@ == self@,
    {
        ConfigPath { bytes: copy_bytes(&self.bytes) }
    }
}

/// What the paths in a vector are.
pub open spec fn path_bytes(v: Seq<ConfigPath>) -> Seq<Seq<u8>> {
    v.map_values(|p: ConfigPath| p@)
}

/// The parts of `p` between slashes, empty ones included.
pub open spec fn segments(p: Seq<u8>) -> Seq<Seq<u8>>
    decreases p.len(),
{
    if p.len() == 0 {
        seq![Seq::empty()]
    } else {
        let before = segments(p.drop_last());
        if p.last() == SLASH {
            before.push(Seq::empty())
        } else {
            before.drop_last().push(before.last().push(p.last()))
        }
    }
}

/// Whether a part between slashes names something: not empty and not a dot.
pub open spec fn is_name(s: Seq<u8>) -> bool {
    s.len() > 0 && s != seq![DOT]
}

/// The names along `p`.
pub open spec fn names(p: Seq<u8>) -> Seq<Seq<u8>> {
    segments(p).filter(|s: Seq<u8>| is_name(s))
}

/// Whether `p` starts at the root.
pub open spec fn is_absolute(p: Seq<u8>) -> bool {
    p.len() > 0 && p[0] == SLASH
}

/// Whether `p` starts with a lone dot: it is the dot, or the dot and a slash
/// come first.
pub open spec fn starts_here(p: Seq<u8>) -> bool {
    p.len() > 0 && p[0] == DOT && (p.len() == 1 || p[1] == SLASH)
}

/// Whether two paths have the same components, however they are spelled.
pub open spec fn same_path(a: Seq<u8>, b: Seq<u8>) -> bool {
    &&& is_absolute(a) == is_absolute(b)
    &&& starts_here(a) == starts_here(b)
    &&& names(a) == names(b)
}

/// The last name of `p`, unless it is the parent directory.
pub open spec fn file_name(p: Seq<u8>) -> Option<Seq<u8>> {
    if names(p).len() == 0 || names(p).last() == seq![DOT, DOT] {
        None
    } else {
        Some(names(p).last())
    }
}

/// Where the last dot of `f` is, or -1.
pub open spec fn last_dot(f: Seq<u8>) -> int
    decreases f.len(),
{
    if f.len() == 0 {
        -1
    } else if f.last() == DOT {
        f.len() - 1
    } else {
        last_dot(f.drop_last())
    }
}

/// A file name without its extension. A dot at the start parts nothing.
pub open spec fn stem_of(f: Seq<u8>) -> Seq<u8> {
    if last_dot(f) > 0 {
        f.take(last_dot(f))
    } else {
        f
    }
}

/// The extension of a file name, after the last dot that is not its first byte.
pub open spec fn extension_of(f: Seq<u8>) -> Option<Seq<u8>> {
    if last_dot(f) > 0 {
        Some(f.skip(last_dot(f) + 1))
    } else {
        None
    }
}

/// `rel` taken from `base`: an absolute `rel` stands for itself.
pub open spec fn joined(base: Seq<u8>, rel: Seq<u8>) -> Seq<u8> {
    if is_absolute(rel) {
        rel
    } else if base.len() == 0 || base.last() == SLASH {
        base + rel
    } else {
        base.push(SLASH) + rel
    }
}

/// Copies a byte vector.
fn copy_bytes(v: &Vec<u8>) -> (res: Vec<u8>)
    ensures
        res@ == v@,
{
    let res = v.clone();
    assert(res@ =~= v@);
    res
}

/// Whether two byte vectors are equal.
fn equal_bytes(a: &Vec<u8>, b: &Vec<u8>) -> (res: bool)
    ensures
        res == (a@ == b@),
{
    if a.len() != b.len() {
        return false;
    }
    let mut i: usize = 0;
    while i < a.len()
        invariant
            i <= a@.len() == b@.len(),
            forall|j: int| 0 <= j < i ==> a@[j] == b@[j],
        decreases a@.len() - i,
    {
        if a[i] != b[i] {
            return false;
        }
        i = i + 1;
    }
    assert(a@ =~= b@);
    true
}

/// The byte vectors in a vector.
pub open spec fn byte_lists(v: Seq<Vec<u8>>) -> Seq<Seq<u8>> {
    v.map_values(|b: Vec<u8>| b@)
}

/// `names` after one more part.
proof fn lemma_filter_push(done: Seq<Seq<u8>>, cur: Seq<u8>)
    ensures
        done.push(cur).filter(|s: Seq<u8>| is_name(s)) == if is_name(cur) {
            done.filter(|s: Seq<u8>| is_name(s)).push(cur)
        } else {
            done.filter(|s: Seq<u8>| is_name(s))
        },
{
    reveal(Seq::filter);
    assert(done.push(cur).drop_last() == done);
}

/// Appends a part between slashes to a list of names, if it names something.
fn push_name(list: &mut Vec<Vec<u8>>, part: Vec<u8>)
    ensures
        byte_lists(final(list)@) == if is_name(part@) {
            byte_lists(old(list)@).push(part@)
        } else {
            byte_lists(old(list)@)
        },
{
    let nothing = part.len() == 0 || (part.len() == 1 && part[0] == DOT);
    proof {
        if part@.len() == 1 && part@[0] == DOT {
            assert(part@ =~= seq![DOT]);
        }
    }
    if !nothing {
        list.push(part);
        assert(byte_lists(list@) =~= byte_lists(old(list)@).push(part@));
    }
}

/// Splits a path into its names.
fn names_of(p: &Vec<u8>) -> (res: Vec<Vec<u8>>)
    ensures
        byte_lists(res@) == names(p@),
{
    let mut done: Vec<Vec<u8>> = Vec::new();
    let mut cur: Vec<u8> = Vec::new();
    let mut i: usize = 0;
    proof {
        assert(p@.take(0) =~= Seq::<u8>::empty());
        reveal(Seq::filter);
        assert(segments(p@.take(0)).drop_last() =~= Seq::<Seq<u8>>::empty());
        assert(byte_lists(done@) =~= Seq::<Seq<u8>>::empty());
        assert(cur@ =~= segments(p@.take(0)).last());
    }
    while i < p.len()
        invariant
            i <= p@.len(),
            segments(p@.take(i as int)).len() > 0,
            cur@ == segments(p@.take(i as int)).last(),
            byte_lists(done@) == segments(p@.take(i as int)).drop_last().filter(
                |s: Seq<u8>| is_name(s),
            ),
        decreases p@.len() - i,
    {
        let b: u8 = p[i];
        let ghost before = segments(p@.take(i as int));
        let ghost after = segments(p@.take(i + 1));
        assert(p@.take(i + 1).drop_last() =~= p@.take(i as int));
        assert(p@.take(i + 1).last() == b);
        if b == SLASH {
            proof {
                assert(after.drop_last() =~= before);
                assert(before =~= before.drop_last().push(cur@));
                lemma_filter_push(before.drop_last(), cur@);
            }
            push_name(&mut done, cur);
            cur = Vec::new();
            assert(cur@ =~= after.last());
        } else {
            cur.push(b);
            assert(after.drop_last() =~= before.drop_last());
        }
        i = i + 1;
    }
    proof {
        assert(p@.take(p@.len() as int) =~= p@);
        let all = segments(p@);
        assert(all =~= all.drop_last().push(cur@));
        lemma_filter_push(all.drop_last(), cur@);
    }
    push_name(&mut done, cur);
    done
}

/// Finds the last dot.
fn find_last_dot(f: &Vec<u8>) -> (res: Option<usize>)
    ensures
        match res {
            Some(i) => i < f@.len() && last_dot(f@) == i,
            None => last_dot(f@) == -1,
        },
{
    let mut i: usize = f.len();
    assert(f@.take(i as int) =~= f@);
    while i > 0
        invariant
            i <= f@.len(),
            last_dot(f@) == last_dot(f@.take(i as int)),
        decreases i,
    {
        assert(f@.take(i as int).drop_last() =~= f@.take(i - 1));
        if f[i - 1] == DOT {
            return Some(i - 1);
        }
        i = i - 1;
    }
    None
}

/// The file name `f` without its extension.
pub fn file_stem(f: &Vec<u8>) -> (res: Vec<u8>)
    ensures
        res@ == stem_of(f@),
{
    match find_last_dot(f) {
        Some(i) if i > 0 => {
            let res = vstd::slice::slice_to_vec(vstd::slice::slice_subrange(f.as_slice(), 0, i));
            assert(res@ =~= f@.take(i as int));
            res
        },
        _ => copy_bytes(f),
    }
}

/// The extension of the file name `f`.
pub fn file_extension(f: &Vec<u8>) -> (res: Option<Vec<u8>>)
    ensures
        match res {
            Some(e) => extension_of(f@) == Some(e@),
            None => extension_of(f@) is None,
        },
{
    let n: usize = f.len();
    match find_last_dot(f) {
        Some(i) if i > 0 => {
            let res = vstd::slice::slice_to_vec(
                vstd::slice::slice_subrange(f.as_slice(), i + 1, n),
            );
            assert(res@ =~= f@.skip(i + 1));
            Some(res)
        },
        _ => None,
    }
}

impl ConfigPath {
    /// The path that `text` spells.
    pub fn from_text(text: &str) -> (res: Self)
        ensures
            res@ == encode_utf8(text@),
    {
        ConfigPath { bytes: text.as_bytes_vec() }
    }

    /// The last name of the path. `None` for the root, for the empty path and
    /// for one that ends in the parent directory.
    pub fn file_name(&self) -> (res: Option<Vec<u8>>)
        ensures
            match res {
                Some(f) => file_name(self@) == Some(f@),
                None => file_name(self@) is None,
            },
    {
        let mut list = names_of(&self.bytes);
        let ghost all = byte_lists(list@);
        match list.pop() {
            None => None,
            Some(last) => {
                assert(all.last() == last@);
                if last.len() == 2 && last[0] == DOT && last[1] == DOT {
                    assert(last@ =~= seq![DOT, DOT]);
                    None
                } else {
                    Some(last)
                }
            },
        }
    }

    /// Whether both paths have the same components.
    pub fn same_as(&self, other: &ConfigPath) -> (res: bool)
        ensures
            res == same_path(self@, other@),
    {
        let a = &self.bytes;
        let b = &other.bytes;
        let absolute_a = a.len() > 0 && a[0] == SLASH;
        let absolute_b = b.len() > 0 && b[0] == SLASH;
        let here_a = a.len() > 0 && a[0] == DOT && (a.len() == 1 || a[1] == SLASH);
        let here_b = b.len() > 0 && b[0] == DOT && (b.len() == 1 || b[1] == SLASH);
        if absolute_a != absolute_b || here_a != here_b {
            return false;
        }
        let x = names_of(a);
        let y = names_of(b);
        let ghost xs = byte_lists(x@);
        let ghost ys = byte_lists(y@);
        if x.len() != y.len() {
            assert(xs.len() != ys.len());
            return false;
        }
        let mut i: usize = 0;
        while i < x.len()
            invariant
                i <= x@.len() == y@.len(),
                xs == byte_lists(x@),
                ys == byte_lists(y@),
                xs == names(self@),
                ys == names(other@),
                forall|j: int| 0 <= j < i ==> xs[j] == ys[j],
            decreases x@.len() - i,
        {
            if !equal_bytes(&x[i], &y[i]) {
                assert(xs[i as int] != ys[i as int]);
                return false;
            }
            assert(xs[i as int] == ys[i as int]);
            i = i + 1;
        }
        assert(xs =~= ys);
        true
    }

    /// Follows `rel` from this path.
    pub fn join(&self, rel: &ConfigPath) -> (res: ConfigPath)
        ensures
            res@ == joined(self@, rel@),
    {
        if rel.bytes.len() > 0 && rel.bytes[0] == SLASH {
            return rel.clone();
        }
        let mut bytes = copy_bytes(&self.bytes);
        if bytes.len() > 0 && bytes[bytes.len() - 1] != SLASH {
            bytes.push(SLASH);
        }
        let mut tail = copy_bytes(&rel.bytes);
        bytes.append(&mut tail);
        ConfigPath { bytes }
    }

    /// The path as text for a reader.
    pub fn display(&self) -> (res: String)
        ensures
            res@ == readable(self@),
    {
        lossy_text(self.bytes.as_slice())
    }
}

/// Two spellings of a path are the same path in either order, and what is the
/// same as the same path is the same.
pub proof fn law_same_path_is_equivalence(a: Seq<u8>, b: Seq<u8>, c: Seq<u8>)
    ensures
        same_path(a, a),
        same_path(a, b) ==> same_path(b, a),
        same_path(a, b) && same_path(b, c) ==> same_path(a, c),
{
}

/// A file name is its stem, and the dot and the extension where it has one.
pub proof fn law_stem_and_extension(f: Seq<u8>)
    ensures
        f == match extension_of(f) {
            Some(e) => stem_of(f).push(DOT) + e,
            None => stem_of(f),
        },
{
    lemma_last_dot(f);
    if last_dot(f) > 0 {
        let e = f.skip(last_dot(f) + 1);
        assert(f =~= stem_of(f).push(DOT) + e);
    }
}

/// `last_dot` is the place of a dot, and no dot follows it.
pub proof fn lemma_last_dot(f: Seq<u8>)
    ensures
        -1 <= last_dot(f) < f.len(),
        last_dot(f) >= 0 ==> f[last_dot(f)] == DOT,
        forall|i: int| last_dot(f) < i < f.len() ==> f[i] != DOT,
    decreases f.len(),
{
    if f.len() > 0 && f.last() != DOT {
        lemma_last_dot(f.drop_last());
        let g = f.drop_last();
        assert forall|i: int| last_dot(f) < i < f.len() implies f[i] != DOT by {
            if i < g.len() {
                assert(g[i] == f[i]);
            }
        }
    }
}

/// A path has a part between slashes.
proof fn lemma_segments_exist(p: Seq<u8>)
    ensures
        segments(p).len() > 0,
    decreases p.len(),
{
    if p.len() > 0 {
        lemma_segments_exist(p.drop_last());
    }
}

/// A slash parts a path.
proof fn lemma_slash_parts(a: Seq<u8>, b: Seq<u8>)
    ensures
        segments(a.push(SLASH) + b) == segments(a) + segments(b),
    decreases b.len(),
{
    let all = a.push(SLASH) + b;
    lemma_segments_exist(a);
    if b.len() == 0 {
        assert(all =~= a.push(SLASH));
        assert(all.drop_last() =~= a);
        assert(segments(all) =~= segments(a) + segments(b));
    } else {
        let rest = b.drop_last();
        lemma_slash_parts(a, rest);
        lemma_segments_exist(rest);
        assert(all.drop_last() =~= a.push(SLASH) + rest);
        assert(segments(all) =~= segments(a) + segments(b));
    }
}

/// What holds no slash is one part.
proof fn lemma_one_part(n: Seq<u8>)
    requires
        !n.contains(SLASH),
    ensures
        segments(n) == seq![n],
    decreases n.len(),
{
    if n.len() > 0 {
        let rest = n.drop_last();
        assert(n[n.len() - 1] != SLASH);
        assert(!rest.contains(SLASH)) by {
            if rest.contains(SLASH) {
                let i = choose|i: int| 0 <= i < rest.len() && rest[i] == SLASH;
                assert(n[i] == SLASH);
            }
        }
        lemma_one_part(rest);
        assert(rest.push(n.last()) =~= n);
        assert(segments(n) =~= seq![n]);
    } else {
        assert(n =~= Seq::<u8>::empty());
    }
}

/// Filtering two lists in a row.
proof fn lemma_filter_adds_up(a: Seq<Seq<u8>>, b: Seq<Seq<u8>>)
    ensures
        (a + b).filter(|s: Seq<u8>| is_name(s)) == a.filter(|s: Seq<u8>| is_name(s)) + b.filter(
            |s: Seq<u8>| is_name(s),
        ),
    decreases b.len(),
{
    let name = |s: Seq<u8>| is_name(s);
    reveal(Seq::filter);
    if b.len() == 0 {
        assert(a + b =~= a);
        assert(a.filter(name) + b.filter(name) =~= a.filter(name));
    } else {
        lemma_filter_adds_up(a, b.drop_last());
        assert((a + b).drop_last() =~= a + b.drop_last());
        assert(a.filter(name) + b.drop_last().filter(name).push(b.last()) =~= (a.filter(name)
            + b.drop_last().filter(name)).push(b.last()));
    }
}

/// The names along a path are those before a slash and those behind it, in order.
pub proof fn law_slash_parts_names(a: Seq<u8>, b: Seq<u8>)
    ensures
        names(a.push(SLASH) + b) == names(a) + names(b),
{
    lemma_slash_parts(a, b);
    lemma_filter_adds_up(segments(a), segments(b));
}

/// What holds no slash is a name, unless it is empty or a dot.
pub proof fn law_single_name(n: Seq<u8>)
    requires
        !n.contains(SLASH),
    ensures
        names(n) == if n.len() == 0 || n == seq![DOT] {
            Seq::<Seq<u8>>::empty()
        } else {
            seq![n]
        },
{
    lemma_one_part(n);
    lemma_filter_push(Seq::empty(), n);
    reveal(Seq::filter);
    assert(Seq::<Seq<u8>>::empty().push(n) =~= seq![n]);
}

/// Two paths with a name at the end are the same iff the names are and what is
/// before them is.
pub proof fn law_same_path_by_names(a: Seq<u8>, x: Seq<u8>, b: Seq<u8>, y: Seq<u8>)
    requires
        a.len() > 0,
        b.len() > 0,
        !x.contains(SLASH) && x.len() > 0 && x != seq![DOT],
        !y.contains(SLASH) && y.len() > 0 && y != seq![DOT],
    ensures
        same_path(a.push(SLASH) + x, b.push(SLASH) + y) <==> same_path(a, b) && x == y,
{
    law_slash_parts_names(a, x);
    law_slash_parts_names(b, y);
    law_single_name(x);
    law_single_name(y);
    let p = a.push(SLASH) + x;
    let q = b.push(SLASH) + y;
    assert(p[0] == a[0] && q[0] == b[0]);
    assert(a.len() > 1 ==> p[1] == a[1]);
    assert(b.len() > 1 ==> q[1] == b[1]);
    assert(a.len() == 1 ==> p[1] == SLASH);
    assert(b.len() == 1 ==> q[1] == SLASH);
    let na = names(a) + seq![x];
    let nb = names(b) + seq![y];
    assert(na.drop_last() =~= names(a) && nb.drop_last() =~= names(b));
    assert(na.last() == x && nb.last() == y);
}

/// A slash more, a dot between slashes or a slash at the end spell the same path.
/// What holds no slash has one spelling, and no path from the root is one from
/// elsewhere.
pub proof fn law_spellings(a: Seq<u8>, b: Seq<u8>)
    ensures
        same_path(a.push(SLASH).push(SLASH) + b, a.push(SLASH) + b),
        same_path(a.push(SLASH).push(DOT).push(SLASH) + b, a.push(SLASH) + b),
        a.len() > 0 ==> same_path(a.push(SLASH), a),
        a.len() > 0 ==> same_path(a.push(SLASH).push(DOT), a),
        !a.contains(SLASH) && !b.contains(SLASH) ==> (same_path(a, b) <==> a == b),
        same_path(a, b) && a.len() > 0 && a[0] == SLASH ==> b.len() > 0 && b[0] == SLASH,
{
    let none = Seq::<u8>::empty();
    let dot = seq![DOT];
    let slash = a.push(SLASH);
    law_single_name(none);
    law_single_name(dot);
    law_slash_parts_names(a, b);
    law_slash_parts_names(a, none);
    law_slash_parts_names(a, dot);
    assert(slash + none =~= slash);
    assert(slash + dot =~= slash.push(DOT));
    law_slash_parts_names(slash, b);
    law_slash_parts_names(slash.push(DOT), b);
    assert(names(a) + Seq::<Seq<u8>>::empty() =~= names(a));
    let p = slash + b;
    let p1 = slash.push(SLASH) + b;
    let p2 = slash.push(DOT).push(SLASH) + b;
    assert(p[0] == slash[0] && p1[0] == slash[0] && p2[0] == slash[0]);
    if a.len() >= 1 {
        assert(p[1] == slash[1] && p1[1] == slash[1] && p2[1] == slash[1]);
        assert(slash[0] == a[0]);
        assert(a.len() > 1 ==> slash[1] == a[1]);
    }
    if !a.contains(SLASH) && !b.contains(SLASH) {
        law_single_name(a);
        law_single_name(b);
        if same_path(a, b) && a != b {
            assert(names(a).len() == names(b).len());
            if names(a).len() > 0 {
                assert(names(a)[0] == a && names(b)[0] == b);
            } else {
                assert(a.len() == 0 ==> a =~= none);
                assert(b.len() == 0 ==> b =~= none);
            }
        }
    }
}

/// The file name of a path is what follows its last slash, whatever comes before.
/// Nothing has a file name that ends in the parent directory. A slash or a dot at
/// the end changes nothing.
pub proof fn law_file_name(dir: Seq<u8>, f: Seq<u8>)
    requires
        !f.contains(SLASH) && f.len() > 0 && f != seq![DOT],
    ensures
        file_name(dir.push(SLASH) + f) == if f == seq![DOT, DOT] {
            None::<Seq<u8>>
        } else {
            Some(f)
        },
        file_name(f) == file_name(dir.push(SLASH) + f),
        file_name(dir.push(SLASH)) == file_name(dir),
        file_name(dir.push(SLASH).push(DOT)) == file_name(dir),
        file_name(Seq::empty()) is None,
        file_name(seq![DOT]) is None,
{
    let none = Seq::<u8>::empty();
    let dot = seq![DOT];
    law_single_name(f);
    law_single_name(none);
    law_single_name(dot);
    law_slash_parts_names(dir, f);
    law_slash_parts_names(dir, none);
    law_slash_parts_names(dir, dot);
    assert(dir.push(SLASH) + none =~= dir.push(SLASH));
    assert(dir.push(SLASH) + dot =~= dir.push(SLASH).push(DOT));
    assert(names(dir) + Seq::<Seq<u8>>::empty() =~= names(dir));
    assert((names(dir) + seq![f]).last() == f);
}

/// A file name is parted at its last dot, unless that is its first byte.
pub proof fn law_parted_at_the_last_dot(stem: Seq<u8>, extension: Seq<u8>)
    requires
        !extension.contains(DOT),
    ensures
        stem.len() > 0 ==> stem_of(stem.push(DOT) + extension) == stem && extension_of(
            stem.push(DOT) + extension,
        ) == Some(extension),
        stem_of(extension) == extension && extension_of(extension) is None,
        stem_of(seq![DOT] + extension) == seq![DOT] + extension && extension_of(
            seq![DOT] + extension,
        ) is None,
{
    let f = stem.push(DOT) + extension;
    let hidden = seq![DOT] + extension;
    lemma_last_dot(f);
    lemma_last_dot(extension);
    lemma_last_dot(hidden);
    assert(f[stem.len() as int] == DOT);
    if last_dot(f) > stem.len() {
        assert(f[last_dot(f)] == extension[last_dot(f) - stem.len() - 1]);
    }
    assert(last_dot(f) == stem.len());
    assert(f.take(stem.len() as int) =~= stem);
    assert(f.skip((stem.len() + 1) as int) =~= extension);
    if last_dot(extension) >= 0 {
        assert(extension[last_dot(extension)] == DOT);
    }
    if last_dot(hidden) > 0 {
        assert(hidden[last_dot(hidden)] == extension[last_dot(hidden) - 1]);
    }
}

/// A relative path that is followed from a base lies below it: one slash parts the
/// two. An absolute path stands for itself.
pub proof fn law_joined(base: Seq<u8>, rel: Seq<u8>)
    ensures
        rel.len() > 0 && rel[0] == SLASH ==> joined(base, rel) == rel,
        rel.len() == 0 || rel[0] != SLASH ==> {
            &&& names(joined(base, rel)) == names(base) + names(rel)
            &&& joined(base.push(SLASH), rel) == base.push(SLASH) + rel
            &&& base.len() > 0 && base.last() != SLASH ==> joined(base, rel) == joined(
                base.push(SLASH),
                rel,
            )
            &&& joined(Seq::empty(), rel) == rel
        },
{
    let none = Seq::<u8>::empty();
    let nothing = Seq::<Seq<u8>>::empty();
    assert(none + rel =~= rel);
    law_slash_parts_names(base, rel);
    law_single_name(none);
    if base.len() == 0 {
        assert(base =~= none);
        assert(nothing + names(rel) =~= names(rel));
    } else if base.last() == SLASH {
        let b = base.drop_last();
        assert(b.push(SLASH) =~= base);
        law_slash_parts_names(b, rel);
        law_slash_parts_names(b, none);
        assert(base + none =~= base);
        assert(names(b) + nothing =~= names(b));
    }
}

/// What `file_name`, `join` and `same_as` return of a file in a directory.
pub proof fn law_path_functions_returned(
    dir: ConfigPath,
    file: ConfigPath,
    whole: ConfigPath,
    name: Option<Vec<u8>>,
    same: bool,
)
    requires
        !file@.contains(SLASH) && file@.len() > 0 && file@ != seq![DOT] && file@ != seq![DOT, DOT],
        dir@.len() > 0 && dir@.last() != SLASH,
        call_ensures(ConfigPath::join, (&dir, &file), whole),
        call_ensures(ConfigPath::file_name, (&whole,), name),
        call_ensures(ConfigPath::same_as, (&whole, &dir), same),
    ensures
        whole@ == dir@.push(SLASH) + file@,
        name matches Some(f) && f@ == file@,
        !same,
{
    if file@[0] == SLASH {
        assert(file@.contains(SLASH));
    }
    law_joined(dir@, file@);
    law_file_name(dir@, file@);
    law_slash_parts_names(dir@, file@);
    law_single_name(file@);
    assert((names(dir@) + seq![file@]).len() == names(dir@).len() + 1);
}

} // verus!
