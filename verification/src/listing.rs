//! What was seen in a directory, and which of the files in it matter.

use crate::paths::{file_name, path_bytes, ConfigPath};
use crate::text::{law_readable, lemma_push_contains, readable};
use crate::tunnels::{conf_extension, conf_suffix, has_conf_extension, is_tunnel_file};
use crate::tunnels::{law_helper_picks_the_same_files, tunnel_file};
use vstd::prelude::*;
use vstd::utf8::*;

verus! {

/// An entry of a directory.
#[derive(Debug)]
pub struct FoundEntry {
    pub path: ConfigPath,
    pub is_file: bool,
}

/// What a `FoundEntry` holds.
#[verifier::ext_equal]
pub struct EntryModel {
    pub path: Seq<u8>,
    pub is_file: bool,
}

impl View for FoundEntry {
    type V = EntryModel;

    open spec fn view(&self) -> EntryModel {
        EntryModel { path: self.path@, is_file: self.is_file }
    }
}

/// What a vector of entries holds.
pub open spec fn entry_models(v: Seq<FoundEntry>) -> Seq<EntryModel> {
    v.map_values(|e: FoundEntry| e@)
}

/// What came of reading a directory.
#[derive(Debug)]
pub enum DirectoryReport {
    /// It is not there.
    Missing,
    /// It cannot be read, for want of permission or for another reason.
    Unreadable { denied: bool, reason: String },
    /// These are its entries, up to the first that could not be read.
    Entries { entries: Vec<FoundEntry>, failure: Option<String> },
}

/// What a `DirectoryReport` holds.
#[verifier::ext_equal]
pub enum ReportModel {
    Missing,
    Unreadable { denied: bool, reason: Seq<char> },
    Entries { entries: Seq<EntryModel>, failure: Option<Seq<char>> },
}

impl View for DirectoryReport {
    type V = ReportModel;

    open spec fn view(&self) -> ReportModel {
        match *self {
            DirectoryReport::Missing => ReportModel::Missing,
            DirectoryReport::Unreadable { denied, reason } => ReportModel::Unreadable {
                denied,
                reason: reason@,
            },
            DirectoryReport::Entries { entries, failure } => ReportModel::Entries {
                entries: entry_models(entries@),
                failure: match failure {
                    Some(e) => Some(e@),
                    None => None,
                },
            },
        }
    }
}

/// Who looks through a directory.
#[derive(Debug, Clone, Copy, PartialEq, Eq, Structural)]
pub enum Looker {
    FrontEnd,
    Helper,
}

/// Whether a file is of interest to the looker.
pub open spec fn of_interest(looker: Looker, path: Seq<u8>) -> bool {
    match looker {
        Looker::FrontEnd => is_tunnel_file(path),
        Looker::Helper => has_conf_extension(path),
    }
}

/// The files of interest among `entries`, in order.
pub open spec fn picked(looker: Looker, entries: Seq<EntryModel>) -> Seq<Seq<u8>>
    decreases entries.len(),
{
    if entries.len() == 0 {
        Seq::empty()
    } else {
        let before = picked(looker, entries.drop_last());
        let last = entries.last();
        if last.is_file && of_interest(looker, last.path) {
            before.push(last.path)
        } else {
            before
        }
    }
}

/// Picks the files of interest.
pub fn pick_files(looker: Looker, entries: Vec<FoundEntry>) -> (res: Vec<ConfigPath>)
    ensures
        path_bytes(res@) == picked(looker, entry_models(entries@)),
{
    let ghost all = entry_models(entries@);
    let mut res: Vec<ConfigPath> = Vec::new();
    let mut i: usize = 0;
    assert(path_bytes(res@) =~= picked(looker, all.take(0)));
    while i < entries.len()
        invariant
            i <= entries@.len(),
            all == entry_models(entries@),
            path_bytes(res@) == picked(looker, all.take(i as int)),
        decreases entries@.len() - i,
    {
        let entry = &entries[i];
        assert(all.take(i + 1).drop_last() =~= all.take(i as int));
        assert(all.take(i + 1).last() == entry@);
        let wanted = entry.is_file && match looker {
            Looker::FrontEnd => tunnel_file(&entry.path),
            Looker::Helper => conf_extension(&entry.path),
        };
        if wanted {
            let ghost before = path_bytes(res@);
            let path = entry.path.clone();
            res.push(path);
            assert(path_bytes(res@) =~= before.push(path@));
        }
        i = i + 1;
    }
    assert(all.take(all.len() as int) =~= all);
    res
}

/// What is picked is a file of interest that was seen, and every such file is
/// picked.
pub proof fn law_picked_files(looker: Looker, entries: Seq<EntryModel>, path: Seq<u8>)
    ensures
        picked(looker, entries).contains(path) <==> of_interest(looker, path) && entries.contains(
            EntryModel { path, is_file: true },
        ),
    decreases entries.len(),
{
    if entries.len() > 0 {
        let head = entries.drop_last();
        let last = entries.last();
        let seen = EntryModel { path, is_file: true };
        law_picked_files(looker, head, path);
        assert(head.push(last) =~= entries);
        lemma_push_contains(head, last, seen);
        lemma_push_contains(picked(looker, head), last.path, path);
    }
}

/// The front end and the helper pick the same files of a directory, as long as
/// every file name in it is UTF-8 and none is `.conf` alone.
pub proof fn law_lookers_agree(entries: Seq<EntryModel>)
    requires
        forall|i: int|
            0 <= i < entries.len() ==> (file_name((#[trigger] entries[i]).path) matches Some(f)
                ==> valid_utf8(f) && f != conf_suffix()),
    ensures
        picked(Looker::FrontEnd, entries) == picked(Looker::Helper, entries),
    decreases entries.len(),
{
    if entries.len() > 0 {
        let head = entries.drop_last();
        assert forall|i: int| 0 <= i < head.len() implies (file_name(
            (#[trigger] head[i]).path,
        ) matches Some(f) ==> valid_utf8(f) && f != conf_suffix()) by {
            assert(head[i] == entries[i]);
        }
        law_lookers_agree(head);
        assert(entries.last() == entries[entries.len() - 1]);
        law_helper_picks_the_same_files(entries.last().path);
    }
}

/// The message for a directory that cannot be read.
pub open spec fn cannot_read(dir: Seq<u8>, reason: Seq<char>) -> Seq<char> {
    "Cannot read "@ + readable(dir) + ": "@ + reason
}

/// Writes the message for a directory that cannot be read.
pub fn cannot_read_message(dir: &ConfigPath, reason: &str) -> (res: String)
    ensures
        res@ == cannot_read(dir@, reason@),
{
    "Cannot read ".to_owned().concat(&dir.display()).concat(": ").concat(reason)
}

/// The message for an entry that cannot be read.
pub open spec fn entry_failed(reason: Seq<char>) -> Seq<char> {
    "Failed reading directory entry: "@ + reason
}

/// Writes the message for an entry that cannot be read.
pub fn entry_failed_message(reason: &str) -> (res: String)
    ensures
        res@ == entry_failed(reason@),
{
    "Failed reading directory entry: ".to_owned().concat(reason)
}

/// What is picked of the entries `a` and then `b` is what is picked of `a` and then
/// what is picked of `b`. Of one entry it is the entry's path or nothing: the front
/// end picks tunnel files, the helper those with the extension `conf`.
pub proof fn law_picked_entry_by_entry(
    looker: Looker,
    a: Seq<EntryModel>,
    b: Seq<EntryModel>,
    entry: EntryModel,
)
    ensures
        picked(looker, a + b) == picked(looker, a) + picked(looker, b),
        picked(Looker::FrontEnd, seq![entry]) == if entry.is_file && is_tunnel_file(entry.path) {
            seq![entry.path]
        } else {
            Seq::empty()
        },
        picked(Looker::Helper, seq![entry]) == if entry.is_file && has_conf_extension(entry.path) {
            seq![entry.path]
        } else {
            Seq::empty()
        },
    decreases b.len(),
{
    reveal_with_fuel(picked, 2);
    assert(seq![entry].drop_last() =~= Seq::<EntryModel>::empty());
    assert(Seq::<Seq<u8>>::empty().push(entry.path) =~= seq![entry.path]);
    if b.len() == 0 {
        assert(a + b =~= a);
        assert(picked(looker, a) + picked(looker, b) =~= picked(looker, a));
    } else {
        let rest = b.drop_last();
        law_picked_entry_by_entry(looker, a, rest, entry);
        assert((a + b).drop_last() =~= a + rest);
        assert((picked(looker, a) + picked(looker, rest)).push(b.last().path) =~= picked(looker, a)
            + picked(looker, rest).push(b.last().path));
    }
}

/// The messages name the directory in the user's words and end in the reason.
pub proof fn law_messages(dir: Seq<char>, reason: Seq<char>)
    ensures
        cannot_read(encode_utf8(dir), reason) == "Cannot read "@ + dir + ": "@ + reason,
        entry_failed(reason) == "Failed reading directory entry: "@ + reason,
{
    law_readable(dir, Seq::empty());
}

} // verus!
