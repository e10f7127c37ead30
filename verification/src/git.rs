//! Which files of a repository count as changed.
use vstd::prelude::*;
use crate::text::{lemma_filter_push, views};

verus! {

/// The status flags of one file, as the repository reports them: the
/// `INDEX_*` flags compare the index with HEAD, the `WT_*` flags compare the
/// working tree with the index.
pub struct FileStatus {
    pub index_new: bool,
    pub index_modified: bool,
    pub index_deleted: bool,
    pub index_renamed: bool,
    pub index_typechange: bool,
    pub wt_new: bool,
    pub wt_modified: bool,
    pub wt_deleted: bool,
    pub wt_typechange: bool,
    pub wt_renamed: bool,
    pub wt_unreadable: bool,
    pub ignored: bool,
    pub conflicted: bool,
}

/// One entry of the repository's status list: the flags and, when it is
/// valid UTF-8, the file's path.
pub struct StatusEntry {
    pub status: FileStatus,
    pub path: Option<String>,
}

/// A file counts as changed when it is new, modified, deleted or renamed,
/// in the index or in the working tree.
pub open spec fn counts_as_changed(s: FileStatus) -> bool {
    s.index_new || s.index_modified || s.index_deleted || s.index_renamed || s.wt_new
        || s.wt_modified || s.wt_deleted || s.wt_renamed
}

/// The paths of the changed entries that have a path, in the list's order.
pub open spec fn changed_paths(entries: Seq<StatusEntry>) -> Seq<Seq<char>>
    decreases entries.len(),
{
    if entries.len() == 0 {
        Seq::<Seq<char>>::empty()
    } else {
        let front = changed_paths(entries.drop_last());
        let e = entries.last();
        if counts_as_changed(e.status) && e.path.is_some() {
            front.push(e.path.unwrap()@)
        } else {
            front
        }
    }
}

/// The test for an entry that is reported: changed, with a path.
pub open spec fn reported() -> spec_fn(StatusEntry) -> bool {
    |e: StatusEntry| counts_as_changed(e.status) && e.path.is_some()
}

/// The changed paths, said directly: keep the changed entries that have a
/// path, and take their paths.
pub proof fn lemma_changed_paths_filter_map(entries: Seq<StatusEntry>)
    ensures
        changed_paths(entries) == entries.filter(reported()).map_values(
            |e: StatusEntry| e.path.unwrap()@,
        ),
    decreases entries.len(),
{
    let pv = |e: StatusEntry| e.path.unwrap()@;
    if entries.len() == 0 {
        reveal(Seq::filter);
        assert(entries.filter(reported()).map_values(pv) == Seq::<Seq<char>>::empty());
    } else {
        let t = entries.drop_last();
        let e = entries.last();
        lemma_changed_paths_filter_map(t);
        assert(entries == t.push(e));
        lemma_filter_push(t, e, reported());
        if reported()(e) {
            assert(t.filter(reported()).push(e).map_values(pv) == t.filter(reported()).map_values(
                pv,
            ).push(pv(e)));
        }
    }
}

/// Whether the flags mark a change.
pub fn is_changed(s: &FileStatus) -> (r: bool)
    ensures
        r == counts_as_changed(*s),
{
    s.index_new || s.index_modified || s.index_deleted || s.index_renamed || s.wt_new
        || s.wt_modified || s.wt_deleted || s.wt_renamed
}

/// The paths of the changed files among the status entries.
pub fn select_changed_files(entries: &Vec<StatusEntry>) -> (r: Vec<String>)
    ensures
        views(r@) == changed_paths(entries@),
{
    let mut changed_files: Vec<String> = Vec::new();
    let mut i: usize = 0;
    assert(entries@.take(0) == Seq::<StatusEntry>::empty());
    assert(views(changed_files@) == Seq::<Seq<char>>::empty());
    while i < entries.len()
        invariant
            i <= entries.len(),
            views(changed_files@) == changed_paths(entries@.take(i as int)),
        decreases entries.len() - i,
    {
        let entry = &entries[i];
        assert(entries@.take(i + 1).drop_last() == entries@.take(i as int));
        assert(entries@.take(i + 1).last() == entries@[i as int]);
        if is_changed(&entry.status) {
            if let Some(path) = &entry.path {
                let ghost before = views(changed_files@);
                changed_files.push(path.clone());
                assert(views(changed_files@) == before.push(path@));
            }
        }
        i = i + 1;
    }
    assert(entries@.take(entries.len() as int) == entries@);
    changed_files
}

/// Each of the eight change flags alone makes a file count as changed, and
/// a file none of whose eight change flags is set does not count, whatever
/// its type-change, unreadable, ignored and conflict flags say.
pub proof fn lemma_change_flags(s: FileStatus)
    ensures
        s.index_new ==> counts_as_changed(s),
        s.index_modified ==> counts_as_changed(s),
        s.index_deleted ==> counts_as_changed(s),
        s.index_renamed ==> counts_as_changed(s),
        s.wt_new ==> counts_as_changed(s),
        s.wt_modified ==> counts_as_changed(s),
        s.wt_deleted ==> counts_as_changed(s),
        s.wt_renamed ==> counts_as_changed(s),
        !s.index_new && !s.index_modified && !s.index_deleted && !s.index_renamed && !s.wt_new
            && !s.wt_modified && !s.wt_deleted && !s.wt_renamed ==> !counts_as_changed(s),
{
}

/// Every entry that has a path and one of the eight change flags set is
/// listed: new files in the index or untracked ones, modified, deleted and
/// renamed ones alike.
pub proof fn lemma_changed_entry_is_listed(entries: Seq<StatusEntry>, i: int)
    requires
        0 <= i < entries.len(),
        entries[i].path.is_some(),
        entries[i].status.index_new || entries[i].status.index_modified
            || entries[i].status.index_deleted || entries[i].status.index_renamed
            || entries[i].status.wt_new || entries[i].status.wt_modified
            || entries[i].status.wt_deleted || entries[i].status.wt_renamed,
    ensures
        changed_paths(entries).contains(entries[i].path.unwrap()@),
    decreases entries.len(),
{
    let t = entries.drop_last();
    let front = changed_paths(t);
    if i == entries.len() - 1 {
        assert(changed_paths(entries) == front.push(entries[i].path.unwrap()@));
        assert(changed_paths(entries)[front.len() as int] == entries[i].path.unwrap()@);
    } else {
        assert(t[i] == entries[i]);
        lemma_changed_entry_is_listed(t, i);
        let k = choose|k: int| 0 <= k < front.len() && front[k] == entries[i].path.unwrap()@;
        if counts_as_changed(entries.last().status) && entries.last().path.is_some() {
            assert(changed_paths(entries)[k] == front[k]);
        }
    }
}

/// Every listed path is the path of an entry that counts as changed.
pub proof fn lemma_listed_path_is_changed(entries: Seq<StatusEntry>, j: int)
    requires
        0 <= j < changed_paths(entries).len(),
    ensures
        exists|i: int|
            0 <= i < entries.len() && #[trigger] entries[i].path == Some(
                entries[i].path.unwrap(),
            ) && counts_as_changed(entries[i].status) && entries[i].path.unwrap()@
                == changed_paths(entries)[j],
    decreases entries.len(),
{
    let t = entries.drop_last();
    let front = changed_paths(t);
    let e = entries.last();
    if counts_as_changed(e.status) && e.path.is_some() && j == front.len() {
        let i = entries.len() - 1;
        assert(entries[i] == e);
    } else {
        lemma_listed_path_is_changed(t, j);
        let i = choose|i: int|
            0 <= i < t.len() && #[trigger] t[i].path == Some(t[i].path.unwrap())
                && counts_as_changed(t[i].status) && t[i].path.unwrap()@ == front[j];
        assert(entries[i] == t[i]);
    }
}

} // verus!
