//! Watched files as a caller observed them, and the order they are hashed in.

use crate::order::{
    bytes_at_most, bytes_equal, bytes_le, lemma_bytes_le_antisymmetric, lemma_bytes_le_connected,
    lemma_bytes_le_reflexive, lemma_bytes_le_transitive,
};
use vstd::prelude::*;
use vstd::relations::{sorted_by, total_ordering};
use vstd::seq_lib::{group_to_multiset_ensures, lemma_sorted_unique};

verus! {

/// A file that a declared path resolved to: its canonical absolute path, as
/// bytes, and everything it held when it was read.
#[derive(Debug, Clone)]
pub struct WatchedFile {
    pub path: Vec<u8>,
    pub content: Vec<u8>,
}

/// A watched file as a mathematical value.
pub struct FileView {
    pub path: Seq<u8>,
    pub content: Seq<u8>,
}

impl View for WatchedFile {
    type V = FileView;

    open spec fn view(&self) -> FileView {
        FileView { path: self.path@, content: self.content@ }
    }
}

impl DeepView for WatchedFile {
    type V = FileView;

    open spec fn deep_view(&self) -> FileView {
        self@
    }
}

/// Files are ordered by the bytes of their canonical paths. Two observations of
/// one path are ordered by content, so that any two observations compare and
/// only equal ones tie.
pub open spec fn file_le(x: FileView, y: FileView) -> bool {
    if x.path == y.path {
        bytes_le(x.content, y.content)
    } else {
        bytes_le(x.path, y.path)
    }
}

/// `file_le` as a relation that sequences can be sorted by.
pub open spec fn file_order() -> spec_fn(FileView, FileView) -> bool {
    |x: FileView, y: FileView| file_le(x, y)
}

/// The order on files is total: reflexive, antisymmetric, transitive, and any
/// two files compare.
pub proof fn lemma_file_order_total()
    ensures
        total_ordering(file_order()),
{
    let r = file_order();
    assert forall|x: FileView| #[trigger] r(x, x) by {
        lemma_bytes_le_reflexive(x.content);
    }
    assert forall|x: FileView, y: FileView| #[trigger] r(x, y) && #[trigger] r(y, x) implies x
        == y by {
        if x.path == y.path {
            lemma_bytes_le_antisymmetric(x.content, y.content);
        } else {
            lemma_bytes_le_antisymmetric(x.path, y.path);
        }
    }
    assert forall|x: FileView, y: FileView, z: FileView| #[trigger]
        r(x, y) && #[trigger] r(y, z) implies r(x, z) by {
        lemma_file_le_transitive(x, y, z);
    }
    assert forall|x: FileView, y: FileView| #[trigger] r(x, y) || #[trigger] r(y, x) by {
        lemma_bytes_le_connected(x.content, y.content);
        lemma_bytes_le_connected(x.path, y.path);
    }
}

/// The order on files is transitive.
pub proof fn lemma_file_le_transitive(x: FileView, y: FileView, z: FileView)
    requires
        file_le(x, y),
        file_le(y, z),
    ensures
        file_le(x, z),
{
    if x.path == y.path && y.path == z.path {
        lemma_bytes_le_transitive(x.content, y.content, z.content);
    } else if x.path == y.path {
    } else if y.path == z.path {
    } else {
        lemma_bytes_le_transitive(x.path, y.path, z.path);
        if x.path == z.path {
            lemma_bytes_le_antisymmetric(x.path, y.path);
        }
    }
}

/// The files among `observed`, in the order they stand there: a path that did
/// not resolve contributes nothing.
pub open spec fn present(observed: Seq<Option<FileView>>) -> Seq<FileView>
    decreases observed.len(),
{
    if observed.len() == 0 {
        Seq::empty()
    } else {
        match observed.last() {
            Some(file) => present(observed.drop_last()).push(file),
            None => present(observed.drop_last()),
        }
    }
}

/// The files among `observed` in the order they are hashed in: ascending.
pub open spec fn hashing_order(observed: Seq<Option<FileView>>) -> Seq<FileView> {
    present(observed).sort_by(file_order())
}

/// The contents of `files` one after another.
pub open spec fn contents_of(files: Seq<FileView>) -> Seq<u8>
    decreases files.len(),
{
    if files.len() == 0 {
        Seq::empty()
    } else {
        contents_of(files.drop_last()) + files.last().content
    }
}

/// Decides the order of two files.
pub fn file_at_most(x: &WatchedFile, y: &WatchedFile) -> (le: bool)
    ensures
        le == file_le(x@, y@),
{
    if bytes_equal(x.path.as_slice(), y.path.as_slice()) {
        bytes_at_most(x.content.as_slice(), y.content.as_slice())
    } else {
        bytes_at_most(x.path.as_slice(), y.path.as_slice())
    }
}

/// Puts `file` into the ascending `sorted`, behind every file that is at most
/// `file`.
fn insert_ascending<'a>(sorted: &mut Vec<&'a WatchedFile>, file: &'a WatchedFile)
    requires
        sorted_by(old(sorted).deep_view(), file_order()),
    ensures
        sorted_by(final(sorted).deep_view(), file_order()),
        final(sorted).deep_view().to_multiset() == old(sorted).deep_view().to_multiset().insert(
            file@,
        ),
{
    let ghost before = sorted.deep_view();
    let mut at: usize = 0;
    while at < sorted.len() && file_at_most(sorted[at], file)
        invariant
            at <= sorted.len(),
            sorted.deep_view() == before,
            forall|k: int| 0 <= k < at ==> file_le(#[trigger] before[k], file@),
        decreases sorted.len() - at,
    {
        at += 1;
    }
    sorted.insert(at, file);
    proof {
        broadcast use group_to_multiset_ensures;

        let after = sorted.deep_view();
        assert(after =~= before.insert(at as int, file@));
        assert forall|i: int, j: int| 0 <= i < j < after.len() implies #[trigger] file_order()(
            after[i],
            after[j],
        ) by {
            if i == at {
                lemma_bytes_le_connected(before[at as int].path, file@.path);
                lemma_bytes_le_connected(before[at as int].content, file@.content);
                if j - 1 > at {
                    assert(file_order()(before[at as int], before[j - 1]));
                    lemma_file_le_transitive(file@, before[at as int], before[j - 1]);
                }
            }
        }
    }
}

/// The files among `observed`, ascending: the order they are hashed in.
pub fn sort_files<'a>(observed: &'a Vec<Option<WatchedFile>>) -> (sorted: Vec<&'a WatchedFile>)
    ensures
        sorted.deep_view() == hashing_order(observed.deep_view()),
{
    let mut sorted: Vec<&'a WatchedFile> = Vec::new();
    let mut i: usize = 0;
    assert(sorted.deep_view() =~= Seq::empty());
    while i < observed.len()
        invariant
            i <= observed.len(),
            sorted_by(sorted.deep_view(), file_order()),
            sorted.deep_view().to_multiset() == present(
                observed.deep_view().take(i as int),
            ).to_multiset(),
        decreases observed.len() - i,
    {
        proof {
            broadcast use group_to_multiset_ensures;

            let upto = observed.deep_view().take(i + 1);
            assert(upto.drop_last() =~= observed.deep_view().take(i as int));
        }
        match &observed[i] {
            Some(file) => {
                insert_ascending(&mut sorted, file);
            },
            None => {},
        }
        i += 1;
    }
    proof {
        let all = observed.deep_view();
        assert(all.take(i as int) =~= all);
        lemma_file_order_total();
        present(all).lemma_sort_by_ensures(file_order());
        lemma_sorted_unique(sorted.deep_view(), hashing_order(all), file_order());
    }
    sorted
}

} // verus!
