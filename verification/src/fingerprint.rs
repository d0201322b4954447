//! What an entry's fingerprint is, and what it does and does not depend on.

use crate::digest::{hex, sha256};
use crate::watch::{
    contents_of, file_order, hashing_order, lemma_file_order_total, present, sort_files, FileView,
    WatchedFile,
};
use vstd::prelude::*;
use vstd::seq_lib::{group_to_multiset_ensures, lemma_multiset_commutative, lemma_sorted_unique};
use vstd::utf8::encode_utf8;

verus! {

/// The bytes that are hashed: the contents of the files among `observed`, in
/// ascending order of the files, and then the command text in UTF-8.
pub open spec fn message(cmd: Seq<char>, observed: Seq<Option<FileView>>) -> Seq<u8> {
    contents_of(hashing_order(observed)) + encode_utf8(cmd)
}

/// The fingerprint of a command and the files observed for it: the SHA-256
/// digest of `message`, in lowercase hexadecimal.
pub open spec fn fingerprint(cmd: Seq<char>, observed: Seq<Option<FileView>>) -> Seq<char> {
    hex(sha256(message(cmd, observed)))
}

/// Appends `more` to `bytes`.
fn append_bytes(bytes: &mut Vec<u8>, more: &[u8])
    ensures
        final(bytes)@ == old(bytes)@ + more@,
{
    let mut i: usize = 0;
    while i < more.len()
        invariant
            i <= more.len(),
            bytes@ == old(bytes)@ + more@.take(i as int),
        decreases more.len() - i,
    {
        bytes.push(more[i]);
        assert(more@.take(i + 1) =~= more@.take(i as int).push(more@[i as int]));
        i += 1;
    }
    assert(more@.take(i as int) =~= more@);
}

/// Puts together the bytes that are hashed for `cmd` and `observed`.
pub fn message_of(cmd: &str, observed: &Vec<Option<WatchedFile>>) -> (bytes: Vec<u8>)
    ensures
        bytes@ == message(cmd@, observed.deep_view()),
{
    let sorted = sort_files(observed);
    let mut bytes: Vec<u8> = Vec::new();
    let mut i: usize = 0;
    assert(sorted.deep_view().take(0) =~= Seq::empty());
    while i < sorted.len()
        invariant
            i <= sorted.len(),
            bytes@ == contents_of(sorted.deep_view().take(i as int)),
        decreases sorted.len() - i,
    {
        proof {
            let upto = sorted.deep_view().take(i + 1);
            assert(upto.drop_last() =~= sorted.deep_view().take(i as int));
            assert(upto.last() == sorted[i as int]@);
        }
        append_bytes(&mut bytes, sorted[i].content.as_slice());
        i += 1;
    }
    assert(sorted.deep_view().take(i as int) =~= sorted.deep_view());
    append_bytes(&mut bytes, cmd.as_bytes());
    bytes
}

/// What a caller observes of declared paths at one moment: `disk` says, for a
/// declared path, the file it resolves to or that it does not resolve.
pub open spec fn observe(
    disk: spec_fn(Seq<char>) -> Option<FileView>,
    paths: Seq<Seq<char>>,
) -> Seq<Option<FileView>> {
    paths.map_values(disk)
}

/// The files among two sequences in a row are the files among the first and
/// then those among the second.
pub proof fn lemma_present_concat(a: Seq<Option<FileView>>, b: Seq<Option<FileView>>)
    ensures
        present(a + b) == present(a) + present(b),
    decreases b.len(),
{
    if b.len() == 0 {
        assert(a + b =~= a);
        assert(present(a) + present(b) =~= present(a));
    } else {
        assert((a + b).drop_last() =~= a + b.drop_last());
        assert((a + b).last() == b.last());
        lemma_present_concat(a, b.drop_last());
        match b.last() {
            Some(file) => {
                assert((present(a) + present(b.drop_last())).push(file) =~= present(a) + present(
                    b.drop_last(),
                ).push(file));
            },
            None => {},
        }
    }
}

/// Taking one observation out takes at most that one file out.
proof fn lemma_present_remove(s: Seq<Option<FileView>>, j: int)
    requires
        0 <= j < s.len(),
    ensures
        present(s).to_multiset() == present(s.remove(j)).to_multiset().add(
            present(seq![s[j]]).to_multiset(),
        ),
{
    let head = s.take(j);
    let tail = s.skip(j + 1);
    assert(s =~= head + seq![s[j]] + tail);
    assert(s.remove(j) =~= head + tail);
    lemma_present_concat(head, seq![s[j]]);
    lemma_present_concat(head + seq![s[j]], tail);
    lemma_present_concat(head, tail);
    lemma_multiset_commutative(present(head), present(seq![s[j]]));
    lemma_multiset_commutative(present(head) + present(seq![s[j]]), present(tail));
    lemma_multiset_commutative(present(head), present(tail));
    assert(present(s).to_multiset() =~= present(s.remove(j)).to_multiset().add(
        present(seq![s[j]]).to_multiset(),
    ));
}

/// Two sequences with the same observations, in whatever order, hold the same
/// files.
pub proof fn lemma_present_permuted(a: Seq<Option<FileView>>, b: Seq<Option<FileView>>)
    requires
        a.to_multiset() == b.to_multiset(),
    ensures
        present(a).to_multiset() == present(b).to_multiset(),
    decreases a.len(),
{
    broadcast use group_to_multiset_ensures;

    if a.len() == 0 {
        assert(b.len() == 0) by {
            assert(a.to_multiset().len() == a.len());
            assert(b.to_multiset().len() == b.len());
        }
        assert(a =~= b);
    } else {
        let last = a.len() - 1;
        let x = a[last];
        assert(a.contains(x));
        assert(b.to_multiset().count(x) > 0);
        assert(b.contains(x));
        let j = choose|j: int| 0 <= j < b.len() && b[j] == x;
        assert(a.remove(last).to_multiset() == b.remove(j).to_multiset());
        lemma_present_permuted(a.remove(last), b.remove(j));
        lemma_present_remove(a, last);
        lemma_present_remove(b, j);
    }
}

/// The fingerprint is a function of the command and of the files that
/// resolved, however often each was seen: the same command with the same files
/// reproduces the same fingerprint.
pub proof fn lemma_fingerprint_reads_present_files(
    cmd: Seq<char>,
    first: Seq<Option<FileView>>,
    second: Seq<Option<FileView>>,
)
    requires
        present(first).to_multiset() == present(second).to_multiset(),
    ensures
        hashing_order(first) == hashing_order(second),
        message(cmd, first) == message(cmd, second),
        fingerprint(cmd, first) == fingerprint(cmd, second),
{
    lemma_file_order_total();
    present(first).lemma_sort_by_ensures(file_order());
    present(second).lemma_sort_by_ensures(file_order());
    lemma_sorted_unique(hashing_order(first), hashing_order(second), file_order());
}

/// The fingerprint does not depend on the order in which the paths were
/// declared: two sequences of the same observations give the same one.
pub proof fn lemma_fingerprint_ignores_order(
    cmd: Seq<char>,
    first: Seq<Option<FileView>>,
    second: Seq<Option<FileView>>,
)
    requires
        first.to_multiset() == second.to_multiset(),
    ensures
        hashing_order(first) == hashing_order(second),
        message(cmd, first) == message(cmd, second),
        fingerprint(cmd, first) == fingerprint(cmd, second),
{
    lemma_present_permuted(first, second);
    lemma_fingerprint_reads_present_files(cmd, first, second);
}

/// Observing the same declared paths in another order observes the same
/// things.
proof fn lemma_observe_permuted(
    disk: spec_fn(Seq<char>) -> Option<FileView>,
    a: Seq<Seq<char>>,
    b: Seq<Seq<char>>,
)
    requires
        a.to_multiset() == b.to_multiset(),
    ensures
        observe(disk, a).to_multiset() == observe(disk, b).to_multiset(),
    decreases a.len(),
{
    broadcast use group_to_multiset_ensures;

    if a.len() == 0 {
        assert(b.len() == 0) by {
            assert(a.to_multiset().len() == a.len());
            assert(b.to_multiset().len() == b.len());
        }
        assert(observe(disk, a) =~= observe(disk, b));
    } else {
        let last = a.len() - 1;
        let x = a[last];
        assert(a.contains(x));
        assert(b.to_multiset().count(x) > 0);
        assert(b.contains(x));
        let j = choose|j: int| 0 <= j < b.len() && b[j] == x;
        assert(a.remove(last).to_multiset() == b.remove(j).to_multiset());
        lemma_observe_permuted(disk, a.remove(last), b.remove(j));
        assert(observe(disk, a).remove(last) =~= observe(disk, a.remove(last)));
        assert(observe(disk, b).remove(j) =~= observe(disk, b.remove(j)));
        assert(observe(disk, a)[last] == disk(x));
        assert(observe(disk, b)[j] == disk(x));
        let ma = observe(disk, a).to_multiset();
        let mb = observe(disk, b).to_multiset();
        assert(ma.remove(disk(x)) == mb.remove(disk(x)));
        assert(ma.count(disk(x)) > 0);
        assert(mb.count(disk(x)) > 0);
        assert(ma =~= ma.remove(disk(x)).insert(disk(x)));
        assert(mb =~= mb.remove(disk(x)).insert(disk(x)));
    }
}

/// Permuting the declared order of `files`, of `required_files`, or of both
/// leaves the fingerprint as it is, whatever the disk holds.
pub proof fn lemma_fingerprint_ignores_declared_order(
    disk: spec_fn(Seq<char>) -> Option<FileView>,
    cmd: Seq<char>,
    files: Seq<Seq<char>>,
    required_files: Seq<Seq<char>>,
    files_permuted: Seq<Seq<char>>,
    required_files_permuted: Seq<Seq<char>>,
)
    requires
        files.to_multiset() == files_permuted.to_multiset(),
        required_files.to_multiset() == required_files_permuted.to_multiset(),
    ensures
        fingerprint(cmd, observe(disk, files + required_files)) == fingerprint(
            cmd,
            observe(disk, files_permuted + required_files_permuted),
        ),
{
    lemma_multiset_commutative(files, required_files);
    lemma_multiset_commutative(files_permuted, required_files_permuted);
    lemma_observe_permuted(
        disk,
        files + required_files,
        files_permuted + required_files_permuted,
    );
    lemma_fingerprint_ignores_order(
        cmd,
        observe(disk, files + required_files),
        observe(disk, files_permuted + required_files_permuted),
    );
}

/// A declared path that does not resolve changes nothing: the fingerprint is
/// the one that the observations without it give.
pub proof fn lemma_fingerprint_ignores_unresolved(
    cmd: Seq<char>,
    observed: Seq<Option<FileView>>,
    i: int,
)
    requires
        0 <= i < observed.len(),
        observed[i] is None,
    ensures
        present(observed.remove(i)) == present(observed),
        message(cmd, observed.remove(i)) == message(cmd, observed),
        fingerprint(cmd, observed.remove(i)) == fingerprint(cmd, observed),
{
    let head = observed.take(i);
    let tail = observed.skip(i + 1);
    assert(observed =~= head + seq![observed[i]] + tail);
    assert(observed.remove(i) =~= head + tail);
    lemma_present_concat(head, seq![observed[i]]);
    lemma_present_concat(head + seq![observed[i]], tail);
    lemma_present_concat(head, tail);
    assert(present(seq![observed[i]]) =~= Seq::empty()) by {
        reveal_with_fuel(present, 2);
    }
    assert(present(head) + present(seq![observed[i]]) =~= present(head));
}

/// A missing file among the declared `files` changes nothing: the fingerprint
/// is that of the entry without the path, whatever the disk holds.
pub proof fn lemma_fingerprint_ignores_missing_file(
    disk: spec_fn(Seq<char>) -> Option<FileView>,
    cmd: Seq<char>,
    files: Seq<Seq<char>>,
    required_files: Seq<Seq<char>>,
    i: int,
)
    requires
        0 <= i < files.len(),
        disk(files[i]) is None,
    ensures
        fingerprint(cmd, observe(disk, files + required_files)) == fingerprint(
            cmd,
            observe(disk, files.remove(i) + required_files),
        ),
{
    let all = observe(disk, files + required_files);
    assert(all.remove(i) =~= observe(disk, files.remove(i) + required_files));
    lemma_fingerprint_ignores_unresolved(cmd, all, i);
}

} // verus!
