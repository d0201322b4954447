//! What reaches the digest when something changes.
//!
//! A digest is shorter than what it is taken of, so no one can promise that
//! two inputs never share one. What can be shown is that a change reaches the
//! digest: after it, other bytes are hashed than before, so that the
//! fingerprint stays the same only where SHA-256 gives two different messages
//! one digest.

use crate::digest::{lemma_hex_injective, sha256};
use crate::fingerprint::{fingerprint, message};
use crate::watch::{
    contents_of, file_order, hashing_order, lemma_file_order_total, present, FileView,
};
use vstd::multiset::group_multiset_axioms;
use vstd::prelude::*;
use vstd::seq_lib::{group_to_multiset_ensures, lemma_multiset_commutative};
use vstd::utf8::{encode_utf8, encode_utf8_decode_utf8};

verus! {

/// How often `byte` occurs in the contents of `files`.
pub open spec fn occurrences(files: Seq<FileView>, byte: u8) -> nat
    decreases files.len(),
{
    if files.len() == 0 {
        0
    } else {
        occurrences(files.drop_last(), byte) + files.last().content.to_multiset().count(byte)
    }
}

/// `file` with the byte at `at` replaced by `byte`.
pub open spec fn with_byte(file: FileView, at: int, byte: u8) -> FileView {
    FileView { path: file.path, content: file.content.update(at, byte) }
}

/// What is observed once the file at the canonical `path` has `byte` at `at`:
/// every observation of that file shows the new byte, and nothing else has
/// changed.
pub open spec fn after_change(
    observed: Seq<Option<FileView>>,
    path: Seq<u8>,
    at: int,
    byte: u8,
) -> Seq<Option<FileView>> {
    Seq::new(
        observed.len(),
        |i: int|
            match observed[i] {
                Some(file) => if file.path == path {
                    Some(with_byte(file, at, byte))
                } else {
                    observed[i]
                },
                None => None,
            },
    )
}

/// The change is a change: the file at `path` is among `observed`, and where
/// it is, it has a byte at `at` that is not yet `byte`.
pub open spec fn changes(observed: Seq<Option<FileView>>, path: Seq<u8>, at: int, byte: u8) -> bool {
    &&& exists|i: int|
        0 <= i < observed.len() && (#[trigger] observed[i]) is Some && observed[i]->0.path == path
    &&& forall|i: int|
        0 <= i < observed.len() && (#[trigger] observed[i]) is Some && observed[i]->0.path == path
            ==> 0 <= at < observed[i]->0.content.len() && observed[i]->0.content[at] != byte
}

/// The bytes of `files` one after another hold `byte` as often as the files
/// hold it.
proof fn lemma_contents_count(files: Seq<FileView>, byte: u8)
    ensures
        contents_of(files).to_multiset().count(byte) == occurrences(files, byte),
    decreases files.len(),
{
    broadcast use group_multiset_axioms;

    if files.len() == 0 {
        assert(contents_of(files).to_multiset().len() == contents_of(files).len()) by {
            broadcast use group_to_multiset_ensures;

        }
    } else {
        lemma_contents_count(files.drop_last(), byte);
        lemma_multiset_commutative(contents_of(files.drop_last()), files.last().content);
    }
}

/// Files in a row hold `byte` as often as the two parts together.
proof fn lemma_occurrences_concat(a: Seq<FileView>, b: Seq<FileView>, byte: u8)
    ensures
        occurrences(a + b, byte) == occurrences(a, byte) + occurrences(b, byte),
    decreases b.len(),
{
    if b.len() == 0 {
        assert(a + b =~= a);
    } else {
        assert((a + b).drop_last() =~= a + b.drop_last());
        lemma_occurrences_concat(a, b.drop_last(), byte);
    }
}

/// Taking one file out takes its bytes out.
proof fn lemma_occurrences_remove(s: Seq<FileView>, j: int, byte: u8)
    requires
        0 <= j < s.len(),
    ensures
        occurrences(s, byte) == occurrences(s.remove(j), byte) + s[j].content.to_multiset().count(
            byte,
        ),
{
    let head = s.take(j);
    let tail = s.skip(j + 1);
    assert(s =~= head + seq![s[j]] + tail);
    assert(s.remove(j) =~= head + tail);
    lemma_occurrences_concat(head, seq![s[j]], byte);
    lemma_occurrences_concat(head + seq![s[j]], tail, byte);
    lemma_occurrences_concat(head, tail, byte);
    assert(occurrences(seq![s[j]], byte) == s[j].content.to_multiset().count(byte)) by {
        reveal_with_fuel(occurrences, 2);
    }
}

/// The same files in another order hold `byte` equally often.
proof fn lemma_occurrences_permuted(a: Seq<FileView>, b: Seq<FileView>, byte: u8)
    requires
        a.to_multiset() == b.to_multiset(),
    ensures
        occurrences(a, byte) == occurrences(b, byte),
    decreases a.len(),
{
    broadcast use group_to_multiset_ensures;

    if a.len() == 0 {
        assert(b.len() == 0) by {
            assert(a.to_multiset().len() == a.len());
            assert(b.to_multiset().len() == b.len());
        }
    } else {
        let last = a.len() - 1;
        let x = a[last];
        assert(a.contains(x));
        assert(b.to_multiset().count(x) > 0);
        assert(b.contains(x));
        let j = choose|j: int| 0 <= j < b.len() && b[j] == x;
        assert(a.remove(last).to_multiset() == b.remove(j).to_multiset());
        lemma_occurrences_permuted(a.remove(last), b.remove(j), byte);
        lemma_occurrences_remove(a, last, byte);
        lemma_occurrences_remove(b, j, byte);
    }
}

/// The message holds `byte` as often as the observed files and the command
/// together.
proof fn lemma_message_count(cmd: Seq<char>, observed: Seq<Option<FileView>>, byte: u8)
    ensures
        message(cmd, observed).to_multiset().count(byte) == occurrences(present(observed), byte)
            + encode_utf8(cmd).to_multiset().count(byte),
{
    broadcast use group_multiset_axioms;

    lemma_file_order_total();
    present(observed).lemma_sort_by_ensures(file_order());
    lemma_occurrences_permuted(hashing_order(observed), present(observed), byte);
    lemma_contents_count(hashing_order(observed), byte);
    lemma_multiset_commutative(contents_of(hashing_order(observed)), encode_utf8(cmd));
}

/// After the change the observed files hold the new byte at least as often as
/// before, and more often if the changed file is among them.
proof fn lemma_change_adds_occurrences(
    observed: Seq<Option<FileView>>,
    path: Seq<u8>,
    at: int,
    byte: u8,
)
    requires
        forall|i: int|
            0 <= i < observed.len() && (#[trigger] observed[i]) is Some && observed[i]->0.path
                == path ==> 0 <= at < observed[i]->0.content.len() && observed[i]->0.content[at]
                != byte,
    ensures
        occurrences(present(after_change(observed, path, at, byte)), byte) >= occurrences(
            present(observed),
            byte,
        ),
        (exists|i: int|
            0 <= i < observed.len() && (#[trigger] observed[i]) is Some && observed[i]->0.path
                == path) ==> occurrences(present(after_change(observed, path, at, byte)), byte)
            > occurrences(present(observed), byte),
    decreases observed.len(),
{
    broadcast use group_multiset_axioms;

    if observed.len() > 0 {
        let changed = after_change(observed, path, at, byte);
        let rest = observed.drop_last();
        assert(changed.drop_last() =~= after_change(rest, path, at, byte));
        assert forall|i: int|
            0 <= i < rest.len() && (#[trigger] rest[i]) is Some && rest[i]->0.path
                == path implies 0 <= at < rest[i]->0.content.len() && rest[i]->0.content[at]
            != byte by {
            assert(rest[i] == observed[i]);
        }
        lemma_change_adds_occurrences(rest, path, at, byte);
        let last = observed.len() - 1;
        assert(observed.last() == observed[last]);
        assert(changed.last() == changed[last]);
        match observed[last] {
            Some(file) => {
                assert(present(observed).drop_last() =~= present(rest));
                assert(present(changed).drop_last() =~= present(changed.drop_last()));
                if file.path == path {
                    vstd::seq_lib::to_multiset_update(file.content, at, byte);
                    assert(present(changed).last() == with_byte(file, at, byte));
                } else {
                    assert(present(changed).last() == file);
                }
            },
            None => {},
        }
        if exists|i: int|
            0 <= i < observed.len() && (#[trigger] observed[i]) is Some && observed[i]->0.path
                == path {
            let i = choose|i: int|
                0 <= i < observed.len() && (#[trigger] observed[i]) is Some && observed[i]->0.path
                    == path;
            if i < last {
                assert(rest[i] == observed[i]);
            }
        }
    }
}

/// Changing one byte of a watched file changes what is hashed: with the same
/// command, the message after the change is not the message before it.
pub proof fn lemma_message_tells_contents_apart(
    cmd: Seq<char>,
    observed: Seq<Option<FileView>>,
    path: Seq<u8>,
    at: int,
    byte: u8,
)
    requires
        changes(observed, path, at, byte),
    ensures
        message(cmd, after_change(observed, path, at, byte)) != message(cmd, observed),
{
    lemma_change_adds_occurrences(observed, path, at, byte);
    lemma_message_count(cmd, observed, byte);
    lemma_message_count(cmd, after_change(observed, path, at, byte), byte);
}

/// With the same files observed, two different commands are hashed as two
/// different messages.
pub proof fn lemma_message_tells_commands_apart(
    first: Seq<char>,
    second: Seq<char>,
    observed: Seq<Option<FileView>>,
)
    requires
        first != second,
    ensures
        message(first, observed) != message(second, observed),
{
    let contents = contents_of(hashing_order(observed));
    if message(first, observed) == message(second, observed) {
        assert(encode_utf8(first) =~= message(first, observed).skip(contents.len() as int));
        assert(encode_utf8(second) =~= message(second, observed).skip(contents.len() as int));
        encode_utf8_decode_utf8(first);
        encode_utf8_decode_utf8(second);
    }
}

/// A changed byte of a watched file goes unnoticed only by a collision: if the
/// fingerprint is the same after the change, then SHA-256 has given two
/// different messages the same digest.
pub proof fn lemma_unnoticed_content_is_a_collision(
    cmd: Seq<char>,
    observed: Seq<Option<FileView>>,
    path: Seq<u8>,
    at: int,
    byte: u8,
)
    requires
        changes(observed, path, at, byte),
        fingerprint(cmd, after_change(observed, path, at, byte)) == fingerprint(cmd, observed),
    ensures
        message(cmd, after_change(observed, path, at, byte)) != message(cmd, observed),
        sha256(message(cmd, after_change(observed, path, at, byte))) == sha256(
            message(cmd, observed),
        ),
{
    lemma_message_tells_contents_apart(cmd, observed, path, at, byte);
    lemma_hex_injective(
        sha256(message(cmd, after_change(observed, path, at, byte))),
        sha256(message(cmd, observed)),
    );
}

/// A changed command goes unnoticed only by a collision: if two different
/// commands have the same fingerprint on the same files, then SHA-256 has
/// given two different messages the same digest.
pub proof fn lemma_unnoticed_command_is_a_collision(
    first: Seq<char>,
    second: Seq<char>,
    observed: Seq<Option<FileView>>,
)
    requires
        first != second,
        fingerprint(first, observed) == fingerprint(second, observed),
    ensures
        message(first, observed) != message(second, observed),
        sha256(message(first, observed)) == sha256(message(second, observed)),
{
    lemma_message_tells_commands_apart(first, second, observed);
    lemma_hex_injective(sha256(message(first, observed)), sha256(message(second, observed)));
}

} // verus!
