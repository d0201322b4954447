//! The record that an entry is stored as: one item of a document's top-level
//! list.

use crate::entry::EntryView;
use crate::text::lines;
use vstd::prelude::*;

verus! {

/// Each of `items` on a line of its own, behind `prefix`.
pub open spec fn prefixed_lines(prefix: Seq<char>, items: Seq<Seq<char>>) -> Seq<char>
    decreases items.len(),
{
    if items.len() == 0 {
        Seq::empty()
    } else {
        prefixed_lines(prefix, items.drop_last()) + prefix + items.last() + "\n"@
    }
}

/// A list field of a record: nothing if the list is empty, else the key on a
/// line of its own and one line for each item.
pub open spec fn list_field(key_line: Seq<char>, items: Seq<Seq<char>>) -> Seq<char> {
    if items.len() == 0 {
        Seq::empty()
    } else {
        key_line + prefixed_lines("  - "@, items)
    }
}

/// The fingerprint that a record shows: the new one if there is one, else the
/// stored one.
pub open spec fn shown_sha(entry: EntryView, new_sha: Option<Seq<char>>) -> Option<Seq<char>> {
    match new_sha {
        Some(sha) => Some(sha),
        None => entry.sha,
    }
}

/// The name field of a record: nothing if the name is empty.
pub open spec fn name_field(name: Seq<char>) -> Seq<char> {
    if name.len() == 0 {
        Seq::empty()
    } else {
        "  name: "@ + name + "\n"@
    }
}

/// The command field of a record: a literal block with one line for each line
/// of the command.
pub open spec fn cmd_field(cmd: Seq<char>) -> Seq<char> {
    "  cmd: |\n"@ + prefixed_lines("    "@, lines(cmd))
}

/// The fingerprint field of a record: nothing if none is shown.
pub open spec fn sha_field(shown: Option<Seq<char>>) -> Seq<char> {
    match shown {
        Some(sha) => "  sha: "@ + sha + "\n"@,
        None => Seq::empty(),
    }
}

/// An entry as one item of a document's top-level list. The fields come in a
/// fixed order: the name, the command, the required files, the files, and the
/// fingerprint.
pub open spec fn record(entry: EntryView, new_sha: Option<Seq<char>>) -> Seq<char> {
    "-\n"@ + name_field(entry.name) + cmd_field(entry.cmd) + list_field(
        "  required_files:\n"@,
        entry.required_files,
    ) + list_field("  files:\n"@, entry.files) + sha_field(shown_sha(entry, new_sha))
}

/// Appends each of `items` to `out`, on a line of its own behind `prefix`.
pub fn append_prefixed_lines(out: &mut String, prefix: &str, items: &Vec<String>)
    ensures
        final(out)@ == old(out)@ + prefixed_lines(prefix@, items.deep_view()),
{
    let mut i: usize = 0;
    assert(items.deep_view().take(0) =~= Seq::empty());
    assert(out@ =~= old(out)@ + prefixed_lines(prefix@, items.deep_view().take(0)));
    while i < items.len()
        invariant
            i <= items.len(),
            out@ == old(out)@ + prefixed_lines(prefix@, items.deep_view().take(i as int)),
        decreases items.len() - i,
    {
        proof {
            let upto = items.deep_view().take(i + 1);
            assert(upto.drop_last() =~= items.deep_view().take(i as int));
            assert(upto.last() == items[i as int]@);
        }
        let ghost before = out@;
        out.append(prefix);
        out.append(items[i].as_str());
        out.append("\n");
        assert(out@ =~= before + prefix@ + items[i as int]@ + "\n"@);
        assert(out@ =~= old(out)@ + prefixed_lines(prefix@, items.deep_view().take(i + 1)));
        i += 1;
    }
    assert(items.deep_view().take(i as int) =~= items.deep_view());
}

} // verus!
