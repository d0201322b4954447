use task_entry::digest::to_hex;
use task_entry::entry::Entry;
use task_entry::fingerprint::message_of;
use task_entry::order::{bytes_at_most, bytes_equal};
use task_entry::watch::{file_at_most, sort_files, WatchedFile};

fn entry(cmd: &str, files: &[&str], required: &[&str]) -> Entry {
    Entry::new(
        String::new(),
        cmd.to_string(),
        required.iter().map(|p| p.to_string()).collect(),
        files.iter().map(|p| p.to_string()).collect(),
        None,
    )
}

fn file(path: &str, content: &[u8]) -> Option<WatchedFile> {
    Some(WatchedFile { path: path.as_bytes().to_vec(), content: content.to_vec() })
}

#[test]
fn fingerprint_of_no_files_is_the_digest_of_the_command() {
    let e = entry("true", &[], &[]);
    assert_eq!(
        e.calc_sha(&vec![]),
        "b5bea41b6c623f7c09f1bf24dcae58ebab3c0cdd90ad966bc43a45b44867e12b"
    );
}

#[test]
fn fingerprint_of_an_empty_command_is_the_digest_of_nothing() {
    let e = entry("", &[], &[]);
    assert_eq!(
        e.calc_sha(&vec![]),
        "e3b0c44298fc1c149afbf4c8996fb92427ae41e4649b934ca495991b7852b855"
    );
}

#[test]
fn fingerprint_hashes_file_contents_before_the_command() {
    let e = entry("echo hi > out.txt", &["out.txt"], &[]);
    assert_eq!(
        e.calc_sha(&vec![file("/work/out.txt", b"hi\n")]),
        "0ecd94d3260bb6390b9da9ba490512b3016676e487ffd67054b0d845a91fbe94"
    );
}

#[test]
fn fingerprint_is_lowercase_hex_of_64_digits() {
    let e = entry("make", &["a"], &[]);
    let sha = e.calc_sha(&vec![file("/a", b"AAA")]);
    assert_eq!(sha.len(), 64);
    assert!(sha.chars().all(|c| c.is_ascii_digit() || ('a'..='f').contains(&c)));
}

#[test]
fn fingerprint_takes_files_in_path_order() {
    let e = entry("make", &["b", "a"], &[]);
    let declared_b_first = vec![file("/w/b", b"BBB"), file("/w/a", b"AAA")];
    assert_eq!(
        e.calc_sha(&declared_b_first),
        "2408ee5b848123a22989d780fc8ef89bdb77c0b2fb415bcb657822cfe0768b8f"
    );
}

#[test]
fn fingerprint_is_independent_of_declared_order() {
    let one = entry("make", &["a", "b"], &["c"]);
    let other = entry("make", &["b", "a"], &["c"]);
    let seen_one = vec![file("/w/a", b"1"), file("/w/b", b"22"), file("/w/c", b"333")];
    let seen_other = vec![file("/w/b", b"22"), file("/w/a", b"1"), file("/w/c", b"333")];
    assert_eq!(one.calc_sha(&seen_one), other.calc_sha(&seen_other));
    let moved = vec![file("/w/c", b"333"), file("/w/b", b"22"), file("/w/a", b"1")];
    assert_eq!(one.calc_sha(&seen_one), one.calc_sha(&moved));
}

#[test]
fn fingerprint_ignores_paths_that_do_not_resolve() {
    let with_missing = entry("make", &["a", "gone", "b"], &[]);
    let without = entry("make", &["a", "b"], &[]);
    let seen_with = vec![file("/w/a", b"1"), None, file("/w/b", b"22")];
    let seen_without = vec![file("/w/a", b"1"), file("/w/b", b"22")];
    assert_eq!(with_missing.calc_sha(&seen_with), without.calc_sha(&seen_without));
}

#[test]
fn fingerprint_of_only_missing_files_is_that_of_the_command() {
    let e = entry("true", &["gone", "also gone"], &[]);
    assert_eq!(
        e.calc_sha(&vec![None, None]),
        "b5bea41b6c623f7c09f1bf24dcae58ebab3c0cdd90ad966bc43a45b44867e12b"
    );
}

#[test]
fn fingerprint_changes_with_one_byte_of_a_file() {
    let e = entry("echo hi > out.txt", &["out.txt"], &[]);
    let before = e.calc_sha(&vec![file("/work/out.txt", b"hi\n")]);
    let after = e.calc_sha(&vec![file("/work/out.txt", b"ho\n")]);
    assert_ne!(before, after);
}

#[test]
fn fingerprint_changes_with_the_command() {
    let seen = vec![file("/work/out.txt", b"hi\n")];
    let one = entry("echo hi > out.txt", &["out.txt"], &[]);
    let other = entry("echo ho > out.txt", &["out.txt"], &[]);
    assert_ne!(one.calc_sha(&seen), other.calc_sha(&seen));
}

#[test]
fn fingerprint_is_reproduced_by_identical_inputs() {
    let e = entry("make", &["a"], &["b"]);
    let seen = vec![file("/w/a", b"1"), file("/w/b", b"22")];
    assert_eq!(e.calc_sha(&seen), e.calc_sha(&seen));
}

#[test]
fn fingerprint_hashes_the_command_as_utf8() {
    let e = entry("\u{e9}", &[], &[]);
    assert_eq!(
        e.calc_sha(&vec![]),
        "4a99557e4033c3539de2eb65472017cad5f9557f7a0625a09f1c3f6e2ba69c4c"
    );
}

#[test]
fn fingerprint_hashes_a_file_listed_twice_twice() {
    let e = entry("make", &["a"], &["a"]);
    let twice = e.calc_sha(&vec![file("/w/a", b"AAA"), file("/w/a", b"AAA")]);
    let once = e.calc_sha(&vec![file("/w/a", b"AAA")]);
    assert_ne!(twice, once);
}

#[test]
fn hex_renders_two_lowercase_digits_per_byte() {
    assert_eq!(to_hex(&[]), "");
    assert_eq!(to_hex(&[0x00, 0x0a, 0x14, 0x1e, 0xff]), "000a141eff");
    assert_eq!(to_hex(&[0xab, 0xcd, 0xef]), "abcdef");
}

#[test]
fn bytes_are_ordered_lexicographically() {
    assert!(bytes_at_most(b"", b""));
    assert!(bytes_at_most(b"", b"a"));
    assert!(!bytes_at_most(b"a", b""));
    assert!(bytes_at_most(b"/a", b"/a/b"));
    assert!(bytes_at_most(b"/a-b", b"/a/b"));
    assert!(!bytes_at_most(b"/a/b", b"/a-b"));
    assert!(bytes_at_most(b"/a/b", b"/a/b"));
    assert!(bytes_at_most(b"Z", b"a"));
    assert!(!bytes_at_most(&[0xff], &[0x00, 0x01]));
}

#[test]
fn bytes_are_equal_when_every_byte_is() {
    assert!(bytes_equal(b"", b""));
    assert!(bytes_equal(b"abc", b"abc"));
    assert!(!bytes_equal(b"abc", b"abd"));
    assert!(!bytes_equal(b"abc", b"ab"));
}

#[test]
fn files_are_ordered_by_path_then_content() {
    let a = WatchedFile { path: b"/a".to_vec(), content: b"zzz".to_vec() };
    let b = WatchedFile { path: b"/b".to_vec(), content: b"aaa".to_vec() };
    let a_other = WatchedFile { path: b"/a".to_vec(), content: b"zzy".to_vec() };
    assert!(file_at_most(&a, &b));
    assert!(!file_at_most(&b, &a));
    assert!(file_at_most(&a_other, &a));
    assert!(!file_at_most(&a, &a_other));
    assert!(file_at_most(&a, &a));
}

#[test]
fn sort_files_drops_unresolved_paths_and_sorts_the_rest() {
    let seen = vec![file("/w/c", b"3"), None, file("/w/a", b"1"), file("/w/b", b"2"), None];
    let sorted = sort_files(&seen);
    let paths: Vec<&[u8]> = sorted.iter().map(|f| f.path.as_slice()).collect();
    assert_eq!(paths, vec![&b"/w/a"[..], &b"/w/b"[..], &b"/w/c"[..]]);
    assert!(sort_files(&vec![None, None]).is_empty());
    assert!(sort_files(&vec![]).is_empty());
}

#[test]
fn message_is_the_sorted_contents_and_then_the_command() {
    let seen = vec![file("/w/b", b"BBB"), None, file("/w/a", b"AAA")];
    assert_eq!(message_of("make", &seen), b"AAABBBmake".to_vec());
    assert_eq!(message_of("make", &vec![]), b"make".to_vec());
    assert_eq!(message_of("", &vec![None]), Vec::<u8>::new());
}

#[test]
fn message_orders_paths_by_bytes_not_by_components() {
    let seen = vec![file("/a/b", b"[slash]"), file("/a-b", b"[dash]")];
    assert_eq!(message_of("", &seen), b"[dash][slash]".to_vec());
}

#[test]
fn message_orders_two_observations_of_one_path_by_content() {
    let seen = vec![file("/a", b"2"), file("/a", b"1")];
    assert_eq!(message_of("", &seen), b"12".to_vec());
}
