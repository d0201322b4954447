use task_entry::entry::Entry;

fn strings(items: &[&str]) -> Vec<String> {
    items.iter().map(|p| p.to_string()).collect()
}

#[test]
fn dump_writes_every_field_in_order() {
    let entry = Entry::new(
        "build".to_string(),
        "make all\nmake test\n".to_string(),
        strings(&["Makefile", "config"]),
        strings(&["a.c", "b.c"]),
        Some("abc123".to_string()),
    );
    assert_eq!(
        entry.dump(None),
        "-\n  name: build\n  cmd: |\n    make all\n    make test\n  required_files:\n  - Makefile\n  - config\n  files:\n  - a.c\n  - b.c\n  sha: abc123\n"
    );
}

#[test]
fn dump_leaves_out_what_is_empty() {
    let entry = Entry::new(String::new(), "true".to_string(), vec![], vec![], None);
    assert_eq!(entry.dump(None), "-\n  cmd: |\n    true\n");
}

#[test]
fn dump_prefers_the_new_fingerprint() {
    let entry =
        Entry::new("t".to_string(), "true".to_string(), vec![], vec![], Some("old".to_string()));
    assert_eq!(entry.dump(Some("new".to_string())), "-\n  name: t\n  cmd: |\n    true\n  sha: new\n");
    assert_eq!(entry.dump(None), "-\n  name: t\n  cmd: |\n    true\n  sha: old\n");
    let fresh = Entry::new("t".to_string(), "true".to_string(), vec![], vec![], None);
    assert_eq!(fresh.dump(Some("new".to_string())), "-\n  name: t\n  cmd: |\n    true\n  sha: new\n");
}

#[test]
fn dump_writes_the_command_line_by_line() {
    let entry = Entry::new(
        String::new(),
        "first\r\n\nthird\n  indented".to_string(),
        vec![],
        vec![],
        None,
    );
    assert_eq!(entry.dump(None), "-\n  cmd: |\n    first\n    \n    third\n      indented\n");
}

#[test]
fn dump_of_an_empty_command_has_an_empty_block() {
    let entry = Entry::new("t".to_string(), String::new(), vec![], strings(&["f"]), None);
    assert_eq!(entry.dump(None), "-\n  name: t\n  cmd: |\n  files:\n  - f\n");
}

#[test]
fn name_returns_the_label() {
    let entry = Entry::new("build".to_string(), "make".to_string(), vec![], vec![], None);
    assert_eq!(entry.name(), "build");
    assert_eq!(entry.cmd(), "make");
}
