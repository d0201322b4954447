use task_entry::entry::{Entry, ReifyFail, ReifySuccess};
use task_entry::error::Error;
use task_entry::protocol::{Action, Event, Invocation, Stage, Stream};
use task_entry::step::{count_resolved, Staleness};
use task_entry::watch::WatchedFile;

fn strings(items: &[&str]) -> Vec<String> {
    items.iter().map(|p| p.to_string()).collect()
}

fn entry(cmd: &str, files: &[&str], required: &[&str], sha: Option<&str>) -> Entry {
    Entry::new(
        "task".to_string(),
        cmd.to_string(),
        strings(required),
        strings(files),
        sha.map(|s| s.to_string()),
    )
}

fn file(path: &str, content: &[u8]) -> Option<WatchedFile> {
    Some(WatchedFile { path: path.as_bytes().to_vec(), content: content.to_vec() })
}

fn resolved(path: &str) -> Option<Vec<u8>> {
    Some(path.as_bytes().to_vec())
}

/// What the outside world answers in a test.
struct World {
    required: Vec<Option<Vec<u8>>>,
    before: Vec<Option<WatchedFile>>,
    exit: Option<i32>,
    after: Vec<Option<WatchedFile>>,
}

/// Follows an evaluation to its end; says what was asked for on the way.
fn follow(
    step: impl Fn(Stage, Event) -> (Stage, Action),
    world: &World,
) -> (Vec<&'static str>, Action) {
    let mut asked = Vec::new();
    let mut stage = Stage::Start;
    let mut event = Event::Begin;
    loop {
        let (next, action) = step(stage, event);
        event = match action {
            Action::Resolve(_) => {
                asked.push("resolve");
                Event::Resolved(world.required.clone())
            }
            Action::Observe(_) => {
                asked.push("observe");
                if next == Stage::Sealing {
                    Event::Observed(world.after.clone())
                } else {
                    Event::Observed(world.before.clone())
                }
            }
            Action::Run(_) => {
                asked.push("run");
                Event::Exited(world.exit)
            }
            done => return (asked, done),
        };
        stage = next;
    }
}

const HI: &str = "0ecd94d3260bb6390b9da9ba490512b3016676e487ffd67054b0d845a91fbe94";
const BYE: &str = "706accaf768c277b7559744e9ebeb0fee58efa33c9f683049ee9d6aa1a6d01d1";

#[test]
fn first_reify_executes_and_returns_the_fingerprint_taken_afterwards() {
    let e = entry("echo hi > out.txt", &["out.txt"], &[], None);
    let world = World {
        required: vec![],
        before: vec![None],
        exit: Some(0),
        after: vec![file("/work/out.txt", b"hi\n")],
    };
    let (asked, end) = follow(|s, ev| e.reify(s, ev), &world);
    assert_eq!(asked, vec!["resolve", "run", "observe"]);
    match end {
        Action::Done(Ok(ReifySuccess::ExecSuccess(sha))) => assert_eq!(sha, HI),
        other => panic!("unexpected end: {:?}", other),
    }
}

#[test]
fn reify_with_the_stored_fingerprint_is_a_noop() {
    let e = entry("echo hi > out.txt", &["out.txt"], &[], Some(HI));
    let world = World {
        required: vec![],
        before: vec![file("/work/out.txt", b"hi\n")],
        exit: Some(0),
        after: vec![file("/work/out.txt", b"hi\n")],
    };
    let (asked, end) = follow(|s, ev| e.reify(s, ev), &world);
    assert_eq!(asked, vec!["resolve", "observe"]);
    assert!(matches!(end, Action::Done(Ok(ReifySuccess::Noop))));
}

#[test]
fn reify_after_a_change_executes_again_with_a_new_fingerprint() {
    let e = entry("echo hi > out.txt", &["out.txt"], &[], Some(HI));
    let world = World {
        required: vec![],
        before: vec![file("/work/out.txt", b"changed\n")],
        exit: Some(0),
        after: vec![file("/work/out.txt", b"bye\n")],
    };
    let (asked, end) = follow(|s, ev| e.reify(s, ev), &world);
    assert_eq!(asked, vec!["resolve", "observe", "run", "observe"]);
    match end {
        Action::Done(Ok(ReifySuccess::ExecSuccess(sha))) => {
            assert_eq!(sha, BYE);
            assert_ne!(sha, HI);
        }
        other => panic!("unexpected end: {:?}", other),
    }
}

#[test]
fn reify_with_a_missing_required_file_runs_nothing() {
    let e = entry("true", &[], &["missing.txt"], Some(HI));
    let world = World { required: vec![None], before: vec![None], exit: Some(0), after: vec![None] };
    let (asked, end) = follow(|s, ev| e.reify(s, ev), &world);
    assert_eq!(asked, vec!["resolve"]);
    assert!(matches!(end, Action::Done(Err(ReifyFail::MissingRequiredFiles))));
    assert_eq!(e.sha(), &Some(HI.to_string()));
}

#[test]
fn reify_with_one_of_two_required_files_missing_runs_nothing() {
    let e = entry("true", &[], &["here.txt", "missing.txt"], None);
    let world = World {
        required: vec![resolved("/w/here.txt"), None],
        before: vec![],
        exit: Some(0),
        after: vec![],
    };
    let (asked, end) = follow(|s, ev| e.reify(s, ev), &world);
    assert_eq!(asked, vec!["resolve"]);
    assert!(matches!(end, Action::Done(Err(ReifyFail::MissingRequiredFiles))));
}

#[test]
fn reify_checks_required_files_before_staleness() {
    let e = entry("true", &[], &["missing.txt"], None);
    let unchanged = e.calc_sha(&vec![None]);
    let e = entry("true", &[], &["missing.txt"], Some(&unchanged));
    let world = World { required: vec![None], before: vec![None], exit: Some(0), after: vec![None] };
    let (_, end) = follow(|s, ev| e.reify(s, ev), &world);
    assert!(matches!(end, Action::Done(Err(ReifyFail::MissingRequiredFiles))));
}

#[test]
fn reify_reports_the_exit_code_of_a_failed_command() {
    let e = entry("exit 3", &[], &[], Some(HI));
    let world = World { required: vec![], before: vec![], exit: Some(3), after: vec![] };
    let (asked, end) = follow(|s, ev| e.reify(s, ev), &world);
    assert_eq!(asked, vec!["resolve", "observe", "run"]);
    assert!(matches!(end, Action::Done(Err(ReifyFail::ExecFail(3)))));
    assert_eq!(e.sha(), &Some(HI.to_string()));
}

#[test]
fn reify_reports_negative_exit_codes_verbatim() {
    let e = entry("exit 255", &[], &[], None);
    let world = World { required: vec![], before: vec![], exit: Some(-1), after: vec![] };
    let (_, end) = follow(|s, ev| e.reify(s, ev), &world);
    assert!(matches!(end, Action::Done(Err(ReifyFail::ExecFail(-1)))));
}

#[test]
fn reify_without_an_exit_code_fails() {
    let e = entry("kill -9 $$", &[], &[], None);
    let world = World { required: vec![], before: vec![], exit: None, after: vec![] };
    let (asked, end) = follow(|s, ev| e.reify(s, ev), &world);
    assert_eq!(asked, vec!["resolve", "run"]);
    assert!(matches!(end, Action::Fail(Error::Unknown)));
}

#[test]
fn reify_without_history_executes_without_reading_first() {
    let e = entry("true", &["a"], &["b"], None);
    let world = World {
        required: vec![resolved("/w/b")],
        before: vec![file("/w/a", b"1"), file("/w/b", b"2")],
        exit: Some(0),
        after: vec![file("/w/a", b"1"), file("/w/b", b"2")],
    };
    let (asked, end) = follow(|s, ev| e.reify(s, ev), &world);
    assert_eq!(asked, vec!["resolve", "run", "observe"]);
    assert!(matches!(end, Action::Done(Ok(ReifySuccess::ExecSuccess(_)))));
}

#[test]
fn reify_asks_for_the_declared_paths() {
    let e = entry("true", &["a", "b"], &["c"], Some(HI));
    match e.reify(Stage::Start, Event::Begin) {
        (Stage::Admitting, Action::Resolve(paths)) => assert_eq!(paths, strings(&["c"])),
        other => panic!("unexpected step: {:?}", other),
    }
    match e.reify(Stage::Admitting, Event::Resolved(vec![resolved("/w/c")])) {
        (Stage::Comparing, Action::Observe(paths)) => {
            assert_eq!(paths, strings(&["a", "b", "c"]))
        }
        other => panic!("unexpected step: {:?}", other),
    }
    match e.reify(Stage::Running, Event::Exited(Some(0))) {
        (Stage::Sealing, Action::Observe(paths)) => assert_eq!(paths, strings(&["a", "b", "c"])),
        other => panic!("unexpected step: {:?}", other),
    }
    assert_eq!(e.watched_paths(), strings(&["a", "b", "c"]));
}

#[test]
fn reify_refuses_an_answer_out_of_turn() {
    let e = entry("true", &[], &[], None);
    assert!(matches!(
        e.reify(Stage::Start, Event::Exited(Some(0))),
        (Stage::Finished, Action::Fail(Error::OutOfTurn))
    ));
    assert!(matches!(
        e.reify(Stage::Running, Event::Begin),
        (Stage::Finished, Action::Fail(Error::OutOfTurn))
    ));
    assert!(matches!(
        e.reify(Stage::Sealing, Event::Resolved(vec![])),
        (Stage::Finished, Action::Fail(Error::OutOfTurn))
    ));
    assert!(matches!(
        e.reify(Stage::Finished, Event::Begin),
        (Stage::Finished, Action::Fail(Error::OutOfTurn))
    ));
    assert!(matches!(
        e.dry_run(Stage::Running, Event::Exited(Some(0))),
        (Stage::Finished, Action::Fail(Error::OutOfTurn))
    ));
    assert!(matches!(
        e.dry_run(Stage::Admitting, Event::Resolved(vec![])),
        (Stage::Finished, Action::Fail(Error::OutOfTurn))
    ));
}

#[test]
fn invocation_is_a_fail_fast_shell_with_the_declared_paths() {
    let e = entry("echo one\necho two", &["a", "b"], &["c", "d", "e"], None);
    let Invocation { program, args, env, stdout, stderr } = e.invocation();
    assert_eq!(stdout, Stream::Inherit);
    assert_eq!(stderr, Stream::Inherit);
    assert_eq!(program, "/bin/bash");
    assert_eq!(args, strings(&["-c", "set -xe\necho one\necho two"]));
    assert_eq!(
        env,
        vec![
            ("files".to_string(), "a\nb".to_string()),
            ("required_files".to_string(), "c\nd\ne".to_string()),
        ]
    );
}

#[test]
fn invocation_of_an_entry_without_files_has_empty_variables() {
    let e = entry("true", &[], &[], None);
    let invocation = e.invocation();
    assert_eq!(
        invocation.env,
        vec![
            ("files".to_string(), String::new()),
            ("required_files".to_string(), String::new()),
        ]
    );
    match e.reify(Stage::Admitting, Event::Resolved(vec![])) {
        (Stage::Running, Action::Run(asked)) => {
            assert_eq!(asked.program, invocation.program);
            assert_eq!(asked.args, invocation.args);
            assert_eq!(asked.env, invocation.env);
        }
        other => panic!("unexpected step: {:?}", other),
    }
}

#[test]
fn dry_run_of_an_unchanged_entry_is_a_noop() {
    let e = entry("echo hi > out.txt", &["out.txt"], &[], Some(HI));
    let world = World {
        required: vec![],
        before: vec![file("/work/out.txt", b"hi\n")],
        exit: Some(0),
        after: vec![],
    };
    let (asked, end) = follow(|s, ev| e.dry_run(s, ev), &world);
    assert_eq!(asked, vec!["observe"]);
    assert!(matches!(end, Action::Done(Ok(ReifySuccess::Noop))));
}

#[test]
fn dry_run_of_a_changed_entry_fails_without_running() {
    let e = entry("echo hi > out.txt", &["out.txt"], &[], Some(HI));
    let world = World {
        required: vec![],
        before: vec![file("/work/out.txt", b"changed\n")],
        exit: Some(0),
        after: vec![],
    };
    let (asked, end) = follow(|s, ev| e.dry_run(s, ev), &world);
    assert_eq!(asked, vec!["observe"]);
    assert!(matches!(end, Action::Done(Err(ReifyFail::DryFail))));
}

#[test]
fn dry_run_without_history_fails_without_reading() {
    let e = entry("true", &["a"], &[], None);
    let world = World { required: vec![], before: vec![], exit: Some(0), after: vec![] };
    let (asked, end) = follow(|s, ev| e.dry_run(s, ev), &world);
    assert!(asked.is_empty());
    assert!(matches!(end, Action::Done(Err(ReifyFail::DryFail))));
}

#[test]
fn dry_run_does_not_look_at_required_files() {
    let e = entry("true", &[], &["missing.txt"], None);
    let unchanged = e.calc_sha(&vec![None]);
    let e = entry("true", &[], &["missing.txt"], Some(&unchanged));
    let world = World { required: vec![None], before: vec![None], exit: Some(0), after: vec![] };
    let (asked, end) = follow(|s, ev| e.dry_run(s, ev), &world);
    assert_eq!(asked, vec!["observe"]);
    assert!(matches!(end, Action::Done(Ok(ReifySuccess::Noop))));
}

#[test]
fn dry_run_repeated_gives_the_same_answer_and_changes_nothing() {
    let e = entry("echo hi > out.txt", &["out.txt"], &[], Some(HI));
    let world = World {
        required: vec![],
        before: vec![file("/work/out.txt", b"hi\n")],
        exit: Some(0),
        after: vec![],
    };
    for _ in 0..3 {
        let (_, end) = follow(|s, ev| e.dry_run(s, ev), &world);
        assert!(matches!(end, Action::Done(Ok(ReifySuccess::Noop))));
        assert_eq!(e.sha(), &Some(HI.to_string()));
        assert_eq!(e.calc_sha(&world.before), HI);
    }
}

#[test]
fn check_then_decides_between_noop_and_what_a_stale_entry_does() {
    let e = entry("echo hi > out.txt", &["out.txt"], &[], Some(HI));
    let same = vec![file("/work/out.txt", b"hi\n")];
    let other = vec![file("/work/out.txt", b"ho\n")];
    let stale = || (Stage::Finished, Action::Done(Err(ReifyFail::DryFail)));
    assert!(matches!(e.check_then(None, stale()), (Stage::Comparing, Action::Observe(_))));
    assert!(matches!(
        e.check_then(Some(&same), stale()),
        (Stage::Finished, Action::Done(Ok(ReifySuccess::Noop)))
    ));
    assert!(matches!(
        e.check_then(Some(&other), stale()),
        (Stage::Finished, Action::Done(Err(ReifyFail::DryFail)))
    ));
    let fresh = entry("echo hi > out.txt", &["out.txt"], &[], None);
    assert!(matches!(
        fresh.check_then(None, stale()),
        (Stage::Finished, Action::Done(Err(ReifyFail::DryFail)))
    ));
    assert!(matches!(
        fresh.check_then(Some(&same), stale()),
        (Stage::Finished, Action::Done(Err(ReifyFail::DryFail)))
    ));
}

#[test]
fn count_resolved_counts_the_paths_that_resolved() {
    assert_eq!(count_resolved(&vec![]), 0);
    assert_eq!(count_resolved(&vec![None, None]), 0);
    assert_eq!(count_resolved(&vec![resolved("/a"), None, resolved("/b")]), 2);
}

#[test]
fn failures_have_their_messages() {
    assert_eq!(ReifyFail::ExecFail(3).message(), "exit 3");
    assert_eq!(ReifyFail::ExecFail(-1).message(), "exit -1");
    assert_eq!(ReifyFail::ExecFail(i32::MIN).message(), "exit -2147483648");
    assert_eq!(ReifyFail::ExecFail(i32::MAX).message(), "exit 2147483647");
    assert_eq!(ReifyFail::MissingRequiredFiles.message(), "missing required files");
    assert_eq!(ReifyFail::DryFail.message(), "dry run, things have changed");
    assert_eq!(Error::MissingName.message(), "missing name");
    assert_eq!(Error::MissingCmd.message(), "missing cmd");
    assert_eq!(Error::Unknown.message(), "unknown error");
    assert_eq!(Error::OutOfTurn.message(), "answer out of turn");
}

#[test]
fn staleness_has_three_states() {
    let same = vec![file("/work/out.txt", b"hi\n")];
    let other = vec![file("/work/out.txt", b"ho\n")];
    let fresh = entry("echo hi > out.txt", &["out.txt"], &[], None);
    assert_eq!(fresh.staleness(&same), Staleness::NoHistory);
    let stored = entry("echo hi > out.txt", &["out.txt"], &[], Some(HI));
    assert_eq!(stored.staleness(&same), Staleness::Unchanged);
    assert_eq!(stored.staleness(&other), Staleness::Changed);
    assert_eq!(stored.staleness(&vec![None]), Staleness::Changed);
}

#[test]
fn only_an_unchanged_entry_is_skipped() {
    assert!(Staleness::NoHistory.decide());
    assert!(Staleness::Changed.decide());
    assert!(!Staleness::Unchanged.decide());
}
