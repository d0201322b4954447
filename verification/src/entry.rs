//! The task entry: what it holds, its fingerprint, and how it is evaluated.

use crate::digest::{lemma_hex_len, sha256_digest, to_hex};
use crate::document::Node;
use crate::error::Error;
use crate::fingerprint::{fingerprint, message_of};
use crate::protocol::{Action, Event, Invocation, Stage, Stream};
use crate::record::{
    append_prefixed_lines, cmd_field, list_field, name_field, record, sha_field, shown_sha,
};
use crate::step::{
    check_then, count_resolved, dry_run_step, invocation_of, reify_step, staleness, Staleness,
};
use crate::text::{copy_texts, decimal, decimal_text, join_text, lines_of};
use crate::watch::WatchedFile;
use vstd::prelude::*;

verus! {

/// How an evaluation ended well.
#[derive(Debug, Clone)]
pub enum ReifySuccess {
    /// The command ran and exited with code 0; this is the fingerprint taken
    /// afterwards.
    ExecSuccess(String),
    /// Nothing had changed, so nothing was run.
    Noop,
}

/// `ReifySuccess` as a mathematical value.
pub enum SuccessView {
    ExecSuccess(Seq<char>),
    Noop,
}

impl View for ReifySuccess {
    type V = SuccessView;

    open spec fn view(&self) -> SuccessView {
        match self {
            ReifySuccess::ExecSuccess(sha) => SuccessView::ExecSuccess(sha@),
            ReifySuccess::Noop => SuccessView::Noop,
        }
    }
}

/// How an evaluation ended badly.
#[derive(Debug, Clone, Copy, PartialEq, Eq, Structural)]
pub enum ReifyFail {
    /// The command exited with this code, which is not 0.
    ExecFail(i32),
    /// A required file does not resolve.
    MissingRequiredFiles,
    /// A dry run found that the command would run.
    DryFail,
}

impl ReifyFail {
    /// A sentence that names the failure.
    pub fn message(&self) -> (text: String)
        ensures
            text@ == match *self {
                ReifyFail::ExecFail(code) => "exit "@ + decimal(code as int),
                ReifyFail::MissingRequiredFiles => "missing required files"@,
                ReifyFail::DryFail => "dry run, things have changed"@,
            },
    {
        match self {
            ReifyFail::ExecFail(code) => {
                let mut text = "exit ".to_owned();
                text.append(decimal_text(*code).as_str());
                text
            },
            ReifyFail::MissingRequiredFiles => "missing required files".to_owned(),
            ReifyFail::DryFail => "dry run, things have changed".to_owned(),
        }
    }
}

/// The outcome of an evaluation.
pub type ReifyResult = Result<ReifySuccess, ReifyFail>;

/// An outcome as a mathematical value.
pub open spec fn result_view(outcome: ReifyResult) -> Result<SuccessView, ReifyFail> {
    match outcome {
        Ok(success) => Ok(success@),
        Err(fail) => Err(fail),
    }
}

/// What can be read from a document node.
pub trait FromYaml: Sized {
    /// Reads a value from `yaml`.
    fn from_yaml(yaml: &Node) -> Result<Self, Error>;
}

/// A task: a command, the files it depends on, and the fingerprint it had when
/// it last succeeded.
#[derive(Debug, Clone)]
pub struct Entry {
    name: String,
    cmd: String,
    required_files: Vec<String>,
    files: Vec<String>,
    sha: Option<String>,
}

/// An entry as a mathematical value.
pub struct EntryView {
    /// A label; may be empty.
    pub name: Seq<char>,
    /// The body of the shell command.
    pub cmd: Seq<char>,
    /// Declared paths that must resolve before the command may run.
    pub required_files: Seq<Seq<char>>,
    /// Declared paths that are hashed if they resolve.
    pub files: Seq<Seq<char>>,
    /// The stored fingerprint, if there is one.
    pub sha: Option<Seq<char>>,
}

impl EntryView {
    /// The declared paths that take part in the fingerprint: `files`, then
    /// `required_files`.
    pub open spec fn watched(self) -> Seq<Seq<char>> {
        self.files + self.required_files
    }
}

impl View for Entry {
    type V = EntryView;

    closed spec fn view(&self) -> EntryView {
        EntryView {
            name: self.name@,
            cmd: self.cmd@,
            required_files: self.required_files.deep_view(),
            files: self.files.deep_view(),
            sha: self.sha.deep_view(),
        }
    }
}

impl Entry {
    /// An entry with these fields.
    pub fn new(
        name: String,
        cmd: String,
        required_files: Vec<String>,
        files: Vec<String>,
        sha: Option<String>,
    ) -> (entry: Entry)
        ensures
            entry@ == (EntryView {
                name: name@,
                cmd: cmd@,
                required_files: required_files.deep_view(),
                files: files.deep_view(),
                sha: sha.deep_view(),
            }),
    {
        Entry { name, cmd, required_files, files, sha }
    }

    /// The entry's label.
    pub fn name(&self) -> (name: &String)
        ensures
            name@ == self@.name,
    {
        &self.name
    }

    /// The body of the shell command.
    pub fn cmd(&self) -> (cmd: &String)
        ensures
            cmd@ == self@.cmd,
    {
        &self.cmd
    }

    /// The declared paths that must resolve before the command may run.
    pub fn required_files(&self) -> (paths: &Vec<String>)
        ensures
            paths.deep_view() == self@.required_files,
    {
        &self.required_files
    }

    /// The declared paths that are hashed if they resolve.
    pub fn files(&self) -> (paths: &Vec<String>)
        ensures
            paths.deep_view() == self@.files,
    {
        &self.files
    }

    /// The stored fingerprint, if there is one.
    pub fn sha(&self) -> (sha: &Option<String>)
        ensures
            sha.deep_view() == self@.sha,
    {
        &self.sha
    }

    /// The fingerprint of this entry's command and of the watched files as
    /// they were observed: `observed` holds, for each declared path, the file
    /// it resolved to or nothing. It is 64 hexadecimal digits long.
    pub fn calc_sha(&self, observed: &Vec<Option<WatchedFile>>) -> (sha: String)
        ensures
            sha@ == fingerprint(self@.cmd, observed.deep_view()),
            sha@.len() == 64,
    {
        let bytes = message_of(self.cmd.as_str(), observed);
        let digest = sha256_digest(bytes.as_slice());
        proof {
            lemma_hex_len(digest@);
        }
        to_hex(digest.as_slice())
    }

    /// The declared paths that take part in the fingerprint: `files`, then
    /// `required_files`.
    pub fn watched_paths(&self) -> (paths: Vec<String>)
        ensures
            paths.deep_view() == self@.watched(),
    {
        let mut paths = copy_texts(&self.files);
        let mut i: usize = 0;
        while i < self.required_files.len()
            invariant
                i <= self.required_files.len(),
                paths.deep_view() == self.files.deep_view() + self.required_files.deep_view().take(
                    i as int,
                ),
            decreases self.required_files.len() - i,
        {
            let ghost before = paths.deep_view();
            paths.push(self.required_files[i].clone());
            assert(paths.deep_view() =~= before.push(self.required_files[i as int]@));
            assert(self.required_files.deep_view().take(i + 1) =~= self.required_files.deep_view().take(
                i as int,
            ).push(self.required_files[i as int]@));
            i += 1;
        }
        assert(self.required_files.deep_view().take(i as int) =~= self.required_files.deep_view());
        paths
    }

    /// How the command is started: a shell that stops at the first failing
    /// step and traces what it runs, with the declared paths in the
    /// environment and with the caller's own standard streams.
    pub fn invocation(&self) -> (invocation: Invocation)
        ensures
            invocation@ == invocation_of(self@),
    {
        let mut script = "set -xe".to_owned();
        script.append("\n");
        script.append(self.cmd.as_str());
        let mut args: Vec<String> = Vec::new();
        args.push("-c".to_owned());
        args.push(script);
        let mut env: Vec<(String, String)> = Vec::new();
        env.push(("files".to_owned(), join_text(&self.files, "\n")));
        env.push(("required_files".to_owned(), join_text(&self.required_files, "\n")));
        let invocation = Invocation {
            program: "/bin/bash".to_owned(),
            args,
            env,
            stdout: Stream::Inherit,
            stderr: Stream::Inherit,
        };
        proof {
            assert(invocation@.args =~= invocation_of(self@).args);
            assert(invocation@.env =~= invocation_of(self@).env);
        }
        invocation
    }

    /// How this entry stands to the files `observed` for it. The fingerprint
    /// is computed once, and only if there is a stored one to hold it against.
    pub fn staleness(&self, observed: &Vec<Option<WatchedFile>>) -> (found: Staleness)
        ensures
            found == staleness(self@, observed.deep_view()),
    {
        match &self.sha {
            None => Staleness::NoHistory,
            Some(stored) => {
                let fresh = self.calc_sha(observed);
                if fresh == *stored {
                    Staleness::Unchanged
                } else {
                    Staleness::Changed
                }
            },
        }
    }

    /// The staleness check. An entry without a stored fingerprint executes
    /// without a look at its files. One with a stored fingerprint asks for its
    /// watched files, and once they are observed it executes unless it is
    /// unchanged. An entry that executes goes on with `stale`; an unchanged
    /// one is done, with `Noop`.
    pub fn check_then(
        &self,
        observed: Option<&Vec<Option<WatchedFile>>>,
        stale: (Stage, Action),
    ) -> (step: (Stage, Action))
        ensures
            step.0 == check_then(self@, observed.deep_view(), (stale.0, stale.1@)).0,
            step.1@ == check_then(self@, observed.deep_view(), (stale.0, stale.1@)).1,
    {
        if self.sha.is_none() {
            return stale;
        }
        match observed {
            None => (Stage::Comparing, Action::Observe(self.watched_paths())),
            Some(observed) => {
                if self.staleness(observed).decide() {
                    stale
                } else {
                    (Stage::Finished, Action::Done(Ok(ReifySuccess::Noop)))
                }
            },
        }
    }

    /// One step of a real evaluation: given the stage reached and what the
    /// caller reports, the next stage and what the caller is to do.
    ///
    /// The required files are resolved first, and the command never runs while
    /// one of them is missing. Then comes the staleness check. A stale entry
    /// runs its command; exit code 0 is followed by a fresh fingerprint, any
    /// other code is the failure. An event that the stage does not await ends
    /// the evaluation with `Error::OutOfTurn`.
    pub fn reify(&self, stage: Stage, event: Event) -> (step: (Stage, Action))
        ensures
            step.0 == reify_step(self@, stage, event@).0,
            step.1@ == reify_step(self@, stage, event@).1,
    {
        match stage {
            Stage::Start => match event {
                Event::Begin => (Stage::Admitting, Action::Resolve(copy_texts(&self.required_files))),
                _ => (Stage::Finished, Action::Fail(Error::OutOfTurn)),
            },
            Stage::Admitting => match event {
                Event::Resolved(found) => {
                    if count_resolved(&found) == self.required_files.len() {
                        self.check_then(None, (Stage::Running, Action::Run(self.invocation())))
                    } else {
                        (Stage::Finished, Action::Done(Err(ReifyFail::MissingRequiredFiles)))
                    }
                },
                _ => (Stage::Finished, Action::Fail(Error::OutOfTurn)),
            },
            Stage::Comparing => match event {
                Event::Observed(observed) => {
                    self.check_then(Some(&observed), (Stage::Running, Action::Run(self.invocation())))
                },
                _ => (Stage::Finished, Action::Fail(Error::OutOfTurn)),
            },
            Stage::Running => match event {
                Event::Exited(Some(code)) => {
                    if code == 0 {
                        (Stage::Sealing, Action::Observe(self.watched_paths()))
                    } else {
                        (Stage::Finished, Action::Done(Err(ReifyFail::ExecFail(code))))
                    }
                },
                Event::Exited(None) => (Stage::Finished, Action::Fail(Error::Unknown)),
                _ => (Stage::Finished, Action::Fail(Error::OutOfTurn)),
            },
            Stage::Sealing => match event {
                Event::Observed(observed) => {
                    let sha = self.calc_sha(&observed);
                    (Stage::Finished, Action::Done(Ok(ReifySuccess::ExecSuccess(sha))))
                },
                _ => (Stage::Finished, Action::Fail(Error::OutOfTurn)),
            },
            Stage::Finished => (Stage::Finished, Action::Fail(Error::OutOfTurn)),
        }
    }

    /// This entry as one item of a document's top-level list, with `new_sha`
    /// for its fingerprint if there is one and the stored fingerprint if not.
    pub fn dump(&self, new_sha: Option<String>) -> (text: String)
        ensures
            text@ == record(self@, new_sha.deep_view()),
    {
        let mut text = "-\n".to_owned();
        if !self.name.as_str().is_empty() {
            text.append("  name: ");
            text.append(self.name.as_str());
            text.append("\n");
        }
        let ghost named = "-\n"@ + name_field(self@.name);
        assert(text@ =~= named);
        text.append("  cmd: |\n");
        let body = lines_of(self.cmd.as_str());
        append_prefixed_lines(&mut text, "    ", &body);
        let ghost told = named + cmd_field(self@.cmd);
        assert(text@ =~= told);
        if self.required_files.len() != 0 {
            text.append("  required_files:\n");
            append_prefixed_lines(&mut text, "  - ", &self.required_files);
        }
        let ghost required = told + list_field("  required_files:\n"@, self@.required_files);
        assert(text@ =~= required);
        if self.files.len() != 0 {
            text.append("  files:\n");
            append_prefixed_lines(&mut text, "  - ", &self.files);
        }
        let ghost watched = required + list_field("  files:\n"@, self@.files);
        assert(text@ =~= watched);
        let shown = match new_sha {
            Some(sha) => Some(sha),
            None => self.sha.clone(),
        };
        assert(shown.deep_view() == shown_sha(self@, new_sha.deep_view()));
        match shown {
            Some(sha) => {
                text.append("  sha: ");
                text.append(sha.as_str());
                text.append("\n");
            },
            None => {},
        }
        assert(text@ =~= watched + sha_field(shown.deep_view()));
        text
    }

    /// One step of a dry run: the staleness check of `reify` and nothing else.
    /// Required files are not looked at and no command is ever asked for: a
    /// stale entry ends with `DryFail`.
    pub fn dry_run(&self, stage: Stage, event: Event) -> (step: (Stage, Action))
        ensures
            step.0 == dry_run_step(self@, stage, event@).0,
            step.1@ == dry_run_step(self@, stage, event@).1,
    {
        match stage {
            Stage::Start => match event {
                Event::Begin => {
                    self.check_then(None, (Stage::Finished, Action::Done(Err(ReifyFail::DryFail))))
                },
                _ => (Stage::Finished, Action::Fail(Error::OutOfTurn)),
            },
            Stage::Comparing => match event {
                Event::Observed(observed) => {
                    self.check_then(
                        Some(&observed),
                        (Stage::Finished, Action::Done(Err(ReifyFail::DryFail))),
                    )
                },
                _ => (Stage::Finished, Action::Fail(Error::OutOfTurn)),
            },
            _ => (Stage::Finished, Action::Fail(Error::OutOfTurn)),
        }
    }
}

impl FromYaml for Entry {
    /// Reads an entry from a mapping. `name` and `cmd` must be strings there;
    /// `sha` is taken if it is a string; `files` and `required_files` may each
    /// be a string or a list of strings, and are empty otherwise.
    fn from_yaml(yaml: &Node) -> (loaded: Result<Entry, Error>)
        ensures
            match loaded {
                Ok(entry) => entry_of(*yaml) == Ok::<EntryView, Error>(entry@),
                Err(error) => entry_of(*yaml) == Err::<EntryView, Error>(error),
            },
    {
        let name = match yaml.get_string("name") {
            Some(name) => name,
            None => {
                return Err(Error::MissingName);
            },
        };
        let cmd = match yaml.get_string("cmd") {
            Some(cmd) => cmd,
            None => {
                return Err(Error::MissingCmd);
            },
        };
        let sha = yaml.get_string("sha");
        let files = yaml.get_strings("files");
        let required_files = yaml.get_strings("required_files");
        Ok(Entry { name, cmd, required_files, files, sha })
    }
}

/// The entry that a document node holds, or why it holds none: a node without
/// a `name` string fails with `MissingName`, one with a name and without a
/// `cmd` string with `MissingCmd`.
pub open spec fn entry_of(node: Node) -> Result<EntryView, Error> {
    match node.text_at("name"@) {
        None => Err(Error::MissingName),
        Some(name) => match node.text_at("cmd"@) {
            None => Err(Error::MissingCmd),
            Some(cmd) => Ok(
                EntryView {
                    name,
                    cmd,
                    required_files: node.strings_at("required_files"@),
                    files: node.strings_at("files"@),
                    sha: node.text_at("sha"@),
                },
            ),
        },
    }
}

} // verus!
