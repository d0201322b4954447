//! What passes between an entry and the caller that acts for it.
//!
//! An entry never resolves a path, reads a file or starts a process. It says
//! what it needs as an [`Action`]; the caller does it and answers with an
//! [`Event`]. A [`Stage`] records which answer is awaited.

use crate::entry::{result_view, ReifyFail, ReifySuccess, SuccessView};
use crate::error::Error;
use crate::watch::{FileView, WatchedFile};
use vstd::prelude::*;

verus! {

/// How far an evaluation has come.
#[derive(Debug, Clone, Copy, PartialEq, Eq, Structural)]
pub enum Stage {
    /// Nothing has happened yet.
    Start,
    /// The required files are being resolved.
    Admitting,
    /// The watched files are being read, to compare with the stored fingerprint.
    Comparing,
    /// The command is running.
    Running,
    /// The watched files are being read again, after a successful run.
    Sealing,
    /// The evaluation is over.
    Finished,
}

/// Where a standard stream of a command goes.
#[derive(Debug, Clone, Copy, PartialEq, Eq, Structural)]
pub enum Stream {
    /// To the caller's own stream, as it is: nothing is captured.
    Inherit,
}

/// A command to start, as the operating system takes it.
#[derive(Debug, Clone)]
pub struct Invocation {
    /// The program to start.
    pub program: String,
    /// Its arguments, in order.
    pub args: Vec<String>,
    /// Environment variables to set for it: name and value.
    pub env: Vec<(String, String)>,
    /// Where its standard output goes.
    pub stdout: Stream,
    /// Where its standard error goes.
    pub stderr: Stream,
}

/// An invocation as a mathematical value.
pub struct InvocationView {
    pub program: Seq<char>,
    pub args: Seq<Seq<char>>,
    pub env: Seq<(Seq<char>, Seq<char>)>,
    pub stdout: Stream,
    pub stderr: Stream,
}

impl View for Invocation {
    type V = InvocationView;

    open spec fn view(&self) -> InvocationView {
        InvocationView {
            program: self.program@,
            args: self.args.deep_view(),
            env: self.env.deep_view(),
            stdout: self.stdout,
            stderr: self.stderr,
        }
    }
}

/// What the caller reports.
#[derive(Debug, Clone)]
pub enum Event {
    /// The evaluation is to begin.
    Begin,
    /// The paths asked for were resolved: for each, in the order asked, its
    /// canonical absolute path, or nothing if it does not resolve.
    Resolved(Vec<Option<Vec<u8>>>),
    /// The paths asked for were resolved and read: for each, in the order
    /// asked, the file it resolved to, or nothing if it does not resolve.
    Observed(Vec<Option<WatchedFile>>),
    /// The command has ended, with this exit code if it had one.
    Exited(Option<i32>),
}

/// An event as a mathematical value.
pub enum EventView {
    Begin,
    Resolved(Seq<Option<Seq<u8>>>),
    Observed(Seq<Option<FileView>>),
    Exited(Option<i32>),
}

impl View for Event {
    type V = EventView;

    open spec fn view(&self) -> EventView {
        match self {
            Event::Begin => EventView::Begin,
            Event::Resolved(found) => EventView::Resolved(found.deep_view()),
            Event::Observed(observed) => EventView::Observed(observed.deep_view()),
            Event::Exited(code) => EventView::Exited(*code),
        }
    }
}

/// What the caller is to do next.
#[derive(Debug)]
pub enum Action {
    /// Resolve each of these declared paths and answer `Event::Resolved`.
    Resolve(Vec<String>),
    /// Resolve each of these declared paths, read those that resolve, and
    /// answer `Event::Observed`.
    Observe(Vec<String>),
    /// Start this command, wait for it to end, and answer `Event::Exited`.
    Run(Invocation),
    /// Nothing more: this is the outcome.
    Done(Result<ReifySuccess, ReifyFail>),
    /// Nothing more: the evaluation failed.
    Fail(Error),
}

/// An action as a mathematical value.
pub enum ActionView {
    Resolve(Seq<Seq<char>>),
    Observe(Seq<Seq<char>>),
    Run(InvocationView),
    Done(Result<SuccessView, ReifyFail>),
    Fail(Error),
}

impl View for Action {
    type V = ActionView;

    open spec fn view(&self) -> ActionView {
        match self {
            Action::Resolve(paths) => ActionView::Resolve(paths.deep_view()),
            Action::Observe(paths) => ActionView::Observe(paths.deep_view()),
            Action::Run(invocation) => ActionView::Run(invocation@),
            Action::Done(outcome) => ActionView::Done(result_view(*outcome)),
            Action::Fail(error) => ActionView::Fail(*error),
        }
    }
}

} // verus!
