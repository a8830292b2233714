//! What the caller is asked to do to the disk, and what that does to a disk.
//!
//! A plan is a list of steps. The engine asks for their actions one by one
//! and ends at the first that fails, unless the step says that its failure
//! does not matter. `World` is the model of the disk against which plans are
//! judged.

use crate::paths::{FilePath, PathView};
use vstd::prelude::*;
use vstd::utf8::encode_utf8;

verus! {

/// One change to the disk.
#[derive(Debug)]
pub enum Action {
    /// Copy the bytes of one file over another.
    CopyFile { from: FilePath, to: FilePath },
    /// Delete a file.
    RemoveFile { path: FilePath },
    /// Delete a directory with all that is in it.
    RemoveTree { path: FilePath },
    /// Create a directory and the directories above it, where they are
    /// missing.
    MakeDirs { path: FilePath },
    /// Write a text as the whole content of a file.
    WriteText { path: FilePath, content: String },
    /// Read the attributes of a file, changing nothing.
    CheckFile { path: FilePath },
    /// Let a file be run as a program.
    MarkExecutable { path: FilePath },
}

/// What a step's failure means.
#[derive(Debug)]
pub enum Failure {
    /// Nothing: the next step follows.
    Ignored,
    /// The error of this key, with the system's words as its detail.
    Key(String),
    /// The error of this key; its detail names the path before the system's
    /// words.
    KeyWithPath(String),
}

/// An action and what its failure means.
#[derive(Debug)]
pub struct Step {
    pub action: Action,
    pub failure: Failure,
}

/// The mathematical value of an `Action`.
pub enum ActionView {
    CopyFile { from: PathView, to: PathView },
    RemoveFile { path: PathView },
    RemoveTree { path: PathView },
    MakeDirs { path: PathView },
    WriteText { path: PathView, content: Seq<char> },
    CheckFile { path: PathView },
    MarkExecutable { path: PathView },
}

/// The mathematical value of a `Failure`.
pub enum FailureView {
    Ignored,
    Key(Seq<char>),
    KeyWithPath(Seq<char>),
}

/// The mathematical value of a `Step`.
pub struct StepView {
    pub action: ActionView,
    pub failure: FailureView,
}

impl View for Action {
    type V = ActionView;

    open spec fn view(&self) -> ActionView {
        match self {
            Action::CopyFile { from, to } => ActionView::CopyFile { from: from@, to: to@ },
            Action::RemoveFile { path } => ActionView::RemoveFile { path: path@ },
            Action::RemoveTree { path } => ActionView::RemoveTree { path: path@ },
            Action::MakeDirs { path } => ActionView::MakeDirs { path: path@ },
            Action::WriteText { path, content } => ActionView::WriteText {
                path: path@,
                content: content@,
            },
            Action::CheckFile { path } => ActionView::CheckFile { path: path@ },
            Action::MarkExecutable { path } => ActionView::MarkExecutable { path: path@ },
        }
    }
}

impl View for Failure {
    type V = FailureView;

    open spec fn view(&self) -> FailureView {
        match self {
            Failure::Ignored => FailureView::Ignored,
            Failure::Key(key) => FailureView::Key(key@),
            Failure::KeyWithPath(key) => FailureView::KeyWithPath(key@),
        }
    }
}

impl View for Step {
    type V = StepView;

    open spec fn view(&self) -> StepView {
        StepView { action: self.action@, failure: self.failure@ }
    }
}

/// The views of a list of steps.
pub open spec fn step_views(steps: Seq<Step>) -> Seq<StepView> {
    Seq::new(steps.len(), |i: int| steps[i]@)
}

impl ActionView {
    /// The path that the action is about; for a copy, the path written.
    pub open spec fn target(self) -> PathView {
        match self {
            ActionView::CopyFile { from, to } => to,
            ActionView::RemoveFile { path } => path,
            ActionView::RemoveTree { path } => path,
            ActionView::MakeDirs { path } => path,
            ActionView::WriteText { path, content } => path,
            ActionView::CheckFile { path } => path,
            ActionView::MarkExecutable { path } => path,
        }
    }

    /// Whether the action can change what is at `at`.
    pub open spec fn touches(self, at: PathView) -> bool {
        match self {
            ActionView::CopyFile { from, to } => at == to,
            ActionView::RemoveFile { path } => at == path,
            ActionView::RemoveTree { path } => at.within(path),
            ActionView::MakeDirs { path } => path.within(at),
            ActionView::WriteText { path, content } => at == path,
            ActionView::CheckFile { path } => false,
            ActionView::MarkExecutable { path } => false,
        }
    }
}

/// What is at a path: a file with its bytes, or a directory.
pub enum Node {
    File(Seq<u8>),
    Dir,
}

/// The disk, as far as plans are concerned: what is at each path.
pub struct World {
    pub nodes: Map<PathView, Node>,
}

impl World {
    /// Whether anything is at `at`.
    pub open spec fn has(self, at: PathView) -> bool {
        self.nodes.contains_key(at)
    }

    /// What is at `at`, if anything.
    pub open spec fn at(self, at: PathView) -> Option<Node> {
        if self.nodes.contains_key(at) {
            Some(self.nodes[at])
        } else {
            None
        }
    }

    /// Whether a file is at `at`.
    pub open spec fn is_file(self, at: PathView) -> bool {
        self.at(at) matches Some(Node::File(_))
    }

    /// The world with `node` put at `at`, or with nothing there.
    pub open spec fn with(self, at: PathView, node: Option<Node>) -> World {
        match node {
            Some(n) => World { nodes: self.nodes.insert(at, n) },
            None => World { nodes: self.nodes.remove(at) },
        }
    }

    /// Whether every path that exists lies in a directory that exists.
    pub open spec fn closed(self) -> bool {
        forall|p: PathView| #[trigger]
            self.has(p) && p.names.len() > 0 ==> self.has(p.cut(p.names.len() - 1))
    }

    /// The world after one action that succeeded.
    pub open spec fn apply(self, action: ActionView) -> World {
        match action {
            ActionView::CopyFile { from, to } => match self.at(from) {
                Some(Node::File(bytes)) => self.with(to, Some(Node::File(bytes))),
                _ => self,
            },
            ActionView::RemoveFile { path } => self.with(path, None),
            ActionView::RemoveTree { path } => World {
                nodes: Map::new(
                    |k: PathView| self.nodes.contains_key(k) && !k.within(path),
                    |k: PathView| self.nodes[k],
                ),
            },
            ActionView::MakeDirs { path } => World {
                nodes: Map::new(
                    |k: PathView| self.nodes.contains_key(k) || path.within(k),
                    |k: PathView|
                        if self.nodes.contains_key(k) {
                            self.nodes[k]
                        } else {
                            Node::Dir
                        },
                ),
            },
            ActionView::WriteText { path, content } => self.with(
                path,
                Some(Node::File(encode_utf8(content))),
            ),
            ActionView::CheckFile { path } => self,
            ActionView::MarkExecutable { path } => self,
        }
    }

    /// The world after a list of steps that all succeeded.
    pub open spec fn run(self, steps: Seq<StepView>) -> World
        decreases steps.len(),
    {
        if steps.len() == 0 {
            self
        } else {
            self.run(steps.drop_last()).apply(steps.last().action)
        }
    }
}

/// A step whose failure is the error of `key`.
pub fn step(action: Action, key: &str) -> (r: Step)
    ensures
        r@ == (StepView { action: action@, failure: FailureView::Key(key@) }),
{
    Step { action, failure: Failure::Key(crate::text::owned(key)) }
}

/// A step whose failure names the path in its detail.
pub fn step_with_path(action: Action, key: &str) -> (r: Step)
    ensures
        r@ == (StepView { action: action@, failure: FailureView::KeyWithPath(key@) }),
{
    Step { action, failure: Failure::KeyWithPath(crate::text::owned(key)) }
}

/// A step whose failure is passed over.
pub fn step_ignored(action: Action) -> (r: Step)
    ensures
        r@ == (StepView { action: action@, failure: FailureView::Ignored }),
{
    Step { action, failure: Failure::Ignored }
}

/// Running one list of steps after another is running both in a row.
pub proof fn lemma_run_concat(w: World, first: Seq<StepView>, second: Seq<StepView>)
    ensures
        w.run(first + second) == w.run(first).run(second),
    decreases second.len(),
{
    if second.len() == 0 {
        assert(first + second =~= first);
    } else {
        lemma_run_concat(w, first, second.drop_last());
        assert((first + second).drop_last() =~= first + second.drop_last());
        assert((first + second).last() == second.last());
    }
}

/// Steps that do not touch a path leave what is there.
pub proof fn lemma_run_frame(w: World, steps: Seq<StepView>, at: PathView)
    requires
        forall|i: int| 0 <= i < steps.len() ==> !(#[trigger] steps[i]).action.touches(at),
    ensures
        w.run(steps).at(at) == w.at(at),
    decreases steps.len(),
{
    if steps.len() > 0 {
        lemma_run_frame(w, steps.drop_last(), at);
        assert(!steps[steps.len() - 1].action.touches(at));
    }
}

} // verus!
