//! What the engine asks of its caller, and what it is told back.

use crate::deploy::{bundle_view, EmbeddedError, EmbeddedErrorView, PanelConfig};
use crate::escalation::{PatchMode, ProbeOutcome, ProbeView};
use crate::i18n::{CommandError, ErrorView};
use crate::paths::{path_views, FilePath, PathView, Platform};
use crate::plan::{Action, ActionView};
use crate::rewrite::texts;
use vstd::prelude::*;

verus! {

/// One operation, as it was asked for.
#[derive(Debug)]
pub struct Job {
    pub mode: PatchMode,
    pub platform: Platform,
    /// The path that the user gave.
    pub input: FilePath,
    pub sidebar: PanelConfig,
    pub manager: PanelConfig,
    pub locale: Option<String>,
    /// The patch files, or why there are none.
    pub bundle: Result<Vec<(String, String)>, EmbeddedError>,
}

/// The mathematical value of a `PanelConfig`.
pub struct ConfigView {
    pub enabled: bool,
    pub json: Seq<char>,
}

impl View for PanelConfig {
    type V = ConfigView;

    open spec fn view(&self) -> ConfigView {
        ConfigView { enabled: self.enabled, json: self.json@ }
    }
}

/// The mathematical value of a `Job`.
pub struct JobView {
    pub mode: PatchMode,
    pub platform: Platform,
    pub input: PathView,
    pub sidebar: ConfigView,
    pub manager: ConfigView,
    pub locale: Option<Seq<char>>,
    pub bundle: Result<Seq<(Seq<char>, Seq<char>)>, EmbeddedErrorView>,
}

impl View for Job {
    type V = JobView;

    open spec fn view(&self) -> JobView {
        JobView {
            mode: self.mode,
            platform: self.platform,
            input: self.input@,
            sidebar: self.sidebar@,
            manager: self.manager@,
            locale: match self.locale {
                Some(name) => Some(name@),
                None => None,
            },
            bundle: bundle_view(self.bundle),
        }
    }
}

/// What the caller is to do next.
#[derive(Debug)]
pub enum Request {
    /// Say of each path whether anything exists there. Changes nothing.
    Inspect(Vec<FilePath>),
    /// Try to make this file, empty, and delete it again.
    Probe(FilePath),
    /// Read a file as text.
    ReadText(FilePath),
    /// Perform this one action.
    Perform(Action),
    /// Make a new, uniquely named directory for staging; `attempt` is part of
    /// its name.
    MakeTempDir { attempt: u8 },
    /// Run this program with these arguments, wait for its end, and gather
    /// what it writes.
    Run { program: String, args: Vec<String> },
    /// Look for the status file, and say how long ago the last `Run` ended.
    CheckStatus { status: FilePath },
    /// Wait this many milliseconds.
    Pause { millis: u64 },
    /// The operation is over: with success, or with this error.
    Finish(Option<CommandError>),
}

/// How making the staging directory ended.
#[derive(Debug)]
pub enum TempDirOutcome {
    Created(FilePath),
    /// A directory of that name exists already.
    Taken,
    Failed(String),
}

/// What is in the status file.
#[derive(Debug)]
pub enum StatusFile {
    Missing,
    Content(String),
    Unreadable(String),
}

/// What the caller reports back.
#[derive(Debug)]
pub enum Event {
    /// The answers to `Inspect`, in the order of the paths.
    Inspected(Vec<bool>),
    Probed(ProbeOutcome),
    /// The text that `ReadText` read, or the system's words on why not.
    Text(Result<String, String>),
    /// How `Perform` ended: well, or with the system's words on why not.
    Performed(Result<(), String>),
    TempDir(TempDirOutcome),
    /// The program of `Run` ran to its end.
    Ran { success: bool, stdout: String, stderr: String },
    /// The program of `Run` could not be started: whether it was not found,
    /// and the system's words.
    RunFailed { not_found: bool, detail: String },
    /// The answer to `CheckStatus`.
    Status { elapsed_ms: u64, file: StatusFile },
    /// The pause is over.
    Resumed,
}

/// The mathematical value of a `Request`.
pub enum RequestView {
    Inspect(Seq<PathView>),
    Probe(PathView),
    ReadText(PathView),
    Perform(ActionView),
    MakeTempDir { attempt: u8 },
    Run { program: Seq<char>, args: Seq<Seq<char>> },
    CheckStatus { status: PathView },
    Pause { millis: u64 },
    Finish(Option<ErrorView>),
}

impl View for Request {
    type V = RequestView;

    open spec fn view(&self) -> RequestView {
        match self {
            Request::Inspect(paths) => RequestView::Inspect(path_views(paths@)),
            Request::Probe(dir) => RequestView::Probe(dir@),
            Request::ReadText(path) => RequestView::ReadText(path@),
            Request::Perform(action) => RequestView::Perform(action@),
            Request::MakeTempDir { attempt } => RequestView::MakeTempDir { attempt: *attempt },
            Request::Run { program, args } => RequestView::Run {
                program: program@,
                args: texts(args@),
            },
            Request::CheckStatus { status } => RequestView::CheckStatus { status: status@ },
            Request::Pause { millis } => RequestView::Pause { millis: *millis },
            Request::Finish(result) => RequestView::Finish(
                match result {
                    Some(e) => Some(e@),
                    None => None,
                },
            ),
        }
    }
}

/// The mathematical value of a `TempDirOutcome`.
pub enum TempDirView {
    Created(PathView),
    Taken,
    Failed(Seq<char>),
}

/// The mathematical value of a `StatusFile`.
pub enum StatusView {
    Missing,
    Content(Seq<char>),
    Unreadable(Seq<char>),
}

/// The mathematical value of an `Event`.
pub enum EventView {
    Inspected(Seq<bool>),
    Probed(ProbeView),
    Text(Result<Seq<char>, Seq<char>>),
    Performed(Result<(), Seq<char>>),
    TempDir(TempDirView),
    Ran { success: bool, stdout: Seq<char>, stderr: Seq<char> },
    RunFailed { not_found: bool, detail: Seq<char> },
    Status { elapsed_ms: u64, file: StatusView },
    Resumed,
}

impl View for TempDirOutcome {
    type V = TempDirView;

    open spec fn view(&self) -> TempDirView {
        match self {
            TempDirOutcome::Created(path) => TempDirView::Created(path@),
            TempDirOutcome::Taken => TempDirView::Taken,
            TempDirOutcome::Failed(detail) => TempDirView::Failed(detail@),
        }
    }
}

impl View for StatusFile {
    type V = StatusView;

    open spec fn view(&self) -> StatusView {
        match self {
            StatusFile::Missing => StatusView::Missing,
            StatusFile::Content(text) => StatusView::Content(text@),
            StatusFile::Unreadable(detail) => StatusView::Unreadable(detail@),
        }
    }
}

impl View for Event {
    type V = EventView;

    open spec fn view(&self) -> EventView {
        match self {
            Event::Inspected(flags) => EventView::Inspected(flags@),
            Event::Probed(outcome) => EventView::Probed(outcome@),
            Event::Text(read) => EventView::Text(
                match read {
                    Ok(text) => Ok(text@),
                    Err(detail) => Err(detail@),
                },
            ),
            Event::Performed(result) => EventView::Performed(
                match result {
                    Ok(()) => Ok(()),
                    Err(detail) => Err(detail@),
                },
            ),
            Event::TempDir(outcome) => EventView::TempDir(outcome@),
            Event::Ran { success, stdout, stderr } => EventView::Ran {
                success: *success,
                stdout: stdout@,
                stderr: stderr@,
            },
            Event::RunFailed { not_found, detail } => EventView::RunFailed {
                not_found: *not_found,
                detail: detail@,
            },
            Event::Status { elapsed_ms, file } => EventView::Status {
                elapsed_ms: *elapsed_ms,
                file: file@,
            },
            Event::Resumed => EventView::Resumed,
        }
    }
}

} // verus!
