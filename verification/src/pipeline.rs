//! The pipeline driver: it takes one book through reading, metadata
//! rewriting, asset optimization and packing. It performs no I/O itself: it
//! is handed what happened and says what is to be done next.

use vstd::prelude::*;
use crate::archive::{Archive, EntryView};
use crate::error::EpubError;
use crate::metadata::{
    inspect_metadata, inspect_spec, mod_metadata, rewrite_spec, AnswersView, MetadataAnswers,
    MetadataView, PackageMetadata,
};
use crate::optimizer::{
    minify, minify_spec, start_of, Job, JobView, Minifier, MinifierView, Step, StepView, ToolEvent,
    ToolEventView,
};
use crate::reader::{paths_fit, unzip, unzip_spec};
use crate::writer::{gen_epub, pack_spec, PackPlan, PackPlanView};

verus! {

/// What one book came to: the length of the archive before and after, and
/// the bytes that the optimizers took off its files.
#[derive(Clone, Copy, Debug, PartialEq, Eq, Structural)]
pub struct Report {
    pub original_len: u64,
    pub final_len: u64,
    pub tool_savings: u128,
}

/// A number of bytes in whole KiB, rounded towards zero.
pub open spec fn kib(bytes: int) -> int {
    if bytes >= 0 {
        bytes / 1024
    } else {
        -((-bytes) / 1024)
    }
}

/// Computes [`kib`].
pub fn kib_of(bytes: i128) -> (k: i128)
    ensures
        k == kib(bytes as int),
{
    if bytes >= 0 {
        bytes / 1024
    } else if bytes == i128::MIN {
        -0x20_0000_0000_0000_0000_0000_0000_0000i128
    } else {
        -((-bytes) / 1024)
    }
}

impl Report {
    /// By how many bytes the archive got shorter; negative where it grew.
    pub open spec fn saved(self) -> int {
        self.original_len - self.final_len
    }

    /// By how many bytes the archive got shorter; negative where it grew.
    pub fn bytes_saved(&self) -> (d: i128)
        ensures
            d == self.saved(),
    {
        self.original_len as i128 - self.final_len as i128
    }
}

/// Adds what one book saved to the total over all books; `None` where the
/// total no longer fits.
pub fn add_report(total: i128, report: &Report) -> (r: Option<i128>)
    ensures
        r == if i128::MIN <= total + report.saved() <= i128::MAX {
            Some((total + report.saved()) as i128)
        } else {
            None
        },
{
    total.checked_add(report.bytes_saved())
}

/// What happened outside since the last step.
pub enum Event {
    /// The book at `path` was read; these are its bytes.
    Opened { path: String, bytes: Vec<u8> },
    /// The book, or what was packed in its place, could not be read.
    Unreadable,
    /// The operator answered the questions on the metadata.
    Answered(MetadataAnswers),
    /// A tool run ended.
    Tool(ToolEvent),
    /// The new archive is in place and has this length.
    Packed { length: u64 },
}

/// An [`Event`] as mathematical values.
pub enum EventView {
    Opened { path: Seq<char>, bytes: Seq<u8> },
    Unreadable,
    Answered(AnswersView),
    Tool(ToolEventView),
    Packed { length: u64 },
}

impl View for Event {
    type V = EventView;

    open spec fn view(&self) -> EventView {
        match self {
            Event::Opened { path, bytes } => EventView::Opened { path: path@, bytes: bytes@ },
            Event::Unreadable => EventView::Unreadable,
            Event::Answered(a) => EventView::Answered(a@),
            Event::Tool(t) => EventView::Tool(t@),
            Event::Packed { length } => EventView::Packed { length: *length },
        }
    }
}

/// What is to be done next.
pub enum Action {
    /// Show the operator these values and collect the answers.
    Ask(PackageMetadata),
    /// Run this tool and report how it went.
    Run(Job),
    /// Pack the book and report the length of the new archive.
    Pack(PackPlan),
    /// The book is done.
    Finish(Report),
    /// The book is given up; other books are not affected.
    Abort(EpubError),
}

/// An [`Action`] as mathematical values.
pub enum ActionView {
    Ask(MetadataView),
    Run(JobView),
    Pack(PackPlanView),
    Finish(Report),
    Abort(EpubError),
}

impl View for Action {
    type V = ActionView;

    open spec fn view(&self) -> ActionView {
        match self {
            Action::Ask(m) => ActionView::Ask(m@),
            Action::Run(j) => ActionView::Run(j@),
            Action::Pack(p) => ActionView::Pack(p@),
            Action::Finish(r) => ActionView::Finish(*r),
            Action::Abort(e) => ActionView::Abort(*e),
        }
    }
}

/// How far one book has come.
pub enum Pipeline {
    /// Nothing has happened yet.
    Fresh,
    /// The book was read; the operator is being asked.
    Rewriting { path: String, original_len: u64, archive: Archive },
    /// The metadata is rewritten; the files go through the tools.
    Minifying { path: String, original_len: u64, run: Minifier },
    /// The files are optimized; the book is being packed.
    Packing { original_len: u64, tool_savings: u128 },
    /// The book is done or given up.
    Finished,
}

/// A [`Pipeline`] as mathematical values.
pub enum PipelineView {
    Fresh,
    Rewriting { path: Seq<char>, original_len: u64, files: Seq<EntryView> },
    Minifying { path: Seq<char>, original_len: u64, run: MinifierView },
    Packing { original_len: u64, tool_savings: nat },
    Finished,
}

impl View for Pipeline {
    type V = PipelineView;

    open spec fn view(&self) -> PipelineView {
        match self {
            Pipeline::Fresh => PipelineView::Fresh,
            Pipeline::Rewriting { path, original_len, archive } => PipelineView::Rewriting {
                path: path@,
                original_len: *original_len,
                files: archive@,
            },
            Pipeline::Minifying { path, original_len, run } => PipelineView::Minifying {
                path: path@,
                original_len: *original_len,
                run: run@,
            },
            Pipeline::Packing { original_len, tool_savings } => PipelineView::Packing {
                original_len: *original_len,
                tool_savings: *tool_savings as nat,
            },
            Pipeline::Finished => PipelineView::Finished,
        }
    }
}

/// Giving a book up.
pub open spec fn abort(e: EpubError) -> (PipelineView, ActionView) {
    (PipelineView::Finished, ActionView::Abort(e))
}

/// What follows the reading of a book: the operator is asked, with the
/// metadata that was found; a book that cannot be read, or whose metadata
/// cannot be found, is given up.
pub open spec fn after_reading(
    path: Seq<char>,
    original_len: u64,
    files: Option<Seq<EntryView>>,
) -> (PipelineView, ActionView) {
    match files {
        None => abort(EpubError::CorruptArchive),
        Some(a) => match inspect_spec(a) {
            Err(e) => abort(e),
            Ok(m) => (PipelineView::Rewriting { path, original_len, files: a }, ActionView::Ask(m)),
        },
    }
}

/// What follows a step of the optimizer: the next tool run, or packing once
/// no file is left.
pub open spec fn after_step(path: Seq<char>, original_len: u64, step: (MinifierView, StepView)) -> (
    PipelineView,
    ActionView,
) {
    match step.1 {
        StepView::Run(job) => (
            PipelineView::Minifying { path, original_len, run: step.0 },
            ActionView::Run(job),
        ),
        StepView::Done => (
            PipelineView::Packing { original_len, tool_savings: step.0.saved },
            ActionView::Pack(pack_spec(path, step.0.files)),
        ),
    }
}

/// One step of the driver, where `paths` are the rewritten paths of the
/// entries of a book that was just read. The stages follow each other in
/// one order only: reading, rewriting, optimizing, packing. A failure of a
/// stage gives the book up, and so does an event that the stage at hand
/// does not expect.
pub open spec fn process_spec(s: PipelineView, e: EventView, paths: Seq<Seq<char>>) -> (
    PipelineView,
    ActionView,
) {
    match (s, e) {
        (PipelineView::Fresh, EventView::Opened { path, bytes }) => after_reading(
            path,
            bytes.len() as u64,
            unzip_spec(bytes, paths),
        ),
        (PipelineView::Fresh, EventView::Unreadable) => abort(EpubError::PathUnreadable),
        (PipelineView::Rewriting { path, original_len, files }, EventView::Answered(answers)) => {
            match rewrite_spec(files, answers) {
                Err(e) => abort(e),
                Ok(a) => after_step(
                    path,
                    original_len,
                    minify_spec(start_of(a), ToolEventView::Start),
                ),
            }
        },
        (PipelineView::Minifying { path, original_len, run }, EventView::Tool(outcome)) => {
            after_step(path, original_len, minify_spec(run, outcome))
        },
        (PipelineView::Packing { original_len, tool_savings }, EventView::Packed { length }) => (
            PipelineView::Finished,
            ActionView::Finish(
                Report { original_len, final_len: length, tool_savings: tool_savings as u128 },
            ),
        ),
        (PipelineView::Packing { .. }, EventView::Unreadable) => abort(EpubError::PathUnreadable),
        _ => abort(EpubError::OutOfSequence),
    }
}

/// Whether `paths` can be the rewritten paths for the event `e`.
pub open spec fn paths_fit_event(e: EventView, paths: Seq<Seq<char>>) -> bool {
    e matches EventView::Opened { bytes, .. } ==> paths_fit(bytes, paths)
}

/// Turns a step of the optimizer into the next stage.
fn advance(path: String, original_len: u64, step: (Minifier, Step)) -> (r: (Pipeline, Action))
    requires
        step.0@.wf(),
    ensures
        (r.0@, r.1@) == after_step(path@, original_len, (step.0@, step.1@)),
{
    let (run, next) = step;
    match next {
        Step::Run(job) => (Pipeline::Minifying { path, original_len, run }, Action::Run(job)),
        Step::Done => {
            let tool_savings = run.bytes_saved();
            let plan = gen_epub(path.as_str(), run.into_archive());
            (Pipeline::Packing { original_len, tool_savings }, Action::Pack(plan))
        },
    }
}

/// One step of the driver: from the stage a book is in and what happened
/// outside, to the next stage and what is to be done.
pub fn process(state: Pipeline, event: Event) -> (r: (Pipeline, Action))
    ensures
        exists|paths: Seq<Seq<char>>|
            paths_fit_event(event@, paths) && (r.0@, r.1@) == #[trigger] process_spec(
                state@,
                event@,
                paths,
            ),
{
    let ghost s = state@;
    let ghost e = event@;
    let ghost none = Seq::<Seq<char>>::empty();
    match (state, event) {
        (Pipeline::Fresh, Event::Opened { path, bytes }) => {
            let original_len: u64 = bytes.len() as u64;
            let ghost source = bytes@;
            let read = unzip(bytes);
            let ghost paths = choose|paths: Seq<Seq<char>>|
                paths_fit(source, paths) && crate::reader::files_of(read) == unzip_spec(
                    source,
                    paths,
                );
            let r = match read {
                Err(_) => (Pipeline::Finished, Action::Abort(EpubError::CorruptArchive)),
                Ok(archive) => match inspect_metadata(&archive) {
                    Err(x) => (Pipeline::Finished, Action::Abort(x)),
                    Ok(m) => (Pipeline::Rewriting { path, original_len, archive }, Action::Ask(m)),
                },
            };
            assert(paths_fit_event(e, paths) && (r.0@, r.1@) == process_spec(s, e, paths));
            r
        },
        (Pipeline::Fresh, Event::Unreadable) => {
            let r = (Pipeline::Finished, Action::Abort(EpubError::PathUnreadable));
            assert(paths_fit_event(e, none) && (r.0@, r.1@) == process_spec(s, e, none));
            r
        },
        (Pipeline::Rewriting { path, original_len, archive }, Event::Answered(answers)) => {
            let r = match mod_metadata(archive, &answers) {
                Err(x) => (Pipeline::Finished, Action::Abort(x)),
                Ok(a) => advance(path, original_len, minify(Minifier::new(a), ToolEvent::Start)),
            };
            assert(paths_fit_event(e, none) && (r.0@, r.1@) == process_spec(s, e, none));
            r
        },
        (Pipeline::Minifying { path, original_len, run }, Event::Tool(outcome)) => {
            let r = advance(path, original_len, minify(run, outcome));
            assert(paths_fit_event(e, none) && (r.0@, r.1@) == process_spec(s, e, none));
            r
        },
        (Pipeline::Packing { original_len, tool_savings }, Event::Packed { length }) => {
            let r = (
                Pipeline::Finished,
                Action::Finish(Report { original_len, final_len: length, tool_savings }),
            );
            assert(paths_fit_event(e, none) && (r.0@, r.1@) == process_spec(s, e, none));
            r
        },
        (Pipeline::Packing { .. }, Event::Unreadable) => {
            let r = (Pipeline::Finished, Action::Abort(EpubError::PathUnreadable));
            assert(paths_fit_event(e, none) && (r.0@, r.1@) == process_spec(s, e, none));
            r
        },
        _ => {
            let r = (Pipeline::Finished, Action::Abort(EpubError::OutOfSequence));
            let ghost blank = match e {
                EventView::Opened { bytes, .. } => match crate::zip_source::zip_entry_count(bytes) {
                    Some(n) => Seq::new(n, |i: int| Seq::<char>::empty()),
                    None => none,
                },
                _ => none,
            };
            assert(paths_fit_event(e, blank) && (r.0@, r.1@) == process_spec(s, e, blank));
            r
        },
    }
}

} // verus!
