//! The asset optimizer: which tool a file goes to, and the bookkeeping of
//! what the tools achieved. The tools themselves run elsewhere; this module
//! decides, file by file, what is to be run, and settles each outcome.

use vstd::prelude::*;
use crate::archive::{lemma_total_size_update, total_size, well_formed, Archive, EntryView};
use crate::text::{
    extension, extension_of, same_text, strip_extension, text_view, texts_view, without_extension,
};

verus! {

/// What is done to a file, by its extension.
#[derive(Clone, Copy, Debug, PartialEq, Eq, Structural)]
pub enum Transformation {
    /// Structural markup minifier in XML mode.
    Markup,
    /// Generic text minifier.
    Text,
    /// Lossless JPEG recompression without metadata.
    Jpeg,
    /// Lossless PNG recompression.
    Png,
    /// Nothing: the file stays as it is.
    Keep,
}

/// The dispatch table. Extensions are compared as they are stored, so
/// `PNG` is not `png`.
pub open spec fn transformation_of(ext: Option<Seq<char>>) -> Transformation {
    match ext {
        None => Transformation::Keep,
        Some(e) => if e == "opf"@ || e == "xml"@ || e == "html"@ || e == "htm"@ {
            Transformation::Markup
        } else if e == "css"@ || e == "svg"@ {
            Transformation::Text
        } else if e == "jpeg"@ || e == "jpg"@ {
            Transformation::Jpeg
        } else if e == "png"@ {
            Transformation::Png
        } else {
            Transformation::Keep
        },
    }
}

/// The transformation that the file at `path` goes through.
pub fn transformation_for(path: &str) -> (t: Transformation)
    ensures
        t == transformation_of(extension(path@)),
{
    match extension_of(path) {
        None => Transformation::Keep,
        Some(ext) => {
            let e = ext.as_str();
            if same_text(e, "opf") || same_text(e, "xml") || same_text(e, "html") || same_text(
                e,
                "htm",
            ) {
                Transformation::Markup
            } else if same_text(e, "css") || same_text(e, "svg") {
                Transformation::Text
            } else if same_text(e, "jpeg") || same_text(e, "jpg") {
                Transformation::Jpeg
            } else if same_text(e, "png") {
                Transformation::Png
            } else {
                Transformation::Keep
            }
        },
    }
}

/// One tool run: the file it is for and how the tool is called. The tool
/// gets `options`, then the file; where `output_option` is set it gets that
/// option and the file once more, as the place to write to. Where `derived`
/// is set the tool writes there instead, and that file is to be moved back
/// onto `path` afterwards. All paths are relative to the working root.
pub struct Job {
    pub file: usize,
    pub path: String,
    pub kind: Transformation,
    pub program: String,
    pub options: Vec<String>,
    pub output_option: Option<String>,
    pub derived: Option<String>,
}

/// A [`Job`] as mathematical values.
pub struct JobView {
    pub file: int,
    pub path: Seq<char>,
    pub kind: Transformation,
    pub program: Seq<char>,
    pub options: Seq<Seq<char>>,
    pub output_option: Option<Seq<char>>,
    pub derived: Option<Seq<char>>,
}

impl View for Job {
    type V = JobView;

    open spec fn view(&self) -> JobView {
        JobView {
            file: self.file as int,
            path: self.path@,
            kind: self.kind,
            program: self.program@,
            options: texts_view(self.options@),
            output_option: text_view(self.output_option),
            derived: text_view(self.derived),
        }
    }
}

/// The tool run for file number `file` at `path`; `None` where the file is
/// kept as it is.
pub open spec fn plan_job(file: int, path: Seq<char>) -> Option<JobView> {
    let kind = transformation_of(extension(path));
    match kind {
        Transformation::Markup => Some(
            JobView {
                file,
                path,
                kind,
                program: "minify"@,
                options: seq!["--mime=text/xml"@],
                output_option: Some("-o"@),
                derived: None,
            },
        ),
        Transformation::Text => Some(
            JobView {
                file,
                path,
                kind,
                program: "minify"@,
                options: Seq::empty(),
                output_option: Some("-o"@),
                derived: None,
            },
        ),
        Transformation::Jpeg => Some(
            JobView {
                file,
                path,
                kind,
                program: "jpegoptim"@,
                options: seq!["-s"@],
                output_option: None,
                derived: None,
            },
        ),
        Transformation::Png => Some(
            JobView {
                file,
                path,
                kind,
                program: "crunch"@,
                options: Seq::empty(),
                output_option: None,
                derived: Some(without_extension(path) + "-crunch.png"@),
            },
        ),
        Transformation::Keep => None,
    }
}

/// Plans the tool run for one file.
pub fn plan(file: usize, path: &str) -> (r: Option<Job>)
    ensures
        match plan_job(file as int, path@) {
            Some(j) => r matches Some(job) && job@ == j,
            None => r is None,
        },
{
    let kind = transformation_for(path);
    let mut options: Vec<String> = Vec::new();
    let job = match kind {
        Transformation::Markup => {
            options.push("--mime=text/xml".to_owned());
            Job {
                file,
                path: path.to_owned(),
                kind,
                program: "minify".to_owned(),
                options,
                output_option: Some("-o".to_owned()),
                derived: None,
            }
        },
        Transformation::Text => Job {
            file,
            path: path.to_owned(),
            kind,
            program: "minify".to_owned(),
            options,
            output_option: Some("-o".to_owned()),
            derived: None,
        },
        Transformation::Jpeg => {
            options.push("-s".to_owned());
            Job {
                file,
                path: path.to_owned(),
                kind,
                program: "jpegoptim".to_owned(),
                options,
                output_option: None,
                derived: None,
            }
        },
        Transformation::Png => {
            let mut derived = strip_extension(path);
            derived.append("-crunch.png");
            Job {
                file,
                path: path.to_owned(),
                kind,
                program: "crunch".to_owned(),
                options,
                output_option: None,
                derived: Some(derived),
            }
        },
        Transformation::Keep => {
            return None;
        },
    };
    assert(job@.options =~= plan_job(file as int, path@)->0.options);
    Some(job)
}

/// What the driver reports back to the optimizer.
pub enum ToolEvent {
    /// Nothing has been run yet.
    Start,
    /// The tool could not be run, or it failed.
    Failed,
    /// The tool ran; these are the bytes now at the file's path.
    Finished(Vec<u8>),
}

/// A [`ToolEvent`] as mathematical values.
pub enum ToolEventView {
    Start,
    Failed,
    Finished(Seq<u8>),
}

impl View for ToolEvent {
    type V = ToolEventView;

    open spec fn view(&self) -> ToolEventView {
        match self {
            ToolEvent::Start => ToolEventView::Start,
            ToolEvent::Failed => ToolEventView::Failed,
            ToolEvent::Finished(b) => ToolEventView::Finished(b@),
        }
    }
}

/// What the optimizer asks for next.
pub enum Step {
    /// Run this tool and report how it went.
    Run(Job),
    /// Every file has been dealt with.
    Done,
}

/// A [`Step`] as mathematical values.
pub enum StepView {
    Run(JobView),
    Done,
}

impl View for Step {
    type V = StepView;

    open spec fn view(&self) -> StepView {
        match self {
            Step::Run(j) => StepView::Run(j@),
            Step::Done => StepView::Done,
        }
    }
}

/// The state of one optimizer run as mathematical values: the files as they
/// are now, how far the run has come, whether a tool run is under way for
/// the file at `cursor`, and the bytes saved so far.
pub struct MinifierView {
    pub files: Seq<EntryView>,
    pub cursor: int,
    pub pending: bool,
    pub saved: nat,
}

impl MinifierView {
    /// The invariant of a run: the files form an archive, and the cursor is
    /// at a file while a tool run is under way.
    pub open spec fn wf(self) -> bool {
        &&& well_formed(self.files)
        &&& 0 <= self.cursor <= self.files.len()
        &&& self.pending ==> self.cursor < self.files.len()
    }
}

/// The state in which a run over `files` begins.
pub open spec fn start_of(files: Seq<EntryView>) -> MinifierView {
    MinifierView { files, cursor: 0, pending: false, saved: 0 }
}

/// Whether the outcome `e` is taken over: a tool run is under way, the tool
/// finished, and what it left is no longer than the file was. A longer
/// result breaks the tool's promise and is discarded like a failure.
pub open spec fn accepted(s: MinifierView, e: ToolEventView) -> bool {
    &&& s.pending
    &&& e matches ToolEventView::Finished(b)
    &&& b.len() <= s.files[s.cursor].1.len()
}

/// The state after the outcome `e` was settled. An accepted outcome
/// replaces the file's bytes and adds the difference of the two lengths to
/// the savings; any other outcome of a tool run leaves file and savings as
/// they were. Without a tool run under way nothing happens.
pub open spec fn settle(s: MinifierView, e: ToolEventView) -> MinifierView {
    if !s.pending {
        s
    } else if accepted(s, e) {
        let old = s.files[s.cursor];
        MinifierView {
            files: s.files.update(s.cursor, (old.0, e->Finished_0)),
            cursor: s.cursor + 1,
            pending: false,
            saved: (s.saved + old.1.len() - e->Finished_0.len()) as nat,
        }
    } else {
        MinifierView { cursor: s.cursor + 1, pending: false, ..s }
    }
}

/// The first file at or after `from` that goes to a tool; the number of
/// files where there is none.
pub open spec fn first_job(files: Seq<EntryView>, from: int) -> int
    decreases files.len() - from,
{
    if from < 0 || from >= files.len() {
        files.len() as int
    } else if plan_job(from, files[from].0) is Some {
        from
    } else {
        first_job(files, from + 1)
    }
}

/// One step of the optimizer: settle the outcome, then move on to the next
/// file that goes to a tool.
pub open spec fn minify_spec(s: MinifierView, e: ToolEventView) -> (MinifierView, StepView) {
    let t = settle(s, e);
    let at = first_job(t.files, t.cursor);
    if at < t.files.len() {
        (MinifierView { cursor: at, pending: true, ..t }, StepView::Run(plan_job(at, t.files[at].0)->0))
    } else {
        (MinifierView { cursor: at, pending: false, ..t }, StepView::Done)
    }
}

/// The first job lies between the place the search starts and the end.
pub proof fn lemma_first_job_bounds(files: Seq<EntryView>, from: int)
    requires
        0 <= from <= files.len(),
    ensures
        from <= first_job(files, from) <= files.len(),
        first_job(files, from) < files.len() ==> plan_job(
            first_job(files, from),
            files[first_job(files, from)].0,
        ) is Some,
    decreases files.len() - from,
{
    if from < files.len() && plan_job(from, files[from].0) is None {
        lemma_first_job_bounds(files, from + 1);
    }
}

/// The savings are exact. A step keeps a run well formed; it adds to the
/// savings exactly what the file lost in length where the outcome is taken
/// over, and leaves savings and files untouched where it is not (the tool
/// failed, or no tool run was under way). Savings and total size always add
/// up to the same number.
pub proof fn lemma_savings_accounting(s: MinifierView, e: ToolEventView)
    requires
        s.wf(),
    ensures
        minify_spec(s, e).0.wf(),
        minify_spec(s, e).0.files.len() == s.files.len(),
        minify_spec(s, e).0.saved + total_size(minify_spec(s, e).0.files) == s.saved + total_size(
            s.files,
        ),
        accepted(s, e) ==> minify_spec(s, e).0.saved == s.saved + s.files[s.cursor].1.len()
            - e->Finished_0.len() && minify_spec(s, e).0.files == s.files.update(
            s.cursor,
            (s.files[s.cursor].0, e->Finished_0),
        ),
        !accepted(s, e) ==> minify_spec(s, e).0.saved == s.saved && minify_spec(s, e).0.files
            == s.files,
{
    let t = settle(s, e);
    if accepted(s, e) {
        lemma_total_size_update(s.files, s.cursor, e->Finished_0);
    }
    lemma_first_job_bounds(t.files, t.cursor);
}

/// The state after a whole series of outcomes, each settled by one step.
pub open spec fn replay(s: MinifierView, events: Seq<ToolEventView>) -> MinifierView
    decreases events.len(),
{
    if events.len() == 0 {
        s
    } else {
        minify_spec(replay(s, events.drop_last()), events.last()).0
    }
}

/// Whether the outcome `e` makes the file under way shorter.
pub open spec fn shrinks(s: MinifierView, e: ToolEventView) -> bool {
    accepted(s, e) && e->Finished_0.len() < s.files[s.cursor].1.len()
}

/// Where nothing gets shorter, nothing is saved: a run in which no outcome
/// is shorter than the file it is for ends with the savings it began with,
/// over files of the same total size.
pub proof fn lemma_optimized_saves_nothing(s: MinifierView, events: Seq<ToolEventView>)
    requires
        s.wf(),
        forall|k: int|
            0 <= k < events.len() ==> !shrinks(replay(s, events.take(k)), #[trigger] events[k]),
    ensures
        replay(s, events).wf(),
        replay(s, events).saved == s.saved,
        total_size(replay(s, events).files) == total_size(s.files),
    decreases events.len(),
{
    if events.len() > 0 {
        let before = events.drop_last();
        let last = events.len() - 1;
        assert forall|k: int| 0 <= k < before.len() implies !shrinks(
            replay(s, before.take(k)),
            #[trigger] before[k],
        ) by {
            assert(before.take(k) =~= events.take(k));
            assert(before[k] == events[k]);
        }
        lemma_optimized_saves_nothing(s, before);
        assert(events.take(last) =~= before);
        assert(!shrinks(replay(s, before), events[last]));
        lemma_savings_accounting(replay(s, before), events.last());
    }
}

/// One optimizer run over an archive.
pub struct Minifier {
    archive: Archive,
    cursor: usize,
    pending: bool,
    saved: u128,
    original: u128,
}

impl View for Minifier {
    type V = MinifierView;

    closed spec fn view(&self) -> MinifierView {
        MinifierView {
            files: self.archive@,
            cursor: self.cursor as int,
            pending: self.pending,
            saved: self.saved as nat,
        }
    }
}

impl Minifier {
    #[verifier::type_invariant]
    closed spec fn inv(self) -> bool {
        &&& self@.wf()
        &&& self.saved + total_size(self.archive@) == self.original
    }

    /// A run over `archive` that has not begun.
    pub fn new(archive: Archive) -> (m: Minifier)
        ensures
            m@ == start_of(archive@),
            m@.wf(),
    {
        let original = archive.size();
        Minifier { archive, cursor: 0, pending: false, saved: 0, original }
    }

    /// The bytes saved so far.
    pub fn bytes_saved(&self) -> (n: u128)
        ensures
            n == self@.saved,
            self@.wf(),
    {
        proof {
            use_type_invariant(self);
        }
        self.saved
    }

    /// The bytes saved so far in whole KiB, for the progress line.
    pub fn kib_saved(&self) -> (n: u128)
        ensures
            n == self@.saved / 1024,
    {
        self.saved / 1024
    }

    /// The files as they are now.
    pub fn archive(&self) -> (a: &Archive)
        ensures
            a@ == self@.files,
    {
        &self.archive
    }

    /// Ends the run and hands the files back.
    pub fn into_archive(self) -> (a: Archive)
        ensures
            a@ == self@.files,
            well_formed(a@),
    {
        proof {
            use_type_invariant(&self);
        }
        self.archive
    }
}

/// One step of the optimizer. The outcome of the tool run that is under way
/// is settled first: the file's bytes are replaced and the savings grow by
/// exactly the difference of the two lengths, or, where the tool failed,
/// nothing changes. Then the next file that goes to a tool is looked for,
/// and either its job or the end of the run is handed back.
pub fn minify(state: Minifier, event: ToolEvent) -> (r: (Minifier, Step))
    ensures
        (r.0@, r.1@) == minify_spec(state@, event@),
        r.0@.wf(),
{
    proof {
        use_type_invariant(&state);
    }
    let ghost s = state@;
    let Minifier { archive, cursor, pending, saved, original } = state;
    let mut archive = archive;
    let mut cursor = cursor;
    let mut saved = saved;
    let n: usize = archive.len();
    if pending {
        match event {
            ToolEvent::Finished(bytes) => {
                let before: usize = archive.content_at(cursor).len();
                if bytes.len() <= before {
                    proof {
                        lemma_total_size_update(archive@, cursor as int, bytes@);
                    }
                    saved = saved + (before - bytes.len()) as u128;
                    archive = archive.replace_content(cursor, bytes);
                }
            },
            _ => {},
        }
        cursor = cursor + 1;
    }
    let ghost t = settle(s, event@);
    assert(t.files == archive@ && t.cursor == cursor && t.saved == saved);
    proof {
        lemma_first_job_bounds(t.files, t.cursor);
    }
    while cursor < n
        invariant
            cursor <= n,
            n == archive@.len(),
            well_formed(archive@),
            saved + total_size(archive@) == original,
            first_job(archive@, cursor as int) == first_job(t.files, t.cursor),
            t == settle(s, event@),
            s == state@,
            archive@ == t.files,
            saved == t.saved,
            !t.pending,
        decreases n - cursor,
    {
        match plan(cursor, archive.path_at(cursor).as_str()) {
            Some(job) => {
                let next = Minifier { archive, cursor, pending: true, saved, original };
                return (next, Step::Run(job));
            },
            None => {
                cursor = cursor + 1;
            },
        }
    }
    let next = Minifier { archive, cursor, pending: false, saved, original };
    (next, Step::Done)
}

} // verus!
