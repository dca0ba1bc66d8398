//! What holds across the stages of the pipeline.

use vstd::prelude::*;
use crate::archive::{lemma_total_size_by_lengths, total_size, well_formed, EntryView};
use crate::optimizer::{
    first_job, lemma_first_job_bounds, lemma_savings_accounting, minify_spec, plan_job, start_of,
    JobView, MinifierView, ToolEventView,
};
use crate::reader::{collected, kept_in, lemma_collected_content, stems_from, RawEntryView};
use crate::text::directory_name;
use crate::writer::pack_spec;

verus! {

/// Reading a book and packing it again, with nothing done in between,
/// keeps every file byte for byte: what is handed to the packer is exactly
/// the set of files of the container, each under a safe path and with the
/// bytes it had. (Where the container holds several files of one path, the
/// last one stands for them, as it would in a working tree.)
pub proof fn lemma_round_trip(raw: Seq<RawEntryView>, destination: Seq<char>)
    requires
        collected(raw) is Some,
    ensures
        well_formed(pack_spec(destination, collected(raw)->0).members),
        forall|j: int|
            0 <= j < pack_spec(destination, collected(raw)->0).members.len() ==> stems_from(
                pack_spec(destination, collected(raw)->0).members,
                j,
                raw,
            ),
        forall|i: int|
            0 <= i < raw.len() && !directory_name(#[trigger] raw[i].name) ==> kept_in(
                raw,
                i,
                pack_spec(destination, collected(raw)->0).members,
            ),
{
    lemma_collected_content(raw);
}

/// What a tool leaves of the bytes `c` when its outcome is `e`: its result
/// where it finished with something no longer than `c`, else `c` itself.
pub open spec fn after_outcome(c: Seq<u8>, e: ToolEventView) -> Seq<u8> {
    match e {
        ToolEventView::Finished(b) => if b.len() <= c.len() {
            b
        } else {
            c
        },
        _ => c,
    }
}

/// What file `i` of `files` is after a run with the tools `tool`.
pub open spec fn optimized_bytes(
    files: Seq<EntryView>,
    i: int,
    tool: spec_fn(JobView, Seq<u8>) -> ToolEventView,
) -> Seq<u8> {
    match plan_job(i, files[i].0) {
        Some(job) => after_outcome(files[i].1, tool(job, files[i].1)),
        None => files[i].1,
    }
}

/// A run driven to its end by tools that do the same to the same bytes
/// every time: as long as a tool run is under way, its outcome is what
/// `tool` gives for the job and the bytes at hand. `fuel` bounds the steps.
pub open spec fn drive(
    s: MinifierView,
    tool: spec_fn(JobView, Seq<u8>) -> ToolEventView,
    fuel: nat,
) -> MinifierView
    decreases fuel,
{
    if fuel == 0 || !s.pending {
        s
    } else {
        let job = plan_job(s.cursor, s.files[s.cursor].0)->0;
        drive(minify_spec(s, tool(job, s.files[s.cursor].1)).0, tool, (fuel - 1) as nat)
    }
}

/// A whole run over `files` with the tools `tool`.
pub open spec fn full_run(
    files: Seq<EntryView>,
    tool: spec_fn(JobView, Seq<u8>) -> ToolEventView,
) -> MinifierView {
    drive(minify_spec(start_of(files), ToolEventView::Start).0, tool, files.len())
}

/// Whether `tool`, run on what it made of `c`, leaves the length alone.
pub open spec fn settles(
    tool: spec_fn(JobView, Seq<u8>) -> ToolEventView,
    job: JobView,
    c: Seq<u8>,
) -> bool {
    let once = after_outcome(c, tool(job, c));
    after_outcome(once, tool(job, once)).len() == once.len()
}

/// Whether the tools cannot improve on their own results.
pub open spec fn stable(tool: spec_fn(JobView, Seq<u8>) -> ToolEventView) -> bool {
    forall|job: JobView, c: Seq<u8>| #[trigger] settles(tool, job, c)
}

/// No file before the first job goes to a tool.
proof fn lemma_first_job_skips(files: Seq<EntryView>, from: int)
    requires
        0 <= from <= files.len(),
    ensures
        forall|k: int| from <= k < first_job(files, from) ==> plan_job(k, files[k].0) is None,
    decreases files.len() - from,
{
    if from < files.len() && plan_job(from, files[from].0) is None {
        lemma_first_job_skips(files, from + 1);
    }
}

/// Whether file `i` is still to be dealt with in the state `s`.
pub open spec fn ahead(s: MinifierView, i: int) -> bool {
    i > s.cursor || (i == s.cursor && s.pending)
}

/// What a driven run comes to: it ends, every path stays, every file still
/// ahead is optimized once, every other file stays, and savings and total
/// size still add up.
proof fn lemma_drive(s: MinifierView, tool: spec_fn(JobView, Seq<u8>) -> ToolEventView, fuel: nat)
    requires
        s.wf(),
        s.pending ==> plan_job(s.cursor, s.files[s.cursor].0) is Some,
        !s.pending ==> s.cursor == s.files.len(),
        fuel >= s.files.len() - s.cursor,
    ensures
        drive(s, tool, fuel).wf(),
        !drive(s, tool, fuel).pending,
        drive(s, tool, fuel).files.len() == s.files.len(),
        drive(s, tool, fuel).saved + total_size(drive(s, tool, fuel).files) == s.saved
            + total_size(s.files),
        forall|i: int|
            0 <= i < s.files.len() ==> (#[trigger] drive(s, tool, fuel).files[i]).0 == s.files[i].0
                && drive(s, tool, fuel).files[i].1 == if ahead(s, i) {
                optimized_bytes(s.files, i, tool)
            } else {
                s.files[i].1
            },
    decreases fuel,
{
    if fuel != 0 && s.pending {
        let job = plan_job(s.cursor, s.files[s.cursor].0)->0;
        let e = tool(job, s.files[s.cursor].1);
        let t = minify_spec(s, e).0;
        lemma_savings_accounting(s, e);
        lemma_first_job_bounds(t.files, s.cursor + 1);
        lemma_first_job_skips(t.files, s.cursor + 1);
        lemma_drive(t, tool, (fuel - 1) as nat);
        let end = drive(s, tool, fuel);
        assert(end == drive(t, tool, (fuel - 1) as nat));
        assert forall|i: int| 0 <= i < s.files.len() implies (#[trigger] end.files[i]).0
            == s.files[i].0 && end.files[i].1 == if ahead(s, i) {
            optimized_bytes(s.files, i, tool)
        } else {
            s.files[i].1
        } by {
            assert(t.files[i].0 == s.files[i].0);
            if i == s.cursor {
                assert(!ahead(t, i));
                assert(t.files[i].1 == after_outcome(s.files[i].1, e));
            } else {
                assert(t.files[i] == s.files[i]);
                if s.cursor < i < t.cursor {
                    assert(plan_job(i, t.files[i].0) is None);
                }
            }
        }
    }
}

/// Optimizing a book twice saves nothing the second time. Let the tools
/// be functions of the job and the bytes they are given, and let them be
/// unable to improve on their own results. Then a whole run over the files
/// that a whole run left ends with no savings at all.
pub proof fn lemma_second_run_saves_nothing(
    files: Seq<EntryView>,
    tool: spec_fn(JobView, Seq<u8>) -> ToolEventView,
)
    requires
        well_formed(files),
        stable(tool),
    ensures
        !full_run(files, tool).pending,
        !full_run(full_run(files, tool).files, tool).pending,
        full_run(full_run(files, tool).files, tool).saved == 0,
        total_size(full_run(full_run(files, tool).files, tool).files) == total_size(
            full_run(files, tool).files,
        ),
{
    let s0 = start_of(files);
    let first = minify_spec(s0, ToolEventView::Start).0;
    lemma_savings_accounting(s0, ToolEventView::Start);
    lemma_first_job_bounds(files, 0);
    lemma_first_job_skips(files, 0);
    lemma_drive(first, tool, files.len());
    let once = full_run(files, tool).files;
    assert forall|i: int| 0 <= i < files.len() implies (#[trigger] once[i]).0 == files[i].0
        && once[i].1 == optimized_bytes(files, i, tool) by {
        if !ahead(first, i) {
            assert(plan_job(i, files[i].0) is None);
        }
    }
    let s1 = start_of(once);
    let second = minify_spec(s1, ToolEventView::Start).0;
    lemma_savings_accounting(s1, ToolEventView::Start);
    lemma_first_job_bounds(once, 0);
    lemma_first_job_skips(once, 0);
    lemma_drive(second, tool, once.len());
    let twice = full_run(once, tool).files;
    assert forall|i: int| 0 <= i < once.len() implies (#[trigger] twice[i]).1.len()
        == once[i].1.len() by {
        if !ahead(second, i) {
            assert(plan_job(i, once[i].0) is None);
        }
        match plan_job(i, files[i].0) {
            Some(job) => {
                assert(settles(tool, job, files[i].1));
            },
            None => {},
        }
    }
    lemma_total_size_by_lengths(twice, once);
}

} // verus!
