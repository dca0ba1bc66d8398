//! The archive writer: it says what is to be packed, in which order, and
//! how the packer is to be called. Packing itself happens elsewhere.

use vstd::prelude::*;
use crate::archive::{entries_view, Archive, Entry, EntryView};
use crate::text::texts_view;

verus! {

/// One call of the packer. The files in `members` are to be laid out below
/// the working root, and the packer is to be run there, with `options`,
/// then `destination`, then the path of each member, in this order. The
/// destination is to be cleared before.
pub struct PackPlan {
    pub program: String,
    pub options: Vec<String>,
    pub destination: String,
    pub members: Vec<Entry>,
}

/// A [`PackPlan`] as mathematical values.
pub struct PackPlanView {
    pub program: Seq<char>,
    pub options: Seq<Seq<char>>,
    pub destination: Seq<char>,
    pub members: Seq<EntryView>,
}

impl View for PackPlan {
    type V = PackPlanView;

    open spec fn view(&self) -> PackPlanView {
        PackPlanView {
            program: self.program@,
            options: texts_view(self.options@),
            destination: self.destination@,
            members: entries_view(self.members@),
        }
    }
}

/// The plan for packing `files` into the archive at `path`: every file is a
/// member, under its own path and with its own bytes, in the order of the
/// archive; directories are no members. The packer compresses as hard as
/// it can.
pub open spec fn pack_spec(path: Seq<char>, files: Seq<EntryView>) -> PackPlanView {
    PackPlanView { program: "zip"@, options: seq!["-9"@], destination: path, members: files }
}

/// Plans the packing of an archive into the file at `path`.
pub fn gen_epub(path: &str, archive: Archive) -> (plan: PackPlan)
    ensures
        plan@ == pack_spec(path@, archive@),
{
    let mut options: Vec<String> = Vec::new();
    options.push("-9".to_owned());
    let plan = PackPlan {
        program: "zip".to_owned(),
        options,
        destination: path.to_owned(),
        members: archive.into_entries(),
    };
    assert(plan@.options =~= seq!["-9"@]);
    plan
}

} // verus!
