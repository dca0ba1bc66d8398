//! The archive model: an ordered list of files, each a relative path and its
//! bytes. It stands for the working tree of one run.

use vstd::prelude::*;
use crate::text::{is_safe_path, safe_path};

verus! {

/// One file as a pair of mathematical values: its path and its bytes.
pub type EntryView = (Seq<char>, Seq<u8>);

/// One file of an archive.
pub struct Entry {
    pub path: String,
    pub content: Vec<u8>,
}

impl View for Entry {
    type V = EntryView;

    open spec fn view(&self) -> EntryView {
        (self.path@, self.content@)
    }
}

/// Whether entry `i` of `a` has the path `path`.
pub open spec fn holds_at(a: Seq<EntryView>, path: Seq<char>, i: int) -> bool {
    0 <= i < a.len() && a[i].0 == path
}

/// Whether some entry of `a` has the path `path`.
pub open spec fn has_path(a: Seq<EntryView>, path: Seq<char>) -> bool {
    exists|i: int| holds_at(a, path, i)
}

/// The position of the entry with the path `path`, where there is one.
pub open spec fn index_of(a: Seq<EntryView>, path: Seq<char>) -> int {
    choose|i: int| holds_at(a, path, i)
}

/// The invariant of an archive: no path occurs twice, and every path is a
/// safe relative path. Directories are implied by the paths.
pub open spec fn well_formed(a: Seq<EntryView>) -> bool {
    &&& forall|i: int, j: int| 0 <= i < j < a.len() ==> a[i].0 != a[j].0
    &&& forall|i: int| 0 <= i < a.len() ==> safe_path(#[trigger] a[i].0)
}

/// `a` after the file `path` was written with `content`: an existing entry
/// keeps its place and gets the new bytes, a new one goes to the end.
pub open spec fn put_spec(a: Seq<EntryView>, path: Seq<char>, content: Seq<u8>) -> Seq<EntryView> {
    if has_path(a, path) {
        a.update(index_of(a, path), (path, content))
    } else {
        a.push((path, content))
    }
}

/// The sum of the lengths of all contents.
pub open spec fn total_size(a: Seq<EntryView>) -> nat
    decreases a.len(),
{
    if a.len() == 0 {
        0
    } else {
        total_size(a.drop_last()) + a.last().1.len()
    }
}

/// Writing a file keeps an archive well formed when the path is safe.
pub proof fn lemma_put_well_formed(a: Seq<EntryView>, path: Seq<char>, content: Seq<u8>)
    requires
        well_formed(a),
        safe_path(path),
    ensures
        well_formed(put_spec(a, path, content)),
        has_path(put_spec(a, path, content), path),
        put_spec(a, path, content)[index_of(put_spec(a, path, content), path)].1 == content,
{
    let b = put_spec(a, path, content);
    if has_path(a, path) {
        let i = index_of(a, path);
        assert(holds_at(b, path, i));
    } else {
        assert forall|i: int| 0 <= i < a.len() implies a[i].0 != path by {
            if a[i].0 == path {
                assert(holds_at(a, path, i));
            }
        }
        assert(holds_at(b, path, a.len() as int));
    }
    let j = index_of(b, path);
    assert(holds_at(b, path, j));
}

/// In a well-formed archive a path is found where it stands.
pub proof fn lemma_index_of_unique(a: Seq<EntryView>, path: Seq<char>, i: int)
    requires
        well_formed(a),
        holds_at(a, path, i),
    ensures
        has_path(a, path),
        index_of(a, path) == i,
{
    let j = index_of(a, path);
    assert(holds_at(a, path, j));
    if j < i {
        assert(a[j].0 != a[i].0);
    } else if i < j {
        assert(a[i].0 != a[j].0);
    }
}

/// Writing a file changes nothing but that file: every file of the result
/// is the written one or stood there before, and every other path keeps
/// its bytes.
pub proof fn lemma_put_frame(a: Seq<EntryView>, path: Seq<char>, content: Seq<u8>)
    requires
        well_formed(a),
        safe_path(path),
    ensures
        forall|j: int|
            0 <= j < put_spec(a, path, content).len() ==> #[trigger] put_spec(a, path, content)[j]
                == (path, content) || (j < a.len() && put_spec(a, path, content)[j] == a[j]),
        forall|other: Seq<char>|
            other != path && #[trigger] has_path(a, other) ==> has_path(
                put_spec(a, path, content),
                other,
            ) && put_spec(a, path, content)[index_of(put_spec(a, path, content), other)] == a[index_of(
                a,
                other,
            )],
{
    let b = put_spec(a, path, content);
    lemma_put_well_formed(a, path, content);
    assert forall|other: Seq<char>| other != path && #[trigger] has_path(a, other) implies has_path(
        b,
        other,
    ) && b[index_of(b, other)] == a[index_of(a, other)] by {
        let i = index_of(a, other);
        assert(holds_at(a, other, i));
        if has_path(a, path) {
            assert(holds_at(a, path, index_of(a, path)));
        }
        assert(holds_at(b, other, i));
        lemma_index_of_unique(b, other, i);
    }
}

/// Replacing the bytes of entry `i` changes the total size by the difference
/// of the two lengths.
pub proof fn lemma_total_size_update(a: Seq<EntryView>, i: int, content: Seq<u8>)
    requires
        0 <= i < a.len(),
    ensures
        total_size(a.update(i, (a[i].0, content))) + a[i].1.len() == total_size(a) + content.len(),
    decreases a.len(),
{
    let b = a.update(i, (a[i].0, content));
    if i == a.len() - 1 {
        assert(b.drop_last() =~= a.drop_last());
    } else {
        lemma_total_size_update(a.drop_last(), i, content);
        assert(b.drop_last() =~= a.drop_last().update(i, (a[i].0, content)));
    }
}

/// The views of a list of files.
pub open spec fn entries_view(entries: Seq<Entry>) -> Seq<EntryView> {
    Seq::new(entries.len(), |i: int| entries[i]@)
}

/// Two lists of files whose contents have the same lengths, one by one,
/// have the same total size.
pub proof fn lemma_total_size_by_lengths(a: Seq<EntryView>, b: Seq<EntryView>)
    requires
        a.len() == b.len(),
        forall|i: int| 0 <= i < a.len() ==> a[i].1.len() == b[i].1.len(),
    ensures
        total_size(a) == total_size(b),
    decreases a.len(),
{
    if a.len() > 0 {
        lemma_total_size_by_lengths(a.drop_last(), b.drop_last());
    }
}

/// The files of one book, in a fixed order.
pub struct Archive {
    entries: Vec<Entry>,
}

impl View for Archive {
    type V = Seq<EntryView>;

    closed spec fn view(&self) -> Seq<EntryView> {
        entries_view(self.entries@)
    }
}

impl Archive {
    #[verifier::type_invariant]
    closed spec fn inv(self) -> bool {
        well_formed(self@)
    }

    /// An archive without files.
    pub fn new() -> (a: Archive)
        ensures
            a@ == Seq::<EntryView>::empty(),
    {
        let entries: Vec<Entry> = Vec::new();
        assert(entries_view(entries@) =~= Seq::<EntryView>::empty());
        Archive { entries }
    }

    /// The number of files. Every archive is well formed, which a caller
    /// learns here.
    pub fn len(&self) -> (n: usize)
        ensures
            n == self@.len(),
            well_formed(self@),
    {
        proof {
            use_type_invariant(self);
        }
        self.entries.len()
    }

    /// The path of file `i`.
    pub fn path_at(&self, i: usize) -> (p: &String)
        requires
            i < self@.len(),
        ensures
            p@ == self@[i as int].0,
    {
        &self.entries[i].path
    }

    /// The bytes of file `i`.
    pub fn content_at(&self, i: usize) -> (c: &Vec<u8>)
        requires
            i < self@.len(),
        ensures
            c@ == self@[i as int].1,
    {
        &self.entries[i].content
    }

    /// The position of the file with the path `path`.
    pub fn position(&self, path: &str) -> (r: Option<usize>)
        ensures
            r is Some == has_path(self@, path@),
            r matches Some(i) ==> i == index_of(self@, path@) && holds_at(self@, path@, i as int),
    {
        proof {
            use_type_invariant(self);
        }
        let wanted = path.to_owned();
        let mut i: usize = 0;
        while i < self.entries.len()
            invariant
                i <= self.entries.len(),
                well_formed(self@),
                wanted@ == path@,
                forall|k: int| 0 <= k < i ==> !holds_at(self@, path@, k),
            decreases self.entries.len() - i,
        {
            if self.entries[i].path == wanted {
                assert(holds_at(self@, path@, i as int));
                let ghost j = index_of(self@, path@);
                assert(holds_at(self@, path@, j));
                assert(j == i) by {
                    if j < i {
                        assert(self@[j].0 != self@[i as int].0);
                    } else if j > i {
                        assert(self@[i as int].0 != self@[j].0);
                    }
                }
                return Some(i);
            }
            i += 1;
        }
        None
    }

    /// Writes the file `path` with `content`, over an existing file of that
    /// path or as a new last file. A path that is not safe is refused and
    /// the archive comes back as it was.
    pub fn put(self, path: String, content: Vec<u8>) -> (r: (Archive, bool))
        ensures
            r.1 == safe_path(path@),
            r.1 ==> r.0@ == put_spec(self@, path@, content@),
            !r.1 ==> r.0@ == self@,
            well_formed(r.0@),
    {
        proof {
            use_type_invariant(&self);
        }
        if !is_safe_path(path.as_str()) {
            return (self, false);
        }
        proof {
            lemma_put_well_formed(self@, path@, content@);
        }
        let found = self.position(path.as_str());
        let ghost before = self@;
        let mut entries = self.entries;
        match found {
            Some(i) => {
                entries.set(i, Entry { path, content });
            },
            None => {
                entries.push(Entry { path, content });
            },
        }
        let ghost after = entries_view(entries@);
        assert(after =~= put_spec(before, path@, content@));
        let a = Archive { entries };
        assert(a@ =~= after);
        (a, true)
    }

    /// Replaces the bytes of file `i`; its path and all other files stay.
    pub fn replace_content(self, i: usize, content: Vec<u8>) -> (a: Archive)
        requires
            i < self@.len(),
        ensures
            a@ == self@.update(i as int, (self@[i as int].0, content@)),
            well_formed(a@),
    {
        proof {
            use_type_invariant(&self);
        }
        let ghost before = self@;
        let mut entries = self.entries;
        let path = entries[i].path.clone();
        entries.set(i, Entry { path, content });
        let ghost after = entries_view(entries@);
        assert(after =~= before.update(i as int, (before[i as int].0, content@)));
        let a = Archive { entries };
        assert(a@ =~= after);
        a
    }

    /// Takes the archive apart into its files, in order.
    pub fn into_entries(self) -> (entries: Vec<Entry>)
        ensures
            entries_view(entries@) == self@,
            well_formed(self@),
    {
        proof {
            use_type_invariant(&self);
        }
        self.entries
    }

    /// The sum of the lengths of all files.
    pub fn size(&self) -> (n: u128)
        ensures
            n == total_size(self@),
            well_formed(self@),
    {
        proof {
            use_type_invariant(self);
        }
        let mut n: u128 = 0;
        let mut i: usize = 0;
        while i < self.entries.len()
            invariant
                i <= self.entries.len(),
                n == total_size(self@.take(i as int)),
                n <= i * 0x1_0000_0000_0000_0000,
            decreases self.entries.len() - i,
        {
            proof {
                assert(self@.take(i + 1).drop_last() =~= self@.take(i as int));
            }
            n = n + self.entries[i].content.len() as u128;
            i += 1;
        }
        proof {
            assert(self@.take(i as int) =~= self@);
        }
        n
    }
}

} // verus!
