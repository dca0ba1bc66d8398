//! The archive reader: it turns the bytes of a ZIP container into an
//! archive, leaving directories out and keeping every file under a safe
//! relative path.

use vstd::prelude::*;
use crate::archive::{
    has_path, index_of, lemma_put_frame, lemma_put_well_formed, put_spec, well_formed, Archive,
    EntryView,
};
use crate::error::EpubError;
use crate::text::{directory_name, is_directory_name, safe_path};
use crate::zip_source::{
    entry_content, entry_count, entry_name, entry_path, open_zip, zip_bytes, zip_entry_content,
    zip_entry_count, zip_entry_name,
};

verus! {

/// One entry as it comes out of a container: the name it is stored under,
/// the path that name was rewritten to, and its bytes.
pub struct RawEntry {
    pub name: String,
    pub path: String,
    pub content: Vec<u8>,
}

/// A [`RawEntry`] as mathematical values.
pub struct RawEntryView {
    pub name: Seq<char>,
    pub path: Seq<char>,
    pub content: Seq<u8>,
}

impl View for RawEntry {
    type V = RawEntryView;

    open spec fn view(&self) -> RawEntryView {
        RawEntryView { name: self.name@, path: self.path@, content: self.content@ }
    }
}

/// The views of a list of raw entries.
pub open spec fn raw_views(raw: Seq<RawEntry>) -> Seq<RawEntryView> {
    Seq::new(raw.len(), |i: int| raw[i]@)
}

/// The files that a list of raw entries amounts to, taken in order: an
/// entry whose name ends in a slash is a directory and is left out; a file
/// is written under its rewritten path, over an earlier file of that path.
/// `None` where the rewritten path of some file is not safe.
pub open spec fn collected(raw: Seq<RawEntryView>) -> Option<Seq<EntryView>>
    decreases raw.len(),
{
    if raw.len() == 0 {
        Some(Seq::empty())
    } else {
        match collected(raw.drop_last()) {
            None => None,
            Some(a) => {
                let e = raw.last();
                if directory_name(e.name) {
                    Some(a)
                } else if safe_path(e.path) {
                    Some(put_spec(a, e.path, e.content))
                } else {
                    None
                }
            },
        }
    }
}

/// Once a prefix of the entries is refused, the whole list is.
pub proof fn lemma_collected_refusal_stays(raw: Seq<RawEntryView>, k: int)
    requires
        0 <= k <= raw.len(),
        collected(raw.take(k)) is None,
    ensures
        collected(raw) is None,
    decreases raw.len() - k,
{
    if k == raw.len() {
        assert(raw.take(k) =~= raw);
    } else {
        assert(raw.take(k + 1).drop_last() =~= raw.take(k));
        lemma_collected_refusal_stays(raw, k + 1);
    }
}

/// Whether no file after entry `i` is written to the path of entry `i`.
pub open spec fn written_last(raw: Seq<RawEntryView>, i: int) -> bool {
    forall|k: int|
        i < k < raw.len() && !directory_name(#[trigger] raw[k].name) ==> raw[k].path != raw[i].path
}

/// Whether file `j` of `a` is a file of `raw`, with the same bytes.
pub open spec fn stems_from(a: Seq<EntryView>, j: int, raw: Seq<RawEntryView>) -> bool {
    exists|i: int|
        0 <= i < raw.len() && !directory_name(#[trigger] raw[i].name) && raw[i].path == a[j].0
            && raw[i].content == a[j].1
}

/// Whether file `i` of `raw` is kept in `a`: its path is there, and it has
/// the bytes of that file unless a later file was written over it.
pub open spec fn kept_in(raw: Seq<RawEntryView>, i: int, a: Seq<EntryView>) -> bool {
    has_path(a, raw[i].path) && (written_last(raw, i) ==> a[index_of(a, raw[i].path)].1
        == raw[i].content)
}

/// Extraction neither invents nor loses nor alters a file: the result is a
/// well-formed archive, each of its files is a file of the container with
/// the same bytes, and each file of the container is in it, byte for byte
/// unless a later file of the same path replaced it.
pub proof fn lemma_collected_content(raw: Seq<RawEntryView>)
    requires
        collected(raw) is Some,
    ensures
        well_formed(collected(raw)->0),
        forall|j: int| 0 <= j < collected(raw)->0.len() ==> stems_from(collected(raw)->0, j, raw),
        forall|i: int|
            0 <= i < raw.len() && !directory_name(#[trigger] raw[i].name) ==> kept_in(
                raw,
                i,
                collected(raw)->0,
            ),
    decreases raw.len(),
{
    let a = collected(raw)->0;
    if raw.len() > 0 {
        let before = raw.drop_last();
        let e = raw.last();
        let last = raw.len() - 1;
        lemma_collected_content(before);
        let b = collected(before)->0;
        assert forall|i: int| 0 <= i < before.len() implies before[i] == raw[i] by {}
        if directory_name(e.name) {
            assert forall|j: int| 0 <= j < a.len() implies stems_from(a, j, raw) by {
                assert(stems_from(b, j, before));
                let i = choose|i: int|
                    0 <= i < before.len() && !directory_name(#[trigger] before[i].name)
                        && before[i].path == b[j].0 && before[i].content == b[j].1;
                assert(!directory_name(raw[i].name));
            }
            assert forall|i: int|
                0 <= i < raw.len() && !directory_name(#[trigger] raw[i].name) implies kept_in(
                raw,
                i,
                a,
            ) by {
                assert(!directory_name(before[i].name));
                assert(kept_in(before, i, b));
                if written_last(raw, i) {
                    assert forall|k: int|
                        i < k < before.len() && !directory_name(
                            #[trigger] before[k].name,
                        ) implies before[k].path != before[i].path by {
                        assert(!directory_name(raw[k].name));
                    }
                }
            }
        } else {
            lemma_put_well_formed(b, e.path, e.content);
            lemma_put_frame(b, e.path, e.content);
            assert forall|j: int| 0 <= j < a.len() implies stems_from(a, j, raw) by {
                if a[j] == (e.path, e.content) {
                    assert(!directory_name(raw[last].name));
                } else {
                    assert(stems_from(b, j, before));
                    let i = choose|i: int|
                        0 <= i < before.len() && !directory_name(#[trigger] before[i].name)
                            && before[i].path == b[j].0 && before[i].content == b[j].1;
                    assert(!directory_name(raw[i].name));
                }
            }
            assert forall|i: int|
                0 <= i < raw.len() && !directory_name(#[trigger] raw[i].name) implies kept_in(
                raw,
                i,
                a,
            ) by {
                if i == last {
                } else {
                    assert(!directory_name(before[i].name));
                    assert(kept_in(before, i, b));
                    if raw[i].path == e.path {
                        assert(!written_last(raw, i)) by {
                            assert(!directory_name(raw[last].name));
                        }
                    } else if written_last(raw, i) {
                        assert forall|k: int|
                            i < k < before.len() && !directory_name(
                                #[trigger] before[k].name,
                            ) implies before[k].path != before[i].path by {
                            assert(!directory_name(raw[k].name));
                        }
                    }
                }
            }
        }
    }
}

/// Builds the archive that a list of raw entries amounts to.
pub fn collect_entries(raw: &Vec<RawEntry>) -> (r: Result<Archive, EpubError>)
    ensures
        match collected(raw_views(raw@)) {
            Some(a) => r matches Ok(b) && b@ == a && well_formed(b@),
            None => r matches Err(e) && e == EpubError::CorruptArchive,
        },
{
    let ghost all = raw_views(raw@);
    let mut archive = Archive::new();
    assert(all.take(0) =~= Seq::empty());
    let mut i: usize = 0;
    while i < raw.len()
        invariant
            i <= raw.len(),
            all == raw_views(raw@),
            collected(all.take(i as int)) == Some(archive@),
            well_formed(archive@),
        decreases raw.len() - i,
    {
        proof {
            assert(all.take(i + 1).drop_last() =~= all.take(i as int));
        }
        let e = &raw[i];
        if !is_directory_name(e.name.as_str()) {
            let (next, stored) = archive.put(e.path.clone(), e.content.clone());
            archive = next;
            if !stored {
                proof {
                    lemma_collected_refusal_stays(all, i + 1);
                }
                return Err(EpubError::CorruptArchive);
            }
        }
        i += 1;
    }
    proof {
        assert(all.take(i as int) =~= all);
    }
    Ok(archive)
}

/// Whether entry `i` of a container can be read as far as extraction needs
/// it: its name, and its bytes unless it is a directory.
pub open spec fn entry_readable(bytes: Seq<u8>, i: int) -> bool {
    zip_entry_name(bytes, i as nat) matches Some(name) && (directory_name(name)
        || zip_entry_content(bytes, i as nat) is Some)
}

/// Entry `i` of a container, with `path` as its rewritten path. A directory
/// has no bytes.
pub open spec fn raw_entry(bytes: Seq<u8>, path: Seq<char>, i: int) -> RawEntryView {
    let name = zip_entry_name(bytes, i as nat)->0;
    RawEntryView {
        name,
        path,
        content: if directory_name(name) {
            Seq::empty()
        } else {
            zip_entry_content(bytes, i as nat)->0
        },
    }
}

/// The files extracted from the container `bytes`, which has as many
/// entries as `paths` has members: the rewritten path of each entry. `None`
/// where an entry cannot be read or the path of a file is not safe.
pub open spec fn extracted(bytes: Seq<u8>, paths: Seq<Seq<char>>) -> Option<Seq<EntryView>> {
    if forall|i: int| 0 <= i < paths.len() ==> entry_readable(bytes, i) {
        collected(Seq::new(paths.len(), |i: int| raw_entry(bytes, paths[i], i)))
    } else {
        None
    }
}

/// Whether `paths` can be the rewritten paths of the entries of the
/// container `bytes`: one path for each entry.
pub open spec fn paths_fit(bytes: Seq<u8>, paths: Seq<Seq<char>>) -> bool {
    zip_entry_count(bytes) matches Some(n) ==> paths.len() == n
}

/// The files that reading the container `bytes` yields, given the rewritten
/// paths of its entries. `None` stands for a corrupt archive: `bytes` are
/// no container, an entry cannot be read, or the path of a file is not safe.
pub open spec fn unzip_spec(bytes: Seq<u8>, paths: Seq<Seq<char>>) -> Option<Seq<EntryView>> {
    if zip_entry_count(bytes) is None {
        None
    } else {
        extracted(bytes, paths)
    }
}

/// The files of the archive that was read; `None` for a failure.
pub open spec fn files_of(r: Result<Archive, EpubError>) -> Option<Seq<EntryView>> {
    match r {
        Ok(a) => Some(a@),
        Err(_) => None,
    }
}

/// Reads a ZIP container into an archive. Every entry that is not a
/// directory becomes a file with the bytes it has in the container, under
/// the path that the ZIP library rewrites its name to; that path is checked
/// here, so no file of the result can land outside a working root, whatever
/// the container says. Anything unreadable or unsafe makes the whole
/// container corrupt.
pub fn unzip(bytes: Vec<u8>) -> (r: Result<Archive, EpubError>)
    ensures
        exists|paths: Seq<Seq<char>>|
            paths_fit(bytes@, paths) && files_of(r) == #[trigger] unzip_spec(bytes@, paths),
        r matches Ok(a) ==> well_formed(a@),
        r matches Err(e) ==> e == EpubError::CorruptArchive,
{
    let ghost source = bytes@;
    let mut z = match open_zip(bytes) {
        Ok(z) => z,
        Err(_) => {
            assert(paths_fit(source, Seq::empty()) && unzip_spec(source, Seq::empty()) is None);
            return Err(EpubError::CorruptArchive);
        },
    };
    let n: usize = entry_count(&z);
    let ghost blank = Seq::new(n as nat, |k: int| Seq::<char>::empty());
    let mut raw: Vec<RawEntry> = Vec::new();
    let ghost mut paths: Seq<Seq<char>> = Seq::empty();
    let mut i: usize = 0;
    while i < n
        invariant
            i <= n,
            source == bytes@,
            zip_bytes(z) == source,
            zip_entry_count(source) == Some(n as nat),
            blank.len() == n,
            raw@.len() == i,
            paths.len() == i,
            forall|k: int| 0 <= k < i ==> entry_readable(source, k),
            forall|k: int| 0 <= k < i ==> (#[trigger] raw@[k])@ == raw_entry(source, paths[k], k),
        decreases n - i,
    {
        let name = match entry_name(&z, i) {
            Ok(name) => name,
            Err(_) => {
                assert(!entry_readable(source, i as int));
                assert(paths_fit(source, blank) && unzip_spec(source, blank) is None);
                return Err(EpubError::CorruptArchive);
            },
        };
        if is_directory_name(name.as_str()) {
            raw.push(RawEntry { name, path: String::new(), content: Vec::new() });
            proof {
                paths = paths.push(Seq::empty());
            }
        } else {
            let path = match entry_path(&z, i) {
                Ok(path) => path,
                Err(_) => String::new(),
            };
            let content = match entry_content(&mut z, i) {
                Ok(content) => content,
                Err(_) => {
                    assert(!entry_readable(source, i as int));
                    assert(paths_fit(source, blank) && unzip_spec(source, blank) is None);
                    return Err(EpubError::CorruptArchive);
                },
            };
            proof {
                paths = paths.push(path@);
            }
            raw.push(RawEntry { name, path, content });
        }
        i += 1;
    }
    proof {
        assert(raw_views(raw@) =~= Seq::new(n as nat, |i: int| raw_entry(source, paths[i], i)));
    }
    let r = collect_entries(&raw);
    assert(paths_fit(source, paths) && files_of(r) == unzip_spec(source, paths));
    r
}

} // verus!
