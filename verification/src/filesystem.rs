//! Directory listings and the home directory, computed from what the file
//! system and the environment answered.

use vstd::prelude::*;
use crate::ordering::{
    is_sorted_listing, keyed_views, lemma_stable_sort_keeps_items, sort_keyed, with_key,
    with_keys, KeyedEntry,
};
use crate::text::{text_of, to_lowercase};

verus! {

/// What went wrong with a file-system query.
#[derive(Clone, Copy, Debug, PartialEq, Eq, Structural)]
pub enum FsErrorKind {
    /// Nothing exists at the path.
    NotFound,
    /// The path exists and is no directory.
    NotADirectory,
    /// The directory exists and could not be read.
    ReadFailed,
    /// No environment variable names a home directory.
    NoHomeDirectory,
}

/// A failed file-system query: its kind and a sentence for people.
#[derive(Debug)]
pub struct FsError {
    pub kind: FsErrorKind,
    pub message: String,
}

/// The mathematical content of an [`FsError`].
pub struct FsErrorView {
    pub kind: FsErrorKind,
    pub message: Seq<char>,
}

impl View for FsError {
    type V = FsErrorView;

    open spec fn view(&self) -> FsErrorView {
        FsErrorView { kind: self.kind, message: self.message@ }
    }
}

/// One entry of a directory listing.
#[derive(Debug)]
pub struct FileEntry {
    pub name: String,
    pub path: String,
    pub is_dir: bool,
    pub is_hidden: bool,
    pub size: u64,
}

/// The mathematical content of a [`FileEntry`].
pub struct FileEntryView {
    pub name: Seq<char>,
    pub path: Seq<char>,
    pub is_dir: bool,
    pub is_hidden: bool,
    pub size: u64,
}

impl View for FileEntry {
    type V = FileEntryView;

    open spec fn view(&self) -> FileEntryView {
        FileEntryView {
            name: self.name@,
            path: self.path@,
            is_dir: self.is_dir,
            is_hidden: self.is_hidden,
            size: self.size,
        }
    }
}

impl Clone for FileEntry {
    fn clone(&self) -> (r: FileEntry)
        ensures
            r@ == self@,
    {
        FileEntry {
            name: self.name.clone(),
            path: self.path.clone(),
            is_dir: self.is_dir,
            is_hidden: self.is_hidden,
            size: self.size,
        }
    }
}

/// What the file system said of one entry of a directory.
#[derive(Debug)]
pub struct RawEntry {
    /// The entry's name, the last component of its path.
    pub name: String,
    /// The entry's full path.
    pub path: String,
    /// Whether the entry is a directory.
    pub is_dir: bool,
    /// The length in bytes that the file system reports for the entry.
    pub len: u64,
    /// Whether the platform marks the entry as hidden by an attribute of its
    /// own; `false` where the platform has no such attribute.
    pub hidden_attribute: bool,
}

/// The mathematical content of a [`RawEntry`].
pub struct RawEntryView {
    pub name: Seq<char>,
    pub path: Seq<char>,
    pub is_dir: bool,
    pub len: u64,
    pub hidden_attribute: bool,
}

impl View for RawEntry {
    type V = RawEntryView;

    open spec fn view(&self) -> RawEntryView {
        RawEntryView {
            name: self.name@,
            path: self.path@,
            is_dir: self.is_dir,
            len: self.len,
            hidden_attribute: self.hidden_attribute,
        }
    }
}

/// What the file system answered when asked for a directory.
#[derive(Debug)]
pub struct DirectoryProbe {
    /// Whether anything exists at the path.
    pub exists: bool,
    /// Whether what exists there is a directory.
    pub is_dir: bool,
    /// The entries in the order they were read, `None` for one whose
    /// metadata could not be read; or why the directory could not be read.
    pub listing: Result<Vec<Option<RawEntry>>, String>,
}

/// Whether an entry is hidden: its name starts with a dot, or the platform
/// marks it so.
pub open spec fn is_hidden(name: Seq<char>, hidden_attribute: bool) -> bool {
    (name.len() > 0 && name[0] == '.') || hidden_attribute
}

/// The listing entry for what the file system said of an entry. A directory
/// has size 0.
pub open spec fn file_entry(raw: RawEntryView) -> FileEntryView {
    FileEntryView {
        name: raw.name,
        path: raw.path,
        is_dir: raw.is_dir,
        is_hidden: is_hidden(raw.name, raw.hidden_attribute),
        size: if raw.is_dir {
            0
        } else {
            raw.len
        },
    }
}

/// The listing entries for the entries that could be read, in the order
/// they were read.
pub open spec fn readable_entries(raw: Seq<Option<RawEntry>>) -> Seq<FileEntryView>
    decreases raw.len(),
{
    if raw.len() == 0 {
        Seq::empty()
    } else {
        let before = readable_entries(raw.drop_last());
        match raw.last() {
            Some(entry) => before.push(file_entry(entry@)),
            None => before,
        }
    }
}

/// The mathematical content of each entry of `entries`.
pub open spec fn entry_views(entries: Seq<FileEntry>) -> Seq<FileEntryView> {
    entries.map_values(|entry: FileEntry| entry@)
}

/// The error for a path at which nothing exists.
pub open spec fn does_not_exist(path: Seq<char>) -> FsErrorView {
    FsErrorView { kind: FsErrorKind::NotFound, message: "Directory does not exist: "@ + path }
}

/// The error for a path that is no directory.
pub open spec fn not_a_directory(path: Seq<char>) -> FsErrorView {
    FsErrorView {
        kind: FsErrorKind::NotADirectory,
        message: "Path is not a directory: "@ + path,
    }
}

/// The error for a directory that could not be read, with the file system's
/// account of it.
pub open spec fn read_failed(detail: Seq<char>) -> FsErrorView {
    FsErrorView {
        kind: FsErrorKind::ReadFailed,
        message: "Failed to read directory: "@ + detail,
    }
}

/// Whether a file is hidden: its name starts with a dot, or the platform
/// marks it so.
pub fn is_hidden_file(name: &str, hidden_attribute: bool) -> (hidden: bool)
    ensures
        hidden == is_hidden(name@, hidden_attribute),
{
    if !name.is_empty() && name.get_char(0) == '.' {
        return true;
    }
    hidden_attribute
}

impl FileEntry {
    /// Builds the listing entry for what the file system said of an entry.
    pub fn from_raw(raw: RawEntry) -> (entry: FileEntry)
        ensures
            entry@ == file_entry(raw@),
    {
        let is_hidden = is_hidden_file(raw.name.as_str(), raw.hidden_attribute);
        let size = if raw.is_dir {
            0
        } else {
            raw.len
        };
        FileEntry { name: raw.name, path: raw.path, is_dir: raw.is_dir, is_hidden, size }
    }
}

/// Sorts a listing: directories first, then by name without regard to
/// case; entries that this cannot tell apart stay in the order they came in.
pub fn sort_entries(entries: Vec<FileEntry>) -> (sorted: Vec<FileEntry>)
    ensures
        is_sorted_listing(entry_views(sorted@), entry_views(entries@)),
{
    let ghost input = entries@;
    let mut keyed: Vec<KeyedEntry> = Vec::new();
    proof {
        assert(keyed_views(keyed@) =~= with_keys(entry_views(input.take(0))));
    }
    for entry in it: entries
        invariant
            it.seq() == input,
            keyed_views(keyed@) == with_keys(entry_views(input.take(it.index()))),
    {
        let ghost index = it.index();
        let ghost before = keyed@;
        proof {
            assert(entry == input[index]);
            assert(keyed_views(before).len() == with_keys(entry_views(input.take(index))).len());
        }
        let key = to_lowercase(entry.name.as_str());
        keyed.push(KeyedEntry { entry, key });
        proof {
            let after = with_keys(entry_views(input.take(index + 1)));
            assert forall|i: int| 0 <= i < after.len() implies keyed_views(keyed@)[i]
                == after[i] by {
                if i < index {
                    assert(keyed_views(before)[i] == with_keys(
                        entry_views(input.take(index)),
                    )[i]);
                }
            }
            assert(keyed_views(keyed@) =~= after);
        }
    }
    proof {
        assert(input.take(input.len() as int) =~= input);
    }
    let ghost unsorted = keyed_views(keyed@);
    let ranked_items = sort_keyed(keyed);
    let ghost ranked = ranked_items@;
    proof {
        lemma_stable_sort_keeps_items(keyed_views(ranked), unsorted);
    }
    let mut sorted: Vec<FileEntry> = Vec::new();
    proof {
        assert(with_keys(entry_views(sorted@)) =~= keyed_views(ranked.take(0)));
    }
    for item in it: ranked_items
        invariant
            it.seq() == ranked,
            unsorted == with_keys(entry_views(input)),
            forall|i: int|
                0 <= i < ranked.len() ==> unsorted.contains(#[trigger] keyed_views(ranked)[i]),
            with_keys(entry_views(sorted@)) == keyed_views(ranked.take(it.index())),
    {
        let ghost before = sorted@;
        let ghost index = it.index();
        proof {
            assert(item == ranked[index]);
            assert(with_keys(entry_views(before)).len() == keyed_views(ranked.take(index)).len());
            assert(unsorted.contains(keyed_views(ranked)[index]));
            assert(item@ == with_key(item.entry@));
        }
        sorted.push(item.entry);
        proof {
            let after = keyed_views(ranked.take(index + 1));
            assert(sorted@.len() == index + 1);
            assert forall|i: int| 0 <= i < after.len() implies with_keys(entry_views(sorted@))[i]
                == after[i] by {
                if i < index {
                    assert(with_keys(entry_views(before))[i] == keyed_views(
                        ranked.take(index),
                    )[i]);
                }
            }
            assert(with_keys(entry_views(sorted@)) =~= after);
        }
    }
    proof {
        assert(ranked.take(ranked.len() as int) =~= ranked);
    }
    sorted
}

/// The listing of a directory from what could be read of its entries:
/// entries whose metadata could not be read are left out, and the rest is
/// sorted.
pub fn list_entries(raw: Vec<Option<RawEntry>>) -> (entries: Vec<FileEntry>)
    ensures
        is_sorted_listing(entry_views(entries@), readable_entries(raw@)),
{
    let ghost input = raw@;
    let mut entries: Vec<FileEntry> = Vec::new();
    proof {
        assert(entry_views(entries@) =~= readable_entries(input.take(0)));
    }
    for slot in it: raw
        invariant
            it.seq() == input,
            entry_views(entries@) == readable_entries(input.take(it.index())),
    {
        let ghost index = it.index();
        let ghost before = entries@;
        proof {
            assert(slot == input[index]);
            assert(input.take(index + 1).drop_last() =~= input.take(index));
        }
        match slot {
            Some(entry) => {
                entries.push(FileEntry::from_raw(entry));
                proof {
                    assert(entry_views(entries@) =~= entry_views(before).push(
                        file_entry(entry@),
                    ));
                }
            },
            None => {},
        }
    }
    proof {
        assert(input.take(input.len() as int) =~= input);
    }
    sort_entries(entries)
}

/// The error that a query for the directory at `path` is answered with,
/// `None` where it is answered with a listing.
pub open spec fn directory_refusal(path: Seq<char>, probe: DirectoryProbe) -> Option<FsErrorView> {
    if !probe.exists {
        Some(does_not_exist(path))
    } else if !probe.is_dir {
        Some(not_a_directory(path))
    } else {
        match probe.listing {
            Ok(_) => None,
            Err(detail) => Some(read_failed(detail@)),
        }
    }
}

/// Answers a query for the directory at `path` from what the file system
/// said: an error where nothing exists there, where it is no directory or
/// where it could not be read; else its sorted listing.
pub fn read_directory(path: String, probe: DirectoryProbe) -> (r: Result<Vec<FileEntry>, FsError>)
    ensures
        match r {
            Ok(entries) => directory_refusal(path@, probe) is None && is_sorted_listing(
                entry_views(entries@),
                readable_entries(probe.listing->Ok_0@),
            ),
            Err(e) => directory_refusal(path@, probe) == Some(e@),
        },
{
    if !probe.exists {
        let mut message = String::from_str("Directory does not exist: ");
        message.append(path.as_str());
        return Err(FsError { kind: FsErrorKind::NotFound, message });
    }
    if !probe.is_dir {
        let mut message = String::from_str("Path is not a directory: ");
        message.append(path.as_str());
        return Err(FsError { kind: FsErrorKind::NotADirectory, message });
    }
    match probe.listing {
        Ok(raw) => Ok(list_entries(raw)),
        Err(detail) => {
            let mut message = String::from_str("Failed to read directory: ");
            message.append(detail.as_str());
            Err(FsError { kind: FsErrorKind::ReadFailed, message })
        },
    }
}

/// The home directory that the environment names: the value of
/// `USERPROFILE` where it is set, else that of `HOME`.
pub open spec fn home_directory(
    userprofile: Option<Seq<char>>,
    home: Option<Seq<char>>,
) -> Option<Seq<char>> {
    match userprofile {
        Some(dir) => Some(dir),
        None => home,
    }
}

/// The error for an environment that names no home directory.
pub open spec fn no_home_directory() -> FsErrorView {
    FsErrorView {
        kind: FsErrorKind::NoHomeDirectory,
        message: "Could not determine home directory"@,
    }
}

/// Picks the home directory from the values of the environment variables
/// `USERPROFILE` and `HOME`, each `None` where the variable is not set.
pub fn get_home_directory(userprofile: Option<String>, home: Option<String>) -> (r: Result<
    String,
    FsError,
>)
    ensures
        match home_directory(text_of(userprofile), text_of(home)) {
            Some(dir) => r is Ok && r->Ok_0@ == dir,
            None => r is Err && r->Err_0@ == no_home_directory(),
        },
{
    match userprofile {
        Some(dir) => Ok(dir),
        None => match home {
            Some(dir) => Ok(dir),
            None => Err(
                FsError {
                    kind: FsErrorKind::NoHomeDirectory,
                    message: String::from_str("Could not determine home directory"),
                },
            ),
        },
    }
}

} // verus!
