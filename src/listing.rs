use vstd::prelude::*;

verus! {

/// What the operating system reported about one child of a directory.
pub struct DirChild {
    /// The child's base name.
    pub name: String,
    /// The child's full path.
    pub path: String,
    pub is_dir: bool,
    /// Whether the child is a regular file.
    pub is_file: bool,
    /// The child's length in bytes.
    pub len: u64,
    /// Last modification, in seconds since the Unix epoch, when known.
    pub modified: Option<u64>,
}

/// One row of a directory listing.
pub struct FileEntry {
    pub name: String,
    pub path: String,
    pub is_dir: bool,
    /// The byte length; present for regular files only.
    pub size: Option<u64>,
    /// Last modification, in seconds since the Unix epoch, when known.
    pub modified: Option<u64>,
    /// `folder`, `file` or `other`.
    pub file_type: String,
}

/// The label of a child's kind: directories are folders, regular files are
/// files, and everything else (links, devices, sockets) is other.
pub open spec fn file_type_label(is_dir: bool, is_file: bool) -> Seq<char> {
    if is_dir {
        "folder"@
    } else if is_file {
        "file"@
    } else {
        "other"@
    }
}

/// Whether `c` is a regular file as far as the listing is concerned.
pub open spec fn is_regular_file(c: DirChild) -> bool {
    !c.is_dir && c.is_file
}

/// `e` is the listing row for the child `c`.
pub open spec fn describes(e: FileEntry, c: DirChild) -> bool {
    &&& e.name@ == c.name@
    &&& e.path@ == c.path@
    &&& e.is_dir == c.is_dir
    &&& e.size == (if is_regular_file(c) { Some(c.len) } else { None })
    &&& e.modified == c.modified
    &&& e.file_type@ == file_type_label(c.is_dir, c.is_file)
}

/// The children whose metadata could be read, in the order given.
pub open spec fn readable(s: Seq<Result<DirChild, String>>) -> Seq<DirChild>
    decreases s.len(),
{
    if s.len() == 0 {
        Seq::empty()
    } else {
        let rest = readable(s.drop_last());
        match s.last() {
            Ok(c) => rest.push(c),
            Err(_) => rest,
        }
    }
}

/// The label of a child's kind.
pub fn file_type_of(is_dir: bool, is_file: bool) -> (r: String)
    ensures
        r@ == file_type_label(is_dir, is_file),
{
    if is_dir {
        String::from_str("folder")
    } else if is_file {
        String::from_str("file")
    } else {
        String::from_str("other")
    }
}

impl FileEntry {
    /// The listing row for `child`.
    pub fn describe(child: &DirChild) -> (r: FileEntry)
        ensures
            describes(r, *child),
    {
        let size = if !child.is_dir && child.is_file {
            Some(child.len)
        } else {
            None
        };
        FileEntry {
            name: child.name.clone(),
            path: child.path.clone(),
            is_dir: child.is_dir,
            size,
            modified: child.modified,
            file_type: file_type_of(child.is_dir, child.is_file),
        }
    }
}

/// The listing of a directory from what was read of its children: one row per
/// child whose metadata was read, in the given order; a child whose metadata
/// could not be read is left out.
pub fn list_entries(children: &Vec<Result<DirChild, String>>) -> (r: Vec<FileEntry>)
    ensures
        r@.len() == readable(children@).len(),
        forall|i: int| 0 <= i < r@.len() ==> describes(#[trigger] r@[i], readable(children@)[i]),
        forall|i: int| 0 <= i < r@.len() ==> #[trigger] r@[i].is_dir == readable(children@)[i].is_dir,
        forall|i: int|
            0 <= i < r@.len() && is_regular_file(readable(children@)[i]) ==> {
                &&& (#[trigger] r@[i]).file_type@ == "file"@
                &&& r@[i].size == Some(readable(children@)[i].len)
            },
{
    let mut entries: Vec<FileEntry> = Vec::new();
    let mut i: usize = 0;
    while i < children.len()
        invariant
            i <= children@.len(),
            entries@.len() == readable(children@.subrange(0, i as int)).len(),
            forall|j: int|
                0 <= j < entries@.len() ==> describes(
                    #[trigger] entries@[j],
                    readable(children@.subrange(0, i as int))[j],
                ),
        decreases children@.len() - i,
    {
        assert(children@.subrange(0, i + 1).drop_last() =~= children@.subrange(0, i as int));
        match &children[i] {
            Ok(child) => {
                entries.push(FileEntry::describe(child));
            },
            Err(_) => {},
        }
        i += 1;
    }
    assert(children@.subrange(0, children@.len() as int) =~= children@);
    entries
}

/// How a path is removed.
#[derive(Clone, Copy, Debug, PartialEq, Eq, Structural)]
pub enum Removal {
    /// A directory goes with everything inside it.
    WholeTree,
    /// Anything else goes as a single file.
    SingleFile,
}

/// How to remove a path, given whether it is a directory.
pub fn plan_removal(is_dir: bool) -> (r: Removal)
    ensures
        r == (if is_dir { Removal::WholeTree } else { Removal::SingleFile }),
{
    if is_dir {
        Removal::WholeTree
    } else {
        Removal::SingleFile
    }
}

} // verus!
