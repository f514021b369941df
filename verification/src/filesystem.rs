//! The file system as the library sees it: what is known of each path that was
//! examined. A caller fills a `FileSystem` with what it observed, and the
//! resolvers read it, and on one occasion (the runtime directory) change it.

use vstd::prelude::*;

verus! {

/// What kind of entry a path names.
#[derive(Debug, Clone, Copy, PartialEq, Eq, Structural)]
pub enum EntryKind {
    /// A regular file.
    File,
    /// A directory.
    Directory,
}

/// What is known of the entry at one path.
pub struct Metadata {
    /// File or directory.
    pub kind: EntryKind,
    /// Permission bits, `0o700` and the like.
    pub mode: u32,
    /// User id of the owner.
    pub owner: u32,
    /// The canonical, absolute form of the path.
    pub canonical: Seq<char>,
    /// The text of a file, where it could be read.
    pub content: Option<Seq<char>>,
    /// Whether the operating system recognises the file as a program binary.
    pub binary: bool,
}

/// What is known of every path that was examined.
pub type Files = Map<Seq<char>, Metadata>;

/// Whether something is at `path`.
pub open spec fn is_entry(files: Files, path: Seq<char>) -> bool {
    files.contains_key(path)
}

/// Whether a regular file is at `path`.
pub open spec fn is_file(files: Files, path: Seq<char>) -> bool {
    files.contains_key(path) && files[path].kind == EntryKind::File
}

/// Whether a directory is at `path`.
pub open spec fn is_dir(files: Files, path: Seq<char>) -> bool {
    files.contains_key(path) && files[path].kind == EntryKind::Directory
}

/// The canonical form of `path`, where something is there.
pub open spec fn canonical(files: Files, path: Seq<char>) -> Option<Seq<char>> {
    if files.contains_key(path) {
        Some(files[path].canonical)
    } else {
        None
    }
}

/// The text of the regular file at `path`, where there is one that could be
/// read.
pub open spec fn text_of(files: Files, path: Seq<char>) -> Option<Seq<char>> {
    if is_file(files, path) {
        files[path].content
    } else {
        None
    }
}

/// Whether two file systems say the same of `path`.
pub open spec fn same_at(a: Files, b: Files, path: Seq<char>) -> bool {
    a.contains_key(path) == b.contains_key(path) && (a.contains_key(path) ==> a[path] == b[path])
}

/// Whether two file systems say the same of each of `paths`.
pub open spec fn agree_on(a: Files, b: Files, paths: Seq<Seq<char>>) -> bool {
    forall|i: int| 0 <= i < paths.len() ==> same_at(a, b, #[trigger] paths[i])
}

/// One observed entry: a path and what is known of it.
#[derive(Debug)]
pub struct Entry {
    /// The path as it was asked for.
    pub path: String,
    /// File or directory.
    pub kind: EntryKind,
    /// Permission bits.
    pub mode: u32,
    /// User id of the owner.
    pub owner: u32,
    /// The canonical, absolute form of `path`.
    pub canonical: String,
    /// The text of a file, where it was read.
    pub content: Option<String>,
    /// Whether the operating system recognises the file as a program binary.
    pub binary: bool,
}

impl Entry {
    /// What the entry says of its path.
    pub open spec fn metadata(&self) -> Metadata {
        Metadata {
            kind: self.kind,
            mode: self.mode,
            owner: self.owner,
            canonical: self.canonical@,
            content: match self.content {
                Some(text) => Some(text@),
                None => None,
            },
            binary: self.binary,
        }
    }

    /// A regular file at `path`, which is its own canonical form, with no
    /// text read and not a program binary.
    pub fn file(path: &str, mode: u32, owner: u32) -> (e: Entry)
        ensures
            e.path@ == path@,
            e.metadata() == (Metadata {
                kind: EntryKind::File,
                mode,
                owner,
                canonical: path@,
                content: None,
                binary: false,
            }),
    {
        Entry {
            path: String::from_str(path),
            kind: EntryKind::File,
            mode,
            owner,
            canonical: String::from_str(path),
            content: None,
            binary: false,
        }
    }

    /// A directory at `path`, which is its own canonical form.
    pub fn directory(path: &str, mode: u32, owner: u32) -> (e: Entry)
        ensures
            e.path@ == path@,
            e.metadata() == (Metadata {
                kind: EntryKind::Directory,
                mode,
                owner,
                canonical: path@,
                content: None,
                binary: false,
            }),
    {
        Entry {
            path: String::from_str(path),
            kind: EntryKind::Directory,
            mode,
            owner,
            canonical: String::from_str(path),
            content: None,
            binary: false,
        }
    }

    /// The same entry with `canonical` as the canonical form of its path.
    pub fn with_canonical(self, canonical: &str) -> (e: Entry)
        ensures
            e.path@ == self.path@,
            e.metadata() == (Metadata { canonical: canonical@, ..self.metadata() }),
    {
        Entry {
            path: self.path,
            kind: self.kind,
            mode: self.mode,
            owner: self.owner,
            canonical: String::from_str(canonical),
            content: self.content,
            binary: self.binary,
        }
    }

    /// The same entry with `text` as what was read from the file.
    pub fn with_content(self, text: &str) -> (e: Entry)
        ensures
            e.path@ == self.path@,
            e.metadata() == (Metadata { content: Some(text@), ..self.metadata() }),
    {
        Entry {
            path: self.path,
            kind: self.kind,
            mode: self.mode,
            owner: self.owner,
            canonical: self.canonical,
            content: Some(String::from_str(text)),
            binary: self.binary,
        }
    }

    /// A copy of the entry with `mode` as its permission bits.
    pub fn with_mode(&self, mode: u32) -> (e: Entry)
        ensures
            e.path@ == self.path@,
            e.metadata() == (Metadata { mode, ..self.metadata() }),
    {
        Entry {
            path: self.path.clone(),
            kind: self.kind,
            mode,
            owner: self.owner,
            canonical: self.canonical.clone(),
            content: match &self.content {
                Some(text) => Some(text.clone()),
                None => None,
            },
            binary: self.binary,
        }
    }

    /// The same entry, recognised as a program binary or not.
    pub fn with_binary(self, binary: bool) -> (e: Entry)
        ensures
            e.path@ == self.path@,
            e.metadata() == (Metadata { binary, ..self.metadata() }),
    {
        Entry {
            path: self.path,
            kind: self.kind,
            mode: self.mode,
            owner: self.owner,
            canonical: self.canonical,
            content: self.content,
            binary,
        }
    }
}

/// The entries that were observed. Where a path was entered more than once,
/// the latest entry counts.
pub struct FileSystem {
    entries: Vec<Entry>,
}

/// What a sequence of entries says of each path: a later entry replaces an
/// earlier one for the same path.
pub closed spec fn files_of(entries: Seq<Entry>) -> Files
    decreases entries.len(),
{
    if entries.len() == 0 {
        Map::empty()
    } else {
        files_of(entries.drop_last()).insert(entries.last().path@, entries.last().metadata())
    }
}

proof fn lemma_files_known(entries: Seq<Entry>, path: Seq<char>, i: int)
    requires
        0 <= i < entries.len(),
        entries[i].path@ == path,
        forall|k: int| i < k < entries.len() ==> entries[k].path@ != path,
    ensures
        files_of(entries).contains_key(path),
        files_of(entries)[path] == entries[i].metadata(),
    decreases entries.len(),
{
    if i < entries.len() - 1 {
        lemma_files_known(entries.drop_last(), path, i);
    }
}

proof fn lemma_files_unknown(entries: Seq<Entry>, path: Seq<char>)
    requires
        forall|k: int| 0 <= k < entries.len() ==> entries[k].path@ != path,
    ensures
        !files_of(entries).contains_key(path),
    decreases entries.len(),
{
    if entries.len() > 0 {
        lemma_files_unknown(entries.drop_last(), path);
    }
}

impl View for FileSystem {
    type V = Files;

    closed spec fn view(&self) -> Files {
        files_of(self.entries@)
    }
}

impl FileSystem {
    /// A file system of which nothing is known.
    pub fn new() -> (fs: FileSystem)
        ensures
            fs@ == Map::<Seq<char>, Metadata>::empty(),
    {
        FileSystem { entries: Vec::new() }
    }

    /// Records `entry`; it replaces what was known of its path.
    pub fn insert(&mut self, entry: Entry)
        ensures
            final(self)@ == old(self)@.insert(entry.path@, entry.metadata()),
    {
        self.entries.push(entry);
        assert(self.entries@.drop_last() == old(self).entries@);
    }

    /// What is known of `path`, if anything.
    pub fn metadata(&self, path: &str) -> (r: Option<&Entry>)
        ensures
            r is Some == is_entry(self@, path@),
            r matches Some(e) ==> e.path@ == path@ && e.metadata() == self@[path@],
    {
        let mut i: usize = self.entries.len();
        while i > 0
            invariant
                i <= self.entries.len(),
                forall|k: int| i <= k < self.entries.len() ==> self.entries@[k].path@ != path@,
            decreases i,
        {
            i -= 1;
            if crate::text::same_text(self.entries[i].path.as_str(), path) {
                proof {
                    lemma_files_known(self.entries@, path@, i as int);
                }
                return Some(&self.entries[i]);
            }
        }
        proof {
            lemma_files_unknown(self.entries@, path@);
        }
        None
    }

    /// Whether something is at `path`.
    pub fn contains(&self, path: &str) -> (r: bool)
        ensures
            r == is_entry(self@, path@),
    {
        self.metadata(path).is_some()
    }

    /// Whether a regular file is at `path`.
    pub fn is_file(&self, path: &str) -> (r: bool)
        ensures
            r == is_file(self@, path@),
    {
        match self.metadata(path) {
            Some(e) => e.kind == EntryKind::File,
            None => false,
        }
    }

    /// Whether a directory is at `path`.
    pub fn is_dir(&self, path: &str) -> (r: bool)
        ensures
            r == is_dir(self@, path@),
    {
        match self.metadata(path) {
            Some(e) => e.kind == EntryKind::Directory,
            None => false,
        }
    }

    /// The canonical form of `path`, where something is there.
    pub fn canonicalize(&self, path: &str) -> (r: Option<String>)
        ensures
            crate::text::optional_text(r) == canonical(self@, path@),
    {
        match self.metadata(path) {
            Some(e) => Some(e.canonical.clone()),
            None => None,
        }
    }

    /// The text of the regular file at `path`, where there is one that could
    /// be read.
    pub fn read_to_string(&self, path: &str) -> (r: Option<String>)
        ensures
            crate::text::optional_text(r) == text_of(self@, path@),
    {
        match self.metadata(path) {
            Some(e) => {
                if e.kind == EntryKind::File {
                    match &e.content {
                        Some(text) => Some(text.clone()),
                        None => None,
                    }
                } else {
                    None
                }
            },
            None => None,
        }
    }
}

} // verus!
