//! The rules of POSIX systems: the XDG base directories, the user directories
//! file, the runtime directory with its ownership and mode, and executables
//! told by their permission bits.

use vstd::prelude::*;
use vstd::string::*;
use crate::error::path_result;
use crate::error::Error;
use crate::executable::lemma_matches_are_distinct;
use crate::executable::plain_extensions;
use crate::executable::well_formed;
use crate::filesystem::agree_on;
use crate::filesystem::is_dir;
use crate::filesystem::same_at;
use crate::filesystem::text_of;
use crate::filesystem::Entry;
use crate::filesystem::EntryKind;
use crate::filesystem::FileSystem;
use crate::filesystem::Files;
use crate::filesystem::Metadata;
use crate::location::LocationType;
use crate::path::join;
use crate::path::join_each;
use crate::path::joined;
use crate::path::named_in;
use crate::path::without_separators;
use crate::path::PathStyle;
use crate::platform::Platform;
use crate::standard_paths::standard_locations;
use crate::standard_paths::with_identity;
use crate::standard_paths::Identity;
use crate::standard_paths::StandardPaths;
use crate::system::current_user_id;
use crate::system::current_home;
use crate::system::name_of_user;
use crate::text::chars_of;
use crate::text::distinct;
use crate::text::lemma_distinct_contains;
use crate::text::followed_by;
use crate::text::without_repeats;
use crate::text::find_from;
use crate::text::optional_text;
use crate::text::position;
use crate::text::split;
use crate::text::split_text;
use crate::text::starts_with;
use crate::text::substring;
use crate::text::texts;
use crate::text::without_first;

verus! {

/// What a POSIX process sees of its environment.
#[derive(Debug)]
pub struct Posix {
    /// The home directory of the user, where it is known.
    pub home: Option<String>,
    /// The directory for temporary files.
    pub temp_dir: String,
    /// `XDG_CACHE_HOME`, where it is set.
    pub cache_home: Option<String>,
    /// `XDG_DATA_HOME`, where it is set.
    pub data_home: Option<String>,
    /// `XDG_CONFIG_HOME`, where it is set.
    pub config_home: Option<String>,
    /// `XDG_RUNTIME_DIR`, where it is set.
    pub runtime_dir: Option<String>,
    /// `XDG_CONFIG_DIRS`, where it is set.
    pub config_dirs: Option<String>,
    /// `XDG_DATA_DIRS`, where it is set.
    pub data_dirs: Option<String>,
    /// `PATH`, where it is set.
    pub path: Option<String>,
    /// The effective user id of the process.
    pub user_id: u32,
    /// The name of that user, where it could be resolved.
    pub user_name: Option<String>,
}

/// A POSIX environment as plain values.
pub struct PosixView {
    /// The home directory of the user, where it is known.
    pub home: Option<Seq<char>>,
    /// The directory for temporary files.
    pub temp_dir: Seq<char>,
    /// `XDG_CACHE_HOME`, where it is set.
    pub cache_home: Option<Seq<char>>,
    /// `XDG_DATA_HOME`, where it is set.
    pub data_home: Option<Seq<char>>,
    /// `XDG_CONFIG_HOME`, where it is set.
    pub config_home: Option<Seq<char>>,
    /// `XDG_RUNTIME_DIR`, where it is set.
    pub runtime_dir: Option<Seq<char>>,
    /// `XDG_CONFIG_DIRS`, where it is set.
    pub config_dirs: Option<Seq<char>>,
    /// `XDG_DATA_DIRS`, where it is set.
    pub data_dirs: Option<Seq<char>>,
    /// `PATH`, where it is set.
    pub path: Option<Seq<char>>,
    /// The effective user id of the process.
    pub user_id: u32,
    /// The name of that user, where it could be resolved.
    pub user_name: Option<Seq<char>>,
}

impl View for Posix {
    type V = PosixView;

    open spec fn view(&self) -> PosixView {
        PosixView {
            home: optional_text(self.home),
            temp_dir: self.temp_dir@,
            cache_home: optional_text(self.cache_home),
            data_home: optional_text(self.data_home),
            config_home: optional_text(self.config_home),
            runtime_dir: optional_text(self.runtime_dir),
            config_dirs: optional_text(self.config_dirs),
            data_dirs: optional_text(self.data_dirs),
            path: optional_text(self.path),
            user_id: self.user_id,
            user_name: optional_text(self.user_name),
        }
    }
}

/// The mode that the runtime directory must have.
pub const RUNTIME_MODE: u32 = 0o700;

/// The permission bits that make an entry executable: one each for owner,
/// group and others.
pub const EXECUTE_BITS: u32 = 0o111;

/// POSIX paths: `name` joined to `base`.
pub open spec fn inside(base: Seq<char>, name: Seq<char>) -> Seq<char> {
    joined(PathStyle::Posix, base, name)
}

/// The home directory, or `NotFound`.
pub open spec fn home_directory(env: PosixView) -> Result<Seq<char>, Error> {
    match env.home {
        Some(home) => Ok(home),
        None => Err(Error::NotFound),
    }
}

/// The base directory for cached data: `XDG_CACHE_HOME`, else `.cache` in
/// the home directory.
pub open spec fn cache_root(env: PosixView) -> Result<Seq<char>, Error> {
    match env.cache_home {
        Some(dir) => Ok(dir),
        None => match env.home {
            Some(home) => Ok(inside(home, ".cache"@)),
            None => Err(Error::NotFound),
        },
    }
}

/// The base directory for data: `XDG_DATA_HOME`, else `.local/share` in the
/// home directory.
pub open spec fn data_root(env: PosixView) -> Result<Seq<char>, Error> {
    match env.data_home {
        Some(dir) => Ok(dir),
        None => match env.home {
            Some(home) => Ok(inside(inside(home, ".local"@), "share"@)),
            None => Err(Error::NotFound),
        },
    }
}

/// The base directory for configuration: `XDG_CONFIG_HOME`, else `.config`
/// in the home directory.
pub open spec fn config_root(env: PosixView) -> Result<Seq<char>, Error> {
    match env.config_home {
        Some(dir) => Ok(dir),
        None => match env.home {
            Some(home) => Ok(inside(home, ".config"@)),
            None => Err(Error::NotFound),
        },
    }
}

/// `base` made private to the application `id`, where there is a base.
pub open spec fn private(id: Identity, base: Result<Seq<char>, Error>) -> Result<Seq<char>, Error> {
    match base {
        Ok(dir) => Ok(with_identity(PathStyle::Posix, id, dir)),
        Err(e) => Err(e),
    }
}

/// The directory `name` in `base`, where there is a base.
pub open spec fn below(base: Result<Seq<char>, Error>, name: Seq<char>) -> Result<Seq<char>, Error> {
    match base {
        Ok(dir) => Ok(inside(dir, name)),
        Err(e) => Err(e),
    }
}

/// The directory that is to serve as runtime directory: `XDG_RUNTIME_DIR`
/// where it is set and names a directory, else `runtime-` and the user's
/// name in the directory for temporary files.
pub open spec fn runtime_candidate(env: PosixView, files: Files) -> Result<Seq<char>, Error> {
    if env.runtime_dir is Some && is_dir(files, env.runtime_dir->0) {
        Ok(env.runtime_dir->0)
    } else {
        match env.user_name {
            Some(name) => Ok(inside(env.temp_dir, "runtime-"@ + name)),
            None => Err(Error::NotFound),
        }
    }
}

/// A directory as the resolution of the runtime directory creates it: owned
/// by `owner`, with the mode that a runtime directory must have.
pub open spec fn fresh_runtime_directory(path: Seq<char>, owner: u32) -> Metadata {
    Metadata {
        kind: EntryKind::Directory,
        mode: RUNTIME_MODE,
        owner,
        canonical: path,
        content: None,
        binary: false,
    }
}

/// The runtime directory. It is the candidate, which is created where
/// nothing is there. What is there must be a directory (`Io` otherwise) and
/// must belong to the user (`PermissionDenied` otherwise); its mode does not
/// decide, since it is repaired.
pub open spec fn runtime_directory(env: PosixView, files: Files) -> Result<Seq<char>, Error> {
    match runtime_candidate(env, files) {
        Err(e) => Err(e),
        Ok(dir) => if !files.contains_key(dir) {
            Ok(dir)
        } else if files[dir].kind != EntryKind::Directory {
            Err(Error::Io)
        } else if files[dir].owner != env.user_id {
            Err(Error::PermissionDenied)
        } else {
            Ok(dir)
        },
    }
}

/// The file system after the runtime directory was resolved: a missing
/// candidate has been created, and one that belongs to the user has the mode
/// `RUNTIME_MODE`. Nothing else differs, and nothing at all where the
/// resolution fails.
pub open spec fn runtime_settled(env: PosixView, files: Files) -> Files {
    match runtime_candidate(env, files) {
        Err(_) => files,
        Ok(dir) => if !files.contains_key(dir) {
            files.insert(dir, fresh_runtime_directory(dir, env.user_id))
        } else if files[dir].kind == EntryKind::Directory && files[dir].owner == env.user_id
            && files[dir].mode != RUNTIME_MODE {
            files.insert(dir, Metadata { mode: RUNTIME_MODE, ..files[dir] })
        } else {
            files
        },
    }
}

/// The name under which the user directories file lists `location`.
pub open spec fn user_directory_key(location: LocationType) -> Option<Seq<char>> {
    match location {
        LocationType::DesktopLocation => Some("DESKTOP"@),
        LocationType::DocumentsLocation => Some("DOCUMENTS"@),
        LocationType::PicturesLocation => Some("PICTURES"@),
        LocationType::MusicLocation => Some("MUSIC"@),
        LocationType::MoviesLocation => Some("VIDEOS"@),
        LocationType::DownloadLocation => Some("DOWNLOAD"@),
        _ => None,
    }
}

/// The directory in the home directory that stands for `location` where the
/// user directories file does not list it.
pub open spec fn user_directory_default(location: LocationType) -> Option<Seq<char>> {
    match location {
        LocationType::DesktopLocation => Some("Desktop"@),
        LocationType::DocumentsLocation => Some("Documents"@),
        LocationType::PicturesLocation => Some("Pictures"@),
        LocationType::MusicLocation => Some("Music"@),
        LocationType::MoviesLocation => Some("Videos"@),
        LocationType::DownloadLocation => Some("Downloads"@),
        _ => None,
    }
}

/// `value` without the double quotes around it, where it has both: it is
/// at least two characters long and begins and ends with one.
pub open spec fn unquoted(value: Seq<char>) -> Seq<char> {
    if value.len() >= 2 && value[0] == '"' && value.last() == '"' {
        value.subrange(1, value.len() - 1)
    } else {
        value
    }
}

/// `line` without a carriage return at its end.
pub open spec fn without_carriage_return(line: Seq<char>) -> Seq<char> {
    if line.len() > 0 && line.last() == '\r' {
        line.drop_last()
    } else {
        line
    }
}

/// The key and the value that a line of the user directories file assigns,
/// if it assigns any. Such a line begins with `XDG` and holds a `=` after at
/// least eight characters. The key is what stands before the first `=`,
/// without its first four characters (`XDG_`) and its last four (`_DIR`);
/// the value is everything after that `=`, unquoted.
pub open spec fn assignment(line: Seq<char>) -> Option<(Seq<char>, Seq<char>)> {
    let eq = position(line, '=');
    if "XDG"@.is_prefix_of(line) && 8 <= eq < line.len() {
        Some((line.subrange(4, eq - 4), unquoted(line.skip(eq + 1))))
    } else {
        None
    }
}

/// The value that `lines` assign to `key`: that of the last line which
/// assigns one.
pub open spec fn assigned(lines: Seq<Seq<char>>, key: Seq<char>) -> Option<Seq<char>>
    decreases lines.len(),
{
    if lines.len() == 0 {
        None
    } else {
        match assignment(without_carriage_return(lines.last())) {
            Some((k, value)) => if k == key {
                Some(value)
            } else {
                assigned(lines.drop_last(), key)
            },
            None => assigned(lines.drop_last(), key),
        }
    }
}

/// The path of the user directories file.
pub open spec fn user_directories_file(env: PosixView) -> Result<Seq<char>, Error> {
    below(config_root(env), "user-dirs.dirs"@)
}

/// The directory that a value of the user directories file stands for. A
/// value that begins with `$HOME` names what follows that token and its
/// separator, six characters in all, in the home directory; any other value
/// is the directory itself.
pub open spec fn user_directory_value(env: PosixView, value: Seq<char>) -> Result<Seq<char>, Error> {
    if "$HOME"@.is_prefix_of(value) {
        below(home_directory(env), without_first(value, 6))
    } else {
        Ok(value)
    }
}

/// One of the user's directories (desktop, documents, pictures, music,
/// movies, download): what the user directories file assigns to it, else its
/// default in the home directory. Where the file is missing or cannot be
/// read, it assigns nothing. Any other location type is `Unexpected`.
pub open spec fn user_directory(env: PosixView, location: LocationType, files: Files) -> Result<
    Seq<char>,
    Error,
> {
    match (user_directory_key(location), user_directory_default(location)) {
        (Some(key), Some(default)) => match user_directories_file(env) {
            Err(e) => Err(e),
            Ok(file) => {
                let value = match text_of(files, file) {
                    Some(text) => assigned(split(text, '\n'), key),
                    None => None,
                };
                match value {
                    Some(v) => user_directory_value(env, v),
                    None => below(home_directory(env), default),
                }
            },
        },
        _ => Err(Error::Unexpected),
    }
}

/// The directory to write files of type `location` to.
pub open spec fn writable_location(
    env: PosixView,
    id: Identity,
    location: LocationType,
    files: Files,
) -> Result<Seq<char>, Error> {
    match location {
        LocationType::HomeLocation => home_directory(env),
        LocationType::TempLocation => Ok(env.temp_dir),
        LocationType::GenericCacheLocation => cache_root(env),
        LocationType::AppCacheLocation => private(id, cache_root(env)),
        LocationType::GenericDataLocation => data_root(env),
        LocationType::AppDataLocation | LocationType::AppLocalDataLocation => private(
            id,
            data_root(env),
        ),
        LocationType::ConfigLocation | LocationType::GenericConfigLocation => config_root(env),
        LocationType::AppConfigLocation => private(id, config_root(env)),
        LocationType::RuntimeLocation => runtime_directory(env, files),
        LocationType::FontsLocation => below(data_root(env), "fonts"@),
        LocationType::ApplicationsLocation => below(data_root(env), "applications"@),
        LocationType::DesktopLocation
        | LocationType::DocumentsLocation
        | LocationType::PicturesLocation
        | LocationType::MusicLocation
        | LocationType::MoviesLocation
        | LocationType::DownloadLocation => user_directory(env, location, files),
    }
}

/// The file system after `location` was resolved: only the runtime directory
/// changes anything.
pub open spec fn settled_files(env: PosixView, location: LocationType, files: Files) -> Files {
    if location == LocationType::RuntimeLocation {
        runtime_settled(env, files)
    } else {
        files
    }
}

/// The system-wide configuration directories: the entries of
/// `XDG_CONFIG_DIRS`, each once, in the order in which they first occur;
/// else `/etc/xdg`.
pub open spec fn config_directories(env: PosixView) -> Seq<Seq<char>> {
    match env.config_dirs {
        Some(list) => distinct(split(list, ':')),
        None => seq!["/etc/xdg"@],
    }
}

/// Whether an entry of `XDG_DATA_DIRS` is used: it is absolute and names a
/// directory.
pub open spec fn usable_data_directory(files: Files, dir: Seq<char>) -> bool {
    is_dir(files, dir) && dir.len() > 0 && dir[0] == '/'
}

/// The canonical forms of those of `dirs` that are usable, in their order.
pub open spec fn usable_data_directories(files: Files, dirs: Seq<Seq<char>>) -> Seq<Seq<char>> {
    dirs.filter(|dir: Seq<char>| usable_data_directory(files, dir)).map_values(
        |dir: Seq<char>| files[dir].canonical,
    )
}

/// The system-wide data directories: the usable entries of `XDG_DATA_DIRS`
/// in canonical form, each canonical form once, in the order in which they
/// first occur; else `/usr/local/share` and `/usr/share`.
pub open spec fn data_directories(env: PosixView, files: Files) -> Seq<Seq<char>> {
    match env.data_dirs {
        Some(list) => distinct(usable_data_directories(files, split(list, ':'))),
        None => seq!["/usr/local/share"@, "/usr/share"@],
    }
}

/// The directories of type `location` that come after the writable one.
pub open spec fn fallback_locations(
    env: PosixView,
    id: Identity,
    location: LocationType,
    files: Files,
) -> Result<Seq<Seq<char>>, Error> {
    match location {
        LocationType::ConfigLocation | LocationType::GenericConfigLocation => Ok(
            config_directories(env),
        ),
        LocationType::AppConfigLocation => Ok(
            config_directories(env).map_values(
                |dir: Seq<char>| with_identity(PathStyle::Posix, id, dir),
            ),
        ),
        LocationType::GenericDataLocation => Ok(data_directories(env, files)),
        LocationType::ApplicationsLocation => Ok(
            named_in(PathStyle::Posix, data_directories(env, files), "applications"@),
        ),
        LocationType::AppDataLocation | LocationType::AppLocalDataLocation => Ok(
            data_directories(env, files).map_values(
                |dir: Seq<char>| with_identity(PathStyle::Posix, id, dir),
            ),
        ),
        LocationType::FontsLocation => match env.home {
            Some(home) => Ok(seq![inside(home, ".fonts"@)]),
            None => Err(Error::NotFound),
        },
        _ => Ok(Seq::empty()),
    }
}

/// The paths that the resolution of `location` looks at: for the runtime
/// directory, `XDG_RUNTIME_DIR` and the fallback in the directory for
/// temporary files; for a user directory, the user directories file; for
/// data, the entries of `XDG_DATA_DIRS`, each once.
pub open spec fn consulted_paths(env: PosixView, location: LocationType) -> Seq<Seq<char>> {
    match location {
        LocationType::RuntimeLocation => {
            let named = match env.runtime_dir {
                Some(dir) => seq![dir],
                None => Seq::empty(),
            };
            match env.user_name {
                Some(name) => named.push(inside(env.temp_dir, "runtime-"@ + name)),
                None => named,
            }
        },
        LocationType::DesktopLocation
        | LocationType::DocumentsLocation
        | LocationType::PicturesLocation
        | LocationType::MusicLocation
        | LocationType::MoviesLocation
        | LocationType::DownloadLocation => match user_directories_file(env) {
            Ok(file) => seq![file],
            Err(_) => Seq::empty(),
        },
        LocationType::GenericDataLocation
        | LocationType::ApplicationsLocation
        | LocationType::AppDataLocation
        | LocationType::AppLocalDataLocation => match env.data_dirs {
            Some(list) => distinct(split(list, ':')),
            None => Seq::empty(),
        },
        _ => Seq::empty(),
    }
}

/// Whether what is at `path` can be executed: one of its execute bits is
/// set.
pub open spec fn is_executable(files: Files, path: Seq<char>) -> bool {
    files.contains_key(path) && files[path].mode & EXECUTE_BITS != 0
}

/// The extensions tried on a name that has none.
pub open spec fn executable_extensions() -> Seq<Seq<char>> {
    seq!["bin"@, "run"@, "sh"@]
}

/// Resolving a location twice in a row gives the same result: the second
/// resolution, on the file system that the first one left, returns what the
/// first one returned and changes nothing any more.
pub proof fn lemma_writable_location_is_stable(
    env: PosixView,
    id: Identity,
    location: LocationType,
    files: Files,
)
    ensures
        writable_location(env, id, location, settled_files(env, location, files))
            == writable_location(env, id, location, files),
        settled_files(env, location, settled_files(env, location, files)) == settled_files(
            env,
            location,
            files,
        ),
{
    if location == LocationType::RuntimeLocation {
        let after = runtime_settled(env, files);
        match runtime_candidate(env, files) {
            Err(_) => {},
            Ok(dir) => {
                if env.runtime_dir is Some {
                    let named = env.runtime_dir->0;
                    assert(is_dir(after, named) || !is_dir(files, named));
                }
                if !files.contains_key(dir) {
                    assert(after.contains_key(dir));
                    assert(after[dir] == fresh_runtime_directory(dir, env.user_id));
                    assert(runtime_candidate(env, after) == Ok::<Seq<char>, Error>(dir));
                } else if files[dir].kind == EntryKind::Directory && files[dir].owner
                    == env.user_id && files[dir].mode != RUNTIME_MODE {
                    assert(after[dir].mode == RUNTIME_MODE);
                    assert(runtime_candidate(env, after) == Ok::<Seq<char>, Error>(dir));
                } else {
                    assert(after == files);
                }
            },
        }
    }
}

/// File systems that say the same of `dirs` give the same usable data
/// directories.
pub proof fn lemma_usable_data_directories_agree(a: Files, b: Files, dirs: Seq<Seq<char>>)
    requires
        agree_on(a, b, dirs),
    ensures
        usable_data_directories(a, dirs) == usable_data_directories(b, dirs),
    decreases dirs.len(),
{
    let keep_a = |dir: Seq<char>| usable_data_directory(a, dir);
    let keep_b = |dir: Seq<char>| usable_data_directory(b, dir);
    let form_a = |dir: Seq<char>| a[dir].canonical;
    let form_b = |dir: Seq<char>| b[dir].canonical;
    if dirs.len() == 0 {
        assert(dirs.filter(keep_a) =~= Seq::<Seq<char>>::empty()) by {
            reveal(Seq::filter);
        }
        assert(dirs.filter(keep_b) =~= Seq::<Seq<char>>::empty()) by {
            reveal(Seq::filter);
        }
        assert(usable_data_directories(a, dirs) =~= usable_data_directories(b, dirs));
    } else {
        let head = dirs.drop_last();
        let last = dirs.last();
        assert forall|i: int| 0 <= i < head.len() implies same_at(a, b, #[trigger] head[i]) by {
            assert(head[i] == dirs[i]);
        }
        lemma_usable_data_directories_agree(a, b, head);
        assert(same_at(a, b, dirs[dirs.len() - 1]));
        assert(dirs == head.push(last));
        head.lemma_filter_push(last, keep_a);
        head.lemma_filter_push(last, keep_b);
        if usable_data_directory(a, last) {
            assert(head.filter(keep_a).push(last).map_values(form_a) =~= head.filter(
                keep_a,
            ).map_values(form_a).push(a[last].canonical));
            assert(head.filter(keep_b).push(last).map_values(form_b) =~= head.filter(
                keep_b,
            ).map_values(form_b).push(b[last].canonical));
        }
    }
}

/// The resolution of a location reads only what it consults.
pub proof fn lemma_resolution_reads_what_it_consults(
    env: PosixView,
    id: Identity,
    location: LocationType,
    a: Files,
    b: Files,
)
    requires
        agree_on(a, b, consulted_paths(env, location)),
    ensures
        writable_location(env, id, location, a) == writable_location(env, id, location, b),
        fallback_locations(env, id, location, settled_files(env, location, a))
            == fallback_locations(env, id, location, settled_files(env, location, b)),
        agree_on(
            settled_files(env, location, a),
            settled_files(env, location, b),
            consulted_paths(env, location),
        ),
{
    let paths = consulted_paths(env, location);
    match location {
        LocationType::RuntimeLocation => {
            if env.runtime_dir is Some {
                assert(same_at(a, b, paths[0]));
            }
            if env.user_name is Some {
                assert(same_at(a, b, paths[paths.len() - 1]));
            }
            assert(runtime_candidate(env, a) == runtime_candidate(env, b));
        },
        LocationType::DesktopLocation
        | LocationType::DocumentsLocation
        | LocationType::PicturesLocation
        | LocationType::MusicLocation
        | LocationType::MoviesLocation
        | LocationType::DownloadLocation => {
            if user_directories_file(env) is Ok {
                assert(same_at(a, b, paths[0]));
            }
        },
        LocationType::GenericDataLocation
        | LocationType::ApplicationsLocation
        | LocationType::AppDataLocation
        | LocationType::AppLocalDataLocation => {
            if env.data_dirs is Some {
                let entries = split(env.data_dirs->0, ':');
                assert forall|i: int| 0 <= i < entries.len() implies same_at(
                    a,
                    b,
                    #[trigger] entries[i],
                ) by {
                    lemma_distinct_contains(entries, entries[i]);
                    assert(entries.contains(entries[i]));
                    let k = choose|k: int| 0 <= k < paths.len() && paths[k] == entries[i];
                    assert(same_at(a, b, paths[k]));
                }
                lemma_usable_data_directories_agree(a, b, entries);
            }
        },
        _ => {},
    }
}

/// The runtime directory, once resolved, is there, is a directory, belongs
/// to the user and has the mode `RUNTIME_MODE`; what belongs to another user
/// is refused whatever its mode, and is left as it is.
pub proof fn lemma_runtime_directory_is_private(env: PosixView, files: Files)
    ensures
        match runtime_directory(env, files) {
            Ok(dir) => {
                let after = runtime_settled(env, files);
                &&& is_dir(after, dir)
                &&& after[dir].owner == env.user_id
                &&& after[dir].mode == RUNTIME_MODE
                &&& forall|other: Seq<char>|
                    other != dir ==> after.contains_key(other) == files.contains_key(other) && (
                    files.contains_key(other) ==> #[trigger] after[other] == files[other])
            },
            Err(_) => runtime_settled(env, files) == files,
        },
        forall|dir: Seq<char>|
            runtime_candidate(env, files) == Ok::<Seq<char>, Error>(dir) && is_dir(files, dir)
                && files[dir].owner != env.user_id ==> runtime_directory(env, files) == Err::<
                Seq<char>,
                Error,
            >(Error::PermissionDenied),
{
}

/// No location type lacks a rule: resolving a location never fails with
/// `Unexpected`.
pub proof fn lemma_every_location_has_a_rule(
    env: PosixView,
    id: Identity,
    location: LocationType,
    files: Files,
)
    ensures
        writable_location(env, id, location, files) != Err::<Seq<char>, Error>(Error::Unexpected),
        fallback_locations(env, id, location, files) != Err::<Seq<Seq<char>>, Error>(
            Error::Unexpected,
        ),
{
}

/// Where the writable location can be resolved, so can the standard
/// locations, and they begin with it. The one exception is the fonts
/// location of a user whose home directory is unknown: its fallback lies in
/// the home directory.
pub proof fn lemma_standard_locations_follow_writable(
    env: Posix,
    id: Identity,
    location: LocationType,
    files: Files,
)
    requires
        writable_location(env@, id, location, files) is Ok,
        !(location == LocationType::FontsLocation && env@.home is None),
    ensures
        standard_locations(&env, id, location, files) is Ok,
        standard_locations(&env, id, location, files)->Ok_0.len() > 0,
        Ok::<Seq<char>, Error>(standard_locations(&env, id, location, files)->Ok_0[0])
            == writable_location(env@, id, location, files),
{
}

/// The extensions of this platform are plain: three different ones, none
/// with a separator.
pub proof fn lemma_extensions_are_plain()
    ensures
        plain_extensions(PathStyle::Posix, executable_extensions()),
{
    reveal_strlit("bin");
    reveal_strlit("run");
    reveal_strlit("sh");
    let exts = executable_extensions();
    assert(exts[0] == "bin"@ && exts[1] == "run"@ && exts[2] == "sh"@);
    assert("bin"@[0] == 'b' && "run"@[0] == 'r' && "sh"@[0] == 's');
    assert forall|k: int| 0 <= k < exts.len() implies without_separators(
        PathStyle::Posix,
        #[trigger] exts[k],
    ) by {
        assert("bin"@[1] == 'i' && "bin"@[2] == 'n');
        assert("run"@[1] == 'u' && "run"@[2] == 'n');
        assert("sh"@[1] == 'h');
    }
}

/// No executable is found twice: on a well-formed file system the search
/// returns no path twice, however often and in whatever spelling a directory
/// is given.
pub proof fn lemma_executables_are_found_once(
    env: Posix,
    files: Files,
    name: Seq<char>,
    paths: Seq<Seq<char>>,
)
    requires
        well_formed(&env, files),
    ensures
        crate::executable::matches(&env, files, name, paths).no_duplicates(),
{
    lemma_extensions_are_plain();
    lemma_matches_are_distinct(&env, files, name, paths);
}

fn cloned(o: &Option<String>) -> (r: Result<String, Error>)
    ensures
        path_result(r) == match optional_text(*o) {
            Some(text) => Ok::<Seq<char>, Error>(text),
            None => Err(Error::NotFound),
        },
{
    match o {
        Some(text) => Ok(text.clone()),
        None => Err(StandardPaths::home_dir_err()),
    }
}

fn descend(base: Result<String, Error>, name: &str) -> (r: Result<String, Error>)
    ensures
        path_result(r) == below(path_result(base), name@),
{
    match base {
        Ok(dir) => Ok(join(PathStyle::Posix, dir.as_str(), name)),
        Err(e) => Err(e),
    }
}

fn make_private(id: &StandardPaths, base: Result<String, Error>) -> (r: Result<String, Error>)
    ensures
        path_result(r) == private(id@, path_result(base)),
{
    match base {
        Ok(dir) => {
            let mut dir = dir;
            id.append_organization_and_app(PathStyle::Posix, &mut dir);
            Ok(dir)
        },
        Err(e) => Err(e),
    }
}

fn with_identity_each(id: &StandardPaths, dirs: Vec<String>) -> (r: Vec<String>)
    ensures
        texts(r@) == texts(dirs@).map_values(
            |dir: Seq<char>| with_identity(PathStyle::Posix, id@, dir),
        ),
{
    let mut r: Vec<String> = Vec::new();
    let mut i: usize = 0;
    while i < dirs.len()
        invariant
            i <= dirs.len(),
            r.len() == i,
            forall|k: int|
                0 <= k < i ==> r@[k]@ == with_identity(PathStyle::Posix, id@, dirs@[k]@),
        decreases dirs.len() - i,
    {
        let mut dir = dirs[i].clone();
        id.append_organization_and_app(PathStyle::Posix, &mut dir);
        r.push(dir);
        i += 1;
    }
    assert(texts(r@) =~= texts(dirs@).map_values(
        |dir: Seq<char>| with_identity(PathStyle::Posix, id@, dir),
    ));
    r
}

/// The key and the value that `line` assigns, if it assigns any.
pub fn parse_assignment(line: &str) -> (r: Option<(String, String)>)
    ensures
        match r {
            Some((key, value)) => assignment(line@) == Some((key@, value@)),
            None => assignment(line@) is None,
        },
{
    let v = chars_of(line);
    let marker = chars_of("XDG");
    let eq = find_from(&v, '=', 0);
    assert(v@.skip(0) == v@);
    if !starts_with(&v, &marker) || eq < 8 || eq >= v.len() {
        return None;
    }
    let key = substring(line, 4, eq - 4);
    let end = v.len();
    let ghost raw = line@.skip(eq + 1);
    assert(raw == line@.subrange(eq + 1, end as int));
    let value = if end - (eq + 1) >= 2 && v[eq + 1] == '"' && v[end - 1] == '"' {
        assert(raw.subrange(1, raw.len() - 1) == line@.subrange(eq + 2, end - 1));
        substring(line, eq + 2, end - 1)
    } else {
        substring(line, eq + 1, end)
    };
    Some((key, value))
}

fn trim_carriage_return(line: &str) -> (r: String)
    ensures
        r@ == without_carriage_return(line@),
{
    let v = chars_of(line);
    if v.len() > 0 && v[v.len() - 1] == '\r' {
        let r = substring(line, 0, v.len() - 1);
        assert(r@ == line@.drop_last());
        r
    } else {
        String::from_str(line)
    }
}

/// The value that the text of a user directories file assigns to `key`.
pub fn lookup_user_directory(text: &str, key: &str) -> (r: Option<String>)
    ensures
        optional_text(r) == assigned(split(text@, '\n'), key@),
{
    let lines = split_text(text, '\n');
    let mut found: Option<String> = None;
    let mut i: usize = 0;
    while i < lines.len()
        invariant
            i <= lines.len(),
            optional_text(found) == assigned(texts(lines@).take(i as int), key@),
        decreases lines.len() - i,
    {
        proof {
            assert(texts(lines@).take(i + 1).drop_last() == texts(lines@).take(i as int));
            assert(texts(lines@).take(i + 1).last() == lines@[i as int]@);
        }
        let line = trim_carriage_return(lines[i].as_str());
        match parse_assignment(line.as_str()) {
            Some((k, value)) => {
                if crate::text::same_text(k.as_str(), key) {
                    found = Some(value);
                }
            },
            None => {},
        }
        i += 1;
    }
    assert(texts(lines@).take(lines.len() as int) == texts(lines@));
    found
}

impl Posix {
    /// An environment in which no variable is set and neither the home
    /// directory nor the user's name is known.
    pub fn new(temp_dir: &str, user_id: u32) -> (env: Posix)
        ensures
            env@ == (PosixView {
                home: None,
                temp_dir: temp_dir@,
                cache_home: None,
                data_home: None,
                config_home: None,
                runtime_dir: None,
                config_dirs: None,
                data_dirs: None,
                path: None,
                user_id,
                user_name: None,
            }),
    {
        Posix {
            home: None,
            temp_dir: String::from_str(temp_dir),
            cache_home: None,
            data_home: None,
            config_home: None,
            runtime_dir: None,
            config_dirs: None,
            data_dirs: None,
            path: None,
            user_id,
            user_name: None,
        }
    }

    /// The environment of the current user, as far as the operating system
    /// tells it: the user's id, name and home directory are what it answers
    /// at this moment. No variable is set; the caller adds those.
    pub fn for_current_user(temp_dir: &str) -> (env: Posix)
        ensures
            env@.temp_dir == temp_dir@,
            env@.cache_home is None,
            env@.data_home is None,
            env@.config_home is None,
            env@.runtime_dir is None,
            env@.config_dirs is None,
            env@.data_dirs is None,
            env@.path is None,
    {
        let user_id = current_user_id();
        let mut env = Posix::new(temp_dir, user_id);
        env.home = current_home();
        env.user_name = name_of_user(user_id);
        env
    }

    fn cache_directory(&self) -> (r: Result<String, Error>)
        ensures
            path_result(r) == cache_root(self@),
    {
        match &self.cache_home {
            Some(dir) => Ok(dir.clone()),
            None => descend(cloned(&self.home), ".cache"),
        }
    }

    fn data_directory(&self) -> (r: Result<String, Error>)
        ensures
            path_result(r) == data_root(self@),
    {
        match &self.data_home {
            Some(dir) => Ok(dir.clone()),
            None => descend(descend(cloned(&self.home), ".local"), "share"),
        }
    }

    fn config_directory(&self) -> (r: Result<String, Error>)
        ensures
            path_result(r) == config_root(self@),
    {
        match &self.config_home {
            Some(dir) => Ok(dir.clone()),
            None => descend(cloned(&self.home), ".config"),
        }
    }

    /// The path of the user directories file.
    pub fn user_directories_path(&self) -> (r: Result<String, Error>)
        ensures
            path_result(r) == user_directories_file(self@),
    {
        descend(self.config_directory(), "user-dirs.dirs")
    }

    /// The directory that is to serve as runtime directory, before it is
    /// created or checked.
    pub fn runtime_candidate(&self, files: &FileSystem) -> (r: Result<String, Error>)
        ensures
            path_result(r) == runtime_candidate(self@, files@),
    {
        match &self.runtime_dir {
            Some(dir) => {
                if files.is_dir(dir.as_str()) {
                    return Ok(dir.clone());
                }
            },
            None => {},
        }
        match &self.user_name {
            Some(name) => {
                let leaf = followed_by("runtime-", name.as_str());
                Ok(join(PathStyle::Posix, self.temp_dir.as_str(), leaf.as_str()))
            },
            None => Err(Error::NotFound),
        }
    }

    /// Resolves the runtime directory: creates it where it is missing,
    /// refuses one that is no directory or belongs to another user, and
    /// repairs its mode.
    pub fn runtime_directory(&self, files: &mut FileSystem) -> (r: Result<String, Error>)
        ensures
            path_result(r) == runtime_directory(self@, old(files)@),
            final(files)@ == runtime_settled(self@, old(files)@),
    {
        let dir = match self.runtime_candidate(files) {
            Ok(dir) => dir,
            Err(e) => {
                return Err(e);
            },
        };
        let repaired: Option<Entry> = match files.metadata(dir.as_str()) {
            None => Some(Entry::directory(dir.as_str(), RUNTIME_MODE, self.user_id)),
            Some(entry) => {
                if entry.kind != EntryKind::Directory {
                    return Err(Error::Io);
                }
                if entry.owner != self.user_id {
                    return Err(Error::PermissionDenied);
                }
                if entry.mode != RUNTIME_MODE {
                    Some(entry.with_mode(RUNTIME_MODE))
                } else {
                    None
                }
            },
        };
        match repaired {
            Some(entry) => {
                files.insert(entry);
            },
            None => {},
        }
        Ok(dir)
    }

    /// Resolves one of the user's directories.
    pub fn user_directory(&self, location: LocationType, files: &FileSystem) -> (r: Result<
        String,
        Error,
    >)
        ensures
            path_result(r) == user_directory(self@, location, files@),
    {
        let (key, default) = match location {
            LocationType::DesktopLocation => ("DESKTOP", "Desktop"),
            LocationType::DocumentsLocation => ("DOCUMENTS", "Documents"),
            LocationType::PicturesLocation => ("PICTURES", "Pictures"),
            LocationType::MusicLocation => ("MUSIC", "Music"),
            LocationType::MoviesLocation => ("VIDEOS", "Videos"),
            LocationType::DownloadLocation => ("DOWNLOAD", "Downloads"),
            _ => {
                return Err(Error::Unexpected);
            },
        };
        let file = match self.user_directories_path() {
            Ok(file) => file,
            Err(e) => {
                return Err(e);
            },
        };
        let value = match files.read_to_string(file.as_str()) {
            Some(text) => lookup_user_directory(text.as_str(), key),
            None => None,
        };
        match value {
            Some(v) => {
                let chars = chars_of(v.as_str());
                let token = chars_of("$HOME");
                if starts_with(&chars, &token) {
                    let rest = if chars.len() >= 6 {
                        substring(v.as_str(), 6, chars.len())
                    } else {
                        String::new()
                    };
                    descend(cloned(&self.home), rest.as_str())
                } else {
                    Ok(v)
                }
            },
            None => descend(cloned(&self.home), default),
        }
    }

    /// The system-wide configuration directories.
    pub fn config_directories(&self) -> (r: Vec<String>)
        ensures
            texts(r@) == config_directories(self@),
    {
        match &self.config_dirs {
            Some(list) => {
                let parts = split_text(list.as_str(), ':');
                without_repeats(&parts)
            },
            None => {
                let mut r: Vec<String> = Vec::new();
                r.push(String::from_str("/etc/xdg"));
                assert(texts(r@) =~= seq!["/etc/xdg"@]);
                r
            },
        }
    }

    /// The system-wide data directories.
    pub fn data_directories(&self, files: &FileSystem) -> (r: Vec<String>)
        ensures
            texts(r@) == data_directories(self@, files@),
    {
        match &self.data_dirs {
            Some(list) => {
                let dirs = split_text(list.as_str(), ':');
                let ghost all = texts(dirs@);
                let mut r: Vec<String> = Vec::new();
                let mut i: usize = 0;
                assert(all.take(0) =~= Seq::<Seq<char>>::empty());
                assert(texts(r@) =~= usable_data_directories(files@, all.take(0))) by {
                    reveal(Seq::filter);
                }
                while i < dirs.len()
                    invariant
                        i <= dirs.len(),
                        all == texts(dirs@),
                        texts(r@) == usable_data_directories(files@, all.take(i as int)),
                    decreases dirs.len() - i,
                {
                    let ghost before = all.take(i as int);
                    let ghost dir = dirs@[i as int]@;
                    let ghost keep = |dir: Seq<char>| usable_data_directory(files@, dir);
                    proof {
                        assert(all.take(i + 1) =~= before.push(dir));
                        before.lemma_filter_push(dir, keep);
                    }
                    let chars = chars_of(dirs[i].as_str());
                    if chars.len() > 0 && chars[0] == '/' {
                        match files.metadata(dirs[i].as_str()) {
                            Some(entry) => {
                                if entry.kind == EntryKind::Directory {
                                    let ghost old_r = texts(r@);
                                    r.push(entry.canonical.clone());
                                    assert(texts(r@) =~= old_r.push(files@[dir].canonical));
                                    assert(texts(r@) =~= usable_data_directories(
                                        files@,
                                        all.take(i + 1),
                                    ));
                                }
                            },
                            None => {},
                        }
                    }
                    i += 1;
                }
                assert(all.take(dirs.len() as int) == all);
                without_repeats(&r)
            },
            None => {
                let mut r: Vec<String> = Vec::new();
                r.push(String::from_str("/usr/local/share"));
                r.push(String::from_str("/usr/share"));
                assert(texts(r@) =~= seq!["/usr/local/share"@, "/usr/share"@]);
                r
            },
        }
    }
}

impl Platform for Posix {
    open spec fn style(&self) -> PathStyle {
        PathStyle::Posix
    }

    open spec fn writable(&self, id: Identity, location: LocationType, files: Files) -> Result<
        Seq<char>,
        Error,
    > {
        writable_location(self@, id, location, files)
    }

    open spec fn settled(&self, location: LocationType, files: Files) -> Files {
        settled_files(self@, location, files)
    }

    open spec fn fallbacks(&self, id: Identity, location: LocationType, files: Files) -> Result<
        Seq<Seq<char>>,
        Error,
    > {
        fallback_locations(self@, id, location, files)
    }

    open spec fn executable(&self, files: Files, path: Seq<char>) -> bool {
        is_executable(files, path)
    }

    open spec fn canonical_directory(&self, files: Files, dir: Seq<char>) -> Seq<char> {
        files[dir].canonical
    }

    open spec fn extensions(&self) -> Seq<Seq<char>> {
        executable_extensions()
    }

    open spec fn extends_absolute(&self) -> bool {
        false
    }

    open spec fn search_path(&self) -> Option<Seq<Seq<char>>> {
        match self@.path {
            Some(list) => Some(split(list, ':')),
            None => None,
        }
    }

    open spec fn consulted(&self, location: LocationType) -> Seq<Seq<char>> {
        consulted_paths(self@, location)
    }

    proof fn lemma_resolution_is_stable(&self, id: Identity, location: LocationType, files: Files) {
        lemma_writable_location_is_stable(self@, id, location, files);
    }

    proof fn lemma_resolution_reads_what_it_consults(
        &self,
        id: Identity,
        location: LocationType,
        a: Files,
        b: Files,
    ) {
        lemma_resolution_reads_what_it_consults(self@, id, location, a, b);
    }

    fn consulted_paths(&self, location: LocationType) -> (r: Vec<String>) {
        let mut r: Vec<String> = Vec::new();
        assert(texts(r@) =~= Seq::<Seq<char>>::empty());
        match location {
            LocationType::RuntimeLocation => {
                match &self.runtime_dir {
                    Some(dir) => {
                        r.push(dir.clone());
                        assert(texts(r@) =~= seq![dir@]);
                    },
                    None => {},
                }
                match &self.user_name {
                    Some(name) => {
                        let ghost named = texts(r@);
                        let leaf = followed_by("runtime-", name.as_str());
                        r.push(join(PathStyle::Posix, self.temp_dir.as_str(), leaf.as_str()));
                        assert(texts(r@) =~= named.push(
                            inside(self.temp_dir@, "runtime-"@ + name@),
                        ));
                    },
                    None => {},
                }
                r
            },
            LocationType::DesktopLocation
            | LocationType::DocumentsLocation
            | LocationType::PicturesLocation
            | LocationType::MusicLocation
            | LocationType::MoviesLocation
            | LocationType::DownloadLocation => {
                match self.user_directories_path() {
                    Ok(file) => {
                        r.push(file);
                        assert(texts(r@) =~= seq![file@]);
                    },
                    Err(_) => {},
                }
                r
            },
            LocationType::GenericDataLocation
            | LocationType::ApplicationsLocation
            | LocationType::AppDataLocation
            | LocationType::AppLocalDataLocation => match &self.data_dirs {
                Some(list) => {
                    let parts = split_text(list.as_str(), ':');
                    without_repeats(&parts)
                },
                None => r,
            },
            _ => r,
        }
    }

    fn path_style(&self) -> (style: PathStyle) {
        PathStyle::Posix
    }

    fn writable_location_impl(
        &self,
        id: &StandardPaths,
        location: LocationType,
        files: &mut FileSystem,
    ) -> (r: Result<String, Error>) {
        match location {
            LocationType::HomeLocation => cloned(&self.home),
            LocationType::TempLocation => Ok(self.temp_dir.clone()),
            LocationType::GenericCacheLocation => self.cache_directory(),
            LocationType::AppCacheLocation => make_private(id, self.cache_directory()),
            LocationType::GenericDataLocation => self.data_directory(),
            LocationType::AppDataLocation | LocationType::AppLocalDataLocation => make_private(
                id,
                self.data_directory(),
            ),
            LocationType::ConfigLocation | LocationType::GenericConfigLocation => {
                self.config_directory()
            },
            LocationType::AppConfigLocation => make_private(id, self.config_directory()),
            LocationType::RuntimeLocation => self.runtime_directory(files),
            LocationType::FontsLocation => descend(self.data_directory(), "fonts"),
            LocationType::ApplicationsLocation => descend(self.data_directory(), "applications"),
            LocationType::DesktopLocation
            | LocationType::DocumentsLocation
            | LocationType::PicturesLocation
            | LocationType::MusicLocation
            | LocationType::MoviesLocation
            | LocationType::DownloadLocation => self.user_directory(location, files),
        }
    }

    fn fallback_locations(&self, id: &StandardPaths, location: LocationType, files: &FileSystem) -> (r:
        Result<Vec<String>, Error>) {
        match location {
            LocationType::ConfigLocation | LocationType::GenericConfigLocation => Ok(
                self.config_directories(),
            ),
            LocationType::AppConfigLocation => Ok(
                with_identity_each(id, self.config_directories()),
            ),
            LocationType::GenericDataLocation => Ok(self.data_directories(files)),
            LocationType::ApplicationsLocation => Ok(
                join_each(PathStyle::Posix, &self.data_directories(files), "applications"),
            ),
            LocationType::AppDataLocation | LocationType::AppLocalDataLocation => Ok(
                with_identity_each(id, self.data_directories(files)),
            ),
            LocationType::FontsLocation => match &self.home {
                Some(home) => {
                    let mut r: Vec<String> = Vec::new();
                    r.push(join(PathStyle::Posix, home.as_str(), ".fonts"));
                    assert(texts(r@) =~= seq![inside(home@, ".fonts"@)]);
                    Ok(r)
                },
                None => Err(StandardPaths::home_dir_err()),
            },
            _ => {
                let r: Vec<String> = Vec::new();
                assert(texts(r@) =~= Seq::<Seq<char>>::empty());
                Ok(r)
            },
        }
    }

    fn is_executable(&self, files: &FileSystem, path: &str) -> (r: bool) {
        match files.metadata(path) {
            Some(entry) => entry.mode & EXECUTE_BITS != 0,
            None => false,
        }
    }

    fn canonicalize_directory(&self, files: &FileSystem, dir: &str) -> (r: String) {
        match files.metadata(dir) {
            Some(entry) => entry.canonical.clone(),
            None => String::from_str(dir),
        }
    }

    fn executable_extensions(&self) -> (r: Vec<String>) {
        let mut r: Vec<String> = Vec::new();
        r.push(String::from_str("bin"));
        r.push(String::from_str("run"));
        r.push(String::from_str("sh"));
        assert(texts(r@) =~= seq!["bin"@, "run"@, "sh"@]);
        r
    }

    fn tries_extensions_on_absolute(&self) -> (r: bool) {
        false
    }

    fn system_paths(&self) -> (r: Option<Vec<String>>) {
        match &self.path {
            Some(list) => Some(split_text(list.as_str(), ':')),
            None => None,
        }
    }
}

} // verus!
