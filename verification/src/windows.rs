//! The rules of Windows: locations are known folders of the shell, caches
//! lie below the data directories, and executables are told by the binary
//! type and by the extensions of `PATHEXT`.

use vstd::prelude::*;
use vstd::string::*;
use crate::error::path_result;
use crate::error::Error;
use crate::filesystem::canonical;
use crate::filesystem::same_at;
use crate::filesystem::FileSystem;
use crate::filesystem::Files;
use crate::location::LocationType;
use crate::path::join;
use crate::path::joined;
use crate::path::last_separator;
use crate::path::separates;
use crate::path::PathStyle;
use crate::platform::Platform;
use crate::standard_paths::standard_locations;
use crate::standard_paths::with_identity;
use crate::standard_paths::Identity;
use crate::standard_paths::StandardPaths;
use crate::system::current_home;
use crate::text::chars_of;
use crate::text::contains_text;
use crate::text::lowercase;
use crate::text::optional_text;
use crate::text::starts_with;
use crate::text::substring;
use crate::text::texts;
use crate::text::to_lowercase;
use crate::text::without_first;

verus! {

/// The folders of the shell that the locations are taken from. Each stands
/// for one identifier of the operating system, which the caller resolves.
#[derive(Debug, Clone, Copy, PartialEq, Eq, Structural)]
pub enum KnownFolder {
    /// The desktop.
    Desktop,
    /// The documents.
    Documents,
    /// The fonts.
    Fonts,
    /// The programs of the start menu.
    Programs,
    /// The music.
    Music,
    /// The videos.
    Videos,
    /// The pictures.
    Pictures,
    /// The downloads.
    Downloads,
    /// The application data that stays on this machine.
    LocalAppData,
    /// The application data that roams with the user.
    RoamingAppData,
    /// The application data of all users.
    ProgramData,
}

/// What a Windows process sees of its environment.
#[derive(Debug)]
pub struct Windows {
    /// The home directory of the user, where it is known.
    pub home: Option<String>,
    /// The directory for temporary files.
    pub temp_dir: String,
    /// The desktop folder, where the shell knows it.
    pub desktop: Option<String>,
    /// The documents folder, where the shell knows it.
    pub documents: Option<String>,
    /// The fonts folder, where the shell knows it.
    pub fonts: Option<String>,
    /// The programs folder, where the shell knows it.
    pub programs: Option<String>,
    /// The music folder, where the shell knows it.
    pub music: Option<String>,
    /// The videos folder, where the shell knows it.
    pub videos: Option<String>,
    /// The pictures folder, where the shell knows it.
    pub pictures: Option<String>,
    /// The downloads folder, where the shell knows it.
    pub downloads: Option<String>,
    /// The local application data folder, where the shell knows it.
    pub local_app_data: Option<String>,
    /// The roaming application data folder, where the shell knows it.
    pub roaming_app_data: Option<String>,
    /// The folder for the application data of all users, where the shell
    /// knows it.
    pub program_data: Option<String>,
    /// The path of the running executable, where it could be determined.
    pub current_exe: Option<String>,
    /// `PATHEXT`, where it is set.
    pub path_ext: Option<String>,
    /// `PATH`, where it is set.
    pub path: Option<String>,
}

/// A Windows environment as plain values.
pub struct WindowsView {
    /// The home directory of the user, where it is known.
    pub home: Option<Seq<char>>,
    /// The directory for temporary files.
    pub temp_dir: Seq<char>,
    /// The desktop folder.
    pub desktop: Option<Seq<char>>,
    /// The documents folder.
    pub documents: Option<Seq<char>>,
    /// The fonts folder.
    pub fonts: Option<Seq<char>>,
    /// The programs folder.
    pub programs: Option<Seq<char>>,
    /// The music folder.
    pub music: Option<Seq<char>>,
    /// The videos folder.
    pub videos: Option<Seq<char>>,
    /// The pictures folder.
    pub pictures: Option<Seq<char>>,
    /// The downloads folder.
    pub downloads: Option<Seq<char>>,
    /// The local application data folder.
    pub local_app_data: Option<Seq<char>>,
    /// The roaming application data folder.
    pub roaming_app_data: Option<Seq<char>>,
    /// The folder for the application data of all users.
    pub program_data: Option<Seq<char>>,
    /// The path of the running executable.
    pub current_exe: Option<Seq<char>>,
    /// `PATHEXT`, where it is set.
    pub path_ext: Option<Seq<char>>,
    /// `PATH`, where it is set.
    pub path: Option<Seq<char>>,
}

impl View for Windows {
    type V = WindowsView;

    open spec fn view(&self) -> WindowsView {
        WindowsView {
            home: optional_text(self.home),
            temp_dir: self.temp_dir@,
            desktop: optional_text(self.desktop),
            documents: optional_text(self.documents),
            fonts: optional_text(self.fonts),
            programs: optional_text(self.programs),
            music: optional_text(self.music),
            videos: optional_text(self.videos),
            pictures: optional_text(self.pictures),
            downloads: optional_text(self.downloads),
            local_app_data: optional_text(self.local_app_data),
            roaming_app_data: optional_text(self.roaming_app_data),
            program_data: optional_text(self.program_data),
            current_exe: optional_text(self.current_exe),
            path_ext: optional_text(self.path_ext),
            path: optional_text(self.path),
        }
    }
}

/// Windows paths: `name` joined to `base`.
pub open spec fn inside(base: Seq<char>, name: Seq<char>) -> Seq<char> {
    joined(PathStyle::Windows, base, name)
}

/// The path of a known folder, where the shell knows it.
pub open spec fn folder_path(env: WindowsView, folder: KnownFolder) -> Option<Seq<char>> {
    match folder {
        KnownFolder::Desktop => env.desktop,
        KnownFolder::Documents => env.documents,
        KnownFolder::Fonts => env.fonts,
        KnownFolder::Programs => env.programs,
        KnownFolder::Music => env.music,
        KnownFolder::Videos => env.videos,
        KnownFolder::Pictures => env.pictures,
        KnownFolder::Downloads => env.downloads,
        KnownFolder::LocalAppData => env.local_app_data,
        KnownFolder::RoamingAppData => env.roaming_app_data,
        KnownFolder::ProgramData => env.program_data,
    }
}

/// The known folder that a location type is taken from, for those that are
/// taken from one.
pub open spec fn known_folder(location: LocationType) -> Option<KnownFolder> {
    match location {
        LocationType::DesktopLocation => Some(KnownFolder::Desktop),
        LocationType::DocumentsLocation => Some(KnownFolder::Documents),
        LocationType::FontsLocation => Some(KnownFolder::Fonts),
        LocationType::ApplicationsLocation => Some(KnownFolder::Programs),
        LocationType::MusicLocation => Some(KnownFolder::Music),
        LocationType::MoviesLocation => Some(KnownFolder::Videos),
        LocationType::PicturesLocation => Some(KnownFolder::Pictures),
        LocationType::DownloadLocation => Some(KnownFolder::Downloads),
        LocationType::AppLocalDataLocation
        | LocationType::GenericDataLocation
        | LocationType::ConfigLocation
        | LocationType::GenericConfigLocation
        | LocationType::AppConfigLocation => Some(KnownFolder::LocalAppData),
        LocationType::AppDataLocation => Some(KnownFolder::RoamingAppData),
        _ => None,
    }
}

/// Whether the writable location of this type is private to the
/// application.
pub open spec fn is_private(location: LocationType) -> bool {
    location == LocationType::ConfigLocation || location == LocationType::AppConfigLocation
        || location == LocationType::AppDataLocation || location
        == LocationType::AppLocalDataLocation
}

/// Whether this type has locations besides the writable one.
pub open spec fn has_fallbacks(location: LocationType) -> bool {
    location == LocationType::ConfigLocation || location == LocationType::AppConfigLocation
        || location == LocationType::AppDataLocation || location
        == LocationType::AppLocalDataLocation || location == LocationType::GenericConfigLocation
        || location == LocationType::GenericDataLocation
}

/// A location that is a known folder: the folder's path, private to the
/// application where the type asks for it. `NotFound` where the shell does
/// not know the folder, `Unexpected` for a type that is taken from none.
pub open spec fn folder_location(env: WindowsView, id: Identity, location: LocationType) -> Result<
    Seq<char>,
    Error,
> {
    match known_folder(location) {
        Some(folder) => match folder_path(env, folder) {
            Some(path) => if is_private(location) {
                Ok(with_identity(PathStyle::Windows, id, path))
            } else {
                Ok(path)
            },
            None => Err(Error::NotFound),
        },
        None => Err(Error::Unexpected),
    }
}

/// The directory `name` in `base`, where there is a base.
pub open spec fn below(base: Result<Seq<char>, Error>, name: Seq<char>) -> Result<Seq<char>, Error> {
    match base {
        Ok(dir) => Ok(inside(dir, name)),
        Err(e) => Err(e),
    }
}

/// `path` without the prefix `\\?\` of a verbatim path, where it has one.
pub open spec fn without_verbatim_prefix(path: Seq<char>) -> Seq<char> {
    if "\\\\?\\"@.is_prefix_of(path) {
        without_first(path, 4)
    } else {
        path
    }
}

/// The directory for temporary files: its canonical form, without the
/// verbatim prefix. `Io` where nothing is there.
pub open spec fn temp_location(env: WindowsView, files: Files) -> Result<Seq<char>, Error> {
    match canonical(files, env.temp_dir) {
        Some(path) => Ok(without_verbatim_prefix(path)),
        None => Err(Error::Io),
    }
}

/// The paths that the resolution of `location` looks at: the directory for
/// temporary files where that is asked for, else none.
pub open spec fn consulted_paths(env: WindowsView, location: LocationType) -> Seq<Seq<char>> {
    if location == LocationType::TempLocation {
        seq![env.temp_dir]
    } else {
        Seq::empty()
    }
}

/// The directory to write files of type `location` to.
pub open spec fn writable_location(
    env: WindowsView,
    id: Identity,
    location: LocationType,
    files: Files,
) -> Result<Seq<char>, Error> {
    match location {
        LocationType::DownloadLocation => match env.downloads {
            Some(path) => Ok(path),
            None => folder_location(env, id, LocationType::DocumentsLocation),
        },
        LocationType::AppCacheLocation => below(
            folder_location(env, id, LocationType::AppLocalDataLocation),
            "cache"@,
        ),
        LocationType::GenericCacheLocation => below(
            folder_location(env, id, LocationType::GenericDataLocation),
            "cache"@,
        ),
        LocationType::RuntimeLocation | LocationType::HomeLocation => match env.home {
            Some(home) => Ok(home),
            None => Err(Error::NotFound),
        },
        LocationType::TempLocation => temp_location(env, files),
        _ => folder_location(env, id, location),
    }
}

/// The directory that holds `path`: what stands before its last separator,
/// with that separator where it is the root. Nothing for an empty path and
/// for one that ends with a separator; empty for a bare name.
///
/// The standard library looks past separators at the end of a path and
/// gives the parent of what stands before them; it gives nothing only for
/// an empty path, a root and a bare prefix. The path of a running
/// executable, for which this is used, ends with a file name.
pub open spec fn parent(path: Seq<char>) -> Option<Seq<char>> {
    let s = last_separator(PathStyle::Windows, path);
    if path.len() == 0 || s == path.len() - 1 {
        None
    } else if s < 0 {
        Some(Seq::empty())
    } else if s == 0 || (s == 2 && path[1] == ':') {
        Some(path.take(s + 1))
    } else {
        Some(path.take(s))
    }
}

/// The directory shared by all users, as far as the shell knows it: private
/// to the application unless the type is a generic one.
pub open spec fn shared_locations(env: WindowsView, id: Identity, location: LocationType) -> Seq<
    Seq<char>,
> {
    match env.program_data {
        Some(path) => if location == LocationType::GenericConfigLocation || location
            == LocationType::GenericDataLocation {
            seq![path]
        } else {
            seq![with_identity(PathStyle::Windows, id, path)]
        },
        None => Seq::empty(),
    }
}

/// The directory of the running executable and its `data` directory.
pub open spec fn program_locations(exe: Seq<char>) -> Seq<Seq<char>> {
    match parent(exe) {
        Some(dir) => seq![dir, inside(dir, "data"@)],
        None => Seq::empty(),
    }
}

/// The directories of type `location` that come after the writable one: for
/// configuration and data, the directory shared by all users, then that of
/// the running executable and its `data` directory; `Io` where the running
/// executable is unknown. Other types have none.
pub open spec fn fallback_locations(env: WindowsView, id: Identity, location: LocationType) -> Result<
    Seq<Seq<char>>,
    Error,
> {
    if has_fallbacks(location) {
        match env.current_exe {
            Some(exe) => Ok(shared_locations(env, id, location) + program_locations(exe)),
            None => Err(Error::Io),
        }
    } else {
        Ok(Seq::empty())
    }
}

/// The entries of a list as `PATH` and `PATHEXT` hold it, read from `rest`
/// on, where `piece` is what was read of the entry at hand and `quoted`
/// tells whether a double quote is open. A double quote opens or closes a
/// quoted stretch and is no part of the entry; a semicolon outside a quoted
/// stretch ends the entry; every other character, a quoted semicolon too,
/// belongs to the entry.
pub open spec fn list_entries_from(rest: Seq<char>, quoted: bool, piece: Seq<char>) -> Seq<
    Seq<char>,
>
    decreases rest.len(),
{
    if rest.len() == 0 {
        seq![piece]
    } else if rest[0] == '"' {
        list_entries_from(rest.skip(1), !quoted, piece)
    } else if rest[0] == ';' && !quoted {
        seq![piece] + list_entries_from(rest.skip(1), false, Seq::empty())
    } else {
        list_entries_from(rest.skip(1), quoted, piece.push(rest[0]))
    }
}

/// The entries of a list as `PATH` and `PATHEXT` hold it: what stands
/// between semicolons, where a semicolon between double quotes separates
/// nothing and the quotes are dropped. There is always at least one entry.
pub open spec fn list_entries(list: Seq<char>) -> Seq<Seq<char>> {
    list_entries_from(list, false, Seq::empty())
}

/// The extension that an entry of `PATHEXT` names: the entry in lower case,
/// without the dot in front.
pub open spec fn extension_name(entry: Seq<char>) -> Seq<char> {
    without_first(lowercase(entry), 1)
}

/// The extensions that a value of `PATHEXT` lists: one for each of its
/// entries that is not empty.
pub open spec fn listed_extensions(list: Seq<char>) -> Seq<Seq<char>> {
    list_entries(list).filter(|entry: Seq<char>| entry.len() > 0).map_values(
        |entry: Seq<char>| extension_name(entry),
    )
}

/// The extensions that are tried where `PATHEXT` is not set or does not list
/// `exe`.
pub open spec fn default_extensions() -> Seq<Seq<char>> {
    seq!["exe"@, "com"@, "bat"@, "cmd"@]
}

/// The extensions that are tried, given those that `PATHEXT` lists: the
/// listed ones where `exe` is among them, else the default ones.
pub open spec fn chosen_extensions(listed: Seq<Seq<char>>) -> Seq<Seq<char>> {
    if listed.contains("exe"@) {
        listed
    } else {
        default_extensions()
    }
}

/// The extensions tried on a name.
pub open spec fn executable_extensions(env: WindowsView) -> Seq<Seq<char>> {
    match env.path_ext {
        Some(list) => chosen_extensions(listed_extensions(list)),
        None => default_extensions(),
    }
}

/// Whether what is at `path` can be executed: the operating system
/// recognises it as a program binary.
pub open spec fn is_executable(files: Files, path: Seq<char>) -> bool {
    files.contains_key(path) && files[path].binary
}

/// No location type lacks a rule: resolving a location never fails with
/// `Unexpected`.
pub proof fn lemma_every_location_has_a_rule(
    env: WindowsView,
    id: Identity,
    location: LocationType,
    files: Files,
)
    ensures
        writable_location(env, id, location, files) != Err::<Seq<char>, Error>(Error::Unexpected),
        fallback_locations(env, id, location) != Err::<Seq<Seq<char>>, Error>(Error::Unexpected),
{
}

/// Where the writable location can be resolved and the running executable is
/// known, the standard locations can be listed, and they begin with the
/// writable location.
pub proof fn lemma_standard_locations_follow_writable(
    env: Windows,
    id: Identity,
    location: LocationType,
    files: Files,
)
    requires
        writable_location(env@, id, location, files) is Ok,
        env@.current_exe is Some || !has_fallbacks(location),
    ensures
        standard_locations(&env, id, location, files) is Ok,
        standard_locations(&env, id, location, files)->Ok_0.len() > 0,
        Ok::<Seq<char>, Error>(standard_locations(&env, id, location, files)->Ok_0[0])
            == writable_location(env@, id, location, files),
{
}

/// `path` without the prefix of a verbatim path, where it has one.
pub fn strip_verbatim_prefix(path: &str) -> (r: String)
    ensures
        r@ == without_verbatim_prefix(path@),
{
    let v = chars_of(path);
    let prefix = chars_of("\\\\?\\");
    if starts_with(&v, &prefix) {
        if v.len() >= 4 {
            substring(path, 4, v.len())
        } else {
            String::new()
        }
    } else {
        String::from_str(path)
    }
}

/// The directory that holds `path`.
pub fn parent_directory(path: &str) -> (r: Option<String>)
    ensures
        optional_text(r) == parent(path@),
{
    let v = chars_of(path);
    if v.len() == 0 {
        return None;
    }
    let mut i: usize = v.len();
    let mut last: Option<usize> = None;
    while i > 0 && last.is_none()
        invariant
            i <= v.len(),
            forall|k: int| i <= k < v.len() && last is None ==> !crate::path::is_separator(
                PathStyle::Windows,
                v@[k],
            ),
            last matches Some(s) ==> s < v.len() && s == last_separator(PathStyle::Windows, v@),
        decreases i,
    {
        i -= 1;
        if separates(PathStyle::Windows, v[i]) {
            proof {
                crate::path::lemma_last_separator_is(PathStyle::Windows, v@, i as int);
            }
            last = Some(i);
        }
    }
    match last {
        None => {
            proof {
                crate::path::lemma_last_separator_is(PathStyle::Windows, v@, -1);
            }
            Some(String::new())
        },
        Some(s) => {
            if s == v.len() - 1 {
                None
            } else if s == 0 || (s == 2 && v[1] == ':') {
                let r = substring(path, 0, s + 1);
                assert(r@ == path@.take(s + 1));
                Some(r)
            } else {
                let r = substring(path, 0, s);
                assert(r@ == path@.take(s as int));
                Some(r)
            }
        },
    }
}

/// The entries of a list as `PATH` and `PATHEXT` hold it.
pub fn split_list(list: &str) -> (r: Vec<String>)
    ensures
        texts(r@) == list_entries(list@),
{
    let v = chars_of(list);
    let n = v.len();
    let mut r: Vec<String> = Vec::new();
    let mut piece = String::new();
    let mut quoted = false;
    let mut from: usize = 0;
    let mut i: usize = 0;
    proof {
        assert(list@.skip(0) =~= list@);
        assert(piece@ + list@.subrange(0, 0) =~= Seq::<char>::empty());
        assert(texts(r@) + list_entries(list@) =~= list_entries(list@));
    }
    while i < n
        invariant
            v@ == list@,
            n == v.len(),
            from <= i <= n,
            list_entries(list@) == texts(r@) + list_entries_from(
                list@.skip(i as int),
                quoted,
                piece@ + list@.subrange(from as int, i as int),
            ),
        decreases n - i,
    {
        let c = v[i];
        let ghost rest = list@.skip(i as int);
        let ghost read = piece@ + list@.subrange(from as int, i as int);
        let ghost done = texts(r@);
        proof {
            assert(rest[0] == c);
            assert(rest.skip(1) =~= list@.skip(i + 1));
        }
        if c == '"' {
            let part = substring(list, from, i);
            piece.append(part.as_str());
            quoted = !quoted;
            from = i + 1;
            assert(piece@ + list@.subrange(from as int, i + 1) =~= read);
        } else if c == ';' && !quoted {
            let part = substring(list, from, i);
            piece.append(part.as_str());
            assert(piece@ == read);
            r.push(piece);
            assert(texts(r@) =~= done.push(read));
            piece = String::new();
            from = i + 1;
            assert(piece@ + list@.subrange(from as int, i + 1) =~= Seq::<char>::empty());
            assert(done + (seq![read] + list_entries_from(
                list@.skip(i + 1),
                false,
                Seq::empty(),
            )) =~= done.push(read) + list_entries_from(list@.skip(i + 1), false, Seq::empty()));
        } else {
            assert(piece@ + list@.subrange(from as int, i + 1) =~= read.push(c));
        }
        i += 1;
    }
    let part = substring(list, from, n);
    let ghost done = texts(r@);
    let ghost read = piece@ + list@.subrange(from as int, n as int);
    piece.append(part.as_str());
    r.push(piece);
    proof {
        assert(list@.skip(n as int).len() == 0);
        assert(texts(r@) =~= done.push(read));
        assert(done + seq![read] =~= done.push(read));
    }
    r
}

/// The extension that an entry of `PATHEXT` names, given the entry in lower
/// case.
pub fn extension_after_dot(lowered: &str) -> (r: String)
    ensures
        r@ == without_first(lowered@, 1),
{
    let v = chars_of(lowered);
    if v.len() >= 1 {
        substring(lowered, 1, v.len())
    } else {
        String::new()
    }
}

/// The extensions that a value of `PATHEXT` lists.
pub fn parse_extensions(list: &str) -> (r: Vec<String>)
    ensures
        texts(r@) == listed_extensions(list@),
{
    let entries = split_list(list);
    let ghost all = texts(entries@);
    let ghost named = |entry: Seq<char>| entry.len() > 0;
    let ghost name = |entry: Seq<char>| extension_name(entry);
    let mut r: Vec<String> = Vec::new();
    let mut i: usize = 0;
    proof {
        assert(all.take(0) =~= Seq::<Seq<char>>::empty());
        assert(all.take(0).filter(named) =~= Seq::<Seq<char>>::empty()) by {
            reveal(Seq::filter);
        }
        assert(all.take(0).filter(named).map_values(name) =~= Seq::<Seq<char>>::empty());
    }
    while i < entries.len()
        invariant
            i <= entries.len(),
            all == texts(entries@),
            named == |entry: Seq<char>| entry.len() > 0,
            name == |entry: Seq<char>| extension_name(entry),
            texts(r@) == all.take(i as int).filter(named).map_values(name),
        decreases entries.len() - i,
    {
        let ghost before = all.take(i as int);
        let ghost entry = entries@[i as int]@;
        proof {
            assert(all.take(i + 1) =~= before.push(entry));
            before.lemma_filter_push(entry, named);
        }
        if !entries[i].as_str().is_empty() {
            let lowered = to_lowercase(entries[i].as_str());
            let ghost kept = texts(r@);
            r.push(extension_after_dot(lowered.as_str()));
            assert(texts(r@) =~= kept.push(name(entry)));
            assert(before.filter(named).push(entry).map_values(name) =~= before.filter(
                named,
            ).map_values(name).push(name(entry)));
        }
        i += 1;
    }
    assert(all.take(entries.len() as int) == all);
    r
}

/// The extensions that are tried where `PATHEXT` does not decide.
pub fn default_extension_list() -> (r: Vec<String>)
    ensures
        texts(r@) == default_extensions(),
{
    let mut r: Vec<String> = Vec::new();
    r.push(String::from_str("exe"));
    r.push(String::from_str("com"));
    r.push(String::from_str("bat"));
    r.push(String::from_str("cmd"));
    assert(texts(r@) =~= default_extensions());
    r
}

/// The extensions that are tried, given those that `PATHEXT` lists.
pub fn choose_extensions(listed: Vec<String>) -> (r: Vec<String>)
    ensures
        texts(r@) == chosen_extensions(texts(listed@)),
{
    if contains_text(&listed, "exe") {
        listed
    } else {
        default_extension_list()
    }
}

fn descend(base: Result<String, Error>, name: &str) -> (r: Result<String, Error>)
    ensures
        path_result(r) == below(path_result(base), name@),
{
    match base {
        Ok(dir) => Ok(join(PathStyle::Windows, dir.as_str(), name)),
        Err(e) => Err(e),
    }
}

impl Windows {
    /// The environment in which nothing is known but the directory for
    /// temporary files.
    pub open spec fn new_view(temp_dir: Seq<char>) -> WindowsView {
        WindowsView {
            home: None,
            temp_dir,
            desktop: None,
            documents: None,
            fonts: None,
            programs: None,
            music: None,
            videos: None,
            pictures: None,
            downloads: None,
            local_app_data: None,
            roaming_app_data: None,
            program_data: None,
            current_exe: None,
            path_ext: None,
            path: None,
        }
    }

    /// An environment in which nothing is known but the directory for
    /// temporary files.
    pub fn new(temp_dir: &str) -> (env: Windows)
        ensures
            env@ == Windows::new_view(temp_dir@),
    {
        Windows {
            home: None,
            temp_dir: String::from_str(temp_dir),
            desktop: None,
            documents: None,
            fonts: None,
            programs: None,
            music: None,
            videos: None,
            pictures: None,
            downloads: None,
            local_app_data: None,
            roaming_app_data: None,
            program_data: None,
            current_exe: None,
            path_ext: None,
            path: None,
        }
    }

    /// The environment of the current user, as far as it is known without
    /// the shell: the home directory is what the operating system answers at
    /// this moment. No folder and no variable is set; the caller adds those.
    pub fn for_current_user(temp_dir: &str) -> (env: Windows)
        ensures
            env@ == (WindowsView { home: env@.home, ..Windows::new_view(temp_dir@) }),
    {
        let mut env = Windows::new(temp_dir);
        env.home = current_home();
        env
    }

    /// The known folder that a location type is taken from.
    pub fn known_folder(location: LocationType) -> (r: Option<KnownFolder>)
        ensures
            r == known_folder(location),
    {
        match location {
            LocationType::DesktopLocation => Some(KnownFolder::Desktop),
            LocationType::DocumentsLocation => Some(KnownFolder::Documents),
            LocationType::FontsLocation => Some(KnownFolder::Fonts),
            LocationType::ApplicationsLocation => Some(KnownFolder::Programs),
            LocationType::MusicLocation => Some(KnownFolder::Music),
            LocationType::MoviesLocation => Some(KnownFolder::Videos),
            LocationType::PicturesLocation => Some(KnownFolder::Pictures),
            LocationType::DownloadLocation => Some(KnownFolder::Downloads),
            LocationType::AppLocalDataLocation
            | LocationType::GenericDataLocation
            | LocationType::ConfigLocation
            | LocationType::GenericConfigLocation
            | LocationType::AppConfigLocation => Some(KnownFolder::LocalAppData),
            LocationType::AppDataLocation => Some(KnownFolder::RoamingAppData),
            _ => None,
        }
    }

    /// The path of a known folder, where the shell knows it.
    pub fn folder_path(&self, folder: KnownFolder) -> (r: &Option<String>)
        ensures
            optional_text(*r) == folder_path(self@, folder),
    {
        match folder {
            KnownFolder::Desktop => &self.desktop,
            KnownFolder::Documents => &self.documents,
            KnownFolder::Fonts => &self.fonts,
            KnownFolder::Programs => &self.programs,
            KnownFolder::Music => &self.music,
            KnownFolder::Videos => &self.videos,
            KnownFolder::Pictures => &self.pictures,
            KnownFolder::Downloads => &self.downloads,
            KnownFolder::LocalAppData => &self.local_app_data,
            KnownFolder::RoamingAppData => &self.roaming_app_data,
            KnownFolder::ProgramData => &self.program_data,
        }
    }

    /// Resolves a location that is a known folder.
    pub fn folder_location(&self, id: &StandardPaths, location: LocationType) -> (r: Result<
        String,
        Error,
    >)
        ensures
            path_result(r) == folder_location(self@, id@, location),
    {
        let folder = match Self::known_folder(location) {
            Some(folder) => folder,
            None => {
                return Err(Error::Unexpected);
            },
        };
        match self.folder_path(folder) {
            Some(path) => {
                let mut path = path.clone();
                if location == LocationType::ConfigLocation || location
                    == LocationType::AppConfigLocation || location
                    == LocationType::AppDataLocation || location
                    == LocationType::AppLocalDataLocation {
                    id.append_organization_and_app(PathStyle::Windows, &mut path);
                }
                Ok(path)
            },
            None => Err(Error::NotFound),
        }
    }

    /// The extensions tried on a name.
    pub fn extensions(&self) -> (r: Vec<String>)
        ensures
            texts(r@) == executable_extensions(self@),
    {
        match &self.path_ext {
            Some(list) => choose_extensions(parse_extensions(list.as_str())),
            None => default_extension_list(),
        }
    }
}

impl Platform for Windows {
    open spec fn style(&self) -> PathStyle {
        PathStyle::Windows
    }

    open spec fn writable(&self, id: Identity, location: LocationType, files: Files) -> Result<
        Seq<char>,
        Error,
    > {
        writable_location(self@, id, location, files)
    }

    open spec fn settled(&self, location: LocationType, files: Files) -> Files {
        files
    }

    open spec fn fallbacks(&self, id: Identity, location: LocationType, files: Files) -> Result<
        Seq<Seq<char>>,
        Error,
    > {
        fallback_locations(self@, id, location)
    }

    open spec fn executable(&self, files: Files, path: Seq<char>) -> bool {
        is_executable(files, path)
    }

    open spec fn canonical_directory(&self, files: Files, dir: Seq<char>) -> Seq<char> {
        without_verbatim_prefix(files[dir].canonical)
    }

    open spec fn extensions(&self) -> Seq<Seq<char>> {
        executable_extensions(self@)
    }

    open spec fn extends_absolute(&self) -> bool {
        true
    }

    open spec fn search_path(&self) -> Option<Seq<Seq<char>>> {
        match self@.path {
            Some(list) => Some(list_entries(list)),
            None => None,
        }
    }

    open spec fn consulted(&self, location: LocationType) -> Seq<Seq<char>> {
        consulted_paths(self@, location)
    }

    proof fn lemma_resolution_is_stable(&self, id: Identity, location: LocationType, files: Files) {
    }

    proof fn lemma_resolution_reads_what_it_consults(
        &self,
        id: Identity,
        location: LocationType,
        a: Files,
        b: Files,
    ) {
        if location == LocationType::TempLocation {
            assert(same_at(a, b, self.consulted(location)[0]));
        }
    }

    fn consulted_paths(&self, location: LocationType) -> (r: Vec<String>) {
        let mut r: Vec<String> = Vec::new();
        assert(texts(r@) =~= Seq::<Seq<char>>::empty());
        if location == LocationType::TempLocation {
            r.push(self.temp_dir.clone());
            assert(texts(r@) =~= seq![self.temp_dir@]);
        }
        r
    }

    fn path_style(&self) -> (style: PathStyle) {
        PathStyle::Windows
    }

    fn writable_location_impl(
        &self,
        id: &StandardPaths,
        location: LocationType,
        files: &mut FileSystem,
    ) -> (r: Result<String, Error>) {
        match location {
            LocationType::DownloadLocation => match &self.downloads {
                Some(path) => Ok(path.clone()),
                None => self.folder_location(id, LocationType::DocumentsLocation),
            },
            LocationType::AppCacheLocation => descend(
                self.folder_location(id, LocationType::AppLocalDataLocation),
                "cache",
            ),
            LocationType::GenericCacheLocation => descend(
                self.folder_location(id, LocationType::GenericDataLocation),
                "cache",
            ),
            LocationType::RuntimeLocation | LocationType::HomeLocation => match &self.home {
                Some(home) => Ok(home.clone()),
                None => Err(StandardPaths::home_dir_err()),
            },
            LocationType::TempLocation => match files.canonicalize(self.temp_dir.as_str()) {
                Some(path) => Ok(strip_verbatim_prefix(path.as_str())),
                None => Err(Error::Io),
            },
            _ => self.folder_location(id, location),
        }
    }

    fn fallback_locations(&self, id: &StandardPaths, location: LocationType, files: &FileSystem) -> (r:
        Result<Vec<String>, Error>) {
        let mut dirs: Vec<String> = Vec::new();
        assert(texts(dirs@) =~= Seq::<Seq<char>>::empty());
        if location == LocationType::ConfigLocation || location == LocationType::AppConfigLocation
            || location == LocationType::AppDataLocation || location
            == LocationType::AppLocalDataLocation || location
            == LocationType::GenericConfigLocation || location
            == LocationType::GenericDataLocation {
            match &self.program_data {
                Some(path) => {
                    let mut path = path.clone();
                    if location != LocationType::GenericConfigLocation && location
                        != LocationType::GenericDataLocation {
                        id.append_organization_and_app(PathStyle::Windows, &mut path);
                    }
                    dirs.push(path);
                },
                None => {},
            }
            assert(texts(dirs@) =~= shared_locations(self@, id@, location));
            let exe = match &self.current_exe {
                Some(exe) => exe,
                None => {
                    return Err(Error::Io);
                },
            };
            match parent_directory(exe.as_str()) {
                Some(dir) => {
                    let data = join(PathStyle::Windows, dir.as_str(), "data");
                    dirs.push(dir);
                    dirs.push(data);
                },
                None => {},
            }
            assert(texts(dirs@) =~= shared_locations(self@, id@, location) + program_locations(
                exe@,
            ));
        }
        Ok(dirs)
    }

    fn is_executable(&self, files: &FileSystem, path: &str) -> (r: bool) {
        match files.metadata(path) {
            Some(entry) => entry.binary,
            None => false,
        }
    }

    fn canonicalize_directory(&self, files: &FileSystem, dir: &str) -> (r: String) {
        match files.metadata(dir) {
            Some(entry) => strip_verbatim_prefix(entry.canonical.as_str()),
            None => String::from_str(dir),
        }
    }

    fn executable_extensions(&self) -> (r: Vec<String>) {
        self.extensions()
    }

    fn tries_extensions_on_absolute(&self) -> (r: bool) {
        true
    }

    fn system_paths(&self) -> (r: Option<Vec<String>>) {
        match &self.path {
            Some(list) => Some(split_list(list.as_str())),
            None => None,
        }
    }
}

} // verus!
