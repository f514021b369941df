//! The resolver: an application's identity and the queries made with it.

use vstd::prelude::*;
use vstd::string::*;
use crate::error::found_paths;
use crate::error::located_path;
use crate::error::located_paths;
use crate::error::path_result;
use crate::error::paths_result;
use crate::error::Error;
use crate::executable::find_executable_in_paths_impl;
use crate::executable::find_executables;
use crate::filesystem::agree_on;
use crate::filesystem::is_dir;
use crate::filesystem::is_entry;
use crate::filesystem::is_file;
use crate::filesystem::FileSystem;
use crate::filesystem::Files;
use crate::location::LocateOption;
use crate::location::LocationType;
use crate::path::has_empty_segment;
use crate::path::is_segment;
use crate::path::join;
use crate::path::joined;
use crate::path::named_in;
use crate::path::lemma_joined_segment;
use crate::path::PathStyle;
use crate::platform::Platform;
use crate::text::lemma_filter_first;
use crate::text::lemma_filter_none;
use crate::text::lemma_filter_sources;
use crate::text::texts;

verus! {

/// The names that make a shared directory private to an application.
pub struct Identity {
    /// Application name; may be empty.
    pub app: Seq<char>,
    /// Organization name; may be empty.
    pub org: Seq<char>,
}

/// `path` with the organization and the application appended as
/// directories. An empty name is left out, so that it adds no segment.
pub open spec fn with_identity(style: PathStyle, id: Identity, path: Seq<char>) -> Seq<char> {
    let below_org = if id.org.len() > 0 {
        joined(style, path, id.org)
    } else {
        path
    };
    if id.app.len() > 0 {
        joined(style, below_org, id.app)
    } else {
        below_org
    }
}

/// All the directories of type `location`: the writable one, then the
/// platform's fallbacks.
pub open spec fn standard_locations<P: Platform>(
    platform: &P,
    id: Identity,
    location: LocationType,
    files: Files,
) -> Result<Seq<Seq<char>>, Error> {
    match platform.writable(id, location, files) {
        Err(e) => Err(e),
        Ok(first) => match platform.fallbacks(id, location, platform.settled(location, files)) {
            Err(e) => Err(e),
            Ok(rest) => Ok(seq![first] + rest),
        },
    }
}

/// Whether a search with `option` accepts what is at `path`.
pub open spec fn accepts(option: LocateOption, files: Files, path: Seq<char>) -> bool {
    match option {
        LocateOption::LocateBoth => is_entry(files, path),
        LocateOption::LocateFile => is_file(files, path),
        LocateOption::LocateDirectory => is_dir(files, path),
    }
}

/// The entries called `name` in `dirs` that a search with `option` accepts,
/// in the order of `dirs`.
pub open spec fn located(
    style: PathStyle,
    dirs: Seq<Seq<char>>,
    name: Seq<char>,
    option: LocateOption,
    files: Files,
) -> Seq<Seq<char>> {
    named_in(style, dirs, name).filter(|path: Seq<char>| accepts(option, files, path))
}

/// What `locate_all` returns: every accepted entry called `name` in the
/// standard locations, as the file system is once `location` is resolved;
/// nothing where there is none.
pub open spec fn all_located<P: Platform>(
    platform: &P,
    id: Identity,
    location: LocationType,
    name: Seq<char>,
    option: LocateOption,
    files: Files,
) -> Result<Option<Seq<Seq<char>>>, Error> {
    match standard_locations(platform, id, location, files) {
        Err(e) => Err(e),
        Ok(dirs) => {
            let found = located(
                platform.style(),
                dirs,
                name,
                option,
                platform.settled(location, files),
            );
            if found.len() == 0 {
                Ok(None)
            } else {
                Ok(Some(found))
            }
        },
    }
}

/// What `locate` returns: the first of what `locate_all` returns.
pub open spec fn first_located<P: Platform>(
    platform: &P,
    id: Identity,
    location: LocationType,
    name: Seq<char>,
    option: LocateOption,
    files: Files,
) -> Result<Option<Seq<char>>, Error> {
    match all_located(platform, id, location, name, option, files) {
        Err(e) => Err(e),
        Ok(None) => Ok(None),
        Ok(Some(found)) => Ok(Some(found[0])),
    }
}

/// What `find_executable` returns: the executables found in the system's
/// search path, nothing where that is not set.
pub open spec fn found_on_search_path<P: Platform>(platform: &P, files: Files, name: Seq<char>) -> Option<
    Seq<Seq<char>>,
> {
    match platform.search_path() {
        Some(paths) => find_executables(platform, files, name, paths),
        None => None,
    }
}

/// Appending the identity adds no empty segment: where `path` has none, and
/// each name is empty or a single segment, the result has none. An empty
/// name contributes nothing at all.
pub proof fn lemma_identity_adds_no_empty_segment(style: PathStyle, id: Identity, path: Seq<char>)
    requires
        !has_empty_segment(style, path),
        id.org.len() == 0 || is_segment(style, id.org),
        id.app.len() == 0 || is_segment(style, id.app),
    ensures
        !has_empty_segment(style, with_identity(style, id, path)),
        id.org.len() == 0 && id.app.len() == 0 ==> with_identity(style, id, path) == path,
        id.org.len() == 0 && id.app.len() > 0 ==> with_identity(style, id, path) == joined(
            style,
            path,
            id.app,
        ),
        id.org.len() > 0 && id.app.len() == 0 ==> with_identity(style, id, path) == joined(
            style,
            path,
            id.org,
        ),
{
    let below_org = if id.org.len() > 0 {
        joined(style, path, id.org)
    } else {
        path
    };
    if id.org.len() > 0 {
        lemma_joined_segment(style, path, id.org);
    }
    if id.app.len() > 0 {
        lemma_joined_segment(style, below_org, id.app);
    }
}

/// The writable location, asked for twice in a row, is the same both times:
/// the second query, on the file system that the first one left, returns
/// what the first one returned, and so does a query for the standard
/// locations.
pub proof fn lemma_writable_location_twice<P: Platform>(
    platform: &P,
    id: Identity,
    location: LocationType,
    files: Files,
)
    ensures
        platform.writable(id, location, platform.settled(location, files)) == platform.writable(
            id,
            location,
            files,
        ),
        standard_locations(platform, id, location, platform.settled(location, files))
            == standard_locations(platform, id, location, files),
{
    platform.lemma_resolution_is_stable(id, location, files);
}

/// What is asked of a location depends on the consulted paths only: on two
/// file systems that say the same of them, the writable location and the
/// standard locations are the same.
pub proof fn lemma_locations_depend_on_consulted_paths<P: Platform>(
    platform: &P,
    id: Identity,
    location: LocationType,
    a: Files,
    b: Files,
)
    requires
        agree_on(a, b, platform.consulted(location)),
    ensures
        platform.writable(id, location, a) == platform.writable(id, location, b),
        standard_locations(platform, id, location, a) == standard_locations(
            platform,
            id,
            location,
            b,
        ),
{
    platform.lemma_resolution_reads_what_it_consults(id, location, a, b);
}

/// The standard locations begin with the writable location: where they can
/// be listed, their first element is the writable location, and they can be
/// listed exactly where the writable location and the platform's fallbacks
/// can be resolved.
pub proof fn lemma_standard_locations_begin_with_writable<P: Platform>(
    platform: &P,
    id: Identity,
    location: LocationType,
    files: Files,
)
    ensures
        match standard_locations(platform, id, location, files) {
            Ok(dirs) => dirs.len() > 0 && platform.writable(id, location, files) == Ok::<
                Seq<char>,
                Error,
            >(dirs[0]),
            Err(e) => platform.writable(id, location, files) == Err::<Seq<char>, Error>(e)
                || platform.fallbacks(id, location, platform.settled(location, files)) == Err::<
                Seq<Seq<char>>,
                Error,
            >(e),
        },
        platform.writable(id, location, files) is Ok && platform.fallbacks(
            id,
            location,
            platform.settled(location, files),
        ) is Ok ==> standard_locations(platform, id, location, files) is Ok,
{
}

/// A search keeps the order of the directories: each entry it finds is
/// `name` in one of `dirs`, and of two entries the one found first lies in
/// the directory that comes first.
pub proof fn lemma_located_keeps_order(
    style: PathStyle,
    dirs: Seq<Seq<char>>,
    name: Seq<char>,
    option: LocateOption,
    files: Files,
    i: int,
    j: int,
)
    requires
        0 <= i < j < located(style, dirs, name, option, files).len(),
    ensures
        exists|a: int, b: int|
            0 <= a < b < dirs.len() && located(style, dirs, name, option, files)[i] == joined(
                style,
                #[trigger] dirs[a],
                name,
            ) && located(style, dirs, name, option, files)[j] == joined(
                style,
                #[trigger] dirs[b],
                name,
            ),
{
    let candidates = named_in(style, dirs, name);
    let keep = |path: Seq<char>| accepts(option, files, path);
    let found = located(style, dirs, name, option, files);
    lemma_filter_sources(candidates, keep, i, j);
    let (a, b) = choose|a: int, b: int|
        0 <= a < b < candidates.len() && candidates[a] == found[i] && candidates[b] == found[j];
    assert(found[i] == joined(style, dirs[a], name));
    assert(found[j] == joined(style, dirs[b], name));
}

/// Stores application and organization names and provides the crate's
/// queries.
pub struct StandardPaths {
    /// Application name.
    app_name: String,
    /// Organization name.
    org_name: String,
}

impl View for StandardPaths {
    type V = Identity;

    closed spec fn view(&self) -> Identity {
        Identity { app: self.app_name@, org: self.org_name@ }
    }
}

impl StandardPaths {
    /// Constructs a new `StandardPaths` with the provided `app` and `org`
    /// names.
    pub fn new(app: &str, org: &str) -> (sp: StandardPaths)
        ensures
            sp@ == (Identity { app: app@, org: org@ }),
    {
        StandardPaths { app_name: String::from_str(app), org_name: String::from_str(org) }
    }

    /// Constructs a new `StandardPaths` with the provided `app` name and
    /// with an empty organization.
    pub fn without_org(app: &str) -> (sp: StandardPaths)
        ensures
            sp@ == (Identity { app: app@, org: Seq::empty() }),
    {
        StandardPaths { app_name: String::from_str(app), org_name: String::new() }
    }

    /// The error for a home directory that cannot be determined.
    pub fn home_dir_err() -> (e: Error)
        ensures
            e == Error::NotFound,
    {
        Error::NotFound
    }

    /// Appends the application suffix to `path`: `~/.config` becomes
    /// `~/.config/org/app`.
    pub fn append_organization_and_app(&self, style: PathStyle, path: &mut String)
        ensures
            final(path)@ == with_identity(style, self@, old(path)@),
    {
        if !self.org_name.as_str().is_empty() {
            *path = join(style, path.as_str(), self.org_name.as_str());
        }
        if !self.app_name.as_str().is_empty() {
            *path = join(style, path.as_str(), self.app_name.as_str());
        }
    }

    /// Returns the directory where files of type `location` should be
    /// written to. The directory need not exist. Resolving the runtime
    /// directory may create it or repair its mode, which `files` then shows.
    pub fn writable_location<P: Platform>(
        &self,
        location: LocationType,
        platform: &P,
        files: &mut FileSystem,
    ) -> (r: Result<String, Error>)
        ensures
            path_result(r) == platform.writable(self@, location, old(files)@),
            final(files)@ == platform.settled(location, old(files)@),
    {
        platform.writable_location_impl(self, location, files)
    }

    /// Returns all the directories of type `location`, sorted by priority,
    /// starting with the writable location.
    pub fn standard_locations<P: Platform>(
        &self,
        location: LocationType,
        platform: &P,
        files: &mut FileSystem,
    ) -> (r: Result<Vec<String>, Error>)
        ensures
            paths_result(r) == standard_locations(platform, self@, location, old(files)@),
            final(files)@ == platform.settled(location, old(files)@),
    {
        let first = match platform.writable_location_impl(self, location, files) {
            Ok(first) => first,
            Err(e) => {
                return Err(e);
            },
        };
        let mut rest = match platform.fallback_locations(self, location, files) {
            Ok(rest) => rest,
            Err(e) => {
                return Err(e);
            },
        };
        let ghost tail = texts(rest@);
        let mut dirs: Vec<String> = Vec::new();
        dirs.push(first);
        dirs.append(&mut rest);
        assert(texts(dirs@) =~= seq![first@] + tail);
        Ok(dirs)
    }

    /// Returns every executable that `name` stands for in the system's
    /// search path, or `None` where there is none or no search path is set.
    /// An absolute `name` is tested itself.
    pub fn find_executable<P: Platform>(name: &str, platform: &P, files: &FileSystem) -> (r: Option<
        Vec<String>,
    >)
        ensures
            found_paths(r) == found_on_search_path(platform, files@, name@),
    {
        match platform.system_paths() {
            Some(paths) => find_executable_in_paths_impl(platform, name, &paths, files),
            None => None,
        }
    }

    /// Returns every executable that `name` stands for in the directories
    /// `paths`, or `None` where there is none. An absolute `name` is tested
    /// itself.
    pub fn find_executable_in_paths<P: Platform>(
        name: &str,
        paths: &Vec<String>,
        platform: &P,
        files: &FileSystem,
    ) -> (r: Option<Vec<String>>)
        ensures
            found_paths(r) == find_executables(platform, files@, name@, texts(paths@)),
    {
        find_executable_in_paths_impl(platform, name, paths, files)
    }

    fn accepted(option: LocateOption, files: &FileSystem, path: &str) -> (r: bool)
        ensures
            r == accepts(option, files@, path@),
    {
        match option {
            LocateOption::LocateBoth => files.contains(path),
            LocateOption::LocateFile => files.is_file(path),
            LocateOption::LocateDirectory => files.is_dir(path),
        }
    }

    /// Searches for a file or directory called `name` in the standard
    /// locations and returns the full path of the first one found, or `None`
    /// where there is none.
    pub fn locate<P: Platform>(
        &self,
        location: LocationType,
        name: &str,
        option: LocateOption,
        platform: &P,
        files: &mut FileSystem,
    ) -> (r: Result<Option<String>, Error>)
        ensures
            located_path(r) == first_located(
                platform,
                self@,
                location,
                name@,
                option,
                old(files)@,
            ),
            final(files)@ == platform.settled(location, old(files)@),
    {
        let dirs = match self.standard_locations(location, platform, files) {
            Ok(dirs) => dirs,
            Err(e) => {
                return Err(e);
            },
        };
        let style = platform.path_style();
        let ghost candidates = named_in(style, texts(dirs@), name@);
        let ghost keep = |path: Seq<char>| accepts(option, files@, path);
        let mut i: usize = 0;
        while i < dirs.len()
            invariant
                i <= dirs.len(),
                style == platform.style(),
                files@ == platform.settled(location, old(files)@),
                standard_locations(platform, self@, location, old(files)@) == Ok::<
                    Seq<Seq<char>>,
                    Error,
                >(texts(dirs@)),
                candidates == named_in(style, texts(dirs@), name@),
                keep == |path: Seq<char>| accepts(option, files@, path),
                forall|k: int| 0 <= k < i ==> !keep(candidates[k]),
            decreases dirs.len() - i,
        {
            let path = join(style, dirs[i].as_str(), name);
            assert(path@ == candidates[i as int]);
            if Self::accepted(option, files, path.as_str()) {
                proof {
                    lemma_filter_first(candidates, keep, i as int);
                }
                return Ok(Some(path));
            }
            i += 1;
        }
        proof {
            lemma_filter_none(candidates, keep);
        }
        Ok(None)
    }

    /// Searches for all files or directories called `name` in the standard
    /// locations and returns their full paths, in the order of the
    /// locations, or `None` where there is none.
    pub fn locate_all<P: Platform>(
        &self,
        location: LocationType,
        name: &str,
        option: LocateOption,
        platform: &P,
        files: &mut FileSystem,
    ) -> (r: Result<Option<Vec<String>>, Error>)
        ensures
            located_paths(r) == all_located(platform, self@, location, name@, option, old(files)@),
            final(files)@ == platform.settled(location, old(files)@),
    {
        let dirs = match self.standard_locations(location, platform, files) {
            Ok(dirs) => dirs,
            Err(e) => {
                return Err(e);
            },
        };
        let style = platform.path_style();
        let ghost candidates = named_in(style, texts(dirs@), name@);
        let ghost keep = |path: Seq<char>| accepts(option, files@, path);
        let mut res: Vec<String> = Vec::new();
        let mut i: usize = 0;
        proof {
            assert(candidates.take(0) =~= Seq::<Seq<char>>::empty());
            assert(candidates.take(0).filter(keep) =~= Seq::<Seq<char>>::empty()) by {
                reveal(Seq::filter);
            }
        }
        while i < dirs.len()
            invariant
                i <= dirs.len(),
                files@ == platform.settled(location, old(files)@),
                candidates == named_in(style, texts(dirs@), name@),
                keep == |path: Seq<char>| accepts(option, files@, path),
                texts(res@) == candidates.take(i as int).filter(keep),
            decreases dirs.len() - i,
        {
            let path = join(style, dirs[i].as_str(), name);
            let ghost before = candidates.take(i as int);
            proof {
                assert(candidates.take(i + 1) =~= before.push(path@));
                before.lemma_filter_push(path@, keep);
            }
            if Self::accepted(option, files, path.as_str()) {
                let ghost kept = texts(res@);
                res.push(path);
                assert(texts(res@) =~= kept.push(candidates[i as int]));
            }
            i += 1;
        }
        assert(candidates.take(dirs.len() as int) == candidates);
        if res.len() == 0 {
            Ok(None)
        } else {
            Ok(Some(res))
        }
    }
}

} // verus!
