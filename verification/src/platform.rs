//! The rules that differ from one operating system to the next, behind one
//! interface. A platform value holds what was read from the process
//! environment; the file system is handed to each call.

use vstd::prelude::*;
use crate::error::path_result;
use crate::error::paths_result;
use crate::error::Error;
use crate::filesystem::agree_on;
use crate::filesystem::FileSystem;
use crate::filesystem::Files;
use crate::location::LocationType;
use crate::path::PathStyle;
use crate::standard_paths::Identity;
use crate::standard_paths::StandardPaths;
use crate::text::texts;

verus! {

/// What an operating system contributes to the resolution of locations and
/// to the search for executables.
pub trait Platform {
    /// The notation of this platform's paths.
    spec fn style(&self) -> PathStyle;

    /// The directory to write files of type `location` to, or why there is
    /// none.
    spec fn writable(&self, id: Identity, location: LocationType, files: Files) -> Result<
        Seq<char>,
        Error,
    >;

    /// The file system after `location` was resolved: it differs from `files`
    /// only where the resolution created or repaired a directory.
    spec fn settled(&self, location: LocationType, files: Files) -> Files;

    /// The directories of type `location` that come after the writable one,
    /// in order of priority.
    spec fn fallbacks(&self, id: Identity, location: LocationType, files: Files) -> Result<
        Seq<Seq<char>>,
        Error,
    >;

    /// The paths that the resolution of `location` looks at: what it returns
    /// and what it changes depends on the file system at these paths only.
    spec fn consulted(&self, location: LocationType) -> Seq<Seq<char>>;

    /// Whether what is at `path` can be executed.
    spec fn executable(&self, files: Files, path: Seq<char>) -> bool;

    /// The form under which the directory `dir` is searched and compared
    /// with others.
    spec fn canonical_directory(&self, files: Files, dir: Seq<char>) -> Seq<char>;

    /// The extensions tried on a name that has none.
    spec fn extensions(&self) -> Seq<Seq<char>>;

    /// Whether the extensions are tried on an absolute name as well.
    spec fn extends_absolute(&self) -> bool;

    /// The directories of the system's search path, where it is set.
    spec fn search_path(&self) -> Option<Seq<Seq<char>>>;

    /// Resolving a location twice in a row gives the same result: on the file
    /// system that a resolution left, the same resolution returns what it
    /// returned before and changes nothing any more.
    proof fn lemma_resolution_is_stable(&self, id: Identity, location: LocationType, files: Files)
        ensures
            self.writable(id, location, self.settled(location, files)) == self.writable(
                id,
                location,
                files,
            ),
            self.settled(location, self.settled(location, files)) == self.settled(location, files),
    ;

    /// A resolution reads only what it consults: on two file systems that
    /// say the same of the consulted paths it returns the same, lists the
    /// same fallbacks, and leaves file systems that still say the same of
    /// those paths.
    proof fn lemma_resolution_reads_what_it_consults(
        &self,
        id: Identity,
        location: LocationType,
        a: Files,
        b: Files,
    )
        requires
            agree_on(a, b, self.consulted(location)),
        ensures
            self.writable(id, location, a) == self.writable(id, location, b),
            self.fallbacks(id, location, self.settled(location, a)) == self.fallbacks(
                id,
                location,
                self.settled(location, b),
            ),
            agree_on(
                self.settled(location, a),
                self.settled(location, b),
                self.consulted(location),
            ),
    ;

    /// The notation of this platform's paths.
    fn path_style(&self) -> (style: PathStyle)
        ensures
            style == self.style(),
    ;

    /// Lists the paths that the resolution of `location` looks at.
    fn consulted_paths(&self, location: LocationType) -> (r: Vec<String>)
        ensures
            texts(r@) == self.consulted(location),
    ;

    /// Resolves the directory to write files of type `location` to.
    fn writable_location_impl(
        &self,
        id: &StandardPaths,
        location: LocationType,
        files: &mut FileSystem,
    ) -> (r: Result<String, Error>)
        ensures
            path_result(r) == self.writable(id@, location, old(files)@),
            final(files)@ == self.settled(location, old(files)@),
    ;

    /// Lists the directories of type `location` that come after the writable
    /// one.
    fn fallback_locations(&self, id: &StandardPaths, location: LocationType, files: &FileSystem) -> (r:
        Result<Vec<String>, Error>)
        ensures
            paths_result(r) == self.fallbacks(id@, location, files@),
    ;

    /// Tests whether what is at `path` can be executed.
    fn is_executable(&self, files: &FileSystem, path: &str) -> (r: bool)
        ensures
            r == self.executable(files@, path@),
    ;

    /// Gives the form under which the directory `dir` is searched.
    fn canonicalize_directory(&self, files: &FileSystem, dir: &str) -> (r: String)
        requires
            crate::filesystem::is_dir(files@, dir@),
        ensures
            r@ == self.canonical_directory(files@, dir@),
    ;

    /// Lists the extensions tried on a name that has none.
    fn executable_extensions(&self) -> (r: Vec<String>)
        ensures
            texts(r@) == self.extensions(),
    ;

    /// Tells whether the extensions are tried on an absolute name as well.
    fn tries_extensions_on_absolute(&self) -> (r: bool)
        ensures
            r == self.extends_absolute(),
    ;

    /// Lists the directories of the system's search path, where it is set.
    fn system_paths(&self) -> (r: Option<Vec<String>>)
        ensures
            crate::error::found_paths(r) == self.search_path(),
    ;
}

} // verus!
