use vstd::prelude::*;

verus! {

/// The roles a standard directory can play.
///
/// Some of the values stand for user-specific directories, some for
/// application-specific ones and some for system-wide ones.
#[derive(Debug, Clone, Copy, PartialEq, Eq, Structural)]
pub enum LocationType {
    /// The user's home directory.
    HomeLocation,
    /// The user's desktop directory.
    DesktopLocation,
    /// The user's documents directory.
    DocumentsLocation,
    /// The directory for the user's downloaded files.
    DownloadLocation,
    /// The user's movies and videos directory.
    MoviesLocation,
    /// The user's music, recordings and other audio files directory.
    MusicLocation,
    /// The user's pictures, photos and screenshots directory.
    PicturesLocation,
    /// The user's applications directory.
    ApplicationsLocation,
    /// The user's fonts directory.
    FontsLocation,
    /// The directory for the runtime communication files (like local sockets).
    RuntimeLocation,
    /// A directory for storing temporary files.
    TempLocation,
    /// The directory for the persistent data shared across applications.
    GenericDataLocation,
    /// The persistent application data directory.
    AppDataLocation,
    /// The local settings directory of the application.
    AppLocalDataLocation,
    /// The directory for the user-specific cached data shared across applications.
    GenericCacheLocation,
    /// The user-specific cached data directory of the application.
    AppCacheLocation,
    /// The user-specific configuration files directory.
    ConfigLocation,
    /// The user-specific configuration files directory shared between applications.
    GenericConfigLocation,
    /// The user-specific configuration files directory of the application.
    AppConfigLocation,
}

/// The kind of entry a search accepts.
#[derive(Debug, Clone, Copy, PartialEq, Eq, Structural)]
pub enum LocateOption {
    /// Locate both files and directories.
    LocateBoth,
    /// Locate only files.
    LocateFile,
    /// Locate only directories.
    LocateDirectory,
}

} // verus!
