//! Standard locations of the local file system (configuration, cache, user
//! directories and the like) and a search for executables and named entries
//! across them.
//!
//! The library decides; it does not read the environment or the disk. A
//! caller hands it what the process sees of its environment (a [`Posix`] or
//! a [`Windows`] value, both a [`Platform`]) and what is known of the file
//! system (a [`FileSystem`]). `for_current_user` starts such an environment
//! with what the operating system says of the user, and
//! [`Platform::consulted_paths`] tells which paths a location depends on.
//! Every query of [`StandardPaths`] is a function of these values, with a
//! contract that says which, and the one change that a query makes, to the
//! runtime directory, is a change of the `FileSystem` value.

pub mod error;
pub mod executable;
pub mod filesystem;
pub mod location;
pub mod path;
pub mod platform;
pub mod posix;
pub mod standard_paths;
mod system;
pub mod text;
pub mod windows;

pub use error::Error;
pub use filesystem::Entry;
pub use filesystem::EntryKind;
pub use filesystem::FileSystem;
pub use location::LocateOption;
pub use location::LocationType;
pub use path::PathStyle;
pub use platform::Platform;
pub use posix::Posix;
pub use standard_paths::StandardPaths;
pub use windows::KnownFolder;
pub use windows::Windows;
