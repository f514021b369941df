use standard_paths::posix::lookup_user_directory;
use standard_paths::posix::parse_assignment;
use standard_paths::Entry;
use standard_paths::Error;
use standard_paths::FileSystem;
use standard_paths::LocationType;
use standard_paths::Posix;
use standard_paths::StandardPaths;

fn env() -> Posix {
    let mut env = Posix::new("/tmp", 1000);
    env.home = Some("/home/alice".to_string());
    env.user_name = Some("alice".to_string());
    env
}

fn writable(sp: &StandardPaths, env: &Posix, location: LocationType) -> Result<String, Error> {
    let mut fs = FileSystem::new();
    sp.writable_location(location, env, &mut fs)
}

#[test]
fn home_is_the_home_directory() {
    let sp = StandardPaths::new("app", "org");
    assert_eq!(writable(&sp, &env(), LocationType::HomeLocation), Ok("/home/alice".to_string()));
}

#[test]
fn home_unknown_is_not_found() {
    let sp = StandardPaths::new("app", "org");
    let env = Posix::new("/tmp", 1000);
    assert_eq!(writable(&sp, &env, LocationType::HomeLocation), Err(Error::NotFound));
    assert_eq!(writable(&sp, &env, LocationType::AppCacheLocation), Err(Error::NotFound));
    assert_eq!(writable(&sp, &env, LocationType::DesktopLocation), Err(Error::NotFound));
    assert_eq!(StandardPaths::home_dir_err(), Error::NotFound);
}

#[test]
fn temp_is_the_temp_directory() {
    let sp = StandardPaths::new("app", "org");
    assert_eq!(writable(&sp, &env(), LocationType::TempLocation), Ok("/tmp".to_string()));
}

#[test]
fn cache_defaults_to_dot_cache() {
    let sp = StandardPaths::new("app", "org");
    assert_eq!(
        writable(&sp, &env(), LocationType::GenericCacheLocation),
        Ok("/home/alice/.cache".to_string())
    );
    assert_eq!(
        writable(&sp, &env(), LocationType::AppCacheLocation),
        Ok("/home/alice/.cache/org/app".to_string())
    );
}

#[test]
fn cache_follows_xdg_cache_home() {
    let sp = StandardPaths::new("app", "org");
    let mut env = env();
    env.cache_home = Some("/var/cache/alice".to_string());
    assert_eq!(
        writable(&sp, &env, LocationType::GenericCacheLocation),
        Ok("/var/cache/alice".to_string())
    );
    assert_eq!(
        writable(&sp, &env, LocationType::AppCacheLocation),
        Ok("/var/cache/alice/org/app".to_string())
    );
}

#[test]
fn data_defaults_to_local_share() {
    let sp = StandardPaths::new("app", "org");
    assert_eq!(
        writable(&sp, &env(), LocationType::GenericDataLocation),
        Ok("/home/alice/.local/share".to_string())
    );
    assert_eq!(
        writable(&sp, &env(), LocationType::AppDataLocation),
        Ok("/home/alice/.local/share/org/app".to_string())
    );
    assert_eq!(
        writable(&sp, &env(), LocationType::AppLocalDataLocation),
        Ok("/home/alice/.local/share/org/app".to_string())
    );
}

#[test]
fn data_follows_xdg_data_home_without_home() {
    let sp = StandardPaths::new("app", "org");
    let mut env = Posix::new("/tmp", 1000);
    env.data_home = Some("/data".to_string());
    assert_eq!(writable(&sp, &env, LocationType::GenericDataLocation), Ok("/data".to_string()));
    assert_eq!(writable(&sp, &env, LocationType::AppDataLocation), Ok("/data/org/app".to_string()));
    assert_eq!(writable(&sp, &env, LocationType::FontsLocation), Ok("/data/fonts".to_string()));
    assert_eq!(
        writable(&sp, &env, LocationType::ApplicationsLocation),
        Ok("/data/applications".to_string())
    );
}

#[test]
fn config_kinds() {
    let sp = StandardPaths::new("app", "org");
    assert_eq!(
        writable(&sp, &env(), LocationType::ConfigLocation),
        Ok("/home/alice/.config".to_string())
    );
    assert_eq!(
        writable(&sp, &env(), LocationType::GenericConfigLocation),
        Ok("/home/alice/.config".to_string())
    );
    assert_eq!(
        writable(&sp, &env(), LocationType::AppConfigLocation),
        Ok("/home/alice/.config/org/app".to_string())
    );
    let mut env = env();
    env.config_home = Some("/etc/alice".to_string());
    assert_eq!(
        writable(&sp, &env, LocationType::AppConfigLocation),
        Ok("/etc/alice/org/app".to_string())
    );
}

#[test]
fn fonts_and_applications_lie_in_the_data_directory() {
    let sp = StandardPaths::new("app", "org");
    assert_eq!(
        writable(&sp, &env(), LocationType::FontsLocation),
        Ok("/home/alice/.local/share/fonts".to_string())
    );
    assert_eq!(
        writable(&sp, &env(), LocationType::ApplicationsLocation),
        Ok("/home/alice/.local/share/applications".to_string())
    );
}

#[test]
fn empty_organization_adds_no_segment() {
    let sp = StandardPaths::without_org("app");
    assert_eq!(
        writable(&sp, &env(), LocationType::AppConfigLocation),
        Ok("/home/alice/.config/app".to_string())
    );
    let sp = StandardPaths::new("app", "");
    assert_eq!(
        writable(&sp, &env(), LocationType::AppConfigLocation),
        Ok("/home/alice/.config/app".to_string())
    );
}

#[test]
fn empty_application_adds_no_segment() {
    let sp = StandardPaths::new("", "org");
    assert_eq!(
        writable(&sp, &env(), LocationType::AppDataLocation),
        Ok("/home/alice/.local/share/org".to_string())
    );
    let sp = StandardPaths::new("", "");
    assert_eq!(
        writable(&sp, &env(), LocationType::AppDataLocation),
        Ok("/home/alice/.local/share".to_string())
    );
}

#[test]
fn append_organization_and_app_on_a_path() {
    let sp = StandardPaths::new("app", "org");
    let mut path = "/home/alice/.config".to_string();
    sp.append_organization_and_app(standard_paths::PathStyle::Posix, &mut path);
    assert_eq!(path, "/home/alice/.config/org/app");
    let mut path = "/".to_string();
    sp.append_organization_and_app(standard_paths::PathStyle::Posix, &mut path);
    assert_eq!(path, "/org/app");
    let mut path = "C:\\Users\\alice".to_string();
    sp.append_organization_and_app(standard_paths::PathStyle::Windows, &mut path);
    assert_eq!(path, "C:\\Users\\alice\\org\\app");
}

#[test]
fn writable_location_twice_gives_the_same_path() {
    let sp = StandardPaths::new("app", "org");
    let env = env();
    let all = [
        LocationType::HomeLocation,
        LocationType::DesktopLocation,
        LocationType::DocumentsLocation,
        LocationType::DownloadLocation,
        LocationType::MoviesLocation,
        LocationType::MusicLocation,
        LocationType::PicturesLocation,
        LocationType::ApplicationsLocation,
        LocationType::FontsLocation,
        LocationType::RuntimeLocation,
        LocationType::TempLocation,
        LocationType::GenericDataLocation,
        LocationType::AppDataLocation,
        LocationType::AppLocalDataLocation,
        LocationType::GenericCacheLocation,
        LocationType::AppCacheLocation,
        LocationType::ConfigLocation,
        LocationType::GenericConfigLocation,
        LocationType::AppConfigLocation,
    ];
    for location in all {
        let mut fs = FileSystem::new();
        let first = sp.writable_location(location, &env, &mut fs);
        let second = sp.writable_location(location, &env, &mut fs);
        assert!(first.is_ok());
        assert_eq!(first, second);
    }
}

#[test]
fn desktop_from_user_dirs_file() {
    let sp = StandardPaths::new("app", "org");
    let mut fs = FileSystem::new();
    fs.insert(
        Entry::file("/home/alice/.config/user-dirs.dirs", 0o644, 1000)
            .with_content("XDG_DESKTOP_DIR=\"$HOME/Desktop2\"\n"),
    );
    assert_eq!(
        sp.writable_location(LocationType::DesktopLocation, &env(), &mut fs),
        Ok("/home/alice/Desktop2".to_string())
    );
}

#[test]
fn desktop_without_user_dirs_file() {
    let sp = StandardPaths::new("app", "org");
    assert_eq!(
        writable(&sp, &env(), LocationType::DesktopLocation),
        Ok("/home/alice/Desktop".to_string())
    );
}

#[test]
fn user_directories_default_names() {
    let sp = StandardPaths::new("app", "org");
    let e = env();
    assert_eq!(writable(&sp, &e, LocationType::DocumentsLocation), Ok("/home/alice/Documents".to_string()));
    assert_eq!(writable(&sp, &e, LocationType::PicturesLocation), Ok("/home/alice/Pictures".to_string()));
    assert_eq!(writable(&sp, &e, LocationType::MusicLocation), Ok("/home/alice/Music".to_string()));
    assert_eq!(writable(&sp, &e, LocationType::MoviesLocation), Ok("/home/alice/Videos".to_string()));
    assert_eq!(writable(&sp, &e, LocationType::DownloadLocation), Ok("/home/alice/Downloads".to_string()));
}

#[test]
fn user_dirs_file_full() {
    let sp = StandardPaths::new("app", "org");
    let mut env = env();
    env.config_home = Some("/cfg".to_string());
    let text = "# This file is written by xdg-user-dirs-update\n\
                XDG_DESKTOP_DIR=\"$HOME/Bureau\"\r\n\
                XDG_DOWNLOAD_DIR=\"$HOME/Incoming\"\n\
                XDG_DOCUMENTS_DIR=\"/srv/docs\"\n\
                XDG_MUSIC_DIR=$HOME/Tunes\n\
                XDG_PICTURES_DIR=\"$HOME/First\"\n\
                XDG_PICTURES_DIR=\"$HOME/Second\"\n\
                XDG_VIDEOS_DIR=\"$HOME/\"\n";
    let mut fs = FileSystem::new();
    fs.insert(Entry::file("/cfg/user-dirs.dirs", 0o644, 1000).with_content(text));
    assert_eq!(
        sp.writable_location(LocationType::DesktopLocation, &env, &mut fs),
        Ok("/home/alice/Bureau".to_string())
    );
    assert_eq!(
        sp.writable_location(LocationType::DownloadLocation, &env, &mut fs),
        Ok("/home/alice/Incoming".to_string())
    );
    assert_eq!(
        sp.writable_location(LocationType::DocumentsLocation, &env, &mut fs),
        Ok("/srv/docs".to_string())
    );
    assert_eq!(
        sp.writable_location(LocationType::MusicLocation, &env, &mut fs),
        Ok("/home/alice/Tunes".to_string())
    );
    assert_eq!(
        sp.writable_location(LocationType::PicturesLocation, &env, &mut fs),
        Ok("/home/alice/Second".to_string())
    );
    assert_eq!(
        sp.writable_location(LocationType::MoviesLocation, &env, &mut fs),
        Ok("/home/alice/".to_string())
    );
}

#[test]
fn user_dirs_file_without_the_key_falls_back() {
    let sp = StandardPaths::new("app", "org");
    let mut fs = FileSystem::new();
    fs.insert(
        Entry::file("/home/alice/.config/user-dirs.dirs", 0o644, 1000)
            .with_content("XDG_MUSIC_DIR=\"$HOME/Tunes\"\nnonsense\nXDG=\n"),
    );
    assert_eq!(
        sp.writable_location(LocationType::DesktopLocation, &env(), &mut fs),
        Ok("/home/alice/Desktop".to_string())
    );
}

#[test]
fn user_dirs_file_that_is_a_directory_or_unread_falls_back() {
    let sp = StandardPaths::new("app", "org");
    let mut fs = FileSystem::new();
    fs.insert(Entry::directory("/home/alice/.config/user-dirs.dirs", 0o755, 1000));
    assert_eq!(
        sp.writable_location(LocationType::DesktopLocation, &env(), &mut fs),
        Ok("/home/alice/Desktop".to_string())
    );
    let mut fs = FileSystem::new();
    fs.insert(Entry::file("/home/alice/.config/user-dirs.dirs", 0o000, 1000));
    assert_eq!(
        sp.writable_location(LocationType::DesktopLocation, &env(), &mut fs),
        Ok("/home/alice/Desktop".to_string())
    );
}

#[test]
fn user_dirs_value_with_home_token_needs_home() {
    let sp = StandardPaths::new("app", "org");
    let mut env = Posix::new("/tmp", 1000);
    env.config_home = Some("/cfg".to_string());
    let mut fs = FileSystem::new();
    fs.insert(
        Entry::file("/cfg/user-dirs.dirs", 0o644, 1000)
            .with_content("XDG_DESKTOP_DIR=\"$HOME/Desktop\"\nXDG_MUSIC_DIR=\"/music\"\n"),
    );
    assert_eq!(
        sp.writable_location(LocationType::DesktopLocation, &env, &mut fs),
        Err(Error::NotFound)
    );
    assert_eq!(
        sp.writable_location(LocationType::MusicLocation, &env, &mut fs),
        Ok("/music".to_string())
    );
    assert_eq!(
        sp.writable_location(LocationType::PicturesLocation, &env, &mut fs),
        Err(Error::NotFound)
    );
}

#[test]
fn parse_assignment_cases() {
    assert_eq!(
        parse_assignment("XDG_DESKTOP_DIR=\"$HOME/Desktop\""),
        Some(("DESKTOP".to_string(), "$HOME/Desktop".to_string()))
    );
    assert_eq!(
        parse_assignment("XDG_DESKTOP_DIR=plain"),
        Some(("DESKTOP".to_string(), "plain".to_string()))
    );
    assert_eq!(
        parse_assignment("XDG_X_DIR=\"a=b\""),
        Some(("X".to_string(), "a=b".to_string()))
    );
    assert_eq!(
        parse_assignment("XDG_X_DIR=a=b"),
        Some(("X".to_string(), "a=b".to_string()))
    );
    assert_eq!(parse_assignment("XDG__DIR=\"\""), Some(("".to_string(), "".to_string())));
    assert_eq!(parse_assignment("XDG_X_DIR=\""), Some(("X".to_string(), "\"".to_string())));
    assert_eq!(parse_assignment("XDG_X_DIR="), Some(("X".to_string(), "".to_string())));
    assert_eq!(parse_assignment("XDG_DESKTOP_DIR"), None);
    assert_eq!(parse_assignment("XDG_DIR=x"), None);
    assert_eq!(parse_assignment("# XDG_DESKTOP_DIR=x"), None);
    assert_eq!(parse_assignment(""), None);
}

#[test]
fn lookup_user_directory_takes_the_last_assignment() {
    assert_eq!(
        lookup_user_directory("XDG_A_DIR=1\nXDG_B_DIR=2\nXDG_A_DIR=3", "A"),
        Some("3".to_string())
    );
    assert_eq!(lookup_user_directory("XDG_A_DIR=1\nXDG_B_DIR=2\n", "C"), None);
    assert_eq!(lookup_user_directory("", "A"), None);
}

#[test]
fn user_directory_of_another_kind_is_unexpected() {
    let fs = FileSystem::new();
    assert_eq!(env().user_directory(LocationType::HomeLocation, &fs), Err(Error::Unexpected));
    assert_eq!(env().user_directory(LocationType::AppConfigLocation, &fs), Err(Error::Unexpected));
}

#[test]
fn user_dirs_value_with_an_equals_sign_is_kept_whole() {
    let sp = StandardPaths::new("app", "org");
    let mut fs = FileSystem::new();
    fs.insert(
        Entry::file("/home/alice/.config/user-dirs.dirs", 0o644, 1000)
            .with_content("XDG_DESKTOP_DIR=\"/a=b\"\nXDG_MUSIC_DIR=\"\"\n"),
    );
    assert_eq!(
        sp.writable_location(LocationType::DesktopLocation, &env(), &mut fs),
        Ok("/a=b".to_string())
    );
    assert_eq!(
        sp.writable_location(LocationType::MusicLocation, &env(), &mut fs),
        Ok("".to_string())
    );
}
