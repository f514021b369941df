use standard_paths::windows::choose_extensions;
use standard_paths::windows::default_extension_list;
use standard_paths::windows::extension_after_dot;
use standard_paths::windows::parent_directory;
use standard_paths::windows::parse_extensions;
use standard_paths::windows::split_list;
use standard_paths::windows::strip_verbatim_prefix;
use standard_paths::Entry;
use standard_paths::Error;
use standard_paths::FileSystem;
use standard_paths::KnownFolder;
use standard_paths::LocateOption;
use standard_paths::LocationType;
use standard_paths::Platform;
use standard_paths::StandardPaths;
use standard_paths::Windows;

fn list(items: &[&str]) -> Vec<String> {
    items.iter().map(|s| s.to_string()).collect()
}

fn windows() -> Windows {
    let mut env = Windows::new("C:\\Users\\alice\\AppData\\Local\\Temp");
    env.home = Some("C:\\Users\\alice".to_string());
    env.desktop = Some("C:\\Users\\alice\\Desktop".to_string());
    env.documents = Some("C:\\Users\\alice\\Documents".to_string());
    env.fonts = Some("C:\\Windows\\Fonts".to_string());
    env.programs = Some("C:\\Users\\alice\\Start Menu\\Programs".to_string());
    env.music = Some("C:\\Users\\alice\\Music".to_string());
    env.videos = Some("C:\\Users\\alice\\Videos".to_string());
    env.pictures = Some("C:\\Users\\alice\\Pictures".to_string());
    env.downloads = Some("C:\\Users\\alice\\Downloads".to_string());
    env.local_app_data = Some("C:\\Users\\alice\\AppData\\Local".to_string());
    env.roaming_app_data = Some("C:\\Users\\alice\\AppData\\Roaming".to_string());
    env.program_data = Some("C:\\ProgramData".to_string());
    env.current_exe = Some("C:\\Program Files\\App\\app.exe".to_string());
    env
}

fn resolve(sp: &StandardPaths, env: &Windows, location: LocationType) -> Result<String, Error> {
    let mut fs = FileSystem::new();
    sp.writable_location(location, env, &mut fs)
}

#[test]
fn windows_known_folders() {
    let sp = StandardPaths::new("app", "org");
    let env = windows();
    assert_eq!(resolve(&sp, &env, LocationType::DesktopLocation), Ok("C:\\Users\\alice\\Desktop".to_string()));
    assert_eq!(resolve(&sp, &env, LocationType::DocumentsLocation), Ok("C:\\Users\\alice\\Documents".to_string()));
    assert_eq!(resolve(&sp, &env, LocationType::FontsLocation), Ok("C:\\Windows\\Fonts".to_string()));
    assert_eq!(
        resolve(&sp, &env, LocationType::ApplicationsLocation),
        Ok("C:\\Users\\alice\\Start Menu\\Programs".to_string())
    );
    assert_eq!(resolve(&sp, &env, LocationType::MusicLocation), Ok("C:\\Users\\alice\\Music".to_string()));
    assert_eq!(resolve(&sp, &env, LocationType::MoviesLocation), Ok("C:\\Users\\alice\\Videos".to_string()));
    assert_eq!(resolve(&sp, &env, LocationType::PicturesLocation), Ok("C:\\Users\\alice\\Pictures".to_string()));
    assert_eq!(resolve(&sp, &env, LocationType::DownloadLocation), Ok("C:\\Users\\alice\\Downloads".to_string()));
}

#[test]
fn windows_data_and_config() {
    let sp = StandardPaths::new("app", "org");
    let env = windows();
    let local = "C:\\Users\\alice\\AppData\\Local";
    assert_eq!(resolve(&sp, &env, LocationType::GenericDataLocation), Ok(local.to_string()));
    assert_eq!(resolve(&sp, &env, LocationType::GenericConfigLocation), Ok(local.to_string()));
    assert_eq!(resolve(&sp, &env, LocationType::AppLocalDataLocation), Ok(format!("{}\\org\\app", local)));
    assert_eq!(resolve(&sp, &env, LocationType::ConfigLocation), Ok(format!("{}\\org\\app", local)));
    assert_eq!(resolve(&sp, &env, LocationType::AppConfigLocation), Ok(format!("{}\\org\\app", local)));
    assert_eq!(
        resolve(&sp, &env, LocationType::AppDataLocation),
        Ok("C:\\Users\\alice\\AppData\\Roaming\\org\\app".to_string())
    );
    let sp = StandardPaths::without_org("app");
    assert_eq!(resolve(&sp, &env, LocationType::AppConfigLocation), Ok(format!("{}\\app", local)));
}

#[test]
fn windows_caches_lie_below_the_data_directories() {
    let sp = StandardPaths::new("app", "org");
    let env = windows();
    assert_eq!(
        resolve(&sp, &env, LocationType::AppCacheLocation),
        Ok("C:\\Users\\alice\\AppData\\Local\\org\\app\\cache".to_string())
    );
    assert_eq!(
        resolve(&sp, &env, LocationType::GenericCacheLocation),
        Ok("C:\\Users\\alice\\AppData\\Local\\cache".to_string())
    );
}

#[test]
fn windows_home_and_runtime() {
    let sp = StandardPaths::new("app", "org");
    let env = windows();
    assert_eq!(resolve(&sp, &env, LocationType::HomeLocation), Ok("C:\\Users\\alice".to_string()));
    assert_eq!(resolve(&sp, &env, LocationType::RuntimeLocation), Ok("C:\\Users\\alice".to_string()));
    let bare = Windows::new("C:\\Temp");
    assert_eq!(resolve(&sp, &bare, LocationType::HomeLocation), Err(Error::NotFound));
    assert_eq!(resolve(&sp, &bare, LocationType::RuntimeLocation), Err(Error::NotFound));
}

#[test]
fn windows_download_falls_back_to_documents() {
    let sp = StandardPaths::new("app", "org");
    let mut env = windows();
    env.downloads = None;
    assert_eq!(resolve(&sp, &env, LocationType::DownloadLocation), Ok("C:\\Users\\alice\\Documents".to_string()));
    env.documents = None;
    assert_eq!(resolve(&sp, &env, LocationType::DownloadLocation), Err(Error::NotFound));
}

#[test]
fn windows_unknown_folder_is_not_found() {
    let sp = StandardPaths::new("app", "org");
    let env = Windows::new("C:\\Temp");
    assert_eq!(resolve(&sp, &env, LocationType::DesktopLocation), Err(Error::NotFound));
    assert_eq!(resolve(&sp, &env, LocationType::AppCacheLocation), Err(Error::NotFound));
    assert_eq!(resolve(&sp, &env, LocationType::AppDataLocation), Err(Error::NotFound));
}

#[test]
fn windows_folder_location_of_a_type_without_folder_is_unexpected() {
    let sp = StandardPaths::new("app", "org");
    let env = windows();
    assert_eq!(env.folder_location(&sp, LocationType::HomeLocation), Err(Error::Unexpected));
    assert_eq!(env.folder_location(&sp, LocationType::TempLocation), Err(Error::Unexpected));
    assert_eq!(env.folder_location(&sp, LocationType::AppCacheLocation), Err(Error::Unexpected));
    assert_eq!(Windows::known_folder(LocationType::RuntimeLocation), None);
    assert_eq!(Windows::known_folder(LocationType::MoviesLocation), Some(KnownFolder::Videos));
    assert_eq!(env.folder_path(KnownFolder::ProgramData), &Some("C:\\ProgramData".to_string()));
}

#[test]
fn windows_temp_is_canonical_without_verbatim_prefix() {
    let sp = StandardPaths::new("app", "org");
    let env = windows();
    let mut fs = FileSystem::new();
    assert_eq!(sp.writable_location(LocationType::TempLocation, &env, &mut fs), Err(Error::Io));
    fs.insert(
        Entry::directory("C:\\Users\\alice\\AppData\\Local\\Temp", 0, 0)
            .with_canonical("\\\\?\\C:\\Users\\alice\\AppData\\Local\\Temp"),
    );
    assert_eq!(
        sp.writable_location(LocationType::TempLocation, &env, &mut fs),
        Ok("C:\\Users\\alice\\AppData\\Local\\Temp".to_string())
    );
}

#[test]
fn verbatim_prefix_is_stripped_only_where_present() {
    assert_eq!(strip_verbatim_prefix("\\\\?\\C:\\x"), "C:\\x");
    assert_eq!(strip_verbatim_prefix("C:\\x"), "C:\\x");
    assert_eq!(strip_verbatim_prefix("\\\\?\\"), "");
    assert_eq!(strip_verbatim_prefix("\\\\?"), "\\\\?");
    assert_eq!(strip_verbatim_prefix(""), "");
}

#[test]
fn parent_directory_cases() {
    assert_eq!(parent_directory("C:\\Program Files\\App\\app.exe"), Some("C:\\Program Files\\App".to_string()));
    assert_eq!(parent_directory("C:\\app.exe"), Some("C:\\".to_string()));
    assert_eq!(parent_directory("\\app.exe"), Some("\\".to_string()));
    assert_eq!(parent_directory("C:/dir/app.exe"), Some("C:/dir".to_string()));
    assert_eq!(parent_directory("app.exe"), Some("".to_string()));
    assert_eq!(parent_directory("C:\\"), None);
    assert_eq!(parent_directory(""), None);
}

#[test]
fn windows_standard_locations() {
    let sp = StandardPaths::new("app", "org");
    let env = windows();
    let mut fs = FileSystem::new();
    assert_eq!(
        sp.standard_locations(LocationType::AppConfigLocation, &env, &mut fs),
        Ok(list(&[
            "C:\\Users\\alice\\AppData\\Local\\org\\app",
            "C:\\ProgramData\\org\\app",
            "C:\\Program Files\\App",
            "C:\\Program Files\\App\\data"
        ]))
    );
    assert_eq!(
        sp.standard_locations(LocationType::GenericDataLocation, &env, &mut fs),
        Ok(list(&[
            "C:\\Users\\alice\\AppData\\Local",
            "C:\\ProgramData",
            "C:\\Program Files\\App",
            "C:\\Program Files\\App\\data"
        ]))
    );
    assert_eq!(
        sp.standard_locations(LocationType::AppDataLocation, &env, &mut fs),
        Ok(list(&[
            "C:\\Users\\alice\\AppData\\Roaming\\org\\app",
            "C:\\ProgramData\\org\\app",
            "C:\\Program Files\\App",
            "C:\\Program Files\\App\\data"
        ]))
    );
}

#[test]
fn windows_standard_locations_of_caches_and_folders_have_no_fallbacks() {
    let sp = StandardPaths::new("app", "org");
    let env = windows();
    let mut fs = FileSystem::new();
    assert_eq!(
        sp.standard_locations(LocationType::AppCacheLocation, &env, &mut fs),
        Ok(list(&["C:\\Users\\alice\\AppData\\Local\\org\\app\\cache"]))
    );
    assert_eq!(
        sp.standard_locations(LocationType::GenericCacheLocation, &env, &mut fs),
        Ok(list(&["C:\\Users\\alice\\AppData\\Local\\cache"]))
    );
    assert_eq!(
        sp.standard_locations(LocationType::DesktopLocation, &env, &mut fs),
        Ok(list(&["C:\\Users\\alice\\Desktop"]))
    );
}

#[test]
fn windows_standard_locations_without_program_data_or_exe() {
    let sp = StandardPaths::new("app", "org");
    let mut env = windows();
    env.program_data = None;
    let mut fs = FileSystem::new();
    assert_eq!(
        sp.standard_locations(LocationType::ConfigLocation, &env, &mut fs),
        Ok(list(&[
            "C:\\Users\\alice\\AppData\\Local\\org\\app",
            "C:\\Program Files\\App",
            "C:\\Program Files\\App\\data"
        ]))
    );
    env.current_exe = None;
    assert_eq!(sp.standard_locations(LocationType::ConfigLocation, &env, &mut fs), Err(Error::Io));
    assert_eq!(
        sp.standard_locations(LocationType::DesktopLocation, &env, &mut fs),
        Ok(list(&["C:\\Users\\alice\\Desktop"]))
    );
    env.local_app_data = None;
    assert_eq!(sp.standard_locations(LocationType::ConfigLocation, &env, &mut fs), Err(Error::NotFound));
}

#[test]
fn windows_locate() {
    let sp = StandardPaths::new("app", "org");
    let env = windows();
    let mut fs = FileSystem::new();
    fs.insert(Entry::file("C:\\Program Files\\App\\data\\settings.toml", 0, 0));
    fs.insert(Entry::file("C:\\ProgramData\\org\\app\\settings.toml", 0, 0));
    assert_eq!(
        sp.locate(LocationType::AppConfigLocation, "settings.toml", LocateOption::LocateFile, &env, &mut fs),
        Ok(Some("C:\\ProgramData\\org\\app\\settings.toml".to_string()))
    );
    assert_eq!(
        sp.locate_all(LocationType::AppConfigLocation, "settings.toml", LocateOption::LocateBoth, &env, &mut fs),
        Ok(Some(list(&[
            "C:\\ProgramData\\org\\app\\settings.toml",
            "C:\\Program Files\\App\\data\\settings.toml"
        ])))
    );
}

#[test]
fn path_ext_is_lowered_and_loses_its_dot() {
    assert_eq!(parse_extensions(".COM;.EXE;.BAT"), list(&["com", "exe", "bat"]));
    assert_eq!(parse_extensions(".Exe;;.Ps1;"), list(&["exe", "ps1"]));
    assert_eq!(parse_extensions(""), list(&[]));
    assert_eq!(extension_after_dot(".exe"), "exe");
    assert_eq!(extension_after_dot(""), "");
}

#[test]
fn extensions_default_unless_exe_is_listed() {
    assert_eq!(default_extension_list(), list(&["exe", "com", "bat", "cmd"]));
    assert_eq!(choose_extensions(list(&["com", "exe"])), list(&["com", "exe"]));
    assert_eq!(choose_extensions(list(&["com", "bat"])), list(&["exe", "com", "bat", "cmd"]));
    assert_eq!(choose_extensions(list(&[])), list(&["exe", "com", "bat", "cmd"]));
    let mut env = windows();
    assert_eq!(env.extensions(), list(&["exe", "com", "bat", "cmd"]));
    env.path_ext = Some(".PS1;.EXE".to_string());
    assert_eq!(env.extensions(), list(&["ps1", "exe"]));
    env.path_ext = Some(".PS1".to_string());
    assert_eq!(env.extensions(), list(&["exe", "com", "bat", "cmd"]));
}

#[test]
fn windows_find_executable_in_directories() {
    let env = windows();
    let mut fs = FileSystem::new();
    fs.insert(Entry::directory("C:\\Tools", 0, 0).with_canonical("\\\\?\\C:\\Tools"));
    fs.insert(Entry::directory("c:\\tools", 0, 0).with_canonical("\\\\?\\C:\\Tools"));
    fs.insert(Entry::directory("D:\\bin", 0, 0).with_canonical("\\\\?\\D:\\bin"));
    fs.insert(Entry::file("C:\\Tools\\run.exe", 0, 0).with_binary(true));
    fs.insert(Entry::file("C:\\Tools\\run.bat", 0, 0).with_binary(true));
    fs.insert(Entry::file("C:\\Tools\\run.txt", 0, 0));
    fs.insert(Entry::file("D:\\bin\\run", 0, 0).with_binary(true));
    fs.insert(Entry::file("D:\\bin\\run.com", 0, 0).with_binary(true));
    let paths = list(&["C:\\Tools", "c:\\tools", "", "E:\\none", "D:\\bin"]);
    assert_eq!(
        StandardPaths::find_executable_in_paths("run", &paths, &env, &fs),
        Some(list(&["D:\\bin\\run", "C:\\Tools\\run.exe", "C:\\Tools\\run.bat", "D:\\bin\\run.com"]))
    );
    assert_eq!(
        StandardPaths::find_executable_in_paths("run.exe", &paths, &env, &fs),
        Some(list(&["C:\\Tools\\run.exe"]))
    );
    assert_eq!(StandardPaths::find_executable_in_paths("run.txt", &paths, &env, &fs), None);
}

#[test]
fn windows_find_executable_absolute() {
    let env = windows();
    let mut fs = FileSystem::new();
    fs.insert(Entry::file("C:\\Tools\\run.exe", 0, 0).with_binary(true));
    fs.insert(Entry::file("C:\\Tools\\run.cmd", 0, 0).with_binary(true));
    fs.insert(Entry::file("C:\\Tools\\other", 0, 0));
    let none = list(&[]);
    assert_eq!(
        StandardPaths::find_executable_in_paths("C:\\Tools\\run.exe", &none, &env, &fs),
        Some(list(&["C:\\Tools\\run.exe"]))
    );
    assert_eq!(
        StandardPaths::find_executable_in_paths("C:\\Tools\\run", &none, &env, &fs),
        Some(list(&["C:\\Tools\\run.exe", "C:\\Tools\\run.cmd"]))
    );
    assert_eq!(
        StandardPaths::find_executable_in_paths("C:\\Tools\\run.txt", &none, &env, &fs),
        Some(list(&["C:\\Tools\\run.exe", "C:\\Tools\\run.cmd"]))
    );
    assert_eq!(StandardPaths::find_executable_in_paths("C:\\Tools\\other", &none, &env, &fs), None);
}

#[test]
fn windows_find_executable_on_the_search_path() {
    let mut env = windows();
    let mut fs = FileSystem::new();
    fs.insert(Entry::directory("C:\\Windows", 0, 0).with_canonical("\\\\?\\C:\\Windows"));
    fs.insert(Entry::file("C:\\Windows\\notepad.exe", 0, 0).with_binary(true));
    assert_eq!(StandardPaths::find_executable("notepad", &env, &fs), None);
    env.path = Some("C:\\Windows;C:\\Windows".to_string());
    env.path_ext = Some(".COM;.EXE".to_string());
    assert_eq!(
        StandardPaths::find_executable("notepad", &env, &fs),
        Some(list(&["C:\\Windows\\notepad.exe"]))
    );
}

#[test]
fn windows_consulted_paths() {
    let env = windows();
    assert_eq!(
        env.consulted_paths(LocationType::TempLocation),
        list(&["C:\\Users\\alice\\AppData\\Local\\Temp"])
    );
    assert_eq!(env.consulted_paths(LocationType::AppConfigLocation), list(&[]));
}

#[test]
fn windows_environment_of_the_current_user_knows_no_folder() {
    let env = Windows::for_current_user("C:\\Temp");
    assert_eq!(env.temp_dir, "C:\\Temp");
    assert!(env.desktop.is_none());
    assert!(env.local_app_data.is_none());
    assert!(env.program_data.is_none());
    assert!(env.current_exe.is_none());
    assert!(env.path_ext.is_none());
    assert!(env.path.is_none());
    let sp = StandardPaths::new("app", "org");
    assert_eq!(resolve(&sp, &env, LocationType::HomeLocation).ok(), env.home);
    assert_eq!(resolve(&sp, &env, LocationType::DesktopLocation), Err(Error::NotFound));
}

#[test]
fn lists_split_at_semicolons_outside_double_quotes() {
    assert_eq!(split_list("c:\\foo;c:\\som\"e;di\"r;c:\\bar"), list(&["c:\\foo", "c:\\some;dir", "c:\\bar"]));
    assert_eq!(split_list(""), list(&[""]));
    assert_eq!(split_list(";"), list(&["", ""]));
    assert_eq!(split_list("a;"), list(&["a", ""]));
    assert_eq!(split_list("\"a;b\""), list(&["a;b"]));
    assert_eq!(split_list("\"a;b"), list(&["a;b"]));
    assert_eq!(split_list("a\"\"b;c"), list(&["ab", "c"]));
    assert_eq!(parse_extensions(".EXE;\".B;T\""), list(&["exe", "b;t"]));
}

#[test]
fn windows_search_path_with_a_quoted_directory() {
    let mut env = windows();
    env.path = Some("\"C:\\Odd;Dir\";C:\\Windows".to_string());
    let mut fs = FileSystem::new();
    fs.insert(Entry::directory("C:\\Odd;Dir", 0, 0));
    fs.insert(Entry::file("C:\\Odd;Dir\\tool.exe", 0, 0).with_binary(true));
    assert_eq!(
        StandardPaths::find_executable("tool", &env, &fs),
        Some(list(&["C:\\Odd;Dir\\tool.exe"]))
    );
}
