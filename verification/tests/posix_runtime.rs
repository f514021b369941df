use standard_paths::Entry;
use standard_paths::EntryKind;
use standard_paths::Error;
use standard_paths::FileSystem;
use standard_paths::LocationType;
use standard_paths::Platform;
use standard_paths::Posix;
use standard_paths::StandardPaths;

fn runtime_env() -> Posix {
    let mut env = Posix::new("/tmp", 1000);
    env.home = Some("/home/alice".to_string());
    env.user_name = Some("alice".to_string());
    env.runtime_dir = Some("/run/user/1000".to_string());
    env
}

#[test]
fn runtime_with_wrong_mode_is_repaired() {
    let sp = StandardPaths::new("app", "org");
    let mut fs = FileSystem::new();
    fs.insert(Entry::directory("/run/user/1000", 0o755, 1000));
    let r = sp.writable_location(LocationType::RuntimeLocation, &runtime_env(), &mut fs);
    assert_eq!(r, Ok("/run/user/1000".to_string()));
    let entry = fs.metadata("/run/user/1000").unwrap();
    assert_eq!(entry.mode, 0o700);
    assert_eq!(entry.owner, 1000);
    assert_eq!(entry.kind, EntryKind::Directory);
}

#[test]
fn runtime_of_another_user_is_refused_whatever_its_mode() {
    let sp = StandardPaths::new("app", "org");
    for mode in [0o700u32, 0o755, 0o777, 0o000] {
        let mut fs = FileSystem::new();
        fs.insert(Entry::directory("/run/user/1000", mode, 1001));
        let r = sp.writable_location(LocationType::RuntimeLocation, &runtime_env(), &mut fs);
        assert_eq!(r, Err(Error::PermissionDenied));
        assert_eq!(fs.metadata("/run/user/1000").unwrap().mode, mode);
    }
}

#[test]
fn runtime_with_right_mode_is_left_alone() {
    let sp = StandardPaths::new("app", "org");
    let mut fs = FileSystem::new();
    fs.insert(Entry::directory("/run/user/1000", 0o700, 1000));
    let r = sp.writable_location(LocationType::RuntimeLocation, &runtime_env(), &mut fs);
    assert_eq!(r, Ok("/run/user/1000".to_string()));
    assert_eq!(fs.metadata("/run/user/1000").unwrap().mode, 0o700);
}

#[test]
fn runtime_falls_back_to_temp_and_is_created() {
    let sp = StandardPaths::new("app", "org");
    let mut env = runtime_env();
    env.runtime_dir = None;
    let mut fs = FileSystem::new();
    assert!(!fs.contains("/tmp/runtime-alice"));
    let r = sp.writable_location(LocationType::RuntimeLocation, &env, &mut fs);
    assert_eq!(r, Ok("/tmp/runtime-alice".to_string()));
    assert!(fs.is_dir("/tmp/runtime-alice"));
    let entry = fs.metadata("/tmp/runtime-alice").unwrap();
    assert_eq!(entry.mode, 0o700);
    assert_eq!(entry.owner, 1000);
    let again = sp.writable_location(LocationType::RuntimeLocation, &env, &mut fs);
    assert_eq!(again, Ok("/tmp/runtime-alice".to_string()));
}

#[test]
fn runtime_variable_that_names_no_directory_falls_back() {
    let sp = StandardPaths::new("app", "org");
    let mut fs = FileSystem::new();
    fs.insert(Entry::file("/run/user/1000", 0o700, 1000));
    fs.insert(Entry::directory("/tmp/runtime-alice", 0o750, 1000));
    let r = sp.writable_location(LocationType::RuntimeLocation, &runtime_env(), &mut fs);
    assert_eq!(r, Ok("/tmp/runtime-alice".to_string()));
    assert_eq!(fs.metadata("/tmp/runtime-alice").unwrap().mode, 0o700);
    assert_eq!(fs.metadata("/run/user/1000").unwrap().mode, 0o700);
    assert!(fs.is_file("/run/user/1000"));
}

#[test]
fn runtime_fallback_that_is_a_file_is_an_io_error() {
    let sp = StandardPaths::new("app", "org");
    let mut env = runtime_env();
    env.runtime_dir = None;
    let mut fs = FileSystem::new();
    fs.insert(Entry::file("/tmp/runtime-alice", 0o600, 1000));
    let r = sp.writable_location(LocationType::RuntimeLocation, &env, &mut fs);
    assert_eq!(r, Err(Error::Io));
}

#[test]
fn runtime_without_user_name_is_not_found() {
    let sp = StandardPaths::new("app", "org");
    let mut env = runtime_env();
    env.runtime_dir = None;
    env.user_name = None;
    let mut fs = FileSystem::new();
    let r = sp.writable_location(LocationType::RuntimeLocation, &env, &mut fs);
    assert_eq!(r, Err(Error::NotFound));
    assert_eq!(env.runtime_candidate(&fs), Err(Error::NotFound));
}

#[test]
fn runtime_directory_called_directly() {
    let env = runtime_env();
    let mut fs = FileSystem::new();
    fs.insert(Entry::directory("/run/user/1000", 0o711, 1000));
    assert_eq!(env.runtime_candidate(&fs), Ok("/run/user/1000".to_string()));
    assert_eq!(env.runtime_directory(&mut fs), Ok("/run/user/1000".to_string()));
    assert_eq!(fs.metadata("/run/user/1000").unwrap().mode, 0o700);
}

#[test]
fn consulted_paths_of_the_runtime_directory() {
    use_platform_consulted(
        &runtime_env(),
        LocationType::RuntimeLocation,
        &["/run/user/1000", "/tmp/runtime-alice"],
    );
    let mut env = runtime_env();
    env.runtime_dir = None;
    use_platform_consulted(&env, LocationType::RuntimeLocation, &["/tmp/runtime-alice"]);
    env.user_name = None;
    use_platform_consulted(&env, LocationType::RuntimeLocation, &[]);
}

#[test]
fn consulted_paths_of_other_locations() {
    let mut env = runtime_env();
    use_platform_consulted(&env, LocationType::HomeLocation, &[]);
    use_platform_consulted(&env, LocationType::AppConfigLocation, &[]);
    use_platform_consulted(
        &env,
        LocationType::DesktopLocation,
        &["/home/alice/.config/user-dirs.dirs"],
    );
    use_platform_consulted(&env, LocationType::GenericDataLocation, &[]);
    env.data_dirs = Some("/a:/a:/b:/a".to_string());
    use_platform_consulted(&env, LocationType::GenericDataLocation, &["/a", "/b"]);
    use_platform_consulted(&env, LocationType::ApplicationsLocation, &["/a", "/b"]);
}

fn use_platform_consulted(env: &Posix, location: LocationType, expected: &[&str]) {
    let expected: Vec<String> = expected.iter().map(|s| s.to_string()).collect();
    assert_eq!(env.consulted_paths(location), expected);
}

#[test]
fn environment_of_the_current_user_sets_no_variable() {
    let env = Posix::for_current_user("/tmp");
    assert_eq!(env.temp_dir, "/tmp");
    assert!(env.cache_home.is_none());
    assert!(env.data_home.is_none());
    assert!(env.config_home.is_none());
    assert!(env.runtime_dir.is_none());
    assert!(env.config_dirs.is_none());
    assert!(env.data_dirs.is_none());
    assert!(env.path.is_none());
    let sp = StandardPaths::new("app", "org");
    let mut fs = FileSystem::new();
    assert_eq!(
        sp.writable_location(LocationType::TempLocation, &env, &mut fs),
        Ok("/tmp".to_string())
    );
    assert_eq!(
        sp.writable_location(LocationType::HomeLocation, &env, &mut fs).ok(),
        env.home
    );
    let runtime = sp.writable_location(LocationType::RuntimeLocation, &env, &mut fs);
    match &env.user_name {
        Some(name) => {
            assert_eq!(runtime, Ok(format!("/tmp/runtime-{}", name)));
            assert_eq!(fs.metadata(&format!("/tmp/runtime-{}", name)).unwrap().owner, env.user_id);
        }
        None => assert_eq!(runtime, Err(Error::NotFound)),
    }
}
