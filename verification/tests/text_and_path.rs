use standard_paths::path::has_extension;
use standard_paths::path::is_absolute;
use standard_paths::path::join;
use standard_paths::path::with_extension;
use standard_paths::text::chars_of;
use standard_paths::text::followed_by;
use standard_paths::text::contains_text;
use standard_paths::text::without_repeats;
use standard_paths::text::find_from;
use standard_paths::text::find_last;
use standard_paths::text::same_text;
use standard_paths::text::split_text;
use standard_paths::text::starts_with;
use standard_paths::text::substring;
use standard_paths::Entry;
use standard_paths::EntryKind;
use standard_paths::FileSystem;
use standard_paths::PathStyle;

fn owned(items: &[&str]) -> Vec<String> {
    items.iter().map(|s| s.to_string()).collect()
}

#[test]
fn split_text_cases() {
    assert_eq!(split_text("a:b:c", ':'), owned(&["a", "b", "c"]));
    assert_eq!(split_text("", ':'), owned(&[""]));
    assert_eq!(split_text(":", ':'), owned(&["", ""]));
    assert_eq!(split_text("a::b:", ':'), owned(&["a", "", "b", ""]));
    assert_eq!(split_text("no separator", ':'), owned(&["no separator"]));
    assert_eq!(split_text("é:ü", ':'), owned(&["é", "ü"]));
}

#[test]
fn without_repeats_cases() {
    assert_eq!(without_repeats(&owned(&["a", "a", "b", "a", "c", "b"])), owned(&["a", "b", "c"]));
    assert_eq!(without_repeats(&owned(&[])), owned(&[]));
    assert_eq!(without_repeats(&owned(&["x"])), owned(&["x"]));
}

#[test]
fn small_text_helpers() {
    assert_eq!(chars_of("héllo"), vec!['h', 'é', 'l', 'l', 'o']);
    assert_eq!(substring("héllo", 1, 3), "él");
    assert_eq!(substring("héllo", 2, 2), "");
    assert_eq!(followed_by("ab", "cd"), "abcd");
    assert!(same_text("a", "a"));
    assert!(!same_text("a", "b"));
    assert!(starts_with(&chars_of("XDG_A"), &chars_of("XDG")));
    assert!(!starts_with(&chars_of("XD"), &chars_of("XDG")));
    assert!(starts_with(&chars_of("x"), &chars_of("")));
    assert_eq!(find_from(&chars_of("a=b=c"), '=', 0), 1);
    assert_eq!(find_from(&chars_of("a=b=c"), '=', 2), 3);
    assert_eq!(find_from(&chars_of("a=b=c"), '=', 4), 5);
    assert_eq!(find_last(&chars_of("a.b.c"), '.'), Some(3));
    assert_eq!(find_last(&chars_of("abc"), '.'), None);
    assert!(contains_text(&owned(&["a", "b"]), "b"));
    assert!(!contains_text(&owned(&["a", "b"]), "c"));
}

#[test]
fn join_posix() {
    assert_eq!(join(PathStyle::Posix, "/home/alice", ".config"), "/home/alice/.config");
    assert_eq!(join(PathStyle::Posix, "/home/alice/", ".config"), "/home/alice/.config");
    assert_eq!(join(PathStyle::Posix, "/", "etc"), "/etc");
    assert_eq!(join(PathStyle::Posix, "", "etc"), "etc");
    assert_eq!(join(PathStyle::Posix, "/home/alice", "/etc"), "/etc");
    assert_eq!(join(PathStyle::Posix, "/home/alice", ""), "/home/alice/");
    assert_eq!(join(PathStyle::Posix, "a", "b\\c"), "a/b\\c");
}

#[test]
fn join_windows() {
    assert_eq!(join(PathStyle::Windows, "C:\\Users\\alice", "app"), "C:\\Users\\alice\\app");
    assert_eq!(join(PathStyle::Windows, "C:\\Users\\alice\\", "app"), "C:\\Users\\alice\\app");
    assert_eq!(join(PathStyle::Windows, "C:/Users/alice/", "app"), "C:/Users/alice/app");
    assert_eq!(join(PathStyle::Windows, "C:\\Users", "D:\\data"), "D:\\data");
    assert_eq!(join(PathStyle::Windows, "C:\\Users", "\\data"), "C:\\data");
    assert_eq!(join(PathStyle::Windows, "C:\\dir", "/name"), "C:/name");
    assert_eq!(join(PathStyle::Windows, "dir", "\\name"), "\\name");
    assert_eq!(join(PathStyle::Windows, "C:\\dir", "\\\\server\\share"), "\\\\server\\share");
    assert_eq!(join(PathStyle::Windows, "C:\\dir", "D:name"), "D:name");
    assert_eq!(join(PathStyle::Windows, "C:", "name"), "C:name");
    assert_eq!(join(PathStyle::Windows, "C:", "\\name"), "C:\\name");
    assert_eq!(join(PathStyle::Windows, "", "app"), "app");
}

#[test]
fn absolute_paths() {
    assert!(is_absolute(PathStyle::Posix, "/"));
    assert!(is_absolute(PathStyle::Posix, "/bin/ls"));
    assert!(!is_absolute(PathStyle::Posix, "bin/ls"));
    assert!(!is_absolute(PathStyle::Posix, ""));
    assert!(!is_absolute(PathStyle::Posix, "C:\\x"));
    assert!(is_absolute(PathStyle::Windows, "C:\\x"));
    assert!(is_absolute(PathStyle::Windows, "c:/x"));
    assert!(is_absolute(PathStyle::Windows, "\\\\server\\share"));
    assert!(!is_absolute(PathStyle::Windows, "C:x"));
    assert!(!is_absolute(PathStyle::Windows, "\\x"));
    assert!(!is_absolute(PathStyle::Windows, "x"));
}

#[test]
fn extensions() {
    assert!(has_extension(PathStyle::Posix, "a.txt"));
    assert!(has_extension(PathStyle::Posix, "/dir/a.tar.gz"));
    assert!(has_extension(PathStyle::Posix, "a."));
    assert!(has_extension(PathStyle::Posix, "..."));
    assert!(!has_extension(PathStyle::Posix, "a"));
    assert!(!has_extension(PathStyle::Posix, ".bashrc"));
    assert!(!has_extension(PathStyle::Posix, ".."));
    assert!(!has_extension(PathStyle::Posix, "/dir.d/a"));
    assert!(!has_extension(PathStyle::Posix, "/dir.d/.a"));
    assert!(!has_extension(PathStyle::Posix, ""));
    assert!(has_extension(PathStyle::Posix, "dir.d\\a"));
    assert!(!has_extension(PathStyle::Windows, "dir.d\\a"));
    assert!(has_extension(PathStyle::Windows, "C:\\dir\\a.exe"));
    assert_eq!(with_extension(PathStyle::Posix, "/bin/tool", "sh"), "/bin/tool.sh");
    assert_eq!(with_extension(PathStyle::Posix, "/bin/tool.py", "sh"), "/bin/tool.sh");
    assert_eq!(with_extension(PathStyle::Posix, "/bin.d/tool", "sh"), "/bin.d/tool.sh");
    assert_eq!(with_extension(PathStyle::Posix, ".profile", "sh"), ".profile.sh");
    assert_eq!(with_extension(PathStyle::Windows, "C:\\x\\a.txt", "exe"), "C:\\x\\a.exe");
}

#[test]
fn file_system_keeps_the_latest_entry() {
    let mut fs = FileSystem::new();
    assert!(!fs.contains("/a"));
    assert!(fs.metadata("/a").is_none());
    fs.insert(Entry::file("/a", 0o644, 1));
    assert!(fs.contains("/a"));
    assert!(fs.is_file("/a"));
    assert!(!fs.is_dir("/a"));
    assert_eq!(fs.canonicalize("/a"), Some("/a".to_string()));
    assert_eq!(fs.read_to_string("/a"), None);
    fs.insert(Entry::directory("/a", 0o755, 2).with_canonical("/b"));
    assert!(fs.is_dir("/a"));
    assert!(!fs.is_file("/a"));
    assert_eq!(fs.canonicalize("/a"), Some("/b".to_string()));
    assert_eq!(fs.canonicalize("/c"), None);
    let e = fs.metadata("/a").unwrap();
    assert_eq!(e.kind, EntryKind::Directory);
    assert_eq!(e.mode, 0o755);
    assert_eq!(e.owner, 2);
    fs.insert(Entry::file("/t", 0o600, 1).with_content("text").with_binary(true));
    assert_eq!(fs.read_to_string("/t"), Some("text".to_string()));
    assert!(fs.metadata("/t").unwrap().binary);
    fs.insert(Entry::directory("/d", 0o700, 1).with_content("text"));
    assert_eq!(fs.read_to_string("/d"), None);
    let m = fs.metadata("/t").unwrap().with_mode(0o700);
    assert_eq!(m.mode, 0o700);
    assert_eq!(m.path, "/t");
    assert_eq!(m.content, Some("text".to_string()));
}
