use sharun::paths::{
    basename, dirname, entry_path, file_name, is_dir, is_exe, is_file, is_hardlink,
    is_same_rootdir, join_path, pick_first, realpath, which, which_candidates, FileStat,
};

fn stat(is_file: bool, is_dir: bool, mode: u32, ino: u64) -> Option<FileStat> {
    Some(FileStat { is_file, is_dir, mode, dev: 1, ino })
}

#[test]
fn basename_takes_what_follows_the_last_slash() {
    assert_eq!(basename("/usr/bin/env"), "env");
    assert_eq!(basename("env"), "env");
    assert_eq!(basename("/usr/bin/"), "");
    assert_eq!(basename(""), "");
    assert_eq!(basename("/opt/app/shared/lib/python3.12/lib-dynload"), "lib-dynload");
}

#[test]
fn dirname_of_plain_and_rooted_paths() {
    assert_eq!(dirname(""), "");
    assert_eq!(dirname("foo"), "");
    assert_eq!(dirname("a/b"), "./a");
    assert_eq!(dirname("a/"), "./a");
    assert_eq!(dirname("/a"), "/");
    assert_eq!(dirname("/a/b"), "/a");
    assert_eq!(dirname("./a"), ".");
    assert_eq!(dirname("../a/b"), "../a");
    assert_eq!(dirname("~/x/y"), "~/x");
    assert_eq!(dirname("/"), "/");
    assert_eq!(dirname("//"), "/");
}

#[test]
fn join_path_follows_absolute_names() {
    assert_eq!(join_path("/a", "b"), "/a/b");
    assert_eq!(join_path("/a/", "b"), "/a/b");
    assert_eq!(join_path("/a", "/b"), "/b");
    assert_eq!(join_path("", "b"), "b");
    assert_eq!(join_path("/a", ""), "/a/");
}

#[test]
fn join_path_agrees_with_std() {
    let pairs = [
        ("/a", "b"),
        ("/a/", "b"),
        ("/a", "/b"),
        ("", "b"),
        ("a", "b/c"),
        ("/", "x"),
        ("/tmp", "../x"),
    ];
    for (base, name) in pairs {
        let want = std::path::Path::new(base).join(name);
        assert_eq!(join_path(base, name), want.to_str().unwrap());
    }
}

#[test]
fn file_name_is_the_last_component() {
    assert_eq!(file_name("/usr/bin/python3"), "python3");
    assert_eq!(file_name("/usr/bin/"), "bin");
    assert_eq!(file_name("sh"), "sh");
    assert_eq!(file_name("/usr/bin/.."), "");
    assert_eq!(file_name("/"), "");
}

#[test]
fn realpath_is_empty_when_unresolved() {
    assert_eq!(realpath(Some("/opt/app".to_string())), "/opt/app");
    assert_eq!(realpath(None), "");
}

fn on(dev: u64, ino: u64) -> Option<FileStat> {
    Some(FileStat { is_file: true, is_dir: false, mode: 0o755, dev, ino })
}

#[test]
fn hardlinks_are_names_of_one_file() {
    assert!(is_hardlink(stat(true, false, 0o755, 42), stat(true, false, 0o644, 42)));
    assert!(is_hardlink(on(7, 42), on(7, 42)));
    assert!(!is_hardlink(stat(true, false, 0o755, 42), stat(true, false, 0o755, 43)));
    assert!(!is_hardlink(None, stat(true, false, 0o755, 42)));
    assert!(!is_hardlink(stat(true, false, 0o755, 42), None));
    assert!(!is_hardlink(None, None));
}

#[test]
fn one_inode_number_on_two_devices_is_two_files() {
    assert!(!is_hardlink(on(7, 42), on(8, 42)));
    assert!(!is_hardlink(on(8, 42), on(7, 42)));
    assert!(!is_hardlink(on(7, 42), on(42, 7)));
}

#[test]
fn hardlink_does_not_depend_on_the_order() {
    let files = [None, on(1, 1), on(1, 2), on(2, 1), on(2, 2)];
    for a in files {
        for b in files {
            assert_eq!(is_hardlink(a, b), is_hardlink(b, a));
        }
    }
}

#[test]
fn same_rootdir_compares_components() {
    assert!(is_same_rootdir(Some("/opt/app"), Some("/opt/app/sharun"), Some("/opt/app/bin/x")));
    assert!(is_same_rootdir(Some("/opt/app"), Some("/opt/app"), Some("/opt/app/bin/x")));
    assert!(!is_same_rootdir(Some("/opt/app"), Some("/opt/app2/sharun"), Some("/opt/app/bin/x")));
    assert!(!is_same_rootdir(Some("/opt/app"), Some("/opt/app/sharun"), Some("/usr/bin/x")));
    assert!(!is_same_rootdir(Some("/opt/app/sharun"), Some("/opt/app"), Some("/opt/app")));
    assert!(!is_same_rootdir(None, Some("/opt/app/sharun"), Some("/opt/app/bin/x")));
    assert!(!is_same_rootdir(Some("/opt/app"), None, Some("/opt/app/bin/x")));
    assert!(!is_same_rootdir(Some("/opt/app"), Some("/opt/app/sharun"), None));
}

#[test]
fn kinds_of_files() {
    assert!(is_dir(stat(false, true, 0o755, 1)));
    assert!(!is_dir(stat(true, false, 0o755, 1)));
    assert!(!is_dir(None));
    assert!(is_file(stat(true, false, 0o644, 1)));
    assert!(!is_file(stat(false, true, 0o755, 1)));
    assert!(!is_file(None));
}

#[test]
fn executable_needs_a_file_and_a_bit() {
    assert!(is_exe(stat(true, false, 0o100, 1)));
    assert!(is_exe(stat(true, false, 0o010, 1)));
    assert!(is_exe(stat(true, false, 0o001, 1)));
    assert!(is_exe(stat(true, false, 0o100755, 1)));
    assert!(!is_exe(stat(true, false, 0o644, 1)));
    assert!(!is_exe(stat(true, false, 0o100644, 1)));
    assert!(!is_exe(stat(false, true, 0o755, 1)));
    assert!(!is_exe(None));
}

#[test]
fn which_places_follow_the_search_path() {
    assert_eq!(which_candidates(Some("/usr/bin:/bin"), "sh"), vec!["/usr/bin/sh", "/bin/sh"]);
    assert_eq!(which_candidates(Some(""), "sh"), vec!["sh"]);
    assert_eq!(which_candidates(Some("/a::/b"), "x"), vec!["/a/x", "x", "/b/x"]);
    assert!(which_candidates(None, "sh").is_empty());
}

#[test]
fn which_takes_the_first_executable() {
    let exe = stat(true, false, 0o755, 1);
    let plain = stat(true, false, 0o644, 2);
    let dir = stat(false, true, 0o755, 3);
    assert_eq!(
        which(Some("/usr/local/bin:/usr/bin:/bin"), "sh", &vec![None, exe, exe]),
        Some("/usr/bin/sh".to_string())
    );
    assert_eq!(
        which(Some("/a:/b:/c:/d"), "sh", &vec![plain, dir, None, exe]),
        Some("/d/sh".to_string())
    );
    assert_eq!(which(Some("/usr/bin:/bin"), "sh", &vec![plain, dir]), None);
    assert_eq!(which(Some("/usr/bin:/bin"), "sh", &vec![]), None);
    assert_eq!(which(Some("/usr/bin:/bin"), "sh", &vec![None]), None);
    assert_eq!(which(None, "sh", &vec![exe]), None);
}

#[test]
fn pick_first_ignores_answers_without_a_candidate() {
    let places = vec!["a".to_string(), "b".to_string()];
    assert_eq!(pick_first(&places, &vec![false, false, true]), None);
    assert_eq!(pick_first(&places, &vec![true, true]), Some("a".to_string()));
    assert_eq!(pick_first(&places, &vec![false, true]), Some("b".to_string()));
    assert_eq!(pick_first(&Vec::new(), &vec![true]), None);
}

#[test]
fn an_entry_lies_below_its_directory_whatever_its_name() {
    assert_eq!(entry_path("/r/shared/bin", "ls"), "/r/shared/bin/ls");
    assert_eq!(entry_path("/r/shared/bin", "/bin/ls"), "/r/shared/bin//bin/ls");
    assert_eq!(entry_path("/r/", ".env"), "/r//.env");
    assert_eq!(entry_path("", "x"), "/x");
}

/// The directory part, computed piece by piece.
fn dirname_by_pieces(path: &str) -> String {
    let mut pieces: Vec<&str> = path.split('/').collect();
    if pieces.len() == 1 || path.is_empty() {
    } else if !path.starts_with('/') && !path.starts_with('.') && !path.starts_with('~') {
        pieces.insert(0, ".");
    } else if pieces.len() == 2 && path.starts_with('/') {
        pieces.insert(0, "");
    }
    pieces.pop();
    pieces.join("/")
}

fn sample_paths() -> Vec<String> {
    let alphabet = ["/", ".", "~", "a", "bc", "..", "//", "é"];
    let mut paths = vec![String::new()];
    for a in alphabet {
        paths.push(a.to_string());
        for b in alphabet {
            paths.push(format!("{a}{b}"));
            for c in alphabet {
                paths.push(format!("{a}{b}{c}"));
                for d in ["/", "x", "./"] {
                    paths.push(format!("{a}{b}{c}{d}"));
                }
            }
        }
    }
    paths
}

#[test]
fn dirname_agrees_with_the_computation_by_pieces() {
    for path in sample_paths() {
        assert_eq!(dirname(&path), dirname_by_pieces(&path), "{path:?}");
    }
}

#[test]
fn basename_is_the_last_piece() {
    for path in sample_paths() {
        assert_eq!(basename(&path), path.rsplit('/').next().unwrap(), "{path:?}");
    }
}

#[test]
fn join_path_agrees_with_std_on_many_paths() {
    let paths = sample_paths();
    for base in paths.iter().step_by(37) {
        for name in paths.iter().step_by(11) {
            let want = std::path::Path::new(base).join(name);
            assert_eq!(join_path(base, name), want.to_str().unwrap(), "{base:?} {name:?}");
        }
    }
}

#[test]
fn file_name_agrees_with_std_on_many_paths() {
    for path in sample_paths() {
        let want = std::path::Path::new(&path).file_name().map(|n| n.to_str().unwrap().to_string());
        assert_eq!(file_name(&path), want.unwrap_or_default(), "{path:?}");
    }
}
