use sharun::libpath::{
    append_inherited, cache_file_text, cache_plan, gen_library_path, is_shared_object_name,
    library_subdirs, read_library_path, scan_library_dirs, CachePlan, WalkEntry,
};

fn entry(file_name: &str, parent: &str) -> WalkEntry {
    WalkEntry {
        file_name: file_name.to_string(),
        parent: Some(parent.to_string()),
        parent_is_dir: true,
    }
}

fn names(list: &[&str]) -> Vec<String> {
    list.iter().map(|s| s.to_string()).collect()
}

fn walk() -> Vec<WalkEntry> {
    vec![
        entry("lib", "/opt/app/shared"),
        entry("libc.so.6", "/opt/app/shared/lib"),
        entry("gtk-3.0", "/opt/app/shared/lib"),
        entry("libpixmap.so", "/opt/app/shared/lib/gtk-3.0/engines"),
        entry("python3.12", "/opt/app/shared/lib"),
        entry("_ssl.cpython-312.so", "/opt/app/shared/lib/python3.12/lib-dynload"),
        entry("readme.txt", "/opt/app/shared/lib/docs"),
        entry("libadwaita.so", "/opt/app/shared/lib/gtk-3.0/engines"),
        entry("libpulse.so.0.24.2", "/opt/app/shared/lib/pulseaudio"),
    ]
}

#[test]
fn shared_objects_by_name() {
    assert!(is_shared_object_name("libz.so"));
    assert!(is_shared_object_name("libz.so.1"));
    assert!(is_shared_object_name("libz.so.1.3.1"));
    assert!(is_shared_object_name(".so"));
    assert!(!is_shared_object_name("libz.a"));
    assert!(!is_shared_object_name("libz.so1"));
    assert!(!is_shared_object_name("so"));
    assert!(!is_shared_object_name(""));
}

#[test]
fn scan_records_directories_in_discovery_order() {
    let dirs = scan_library_dirs("/opt/app/shared/lib", &walk(), &names(&["lib-dynload"]));
    assert_eq!(dirs, vec![
        "/opt/app/shared/lib/gtk-3.0/engines",
        "/opt/app/shared/lib/pulseaudio"
    ]);
}

#[test]
fn scan_leaves_out_the_root_itself() {
    let entries = vec![entry("libc.so.6", "/lib"), entry("libm.so.6", "/lib")];
    assert!(scan_library_dirs("/lib", &entries, &Vec::new()).is_empty());
}

#[test]
fn scan_skips_directories_by_name() {
    let entries = vec![
        entry("a.so", "/l/python/lib-dynload"),
        entry("b.so", "/l/python/site-packages"),
        entry("c.so", "/l/plugins"),
    ];
    assert_eq!(scan_library_dirs("/l", &entries, &names(&["lib-dynload", "plugins"])), vec![
        "/l/python/site-packages"
    ]);
    assert_eq!(scan_library_dirs("/l", &entries, &Vec::new()), vec![
        "/l/python/lib-dynload",
        "/l/python/site-packages",
        "/l/plugins"
    ]);
}

#[test]
fn scan_needs_a_parent_that_is_a_directory() {
    let entries = vec![
        WalkEntry { file_name: "a.so".to_string(), parent: None, parent_is_dir: true },
        WalkEntry { parent_is_dir: false, ..entry("b.so", "/l/x") },
        entry("c.so", "/l/y"),
    ];
    assert_eq!(scan_library_dirs("/l", &entries, &Vec::new()), vec!["/l/y"]);
}

#[test]
fn cache_text_lists_the_root_first() {
    assert_eq!(cache_file_text("/r/lib", &names(&["/r/lib/a", "/r/lib/b/c"])), "+\n+/a\n+/b/c");
    assert_eq!(cache_file_text("/r/lib", &Vec::new()), "+\n");
}

#[test]
fn cache_text_rewrites_the_root_only_at_the_front() {
    assert_eq!(cache_file_text("/lib", &names(&["/lib/x/lib/y"])), "+\n+/x/lib/y");
    assert_eq!(cache_file_text("/lib", &names(&["/other/lib"])), "+\n/other/lib");
    assert_eq!(cache_file_text("/lib", &names(&["/lib/a:b"])), "+\n+/a\nb");
}

#[test]
fn gen_library_path_skips_lib_dynload() {
    assert_eq!(
        gen_library_path("/opt/app/shared/lib", &walk()),
        "+\n+/gtk-3.0/engines\n+/pulseaudio"
    );
}

#[test]
fn reading_substitutes_the_live_root() {
    assert_eq!(read_library_path("+\n+/a\n+/b/c", "/r/lib"), "/r/lib:/r/lib/a:/r/lib/b/c");
    assert_eq!(read_library_path("+\n", "/r/lib"), "/r/lib");
    assert_eq!(read_library_path("", "/r/lib"), "/r/lib");
    assert_eq!(read_library_path("+\n+/a\n\n", "/r"), "/r:/r/a");
    assert_eq!(read_library_path("/abs\n+/a", "/r"), "/abs:/r/a");
}

#[test]
fn cache_round_trip_reproduces_the_directories() {
    let root = "/opt/app/shared/lib";
    let dirs = scan_library_dirs(root, &walk(), &names(&["lib-dynload"]));
    let text = cache_file_text(root, &dirs);
    let mut want = vec![root.to_string()];
    want.extend(dirs.iter().cloned());
    assert_eq!(read_library_path(&text, root), want.join(":"));
}

#[test]
fn cache_survives_relocation() {
    let text = cache_file_text(
        "/old/place/lib",
        &names(&["/old/place/lib/a", "/old/place/lib/b/c"]),
    );
    let path = read_library_path(&text, "/new/lib");
    assert_eq!(path, "/new/lib:/new/lib/a:/new/lib/b/c");
    assert!(!path.contains("/old/place"));
}

#[test]
fn inherited_path_comes_last() {
    assert_eq!(append_inherited("/r/lib:/r/lib/a", "/usr/lib"), "/r/lib:/r/lib/a:/usr/lib");
    assert_eq!(append_inherited("/r/lib", ""), "/r/lib");
}

#[test]
fn subdirs_are_distinct_and_in_order() {
    assert_eq!(
        library_subdirs(
            "+\n+/gtk-3.0/engines\n+/python3.12/site-packages\n+/gtk-3.0/modules\n+/dri",
        ),
        vec!["", "gtk-3.0", "python3.12", "dri"]
    );
    assert!(library_subdirs("").is_empty());
    assert_eq!(library_subdirs("+/a\n"), vec!["a", ""]);
}

#[test]
fn cache_plan_by_what_is_there() {
    assert_eq!(cache_plan(true, true), CachePlan::Read);
    assert_eq!(cache_plan(true, false), CachePlan::Read);
    assert_eq!(cache_plan(false, true), CachePlan::ScanAndWrite);
    assert_eq!(cache_plan(false, false), CachePlan::ScanOnly);
}

#[test]
fn the_cache_file_lies_in_the_root_of_the_tree() {
    assert_eq!(sharun::libpath::cache_file("/r/shared/lib"), "/r/shared/lib/lib.path");
    assert_eq!(sharun::libpath::cache_file("/r/shared/lib32"), "/r/shared/lib32/lib.path");
}

#[test]
fn reading_agrees_with_replacing_in_the_whole_text() {
    for data in ["+\n+/a\n+/b", "+\n", " +\n+/a \n", "\n", "+/x+y\n\n+", "plain", "a\nb\n"] {
        for root in ["/r/lib", "", "+", "/a+b"] {
            let want = data.trim().replace("\n", ":").replace("+", root);
            assert_eq!(read_library_path(data, root), want, "{data:?} {root:?}");
        }
    }
}

#[test]
fn subdirs_agree_with_the_second_piece_of_each_line() {
    for data in ["+\n+/a/b\n+/c\n+/a/d", "x/y/z\n\n/abs/path", "+", "a/\nb//c"] {
        let mut want: Vec<String> = Vec::new();
        for line in data.split('\n') {
            let name = line.split('/').nth(1).unwrap_or("").to_string();
            if !want.contains(&name) {
                want.push(name);
            }
        }
        assert_eq!(library_subdirs(data), want, "{data:?}");
    }
}

fn tree_at(root: &str) -> Vec<WalkEntry> {
    let below = |rel: &str| format!("{root}{rel}");
    vec![
        entry("libc.so.6", &below("")),
        entry("libpixmap.so", &below("/gtk-3.0/engines")),
        entry("_ssl.so", &below("/python3.12/lib-dynload")),
        entry("libx.so.1", &below("/opt/app/nested")),
        entry("notes.txt", &below("/docs")),
        entry("liby.so", &below("/gtk-3.0/engines")),
        entry("libz.so", &below("/a:b")),
    ]
}

#[test]
fn the_cache_text_does_not_depend_on_where_the_tree_lies() {
    let want = "+\n+/gtk-3.0/engines\n+/opt/app/nested\n+/a\nb";
    for root in ["/opt/app", "/mnt/usb/bundle/shared/lib", "/", "", "/opt/app/nested", "rel/lib"] {
        assert_eq!(gen_library_path(root, &tree_at(root)), want, "{root:?}");
    }
}
