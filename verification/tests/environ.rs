use sharun::datadirs::{add_to_xdg_data_env, xdg_data_candidates};
use sharun::environ::{
    add_all_to_env, add_to_env, existing_places, from_pairs, get_env_var, read_dotenv, unset_all,
    Environment,
};

fn env_of(pairs: &[(&str, &str)]) -> Environment {
    from_pairs(&pairs.iter().map(|(k, v)| (k.to_string(), v.to_string())).collect())
}

#[test]
fn a_new_environment_is_empty() {
    let env = Environment::new();
    assert_eq!(env.len(), 0);
    assert!(env.to_vector().is_empty());
    assert_eq!(env.get("PATH"), "");
    assert!(!env.contains_var("PATH"));
    assert_eq!(env.entry(0), None);
}

#[test]
fn set_replaces_in_place_and_appends_new_names() {
    let mut env = Environment::new();
    env.set("A", "1");
    env.set("B", "2");
    env.set("A", "3");
    assert_eq!(env.to_vector(), vec!["A=3", "B=2"]);
    assert_eq!(env.len(), 2);
    assert_eq!(env.entry(1), Some(("B".to_string(), "2".to_string())));
    assert_eq!(env.entry(2), None);
    assert!(env.contains_var("A"));
}

#[test]
fn remove_unsets() {
    let mut env = env_of(&[("A", "1"), ("B", "2"), ("C", "3")]);
    env.remove("B");
    assert_eq!(env.to_vector(), vec!["A=1", "C=3"]);
    assert_eq!(env.get("B"), "");
    env.remove("B");
    assert_eq!(env.to_vector(), vec!["A=1", "C=3"]);
}

#[test]
fn later_pairs_replace_earlier_ones() {
    let env = env_of(&[("A", "1"), ("B", "2"), ("A", "3")]);
    assert_eq!(env.to_vector(), vec!["A=3", "B=2"]);
}

#[test]
fn unset_reads_as_empty() {
    let env = env_of(&[("HOME", "/home/u"), ("EMPTY", "")]);
    assert_eq!(get_env_var(&env, "HOME"), "/home/u");
    assert_eq!(get_env_var(&env, "EMPTY"), "");
    assert_eq!(get_env_var(&env, "NOPE"), "");
}

#[test]
fn prepending_to_an_empty_or_unset_list_sets_it() {
    let mut env = env_of(&[("EMPTY", "")]);
    add_to_env(&mut env, "PATH", "/r/bin");
    add_to_env(&mut env, "EMPTY", "/x");
    assert_eq!(env.to_vector(), vec!["EMPTY=/x", "PATH=/r/bin"]);
}

#[test]
fn prepending_puts_the_value_in_front() {
    let mut env = env_of(&[("PATH", "/usr/bin:/bin")]);
    add_to_env(&mut env, "PATH", "/r/bin");
    assert_eq!(env.get("PATH"), "/r/bin:/usr/bin:/bin");
}

#[test]
fn prepending_twice_is_prepending_once() {
    let mut env = env_of(&[("PATH", "/usr/bin:/bin")]);
    add_to_env(&mut env, "PATH", "/r/bin");
    let once = env.to_vector();
    add_to_env(&mut env, "PATH", "/r/bin");
    assert_eq!(env.to_vector(), once);
    let mut fresh = Environment::new();
    add_to_env(&mut fresh, "X", "");
    add_to_env(&mut fresh, "X", "");
    assert_eq!(fresh.to_vector(), vec!["X="]);
}

#[test]
fn a_present_segment_is_not_added_again() {
    let mut env = env_of(&[("PATH", "/usr/bin:/r/bin:/bin")]);
    add_to_env(&mut env, "PATH", "/r/bin");
    assert_eq!(env.get("PATH"), "/usr/bin:/r/bin:/bin");
}

#[test]
fn presence_is_decided_by_substring() {
    let mut env = env_of(&[("PATH", "/usr/bin")]);
    add_to_env(&mut env, "PATH", "/usr");
    assert_eq!(env.get("PATH"), "/usr/bin");
}

#[test]
fn unset_all_removes_each_name() {
    let mut env = env_of(&[("A", "1"), ("B", "2"), ("C", "3")]);
    unset_all(&mut env, &vec!["C".to_string(), "X".to_string(), "A".to_string()]);
    assert_eq!(env.to_vector(), vec!["B=2"]);
}

#[test]
fn unset_directives_are_read_line_by_line() {
    assert_eq!(read_dotenv("unset A B\nFOO=bar\n  unset   C\n"), vec!["A", "B", "C"]);
    assert_eq!(read_dotenv("\n\nunset LD_PRELOAD"), vec!["LD_PRELOAD"]);
    assert!(read_dotenv("").is_empty());
    assert!(read_dotenv("unset").is_empty());
    assert!(read_dotenv("unsetX A").is_empty());
    assert!(read_dotenv("# unset A").is_empty());
    assert!(read_dotenv("unset\tA").is_empty());
    assert_eq!(read_dotenv("unset \tA"), vec!["A"]);
}

#[test]
fn data_candidates_run_from_the_last_directory_to_the_first() {
    assert_eq!(xdg_data_candidates("/r/share:/usr/share", "glvnd/egl_vendor.d"), vec![
        "/usr/share/glvnd/egl_vendor.d",
        "/r/share/glvnd/egl_vendor.d"
    ]);
    assert_eq!(xdg_data_candidates("", "x"), vec!["x"]);
}

#[test]
fn existing_data_directories_are_prepended() {
    let mut env = Environment::new();
    add_to_xdg_data_env(
        &mut env,
        "/r/share:/usr/local/share:/usr/share",
        "V",
        "d",
        &vec![true, false, true],
    );
    assert_eq!(env.get("V"), "/r/share/d:/usr/share/d");
    let mut none = Environment::new();
    add_to_xdg_data_env(&mut none, "/r/share:/usr/share", "V", "d", &vec![]);
    assert!(none.to_vector().is_empty());
}

#[test]
fn several_values_are_prepended_in_turn() {
    let mut env = env_of(&[("L", "c")]);
    add_all_to_env(&mut env, "L", &vec!["a".to_string(), "b".to_string(), "a".to_string()]);
    assert_eq!(env.get("L"), "b:a:c");
    let once = env.to_vector();
    add_all_to_env(&mut env, "L", &vec!["a".to_string(), "b".to_string(), "a".to_string()]);
    assert_eq!(env.to_vector(), once);
}

#[test]
fn existing_places_follow_the_answers() {
    let places = vec!["a".to_string(), "b".to_string(), "c".to_string()];
    assert_eq!(existing_places(&places, &vec![true, false, true]), vec!["a", "c"]);
    assert_eq!(existing_places(&places, &vec![false, true]), vec!["b"]);
    assert!(existing_places(&places, &vec![]).is_empty());
    assert!(existing_places(&Vec::new(), &vec![true]).is_empty());
}

#[test]
fn defaults_do_not_replace_what_is_set() {
    let mut env = env_of(&[("A", "1"), ("EMPTY", "")]);
    let pairs = vec![
        ("A".to_string(), "2".to_string()),
        ("B".to_string(), "3".to_string()),
        ("EMPTY".to_string(), "x".to_string()),
        ("B".to_string(), "4".to_string()),
    ];
    sharun::environ::add_defaults(&mut env, &pairs);
    assert_eq!(env.to_vector(), vec!["A=1", "EMPTY=", "B=3"]);
}

#[test]
fn unset_directives_agree_with_a_reading_by_lines() {
    let texts =
        ["unset A B\n unset C\nKEY=unset D\n", "unset  \n", "\tunset X\t Y", "unset A\r\nunset B"];
    for data in texts {
        let mut want: Vec<String> = Vec::new();
        for line in data.trim().split('\n') {
            let line = line.trim();
            if line.starts_with("unset ") {
                want.extend(line.split_whitespace().skip(1).map(|name| name.to_string()));
            }
        }
        assert_eq!(read_dotenv(data), want, "{data:?}");
    }
}

#[test]
fn the_search_path_is_there_or_not() {
    let mut env = Environment::new();
    assert_eq!(sharun::environ::search_path_var(&env), None);
    env.set("PATH", "");
    assert_eq!(sharun::environ::search_path_var(&env), Some(String::new()));
    env.set("PATH", "/usr/bin:/bin");
    assert_eq!(sharun::environ::search_path_var(&env), Some("/usr/bin:/bin".to_string()));
}
