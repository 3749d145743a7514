use sharun::environ::Environment;
use sharun::handoff::{
    exec_mode, interpreter_args, preload_list, seal_environment, strip_preload, take_printenv,
    take_tmp_link, take_tmp_links, take_var, take_working_dir, ExecMode,
};

fn args(list: &[&str]) -> Vec<String> {
    list.iter().map(|s| s.to_string()).collect()
}

#[test]
fn preload_is_stripped_unless_allowed() {
    let mut env = Environment::new();
    env.set("LD_PRELOAD", "/x.so");
    env.set("SHARUN_ALLOW_LD_PRELOAD", "0");
    env.set("KEEP", "1");
    strip_preload(&mut env);
    assert_eq!(env.to_vector(), vec!["KEEP=1"]);
    let mut allowed = Environment::new();
    allowed.set("LD_PRELOAD", "/x.so");
    allowed.set("SHARUN_ALLOW_LD_PRELOAD", "1");
    strip_preload(&mut allowed);
    assert_eq!(allowed.to_vector(), vec!["LD_PRELOAD=/x.so"]);
    let mut unset = Environment::new();
    unset.set("LD_PRELOAD", "/x.so");
    strip_preload(&mut unset);
    assert!(unset.to_vector().is_empty());
}

#[test]
fn variables_are_taken_out() {
    let mut env = Environment::new();
    env.set("A", "x");
    env.set("B", "");
    assert_eq!(take_var(&mut env, "A"), Some("x".to_string()));
    assert_eq!(take_var(&mut env, "B"), None);
    assert_eq!(take_var(&mut env, "C"), None);
    assert!(env.to_vector().is_empty());
}

#[test]
fn aliases_are_made_below_tmp() {
    let mut env = Environment::new();
    env.set("SHARUN_TMP_LIB", "applib");
    env.set("SHARUN_TMP_BIN", "/abs/bin");
    env.set("SHARUN_TMP_SHARE", "");
    assert_eq!(take_tmp_link(&mut env, "SHARUN_TMP_LIB"), Some("/tmp/applib".to_string()));
    assert_eq!(take_tmp_link(&mut env, "SHARUN_TMP_BIN"), Some("/abs/bin".to_string()));
    assert_eq!(take_tmp_link(&mut env, "SHARUN_TMP_SHARE"), None);
    assert!(env.to_vector().is_empty());
}

#[test]
fn the_working_directory_is_taken_when_named() {
    let mut env = Environment::new();
    env.set("SHARUN_WORKING_DIR", "/work");
    assert_eq!(take_working_dir(&mut env), Some("/work".to_string()));
    assert!(env.to_vector().is_empty());
    env.set("SHARUN_WORKING_DIR", "");
    assert_eq!(take_working_dir(&mut env), None);
    assert_eq!(env.to_vector(), vec!["SHARUN_WORKING_DIR="]);
}

#[test]
fn printing_is_asked_for_by_one() {
    let mut env = Environment::new();
    env.set("SHARUN_PRINTENV", "1");
    assert!(take_printenv(&mut env));
    assert!(env.to_vector().is_empty());
    env.set("SHARUN_PRINTENV", "true");
    assert!(!take_printenv(&mut env));
    assert_eq!(env.to_vector(), vec!["SHARUN_PRINTENV=true"]);
    let mut none = Environment::new();
    assert!(!take_printenv(&mut none));
}

#[test]
fn preload_lines_are_joined_by_blanks() {
    assert_eq!(preload_list("liba.so\n  libb.so  \nlibc.so\n"), "liba.so libb.so libc.so");
    assert_eq!(preload_list("liba.so"), "liba.so");
    assert_eq!(preload_list("a\n\nb"), "a  b");
    assert_eq!(preload_list(""), "");
}

#[test]
fn exec_modes() {
    assert_eq!(exec_mode(false, false, false), ExecMode::Handoff);
    assert_eq!(exec_mode(false, true, false), ExecMode::Handoff);
    assert_eq!(exec_mode(false, false, true), ExecMode::ViaInterpreter);
    assert_eq!(exec_mode(false, true, true), ExecMode::ViaInterpreter);
    assert_eq!(exec_mode(true, true, false), ExecMode::ViaInterpreter);
    assert_eq!(exec_mode(true, true, true), ExecMode::ViaInterpreter);
    assert_eq!(exec_mode(true, false, false), ExecMode::Patched);
    assert_eq!(exec_mode(true, false, true), ExecMode::Patched);
}

#[test]
fn arguments_for_the_dynamic_linker() {
    assert_eq!(
        interpreter_args(
            "/r/shared/lib/ld.so",
            "/r/shared/lib:/usr/lib",
            ExecMode::Handoff,
            "/r/bin/ls",
            None,
            "/r/shared/bin/ls",
            &args(&["-l", "/"]),
        ),
        args(
            &[
                "/r/shared/lib/ld.so",
                "--library-path",
                "/r/shared/lib:/usr/lib",
                "--argv0",
                "/r/bin/ls",
                "/r/shared/bin/ls",
                "-l",
                "/",
            ],
        )
    );
    assert_eq!(
        interpreter_args(
            "/ld",
            "/l",
            ExecMode::ViaInterpreter,
            "/r/bin/ls",
            Some("a.so b.so"),
            "/r/shared/bin/ls",
            &args(&[]),
        ),
        args(
            &[
                "/ld",
                "--library-path",
                "/l",
                "--argv0",
                "/r/shared/bin/ls",
                "--preload",
                "a.so b.so",
                "/r/shared/bin/ls",
            ],
        )
    );
    assert_eq!(
        interpreter_args("/ld", "/l", ExecMode::Patched, "arg0", None, "bin", &args(&[]))[4],
        "bin"
    );
}

#[test]
fn aliases_for_the_three_directories() {
    let mut env = Environment::new();
    env.set("SHARUN_TMP_BIN", "appbin");
    env.set("KEEP", "1");
    env.set("SHARUN_TMP_SHARE", "appshare");
    env.set("SHARUN_TMP_LIB", "");
    let links: Vec<(String, String)> = take_tmp_links(&mut env, "/r")
        .into_iter()
        .map(|l| (l.target, l.link))
        .collect();
    assert_eq!(links, vec![
        ("/r/share".to_string(), "/tmp/appshare".to_string()),
        ("/r/bin".to_string(), "/tmp/appbin".to_string()),
    ]);
    assert_eq!(env.to_vector(), vec!["KEEP=1"]);
    assert!(take_tmp_links(&mut env, "/r").is_empty());
}

#[test]
fn the_environment_is_sealed_last() {
    let mut env = Environment::new();
    env.set("LD_LIBRARY_PATH", "/usr/lib");
    env.set("SHARUN_PRINTENV", "1");
    env.set("A", "1");
    env.set("B", "2");
    let unset = args(&["LD_LIBRARY_PATH", "B"]);
    let sealed = seal_environment(&mut env, "+\n+/x", "/r/lib", &unset);
    assert_eq!(sealed.library_path, "/r/lib:/r/lib/x:/usr/lib");
    assert!(sealed.print);
    assert_eq!(env.to_vector(), vec!["A=1"]);
}

#[test]
fn a_bundle_can_veto_printing() {
    let mut env = Environment::new();
    env.set("SHARUN_PRINTENV", "1");
    let sealed = seal_environment(&mut env, "", "/r/lib", &args(&["SHARUN_PRINTENV"]));
    assert_eq!(sealed.library_path, "/r/lib");
    assert!(!sealed.print);
    assert!(env.to_vector().is_empty());
}

#[test]
fn preload_agrees_with_a_reading_by_lines() {
    for data in ["a.so\n b.so \n", "\n\n", "one", " x \n\n y "] {
        let want: Vec<&str> = data.trim().split('\n').map(|line| line.trim()).collect();
        assert_eq!(preload_list(data), want.join(" "), "{data:?}");
    }
}
