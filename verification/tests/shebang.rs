use sharun::paths::FileStat;
use sharun::shebang::{assemble_script, exec_script, is_script, parse_shebang, ScriptError, Shebang};

fn args(list: &[&str]) -> Vec<String> {
    list.iter().map(|s| s.to_string()).collect()
}

#[test]
fn scripts_start_with_the_mark() {
    assert_eq!(is_script(b"#!/bin/sh\n"), Some(true));
    assert_eq!(is_script(b"#!"), Some(true));
    assert_eq!(is_script(b"\x7fELF\x02"), Some(false));
    assert_eq!(is_script(b"!#"), Some(false));
    assert_eq!(is_script(b"#"), None);
    assert_eq!(is_script(b""), None);
}

#[test]
fn a_line_with_a_path() {
    let s = parse_shebang("#!/bin/sh -e\n").unwrap();
    assert!(!s.via_env);
    assert_eq!(s.interpreter, "/bin/sh");
    assert_eq!(s.lookup, "sh");
    assert_eq!(s.args, vec!["-e"]);
}

#[test]
fn a_line_through_env() {
    let s = parse_shebang("#!/usr/bin/env foo --flag\n").unwrap();
    assert!(s.via_env);
    assert_eq!(s.interpreter, "foo");
    assert_eq!(s.lookup, "foo");
    assert_eq!(s.args, vec!["--flag"]);
}

#[test]
fn blanks_after_the_mark_are_skipped() {
    let s = parse_shebang("#!   /usr/bin/python3").unwrap();
    assert_eq!(s.interpreter, "/usr/bin/python3");
    assert_eq!(s.lookup, "python3");
    assert!(s.args.is_empty());
}

#[test]
fn the_lookup_name_is_the_final_component() {
    let s = parse_shebang("#!/opt/tools/bin/ x").unwrap();
    assert_eq!(s.interpreter, "/opt/tools/bin/");
    assert_eq!(s.lookup, "bin");
    assert_eq!(s.args, vec!["x"]);
}

#[test]
fn a_bare_env_is_env_too() {
    let s = parse_shebang("#!env foo --flag\n").unwrap();
    assert!(s.via_env);
    assert_eq!(s.interpreter, "foo");
    assert_eq!(s.lookup, "foo");
    assert_eq!(s.args, vec!["--flag"]);
    let relative = parse_shebang("#!./env foo").unwrap();
    assert!(relative.via_env);
    assert_eq!(relative.lookup, "foo");
    assert_eq!(parse_shebang("#!env").err(), Some(ScriptError::NoInterpreterAfterEnv));
}

#[test]
fn a_bare_env_never_runs_env_itself() {
    let s = parse_shebang("#!env foo\n").unwrap();
    let no_args = Vec::new();
    for literal_exists in [true, false] {
        assert_eq!(
            exec_script(&s, None, &vec![], literal_exists, "tool", &no_args),
            Err(ScriptError::NotInPath)
        );
        let stats = vec![None, plain()];
        assert_eq!(
            exec_script(&s, Some("/usr/bin:/bin"), &stats, literal_exists, "tool", &no_args),
            Err(ScriptError::NotInPath)
        );
    }
    assert_eq!(ScriptError::NotInPath.kind(), sharun::errors::ErrorKind::NotFound);
    assert_eq!(
        exec_script(&s, Some("/usr/bin:/bin"), &vec![None, exe()], false, "tool", &no_args),
        Ok(args(&["/bin/foo", "tool"]))
    );
}

#[test]
fn only_the_final_name_env_is_env() {
    let lines =
        ["#!/usr/bin/envy foo", "#!/opt/env/sh foo", "#!/usr/bin/env/ foo", "#!/usr/bin/xenv foo"];
    for line in lines {
        let s = parse_shebang(line).unwrap();
        assert!(!s.via_env, "{line}");
        assert_eq!(s.args, vec!["foo"], "{line}");
    }
}

#[test]
fn malformed_lines() {
    assert_eq!(parse_shebang("echo hi").err(), Some(ScriptError::InvalidShebang));
    assert_eq!(parse_shebang("").err(), Some(ScriptError::InvalidShebang));
    assert_eq!(parse_shebang("#").err(), Some(ScriptError::InvalidShebang));
    assert_eq!(parse_shebang(" #!/bin/sh").err(), Some(ScriptError::InvalidShebang));
    assert_eq!(parse_shebang("#!").err(), Some(ScriptError::NoInterpreter));
    assert_eq!(parse_shebang("#!  \n").err(), Some(ScriptError::NoInterpreter));
    assert_eq!(parse_shebang("#!/usr/bin/env\n").err(), Some(ScriptError::NoInterpreterAfterEnv));
    assert_eq!(parse_shebang("#!/usr/bin/env  ").err(), Some(ScriptError::NoInterpreterAfterEnv));
}

#[test]
fn command_has_interpreter_line_args_script_and_caller_args() {
    let s = parse_shebang("#!/usr/bin/env python3 -u\n").unwrap();
    let command = assemble_script(
        &s,
        Some("/r/bin/python3".to_string()),
        false,
        "/r/bin/tool",
        &args(&["a", "b"]),
    );
    assert_eq!(command, Ok(args(&["/r/bin/python3", "-u", "/r/bin/tool", "a", "b"])));
}

#[test]
fn env_interpreter_missing_from_path_is_not_found() {
    let s = parse_shebang("#!/usr/bin/env foo --flag").unwrap();
    assert_eq!(
        assemble_script(&s, None, true, "/r/bin/tool", &args(&[])),
        Err(ScriptError::NotInPath)
    );
    assert_eq!(
        assemble_script(&s, None, false, "/r/bin/tool", &args(&[])),
        Err(ScriptError::NotInPath)
    );
}

#[test]
fn a_path_falls_back_on_itself() {
    let s = parse_shebang("#!/bin/sh -e").unwrap();
    assert_eq!(
        assemble_script(&s, None, true, "/r/bin/tool", &args(&["x"])),
        Ok(args(&["/bin/sh", "-e", "/r/bin/tool", "x"]))
    );
    assert_eq!(
        assemble_script(&s, Some("/r/bin/sh".to_string()), true, "/r/bin/tool", &args(&["x"])),
        Ok(args(&["/r/bin/sh", "-e", "/r/bin/tool", "x"]))
    );
    assert_eq!(
        assemble_script(&s, None, false, "/r/bin/tool", &args(&["x"])),
        Err(ScriptError::NotFound)
    );
}

#[test]
fn a_shebang_can_be_written_by_hand() {
    let s = Shebang {
        via_env: false,
        interpreter: "/bin/busybox".to_string(),
        lookup: "busybox".to_string(),
        args: args(&["sh"]),
    };
    assert_eq!(
        assemble_script(&s, None, true, "run", &Vec::new()),
        Ok(args(&["/bin/busybox", "sh", "run"]))
    );
}

fn exe() -> Option<FileStat> {
    Some(FileStat { is_file: true, is_dir: false, mode: 0o755, dev: 1, ino: 1 })
}

fn plain() -> Option<FileStat> {
    Some(FileStat { is_file: true, is_dir: false, mode: 0o644, dev: 1, ino: 2 })
}

#[test]
fn the_interpreter_is_the_first_executable_on_the_search_path() {
    let s = parse_shebang("#!/usr/bin/env python3 -u\n").unwrap();
    let command =
        exec_script(&s, Some("/a:/b:/c"), &vec![None, exe(), exe()], false, "tool", &args(&["x"]));
    assert_eq!(command, Ok(args(&["/b/python3", "-u", "tool", "x"])));
    let direct = parse_shebang("#!/bin/sh -e").unwrap();
    let stats = vec![plain(), exe()];
    let command = exec_script(&direct, Some("/a:/b"), &stats, true, "tool", &args(&[]));
    assert_eq!(command, Ok(args(&["/b/sh", "-e", "tool"])));
}

#[test]
fn env_never_stands_in_for_a_missing_interpreter() {
    let s = parse_shebang("#!/usr/bin/env foo --flag").unwrap();
    let no_args = Vec::new();
    for stats in [vec![], vec![None, None], vec![plain(), None]] {
        for literal_exists in [true, false] {
            assert_eq!(
                exec_script(&s, Some("/usr/bin:/bin"), &stats, literal_exists, "tool", &no_args),
                Err(ScriptError::NotInPath)
            );
        }
    }
    assert_eq!(
        exec_script(&s, None, &vec![exe()], true, "tool", &no_args),
        Err(ScriptError::NotInPath)
    );
}

#[test]
fn a_path_that_is_nowhere_is_not_found() {
    let s = parse_shebang("#!/opt/bin/tool-runner").unwrap();
    let no_args = Vec::new();
    assert_eq!(
        exec_script(&s, Some("/usr/bin"), &vec![None], false, "tool", &no_args),
        Err(ScriptError::NotFound)
    );
    assert_eq!(
        exec_script(&s, Some("/usr/bin"), &vec![None], true, "tool", &no_args),
        Ok(args(&["/opt/bin/tool-runner", "tool"]))
    );
}
