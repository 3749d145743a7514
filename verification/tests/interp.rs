use sharun::environ::Environment;
use sharun::interp::{get_interpreter, interpreter_candidates, interpreter_paths, Arch};
use sharun::paths::FileStat;

fn file() -> Option<FileStat> {
    Some(FileStat { is_file: true, is_dir: false, mode: 0o755, dev: 1, ino: 1 })
}

fn dir() -> Option<FileStat> {
    Some(FileStat { is_file: false, is_dir: true, mode: 0o755, dev: 1, ino: 2 })
}

fn env_with(ldname: &str) -> Environment {
    let mut env = Environment::new();
    env.set("SHARUN_LDNAME", ldname);
    env
}

#[test]
fn candidates_of_each_architecture() {
    assert_eq!(interpreter_candidates("", Arch::X86_64), vec![
        "ld-linux-x86-64.so.2",
        "ld-musl-x86_64.so.1",
        "ld-linux.so.2"
    ]);
    assert_eq!(interpreter_candidates("", Arch::Aarch64), vec![
        "ld-linux-aarch64.so.1",
        "ld-musl-aarch64.so.1"
    ]);
}

#[test]
fn override_replaces_the_whole_list() {
    assert_eq!(interpreter_candidates("ld.so", Arch::X86_64), vec!["ld.so"]);
    assert_eq!(interpreter_candidates("ld.so", Arch::Aarch64), vec!["ld.so"]);
}

#[test]
fn places_lie_in_the_library_directory() {
    assert_eq!(interpreter_paths("/r/shared/lib", &Environment::new(), Arch::Aarch64), vec![
        "/r/shared/lib/ld-linux-aarch64.so.1",
        "/r/shared/lib/ld-musl-aarch64.so.1"
    ]);
    assert_eq!(interpreter_paths("/r/shared/lib", &env_with("/abs/ld.so"), Arch::X86_64), vec![
        "/abs/ld.so"
    ]);
    assert_eq!(interpreter_paths("/r/lib", &env_with("ld.so"), Arch::X86_64), vec!["/r/lib/ld.so"]);
}

#[test]
fn an_empty_override_is_no_override() {
    assert_eq!(
        interpreter_paths("/r/lib", &env_with(""), Arch::Aarch64),
        interpreter_paths("/r/lib", &Environment::new(), Arch::Aarch64)
    );
    assert_eq!(
        get_interpreter("/r/lib", &env_with(""), Arch::X86_64, &vec![None, file()]),
        Some("/r/lib/ld-musl-x86_64.so.1".to_string())
    );
}

#[test]
fn first_candidate_that_is_a_file_wins() {
    let env = Environment::new();
    assert_eq!(
        get_interpreter("/r/lib", &env, Arch::X86_64, &vec![None, file(), file()]),
        Some("/r/lib/ld-musl-x86_64.so.1".to_string())
    );
    assert_eq!(
        get_interpreter("/r/lib", &env, Arch::X86_64, &vec![file(), file(), file()]),
        Some("/r/lib/ld-linux-x86-64.so.2".to_string())
    );
    assert_eq!(
        get_interpreter("/r/lib", &env, Arch::X86_64, &vec![None, None, file()]),
        Some("/r/lib/ld-linux.so.2".to_string())
    );
    assert_eq!(
        get_interpreter("/r/lib", &env, Arch::Aarch64, &vec![file(), None]),
        Some("/r/lib/ld-linux-aarch64.so.1".to_string())
    );
}

#[test]
fn a_directory_of_a_candidates_name_is_passed_over() {
    let env = Environment::new();
    assert_eq!(
        get_interpreter("/r/lib", &env, Arch::X86_64, &vec![dir(), file(), file()]),
        Some("/r/lib/ld-musl-x86_64.so.1".to_string())
    );
    assert_eq!(get_interpreter("/r/lib", &env, Arch::X86_64, &vec![dir(), dir(), dir()]), None);
    assert_eq!(get_interpreter("/r/lib", &env_with("ld.so"), Arch::X86_64, &vec![dir()]), None);
    let plain = Some(FileStat { is_file: true, is_dir: false, mode: 0o644, dev: 1, ino: 3 });
    assert_eq!(
        get_interpreter("/r/lib", &env, Arch::Aarch64, &vec![dir(), plain]),
        Some("/r/lib/ld-musl-aarch64.so.1".to_string())
    );
}

#[test]
fn no_candidate_no_interpreter() {
    let env = Environment::new();
    assert_eq!(get_interpreter("/r/lib", &env, Arch::X86_64, &vec![None, None, None]), None);
    assert_eq!(get_interpreter("/r/lib", &env, Arch::Aarch64, &vec![]), None);
    assert_eq!(get_interpreter("/r/lib", &env, Arch::Aarch64, &vec![None, None, file()]), None);
    let forced = env_with("ld.so");
    assert_eq!(get_interpreter("/r/lib", &forced, Arch::X86_64, &vec![None, file(), file()]), None);
    assert_eq!(
        get_interpreter("/r/lib", &forced, Arch::X86_64, &vec![file()]),
        Some("/r/lib/ld.so".to_string())
    );
}
