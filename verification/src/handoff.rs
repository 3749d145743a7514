//! The execution handoff: the last changes to the environment, the arguments
//! for the dynamic linker, and the way in which control passes to the target.

use vstd::prelude::*;
use crate::environ::{unset_all, value_of, without_var, without_vars, EnvModel, Environment};
use crate::libpath::{append_inherited, read_library_path, search_path, with_inherited};
use crate::paths::{below, join_chars, joined, path_below};
use crate::text::{
    append_string, append_strings, chars_of, push_all, rows, same_str, split, split_at_char,
    string_of, trim, trimmed,
};

verus! {

/// An alias to make below `/tmp` for a directory of the bundle.
#[derive(Debug)]
pub struct TmpLink {
    /// The directory of the bundle.
    pub target: String,
    /// Where the alias is made.
    pub link: String,
}

impl DeepView for TmpLink {
    type V = (Seq<char>, Seq<char>);

    open spec fn deep_view(&self) -> (Seq<char>, Seq<char>) {
        (self.target@, self.link@)
    }
}

/// What the launcher needs of the environment once it is complete.
#[derive(Debug)]
pub struct Sealed {
    /// The search path for the dynamic linker.
    pub library_path: String,
    /// The environment is to be printed before the target starts.
    pub print: bool,
}

/// How control passes to the target.
#[derive(Clone, Copy, Debug, PartialEq, Eq, Structural)]
pub enum ExecMode {
    /// The dynamic linker is mapped and entered in this process.
    Handoff,
    /// The kernel runs the dynamic linker, which loads the target.
    ViaInterpreter,
    /// The target's `PT_INTERP` is patched and the kernel runs the target.
    Patched,
}

/// The environment without `LD_PRELOAD`, unless `SHARUN_ALLOW_LD_PRELOAD` is
/// `1`; the flag itself is taken out either way.
pub open spec fn without_preload(env: EnvModel) -> EnvModel {
    let kept = if value_of(env, "SHARUN_ALLOW_LD_PRELOAD"@) == "1"@ {
        env
    } else {
        without_var(env, "LD_PRELOAD"@)
    };
    without_var(kept, "SHARUN_ALLOW_LD_PRELOAD"@)
}

/// The alias that the variable `name` asks for, for the directory `sub` of the
/// bundle at `root`: none where the variable is empty.
pub open spec fn tmp_link_of(
    env: EnvModel,
    root: Seq<char>,
    name: Seq<char>,
    sub: Seq<char>,
) -> Seq<(Seq<char>, Seq<char>)> {
    if value_of(env, name).len() > 0 {
        seq![(below(root, sub), joined("/tmp"@, value_of(env, name)))]
    } else {
        Seq::empty()
    }
}

/// The aliases that the environment asks for: one each for `share`, `lib` and
/// `bin`, named by `SHARUN_TMP_SHARE`, `SHARUN_TMP_LIB` and `SHARUN_TMP_BIN`.
pub open spec fn tmp_links_of(env: EnvModel, root: Seq<char>) -> Seq<(Seq<char>, Seq<char>)> {
    let e1 = without_var(env, "SHARUN_TMP_SHARE"@);
    let e2 = without_var(e1, "SHARUN_TMP_LIB"@);
    tmp_link_of(env, root, "SHARUN_TMP_SHARE"@, "share"@) + tmp_link_of(
        e1,
        root,
        "SHARUN_TMP_LIB"@,
        "lib"@,
    ) + tmp_link_of(e2, root, "SHARUN_TMP_BIN"@, "bin"@)
}

/// The environment without the three variables that ask for aliases.
pub open spec fn without_tmp_links(env: EnvModel) -> EnvModel {
    without_var(
        without_var(without_var(env, "SHARUN_TMP_SHARE"@), "SHARUN_TMP_LIB"@),
        "SHARUN_TMP_BIN"@,
    )
}

/// The environment as the target gets it: the variables that the bundle asks to
/// unset are taken out last, and after them the flag that asks for printing.
pub open spec fn sealed(env: EnvModel, unset_envs: Seq<Seq<char>>) -> EnvModel {
    let cleared = without_vars(env, unset_envs);
    if value_of(cleared, "SHARUN_PRINTENV"@) == "1"@ {
        without_var(cleared, "SHARUN_PRINTENV"@)
    } else {
        cleared
    }
}

/// The words of a preload file, one line each, joined by blanks.
pub open spec fn preload_of(lines: Seq<Seq<char>>) -> Seq<char>
    decreases lines.len(),
{
    if lines.len() == 0 {
        Seq::empty()
    } else if lines.len() == 1 {
        trim(lines[0])
    } else {
        preload_of(lines.drop_last()) + seq![' '] + trim(lines.last())
    }
}

/// How control passes to a target of this kind.
pub open spec fn exec_mode_of(packed: bool, unpacked_beside: bool, elf32: bool) -> ExecMode {
    if !packed && !elf32 {
        ExecMode::Handoff
    } else if unpacked_beside || !packed {
        ExecMode::ViaInterpreter
    } else {
        ExecMode::Patched
    }
}

/// The name under which the target sees itself: that of the invocation when
/// the dynamic linker is entered in this process, the target's path otherwise.
pub open spec fn argv0_of(mode: ExecMode, arg0_path: Seq<char>, bin: Seq<char>) -> Seq<char> {
    if mode == ExecMode::Handoff {
        arg0_path
    } else {
        bin
    }
}

/// The argument vector with which the dynamic linker runs the target: the
/// linker, the search path, the name for the target, the preload list where the
/// bundle has one, the target, and the caller's arguments.
pub open spec fn linker_args(
    interpreter: Seq<char>,
    library_path: Seq<char>,
    argv0: Seq<char>,
    preload: Option<Seq<char>>,
    bin: Seq<char>,
    exec_args: Seq<Seq<char>>,
) -> Seq<Seq<char>> {
    seq![interpreter, "--library-path"@, library_path, "--argv0"@, argv0] + (match preload {
        Some(list) => seq!["--preload"@, list],
        None => Seq::empty(),
    }) + seq![bin] + exec_args
}

/// Takes `LD_PRELOAD` out of the environment unless the bundle is allowed to
/// keep it.
pub fn strip_preload(env: &mut Environment)
    ensures
        final(env)@ == without_preload(old(env)@),
{
    let flag = env.get("SHARUN_ALLOW_LD_PRELOAD");
    if !same_str(flag.as_str(), "1") {
        env.remove("LD_PRELOAD");
    }
    env.remove("SHARUN_ALLOW_LD_PRELOAD");
}

/// Takes the variable `name` out of the environment and returns the value it
/// had, where that was not empty.
pub fn take_var(env: &mut Environment, name: &str) -> (value: Option<String>)
    ensures
        final(env)@ == without_var(old(env)@, name@),
        value.deep_view() == if value_of(old(env)@, name@).len() > 0 {
            Some(value_of(old(env)@, name@))
        } else {
            None
        },
{
    let value = env.get(name);
    env.remove(name);
    if chars_of(value.as_str()).len() > 0 {
        Some(value)
    } else {
        None
    }
}

/// Where the alias that the variable `name` asks for is made: the variable's
/// value resolved against `/tmp`. The variable is taken out of the environment.
pub fn take_tmp_link(env: &mut Environment, name: &str) -> (link: Option<String>)
    ensures
        final(env)@ == without_var(old(env)@, name@),
        link.deep_view() == if value_of(old(env)@, name@).len() > 0 {
            Some(joined("/tmp"@, value_of(old(env)@, name@)))
        } else {
            None
        },
{
    match take_var(env, name) {
        Some(link_name) => {
            let tmp = chars_of("/tmp");
            let rel = chars_of(link_name.as_str());
            Some(string_of(join_chars(tmp.as_slice(), rel.as_slice()).as_slice()))
        },
        None => None,
    }
}

/// The aliases to make below `/tmp` for the directories of the bundle at
/// `root`. The variables that ask for them are taken out of the environment.
pub fn take_tmp_links(env: &mut Environment, root: &str) -> (links: Vec<TmpLink>)
    ensures
        final(env)@ == without_tmp_links(old(env)@),
        links.deep_view() == tmp_links_of(old(env)@, root@),
{
    let mut links: Vec<TmpLink> = Vec::new();
    let r = chars_of(root);
    assert(links.deep_view() =~= Seq::empty());
    match take_tmp_link(env, "SHARUN_TMP_SHARE") {
        Some(link) => {
            let sub = chars_of("share");
            let target = string_of(path_below(r.as_slice(), sub.as_slice()).as_slice());
            links.push(TmpLink { target, link });
        },
        None => {},
    }
    let ghost first = links.deep_view();
    assert(first =~= tmp_link_of(old(env)@, root@, "SHARUN_TMP_SHARE"@, "share"@));
    let ghost e1 = env@;
    match take_tmp_link(env, "SHARUN_TMP_LIB") {
        Some(link) => {
            let sub = chars_of("lib");
            let target = string_of(path_below(r.as_slice(), sub.as_slice()).as_slice());
            links.push(TmpLink { target, link });
        },
        None => {},
    }
    let ghost second = links.deep_view();
    assert(second =~= first + tmp_link_of(e1, root@, "SHARUN_TMP_LIB"@, "lib"@));
    let ghost e2 = env@;
    match take_tmp_link(env, "SHARUN_TMP_BIN") {
        Some(link) => {
            let sub = chars_of("bin");
            let target = string_of(path_below(r.as_slice(), sub.as_slice()).as_slice());
            links.push(TmpLink { target, link });
        },
        None => {},
    }
    assert(links.deep_view() =~= second + tmp_link_of(e2, root@, "SHARUN_TMP_BIN"@, "bin"@));
    links
}

/// The working directory that the environment asks for. The variable is taken
/// out where it names one.
pub fn take_working_dir(env: &mut Environment) -> (dir: Option<String>)
    ensures
        dir.deep_view() == if value_of(old(env)@, "SHARUN_WORKING_DIR"@).len() > 0 {
            Some(value_of(old(env)@, "SHARUN_WORKING_DIR"@))
        } else {
            None
        },
        final(env)@ == if value_of(old(env)@, "SHARUN_WORKING_DIR"@).len() > 0 {
            without_var(old(env)@, "SHARUN_WORKING_DIR"@)
        } else {
            old(env)@
        },
{
    let value = env.get("SHARUN_WORKING_DIR");
    if chars_of(value.as_str()).len() > 0 {
        env.remove("SHARUN_WORKING_DIR");
        Some(value)
    } else {
        None
    }
}

/// Whether the environment asks to be printed before the target starts. The
/// flag is taken out where it does.
pub fn take_printenv(env: &mut Environment) -> (print: bool)
    ensures
        print == (value_of(old(env)@, "SHARUN_PRINTENV"@) == "1"@),
        final(env)@ == if print {
            without_var(old(env)@, "SHARUN_PRINTENV"@)
        } else {
            old(env)@
        },
{
    let flag = env.get("SHARUN_PRINTENV");
    if same_str(flag.as_str(), "1") {
        env.remove("SHARUN_PRINTENV");
        true
    } else {
        false
    }
}

/// Completes the environment and the search path.
///
/// `lib_path_data` is the text of the cache file of the library tree at
/// `library_root`, `unset_envs` the names that the bundle asks to unset. The
/// search path ends with what `LD_LIBRARY_PATH` held before anything was unset.
pub fn seal_environment(
    env: &mut Environment,
    lib_path_data: &str,
    library_root: &str,
    unset_envs: &Vec<String>,
) -> (r: Sealed)
    ensures
        final(env)@ == sealed(old(env)@, unset_envs.deep_view()),
        r.library_path@ == with_inherited(
            search_path(lib_path_data@, library_root@),
            value_of(old(env)@, "LD_LIBRARY_PATH"@),
        ),
        r.print == (value_of(without_vars(old(env)@, unset_envs.deep_view()), "SHARUN_PRINTENV"@)
            == "1"@),
{
    let own = read_library_path(lib_path_data, library_root);
    let library_path = append_inherited(own.as_str(), env.get("LD_LIBRARY_PATH").as_str());
    unset_all(env, unset_envs);
    let print = take_printenv(env);
    Sealed { library_path, print }
}

/// The preload list that the text of a `.preload` file stands for.
pub fn preload_list(data: &str) -> (list: String)
    ensures
        list@ == preload_of(split(trim(data@), '\n')),
{
    let text = chars_of(data);
    let body = trimmed(text.as_slice());
    let lines = split_at_char(body.as_slice(), '\n');
    let mut list: Vec<char> = Vec::new();
    let mut i: usize = 0;
    while i < lines.len()
        invariant
            i <= lines.len(),
            lines.len() >= 1,
            i > 0 ==> list@ == preload_of(rows(lines@).take(i as int)),
            i == 0 ==> list@ == Seq::<char>::empty(),
        decreases lines.len() - i,
    {
        proof {
            let next = rows(lines@).take(i + 1);
            assert(next.drop_last() =~= rows(lines@).take(i as int));
            assert(next.last() == lines[i as int]@);
        }
        let line = trimmed(lines[i].as_slice());
        if i > 0 {
            list.push(' ');
        }
        push_all(&mut list, line.as_slice());
        i += 1;
    }
    assert(rows(lines@).take(lines.len() as int) =~= rows(lines@));
    string_of(list.as_slice())
}

/// How control passes to the target. `packed` says whether the target carries
/// its own payload in a section called `pydata`, `unpacked_beside` whether
/// `shared/bin` holds an `_internal` directory, `elf32` whether the target is a
/// 32-bit program.
pub fn exec_mode(packed: bool, unpacked_beside: bool, elf32: bool) -> (mode: ExecMode)
    ensures
        mode == exec_mode_of(packed, unpacked_beside, elf32),
{
    if !packed && !elf32 {
        ExecMode::Handoff
    } else if unpacked_beside || !packed {
        ExecMode::ViaInterpreter
    } else {
        ExecMode::Patched
    }
}

/// The argument vector for the dynamic linker. `arg0_path` is the path by which
/// the launcher was called, `bin` the target, `preload` the preload list of the
/// bundle.
pub fn interpreter_args(
    interpreter: &str,
    library_path: &str,
    mode: ExecMode,
    arg0_path: &str,
    preload: Option<&str>,
    bin: &str,
    exec_args: &Vec<String>,
) -> (args: Vec<String>)
    ensures
        args.deep_view() == linker_args(
            interpreter@,
            library_path@,
            argv0_of(mode, arg0_path@, bin@),
            match preload {
                Some(list) => Some(list@),
                None => None,
            },
            bin@,
            exec_args.deep_view(),
        ),
{
    let argv0 = match mode {
        ExecMode::Handoff => arg0_path,
        _ => bin,
    };
    let mut args: Vec<String> = Vec::new();
    append_string(&mut args, interpreter.to_owned());
    append_string(&mut args, "--library-path".to_owned());
    append_string(&mut args, library_path.to_owned());
    append_string(&mut args, "--argv0".to_owned());
    append_string(&mut args, argv0.to_owned());
    match preload {
        Some(list) => {
            append_string(&mut args, "--preload".to_owned());
            append_string(&mut args, list.to_owned());
        },
        None => {},
    }
    append_string(&mut args, bin.to_owned());
    append_strings(&mut args, exec_args);
    assert(args.deep_view() =~= linker_args(
        interpreter@,
        library_path@,
        argv0_of(mode, arg0_path@, bin@),
        match preload {
            Some(list) => Some(list@),
            None => None,
        },
        bin@,
        exec_args.deep_view(),
    ));
    args
}

} // verus!
