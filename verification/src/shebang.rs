//! Scripts among the bundled programs: reading the `#!` line and assembling
//! the command that runs the script.

use vstd::prelude::*;
use crate::paths::{
    basename_chars, basename_of, executables, file_name, first_found, is_executable,
    lemma_first_found_from, path_file_name, search_places, which, FileStat,
};
use crate::text::{
    append_string, append_strings, chars_of, has_prefix, rows, same_chars, slice_of, split_words,
    starts_with, string_of, words,
};

verus! {

/// Why a script cannot be run.
#[derive(Clone, Copy, Debug, PartialEq, Eq, Structural)]
pub enum ScriptError {
    /// The first line does not start with `#!`.
    InvalidShebang,
    /// Nothing follows `#!`.
    NoInterpreter,
    /// The line names `env` and nothing after it.
    NoInterpreterAfterEnv,
    /// The interpreter that `env` is to find is not on the search path.
    NotInPath,
    /// The interpreter is neither on the search path nor at the path that the
    /// line gives.
    NotFound,
}

/// What a `#!` line asks for.
#[derive(Debug)]
pub struct Shebang {
    /// The line goes through `env`: the interpreter is only a name.
    pub via_env: bool,
    /// The interpreter as the line gives it: a name after `env`, a path otherwise.
    pub interpreter: String,
    /// The name to look for on the search path.
    pub lookup: String,
    /// The arguments that the line gives to the interpreter.
    pub args: Vec<String>,
}

/// Mathematical content of a `Shebang`.
pub struct ShebangModel {
    pub via_env: bool,
    pub interpreter: Seq<char>,
    pub lookup: Seq<char>,
    pub args: Seq<Seq<char>>,
}

impl DeepView for Shebang {
    type V = ShebangModel;

    open spec fn deep_view(&self) -> ShebangModel {
        ShebangModel {
            via_env: self.via_env,
            interpreter: self.interpreter@,
            lookup: self.lookup@,
            args: self.args.deep_view(),
        }
    }
}

/// The two characters that open a script.
pub open spec fn shebang_mark() -> Seq<char> {
    seq!['#', '!']
}

/// Whether the interpreter of a line is `env`: the final name of its path is
/// `env`, whatever directory, if any, stands before it.
pub open spec fn names_env(interpreter: Seq<char>) -> bool {
    basename_of(interpreter) == "env"@
}

/// Whether `head`, the start of a file, opens a script.
pub open spec fn is_script_head(head: Seq<u8>) -> bool {
    head.len() >= 2 && head[0] == 0x23 && head[1] == 0x21
}

/// What the first line of a script asks for.
///
/// The words after `#!` are the interpreter and its arguments. Where the final
/// name of the interpreter's path is `env`, as in `/usr/bin/env` or a bare
/// `env`, the next word is the interpreter's name, to be found on the search
/// path and nowhere else. Otherwise the final component of the path is looked
/// for there.
pub open spec fn shebang_of(line: Seq<char>) -> Result<ShebangModel, ScriptError> {
    let parts = words(line.subrange(2, line.len() as int));
    if !has_prefix(line, shebang_mark()) {
        Err(ScriptError::InvalidShebang)
    } else if parts.len() == 0 {
        Err(ScriptError::NoInterpreter)
    } else if names_env(parts[0]) {
        if parts.len() < 2 {
            Err(ScriptError::NoInterpreterAfterEnv)
        } else {
            Ok(
                ShebangModel {
                    via_env: true,
                    interpreter: parts[1],
                    lookup: parts[1],
                    args: parts.subrange(2, parts.len() as int),
                },
            )
        }
    } else {
        Ok(
            ShebangModel {
                via_env: false,
                interpreter: parts[0],
                lookup: match path_file_name(parts[0]) {
                    Some(name) => name,
                    None => Seq::empty(),
                },
                args: parts.subrange(1, parts.len() as int),
            },
        )
    }
}

/// The command that runs the script at `script`: the interpreter, the arguments
/// of the `#!` line, the script, and the arguments of the caller.
///
/// `found` is the interpreter as the search path gave it. A line that goes
/// through `env` has no other interpreter; a line that gives a path falls back
/// on that path where it exists.
pub open spec fn script_command(
    shebang: ShebangModel,
    found: Option<Seq<char>>,
    literal_exists: bool,
    script: Seq<char>,
    exec_args: Seq<Seq<char>>,
) -> Result<Seq<Seq<char>>, ScriptError> {
    match found {
        Some(interpreter) => Ok(seq![interpreter] + shebang.args + seq![script] + exec_args),
        None => if shebang.via_env {
            Err(ScriptError::NotInPath)
        } else if literal_exists {
            Ok(seq![shebang.interpreter] + shebang.args + seq![script] + exec_args)
        } else {
            Err(ScriptError::NotFound)
        },
    }
}

/// The command that runs the script, with the interpreter looked up along the
/// search path `path_env`: the first place for `shebang.lookup` that holds an
/// executable file. `stats` holds the metadata of each place in turn.
pub open spec fn script_run(
    shebang: ShebangModel,
    path_env: Option<Seq<char>>,
    stats: Seq<Option<FileStat>>,
    literal_exists: bool,
    script: Seq<char>,
    exec_args: Seq<Seq<char>>,
) -> Result<Seq<Seq<char>>, ScriptError> {
    script_command(
        shebang,
        first_found(search_places(path_env, shebang.lookup), executables(stats)),
        literal_exists,
        script,
        exec_args,
    )
}

/// A script that goes through `env` is never run by the path of `env` itself, nor
/// by anything else, when its interpreter is not on the search path.
pub proof fn lemma_env_has_no_fallback(
    shebang: ShebangModel,
    literal_exists: bool,
    script: Seq<char>,
    exec_args: Seq<Seq<char>>,
)
    requires
        shebang.via_env,
    ensures
        script_command(shebang, None, literal_exists, script, exec_args) == Err::<
            Seq<Seq<char>>,
            ScriptError,
        >(ScriptError::NotInPath),
{
}

/// A line that names `env` and a word after it asks for an interpreter by name,
/// and the script is not run when no place of the search path holds an
/// executable file of that name, whether or not the path of `env` or anything
/// else exists.
pub proof fn lemma_env_line_needs_the_search_path(
    line: Seq<char>,
    path_env: Option<Seq<char>>,
    stats: Seq<Option<FileStat>>,
    literal_exists: bool,
    script: Seq<char>,
    exec_args: Seq<Seq<char>>,
)
    requires
        has_prefix(line, shebang_mark()),
        words(line.subrange(2, line.len() as int)).len() >= 2,
        names_env(words(line.subrange(2, line.len() as int))[0]),
        forall|i: int| 0 <= i < stats.len() ==> !is_executable(#[trigger] stats[i]),
    ensures
        shebang_of(line) matches Ok(shebang) && shebang.via_env && shebang.lookup == words(
            line.subrange(2, line.len() as int),
        )[1] && script_run(shebang, path_env, stats, literal_exists, script, exec_args) == Err::<
            Seq<Seq<char>>,
            ScriptError,
        >(ScriptError::NotInPath),
{
    let name = words(line.subrange(2, line.len() as int))[1];
    lemma_first_found_from(search_places(path_env, name), executables(stats), 0);
}

/// Whether a file that starts with `head` is a script. `None` where the file has
/// fewer than two bytes.
pub fn is_script(head: &[u8]) -> (r: Option<bool>)
    ensures
        r == if head.len() < 2 {
            None
        } else {
            Some(is_script_head(head@))
        },
{
    if head.len() < 2 {
        return None;
    }
    Some(head[0] == 0x23 && head[1] == 0x21)
}

/// The strings that spell `list[from..]`.
fn strings_from(list: &Vec<Vec<char>>, from: usize) -> (out: Vec<String>)
    requires
        from <= list.len(),
    ensures
        out.deep_view() == rows(list@).subrange(from as int, list.len() as int),
{
    let mut out: Vec<String> = Vec::new();
    let mut i: usize = from;
    while i < list.len()
        invariant
            from <= i <= list.len(),
            out.deep_view() == rows(list@).subrange(from as int, i as int),
        decreases list.len() - i,
    {
        let text = string_of(list[i].as_slice());
        let ghost before = out.deep_view();
        out.push(text);
        assert(out.deep_view() =~= before.push(text@));
        i += 1;
        assert(out.deep_view() =~= rows(list@).subrange(from as int, i as int));
    }
    out
}

/// Reads the first line of a script.
pub fn parse_shebang(first_line: &str) -> (r: Result<Shebang, ScriptError>)
    ensures
        match shebang_of(first_line@) {
            Ok(model) => r matches Ok(shebang) && shebang.deep_view() == model,
            Err(e) => r matches Err(got) && got == e,
        },
{
    let line = chars_of(first_line);
    let mut mark: Vec<char> = Vec::new();
    mark.push('#');
    mark.push('!');
    assert(mark@ =~= shebang_mark());
    if !starts_with(line.as_slice(), mark.as_slice()) {
        return Err(ScriptError::InvalidShebang);
    }
    let rest = slice_of(line.as_slice(), 2, line.len());
    let parts = split_words(rest.as_slice());
    if parts.len() == 0 {
        return Err(ScriptError::NoInterpreter);
    }
    assert(rows(parts@)[0] == parts@[0]@);
    let name = basename_chars(parts[0].as_slice());
    let env = chars_of("env");
    if same_chars(name.as_slice(), env.as_slice()) {
        if parts.len() < 2 {
            return Err(ScriptError::NoInterpreterAfterEnv);
        }
        assert(rows(parts@)[1] == parts@[1]@);
        let name = string_of(parts[1].as_slice());
        let args = strings_from(&parts, 2);
        Ok(Shebang { via_env: true, interpreter: name.clone(), lookup: name, args })
    } else {
        let path = string_of(parts[0].as_slice());
        let lookup = file_name(path.as_str());
        let args = strings_from(&parts, 1);
        Ok(Shebang { via_env: false, interpreter: path, lookup, args })
    }
}

/// Assembles the command that runs the script at `path` with the caller's
/// arguments `exec_args`, once the interpreter was looked up.
///
/// `found` is what the search path gave for `shebang.lookup`; `literal_exists`
/// says whether `shebang.interpreter`, read as a path, exists.
pub fn assemble_script(
    shebang: &Shebang,
    found: Option<String>,
    literal_exists: bool,
    path: &str,
    exec_args: &Vec<String>,
) -> (r: Result<Vec<String>, ScriptError>)
    ensures
        match script_command(
            shebang.deep_view(),
            found.deep_view(),
            literal_exists,
            path@,
            exec_args.deep_view(),
        ) {
            Ok(command) => r matches Ok(out) && out.deep_view() == command,
            Err(e) => r matches Err(got) && got == e,
        },
{
    let interpreter = match found {
        Some(interpreter) => interpreter,
        None => {
            if shebang.via_env {
                return Err(ScriptError::NotInPath);
            }
            if !literal_exists {
                return Err(ScriptError::NotFound);
            }
            shebang.interpreter.clone()
        },
    };
    let mut command: Vec<String> = Vec::new();
    let ghost first = interpreter@;
    append_string(&mut command, interpreter);
    append_strings(&mut command, &shebang.args);
    append_string(&mut command, path.to_owned());
    append_strings(&mut command, exec_args);
    assert(command.deep_view() =~= seq![first] + shebang.args.deep_view() + seq![path@]
        + exec_args.deep_view());
    Ok(command)
}

/// Assembles the command that runs the script at `path` with the caller's
/// arguments `exec_args`.
///
/// The interpreter is looked up along the search path `path_env`. `stats` holds
/// the metadata of each place of `which_candidates(path_env, shebang.lookup)`
/// in turn; `literal_exists` says whether `shebang.interpreter`, read as a path,
/// exists.
pub fn exec_script(
    shebang: &Shebang,
    path_env: Option<&str>,
    stats: &Vec<Option<FileStat>>,
    literal_exists: bool,
    path: &str,
    exec_args: &Vec<String>,
) -> (r: Result<Vec<String>, ScriptError>)
    ensures
        match script_run(
            shebang.deep_view(),
            path_env.deep_view(),
            stats@,
            literal_exists,
            path@,
            exec_args.deep_view(),
        ) {
            Ok(command) => r matches Ok(out) && out.deep_view() == command,
            Err(e) => r matches Err(got) && got == e,
        },
{
    let found = which(path_env, shebang.lookup.as_str(), stats);
    assemble_script(shebang, found, literal_exists, path, exec_args)
}

} // verus!
