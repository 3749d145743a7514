//! The dispatch controller: where the bundle lies, which program an invocation
//! asks for, and whether that is a built-in command, a file to run as it is, or
//! a bundled program to hand to the dynamic linker.

use vstd::prelude::*;
use crate::environ::{add_to_env, prepended, value_of, with_var, EnvModel, Environment};
use crate::paths::{
    basename_chars, basename_of, below, is_dir, is_directory, is_exe, is_executable, is_hardlink,
    is_same_rootdir, join_path, joined, path_below, same_file, same_rootdir, FileStat,
};
use crate::rules::{TreeEntry, TreeEntryModel};
use crate::text::{
    append_string, append_strings, chars_of, ends_with, has_prefix, has_suffix, push_all,
    replace_char, replace_each, rows, same_str, slice_of, split, split_at_char, split_words,
    starts_with, string_of, trim, trimmed, words,
};

verus! {

/// The directories of a bundle.
#[derive(Debug)]
pub struct BundleDirs {
    /// The root.
    pub root: String,
    /// `bin`: what the user sees.
    pub bin_dir: String,
    /// `shared`: what the launcher runs.
    pub shared_dir: String,
    /// `shared/bin`: the bundled programs.
    pub shared_bin: String,
    /// `shared/lib`: the library tree of 64-bit programs.
    pub shared_lib: String,
    /// `shared/lib32`: the library tree of 32-bit programs.
    pub shared_lib32: String,
    /// `share`: the data of the bundle.
    pub share_dir: String,
    /// `etc`: the configuration of the bundle.
    pub etc_dir: String,
    /// The launcher's own copy in the root.
    pub launcher: String,
    /// `.app`: the file that names the application.
    pub app_file: String,
    /// `.env`: the file of variables and unset directives.
    pub env_file: String,
    /// `.preload`: the file that lists what to preload.
    pub preload_file: String,
    /// `shared/bin/_internal`: where a packed program lies unpacked.
    pub internal_dir: String,
}

/// Mathematical content of a `BundleDirs`.
pub struct BundleDirsModel {
    pub root: Seq<char>,
    pub bin_dir: Seq<char>,
    pub shared_dir: Seq<char>,
    pub shared_bin: Seq<char>,
    pub shared_lib: Seq<char>,
    pub shared_lib32: Seq<char>,
    pub share_dir: Seq<char>,
    pub etc_dir: Seq<char>,
    pub launcher: Seq<char>,
    pub app_file: Seq<char>,
    pub env_file: Seq<char>,
    pub preload_file: Seq<char>,
    pub internal_dir: Seq<char>,
}

impl DeepView for BundleDirs {
    type V = BundleDirsModel;

    open spec fn deep_view(&self) -> BundleDirsModel {
        BundleDirsModel {
            root: self.root@,
            bin_dir: self.bin_dir@,
            shared_dir: self.shared_dir@,
            shared_bin: self.shared_bin@,
            shared_lib: self.shared_lib@,
            shared_lib32: self.shared_lib32@,
            share_dir: self.share_dir@,
            etc_dir: self.etc_dir@,
            launcher: self.launcher@,
            app_file: self.app_file@,
            env_file: self.env_file@,
            preload_file: self.preload_file@,
            internal_dir: self.internal_dir@,
        }
    }
}

/// What an invocation asks the launcher to do.
#[derive(Clone, Copy, Debug, PartialEq, Eq, Structural)]
pub enum Route {
    /// Print the version.
    Version,
    /// Print the usage.
    Help,
    /// Write the cache file of every library tree that is there.
    GenLibPath,
    /// Run the bundle-authoring helper with the remaining arguments.
    Helper,
    /// Run the program that the first argument names.
    Named,
    /// Nothing was named: list the programs of the bundle and fail.
    ListPrograms,
    /// Run the application that the bundle declares.
    AppRun,
    /// Run the bundled program whose name the launcher was called by.
    Bundled,
}

/// The program that an invocation asks to run, and what to run it with.
#[derive(Debug)]
pub struct ExecutionRequest {
    /// The name of the program.
    pub requested_name: String,
    /// The arguments for the program, in order.
    pub forwarded_args: Vec<String>,
    /// The directory to run the program in, where the environment names one.
    pub working_directory: Option<String>,
}

/// Mathematical content of an `ExecutionRequest`.
pub struct ExecutionRequestModel {
    pub requested_name: Seq<char>,
    pub forwarded_args: Seq<Seq<char>>,
    pub working_directory: Option<Seq<char>>,
}

impl DeepView for ExecutionRequest {
    type V = ExecutionRequestModel;

    open spec fn deep_view(&self) -> ExecutionRequestModel {
        ExecutionRequestModel {
            requested_name: self.requested_name@,
            forwarded_args: self.forwarded_args.deep_view(),
            working_directory: self.working_directory.deep_view(),
        }
    }
}

/// The layout of the bundle at `root` whose launcher is called `launcher_name`.
pub open spec fn layout_of(root: Seq<char>, launcher_name: Seq<char>) -> BundleDirsModel {
    BundleDirsModel {
        root,
        bin_dir: below(root, "bin"@),
        shared_dir: below(root, "shared"@),
        shared_bin: below(below(root, "shared"@), "bin"@),
        shared_lib: below(below(root, "shared"@), "lib"@),
        shared_lib32: below(below(root, "shared"@), "lib32"@),
        share_dir: below(root, "share"@),
        etc_dir: below(root, "etc"@),
        launcher: joined(root, launcher_name),
        app_file: below(root, ".app"@),
        env_file: below(root, ".env"@),
        preload_file: below(root, ".preload"@),
        internal_dir: below(below(below(root, "shared"@), "bin"@), "_internal"@),
    }
}

/// Whether a root named by the override is accepted: the name is not empty, the
/// root is a directory with a `shared` directory and an executable copy of the
/// launcher, and that copy and the running executable both lie below it.
pub open spec fn root_accepted(
    sharun_dir: Seq<char>,
    root: Option<FileStat>,
    shared: Option<FileStat>,
    launcher: Option<FileStat>,
    resolved_root: Option<Seq<char>>,
    resolved_exe: Option<Seq<char>>,
    resolved_launcher: Option<Seq<char>>,
) -> bool {
    &&& sharun_dir.len() > 0
    &&& is_directory(root)
    &&& is_directory(shared)
    &&& is_executable(launcher)
    &&& same_rootdir(resolved_root, resolved_exe, resolved_launcher)
}

/// Whether a file in `bin` is run as it is: it is executable, and it is a
/// hardlink of the launcher, or no bundled program has its name, or it is
/// another file than the launcher.
pub open spec fn run_directly(
    target: Option<FileStat>,
    launcher: Option<FileStat>,
    shared_has_target: bool,
    is_launcher: bool,
) -> bool {
    is_executable(target) && (same_file(launcher, target) || !shared_has_target || !is_launcher)
}

/// The root that the launcher falls back on when no override is accepted: the
/// directory of its own executable or, where that is a `bin` with a `shared`
/// beside it, the directory above. There is no root where the directory above
/// is the root and could not be resolved.
pub open spec fn fallback_root_of(
    exe_dir: Seq<char>,
    shared_above: Option<FileStat>,
    resolved_above: Option<Seq<char>>,
) -> Option<Seq<char>> {
    if basename_of(exe_dir) == "bin"@ && is_directory(shared_above) {
        resolved_above
    } else {
        Some(exe_dir)
    }
}

/// The program that an invocation names.
///
/// A symlink that leads to the launcher names a program by its own name. A
/// symlink that leads to a file whose name is a bundled program names that
/// program. Anything else is the launcher called as itself.
pub open spec fn identity_of(
    arg0_name: Seq<char>,
    arg0_is_symlink: bool,
    arg0_full_path: Seq<char>,
    arg0_full_name: Seq<char>,
    launcher_path: Seq<char>,
    shared_has_full_name: bool,
    exe_name: Seq<char>,
) -> Seq<char> {
    if arg0_is_symlink && arg0_full_path == launcher_path {
        arg0_name
    } else if arg0_is_symlink && shared_has_full_name {
        arg0_full_name
    } else {
        exe_name
    }
}

/// What the first argument asks for when the launcher is called as itself.
pub open spec fn command_of(arg: Seq<char>) -> Route {
    if arg == "-v"@ || arg == "--version"@ {
        Route::Version
    } else if arg == "-h"@ || arg == "--help"@ {
        Route::Help
    } else if arg == "-g"@ || arg == "--gen-lib-path"@ {
        Route::GenLibPath
    } else if arg == "l"@ || arg == "lib4bin"@ {
        Route::Helper
    } else {
        Route::Named
    }
}

/// What an invocation under the name `bin_name` with the arguments `args` asks
/// for.
pub open spec fn route_of(
    bin_name: Seq<char>,
    launcher_name: Seq<char>,
    args: Seq<Seq<char>>,
) -> Route {
    if bin_name == launcher_name {
        if args.len() == 0 {
            Route::ListPrograms
        } else {
            command_of(args[0])
        }
    } else if bin_name == "AppRun"@ {
        Route::AppRun
    } else {
        Route::Bundled
    }
}

/// The names among `entries` whose metadata is that of an executable file, in
/// order.
pub open spec fn programs(entries: Seq<(Seq<char>, Option<FileStat>)>) -> Seq<Seq<char>>
    decreases entries.len(),
{
    if entries.len() == 0 {
        Seq::empty()
    } else if is_executable(entries.last().1) {
        programs(entries.drop_last()).push(entries.last().0)
    } else {
        programs(entries.drop_last())
    }
}

/// The request that an invocation makes, where it asks for a program: called as
/// itself, the launcher takes the first argument for the program's name and
/// forwards the rest; called by another name, it takes that name and forwards
/// every argument. The working directory is what `SHARUN_WORKING_DIR` names.
pub open spec fn request_of(
    bin_name: Seq<char>,
    launcher_name: Seq<char>,
    args: Seq<Seq<char>>,
    env: EnvModel,
) -> Option<ExecutionRequestModel> {
    let working_directory = if value_of(env, "SHARUN_WORKING_DIR"@).len() > 0 {
        Some(value_of(env, "SHARUN_WORKING_DIR"@))
    } else {
        None
    };
    match route_of(bin_name, launcher_name, args) {
        Route::Named => Some(
            ExecutionRequestModel {
                requested_name: args[0],
                forwarded_args: args.subrange(1, args.len() as int),
                working_directory,
            },
        ),
        Route::Bundled => Some(
            ExecutionRequestModel {
                requested_name: bin_name,
                forwarded_args: args,
                working_directory,
            },
        ),
        _ => None,
    }
}

/// How the name of a desktop file ends.
pub open spec fn desktop_suffix() -> Seq<char> {
    seq!['.', 'd', 'e', 's', 'k', 't', 'o', 'p']
}

/// The paths of the desktop files among `entries`: the regular files whose name
/// ends in `.desktop`, in order.
pub open spec fn desktop_files(entries: Seq<TreeEntryModel>) -> Seq<Seq<char>>
    decreases entries.len(),
{
    if entries.len() == 0 {
        Seq::empty()
    } else if entries.last().is_file && has_suffix(entries.last().file_name, desktop_suffix()) {
        desktop_files(entries.drop_last()).push(entries.last().path)
    } else {
        desktop_files(entries.drop_last())
    }
}

/// The name after `Exec=` in the first line of a desktop file that starts so:
/// the first word behind the key. Empty where no line starts so.
pub open spec fn desktop_exec(lines: Seq<Seq<char>>) -> Seq<char>
    decreases lines.len(),
{
    if lines.len() == 0 {
        Seq::empty()
    } else if has_prefix(lines[0], "Exec="@) {
        let command = words(lines[0].subrange("Exec="@.len() as int, lines[0].len() as int));
        if command.len() > 0 {
            command[0]
        } else {
            Seq::empty()
        }
    } else {
        desktop_exec(lines.drop_first())
    }
}

/// The program that the desktop files of a bundle start: what the last of them
/// names. Empty where there is none.
pub open spec fn declared_by(desktop_texts: Seq<Seq<char>>) -> Seq<char> {
    if desktop_texts.len() == 0 {
        Seq::empty()
    } else {
        desktop_exec(split(desktop_texts.last(), '\n'))
    }
}

/// Where the name of the application comes from: the desktop files of the
/// bundle say it where the bundle has no `.app` file and they name a program;
/// otherwise the `.app` file says it, and `None` stands for that.
pub open spec fn declared_without_app_file(
    app_file_exists: bool,
    desktop_texts: Seq<Seq<char>>,
) -> Option<Seq<char>> {
    if !app_file_exists && declared_by(desktop_texts).len() > 0 {
        Some(declared_by(desktop_texts))
    } else {
        None
    }
}

/// The name of the application that the text of an `.app` file or the `Exec`
/// entry of a desktop file declares: the final name of its first line, without
/// quotes.
pub open spec fn app_name_of(text: Seq<char>) -> Seq<char> {
    let first = split(trim(text), '\n')[0];
    replace_char(replace_char(basename_of(first), '\'', Seq::empty()), '"', Seq::empty())
}

/// The environment with which the declared application is run: the bundle's
/// `bin` on the search path, and the invocation and the root recorded unless an
/// outer launcher has already done so.
pub open spec fn with_app_identity(
    env: EnvModel,
    bin_dir: Seq<char>,
    arg0: Seq<char>,
    root: Seq<char>,
) -> EnvModel {
    let e1 = prepended(env, "PATH"@, bin_dir);
    let e2 = if value_of(e1, "ARGV0"@).len() == 0 {
        with_var(e1, "ARGV0"@, arg0)
    } else {
        e1
    };
    if value_of(e2, "APPDIR"@).len() == 0 {
        with_var(e2, "APPDIR"@, root)
    } else {
        e2
    }
}

/// What follows the launcher's name in the usage text.
pub open spec fn usage_tail() -> Seq<char> {
    " [OPTIONS] [EXEC ARGS]...
     Use lib4bin for create 'bin' and 'shared' dirs

[ Arguments ]:
    [EXEC ARGS]...              Command line arguments for execution

[ Options ]:
     l,  lib4bin [ARGS]         Launch the built-in lib4bin
    -g,  --gen-lib-path         Generate a lib.path file
    -v,  --version              Print version
    -h,  --help                 Print help

[ Environments ]:
    SHARUN_WORKING_DIR=/path    Specifies the path to the working directory
    SHARUN_ALLOW_SYS_VKICD=1    Enables breaking system vulkan/icd.d for vulkan loader
    SHARUN_ALLOW_LD_PRELOAD=1   Enables breaking LD_PRELOAD env variable
    SHARUN_PRINTENV=1           Print environment variables to stderr
    SHARUN_LDNAME=ld.so         Specifies the name of the interpreter
    SHARUN_DIR                  Sharun directory"@
}

/// The usage text of a launcher called `name` that describes itself by
/// `description`.
pub open spec fn usage_text(name: Seq<char>, description: Seq<char>) -> Seq<char> {
    "[ "@ + description + " ]\n\n[ Usage ]: "@ + name + usage_tail()
}

/// A symlink called `name` that leads to the launcher of the bundle asks for the
/// program `name`, whatever the launcher's own file is called.
pub proof fn lemma_symlink_names_program(
    name: Seq<char>,
    launcher_path: Seq<char>,
    full_name: Seq<char>,
    shared_has_full_name: bool,
    exe_name: Seq<char>,
)
    ensures
        identity_of(
            name,
            true,
            launcher_path,
            full_name,
            launcher_path,
            shared_has_full_name,
            exe_name,
        ) == name,
{
}

/// A symlink called `name` that leads to the launcher runs the bundled program
/// `name` with every argument of the invocation, unless `name` is the
/// launcher's own name or `AppRun`.
pub proof fn lemma_symlink_runs_program(
    name: Seq<char>,
    launcher_path: Seq<char>,
    launcher_name: Seq<char>,
    full_name: Seq<char>,
    shared_has_full_name: bool,
    exe_name: Seq<char>,
    args: Seq<Seq<char>>,
    env: EnvModel,
)
    requires
        name != launcher_name,
        name != "AppRun"@,
    ensures
        ({
            let bin_name = identity_of(
                name,
                true,
                launcher_path,
                full_name,
                launcher_path,
                shared_has_full_name,
                exe_name,
            );
            &&& route_of(bin_name, launcher_name, args) == Route::Bundled
            &&& request_of(bin_name, launcher_name, args, env) matches Some(request)
            &&& request.requested_name == name
            &&& request.forwarded_args == args
        }),
{
}

/// The path of the entry `name` of `dir`, from characters.
fn entry(dir: &Vec<char>, name: &str) -> (out: String)
    ensures
        out@ == below(dir@, name@),
{
    string_of(path_below(dir.as_slice(), chars_of(name).as_slice()).as_slice())
}

/// The directories and files of the bundle at `root` whose launcher is called
/// `launcher_name`.
pub fn bundle_dirs(root: &str, launcher_name: &str) -> (dirs: BundleDirs)
    ensures
        dirs.deep_view() == layout_of(root@, launcher_name@),
{
    let r = chars_of(root);
    let shared = path_below(r.as_slice(), chars_of("shared").as_slice());
    let shared_bin = path_below(shared.as_slice(), chars_of("bin").as_slice());
    BundleDirs {
        root: root.to_owned(),
        bin_dir: entry(&r, "bin"),
        shared_dir: string_of(shared.as_slice()),
        shared_bin: string_of(shared_bin.as_slice()),
        shared_lib: entry(&shared, "lib"),
        shared_lib32: entry(&shared, "lib32"),
        share_dir: entry(&r, "share"),
        etc_dir: entry(&r, "etc"),
        launcher: join_path(root, launcher_name),
        app_file: entry(&r, ".app"),
        env_file: entry(&r, ".env"),
        preload_file: entry(&r, ".preload"),
        internal_dir: entry(&shared_bin, "_internal"),
    }
}

/// The root that the environment names for the bundle: what `SHARUN_DIR` holds.
pub fn named_root(env: &Environment) -> (dir: String)
    ensures
        dir@ == value_of(env@, "SHARUN_DIR"@),
{
    env.get("SHARUN_DIR")
}

/// Records the root of the bundle in `SHARUN_DIR`, for the programs that the
/// launcher starts.
pub fn record_root(env: &mut Environment, root: &str)
    ensures
        final(env)@ == with_var(old(env)@, "SHARUN_DIR"@, root@),
{
    env.set("SHARUN_DIR", root);
}

/// Whether the root that the override variable names is accepted.
///
/// `root`, `shared` and `launcher` are the metadata of the root, of its
/// `shared` and of the launcher's copy in it; `resolved` holds the canonical
/// paths of the root, of the running executable and of that copy.
pub fn accepts_root(
    sharun_dir: &str,
    root: Option<FileStat>,
    shared: Option<FileStat>,
    launcher: Option<FileStat>,
    resolved: (Option<&str>, Option<&str>, Option<&str>),
) -> (r: bool)
    ensures
        r == root_accepted(
            sharun_dir@,
            root,
            shared,
            launcher,
            resolved.0.deep_view(),
            resolved.1.deep_view(),
            resolved.2.deep_view(),
        ),
{
    chars_of(sharun_dir).len() > 0 && is_dir(root) && is_dir(shared) && is_exe(launcher)
        && is_same_rootdir(resolved.0, resolved.1, resolved.2)
}

/// The directory above `exe_dir`, as a path to resolve.
pub fn lower_dir(exe_dir: &str) -> (out: String)
    ensures
        out@ == exe_dir@ + "/../"@,
{
    let mut path = chars_of(exe_dir);
    let up = chars_of("/../");
    push_all(&mut path, up.as_slice());
    string_of(path.as_slice())
}

/// The root of the bundle when no override is accepted. `shared_above` is the
/// metadata of `shared` in the directory above `exe_dir`, `resolved_above` the
/// canonical path of that directory, `None` where it could not be resolved.
/// `None` where the root is that directory and it could not be resolved: the
/// launch cannot go on.
pub fn fallback_root(
    exe_dir: &str,
    shared_above: Option<FileStat>,
    resolved_above: Option<String>,
) -> (root: Option<String>)
    ensures
        root.deep_view() == fallback_root_of(exe_dir@, shared_above, resolved_above.deep_view()),
{
    let dir = chars_of(exe_dir);
    let name = string_of(basename_chars(dir.as_slice()).as_slice());
    if same_str(name.as_str(), "bin") && is_dir(shared_above) {
        resolved_above
    } else {
        Some(exe_dir.to_owned())
    }
}

/// The name of the program that the invocation asks for.
pub fn resolve_identity(
    arg0_name: &str,
    arg0_is_symlink: bool,
    arg0_full_path: &str,
    arg0_full_name: &str,
    launcher_path: &str,
    shared_has_full_name: bool,
    exe_name: &str,
) -> (bin_name: String)
    ensures
        bin_name@ == identity_of(
            arg0_name@,
            arg0_is_symlink,
            arg0_full_path@,
            arg0_full_name@,
            launcher_path@,
            shared_has_full_name,
            exe_name@,
        ),
{
    if arg0_is_symlink && same_str(arg0_full_path, launcher_path) {
        arg0_name.to_owned()
    } else if arg0_is_symlink && shared_has_full_name {
        arg0_full_name.to_owned()
    } else {
        exe_name.to_owned()
    }
}

/// What the first argument asks for when the launcher is called as itself.
pub fn classify_command(arg: &str) -> (route: Route)
    ensures
        route == command_of(arg@),
{
    if same_str(arg, "-v") || same_str(arg, "--version") {
        Route::Version
    } else if same_str(arg, "-h") || same_str(arg, "--help") {
        Route::Help
    } else if same_str(arg, "-g") || same_str(arg, "--gen-lib-path") {
        Route::GenLibPath
    } else if same_str(arg, "l") || same_str(arg, "lib4bin") {
        Route::Helper
    } else {
        Route::Named
    }
}

/// What an invocation under the name `bin_name` with the arguments `exec_args`
/// asks for. `launcher_name` is the launcher's own name.
pub fn route(bin_name: &str, launcher_name: &str, exec_args: &Vec<String>) -> (r: Route)
    ensures
        r == route_of(bin_name@, launcher_name@, exec_args.deep_view()),
{
    if same_str(bin_name, launcher_name) {
        if exec_args.len() == 0 {
            Route::ListPrograms
        } else {
            assert(exec_args.deep_view()[0] == exec_args[0]@);
            classify_command(exec_args[0].as_str())
        }
    } else if same_str(bin_name, "AppRun") {
        Route::AppRun
    } else {
        Route::Bundled
    }
}

/// The programs that the bundle offers: the executable files of its `bin`.
/// `entries` holds name and metadata of each entry of that directory.
pub fn program_names(entries: &Vec<(String, Option<FileStat>)>) -> (names: Vec<String>)
    ensures
        names.deep_view() == programs(entries.deep_view()),
{
    let mut names: Vec<String> = Vec::new();
    let mut i: usize = 0;
    while i < entries.len()
        invariant
            i <= entries.len(),
            names.deep_view() == programs(entries.deep_view().take(i as int)),
        decreases entries.len() - i,
    {
        proof {
            let next = entries.deep_view().take(i + 1);
            assert(next.drop_last() =~= entries.deep_view().take(i as int));
            assert(next.last() == (entries[i as int].0@, entries[i as int].1));
        }
        if is_exe(entries[i].1) {
            append_string(&mut names, entries[i].0.clone());
        }
        i += 1;
    }
    assert(entries.deep_view().take(entries.len() as int) =~= entries.deep_view());
    names
}

/// The request that the invocation makes, where it asks for a program.
pub fn execution_request(
    bin_name: &str,
    launcher_name: &str,
    exec_args: &Vec<String>,
    env: &Environment,
) -> (request: Option<ExecutionRequest>)
    ensures
        request.deep_view() == request_of(bin_name@, launcher_name@, exec_args.deep_view(), env@),
{
    let dir = env.get("SHARUN_WORKING_DIR");
    let working_directory = if chars_of(dir.as_str()).len() > 0 {
        Some(dir)
    } else {
        None
    };
    match route(bin_name, launcher_name, exec_args) {
        Route::Named => {
            let mut forwarded_args: Vec<String> = Vec::new();
            let mut i: usize = 1;
            assert(forwarded_args.deep_view() =~= exec_args.deep_view().subrange(1, 1));
            while i < exec_args.len()
                invariant
                    1 <= i <= exec_args.len(),
                    forwarded_args.deep_view() == exec_args.deep_view().subrange(1, i as int),
                decreases exec_args.len() - i,
            {
                append_string(&mut forwarded_args, exec_args[i].clone());
                i += 1;
                assert(forwarded_args.deep_view() =~= exec_args.deep_view().subrange(1, i as int));
            }
            assert(exec_args.deep_view()[0] == exec_args[0]@);
            Some(
                ExecutionRequest {
                    requested_name: exec_args[0].clone(),
                    forwarded_args,
                    working_directory,
                },
            )
        },
        Route::Bundled => {
            let mut forwarded_args: Vec<String> = Vec::new();
            assert(forwarded_args.deep_view() =~= Seq::<Seq<char>>::empty());
            append_strings(&mut forwarded_args, exec_args);
            assert(forwarded_args.deep_view() =~= exec_args.deep_view());
            Some(
                ExecutionRequest {
                    requested_name: bin_name.to_owned(),
                    forwarded_args,
                    working_directory,
                },
            )
        },
        _ => None,
    }
}

/// The bundled program that a name given as first argument stands for: the
/// file that a symlink of that name in `bin` leads to, where `shared/bin` holds
/// a program called like that file; the name itself otherwise.
pub fn named_target(
    requested: &str,
    is_symlink: bool,
    full_name: &str,
    shared_has_full_name: bool,
) -> (name: String)
    ensures
        name@ == if is_symlink && shared_has_full_name {
            full_name@
        } else {
            requested@
        },
{
    if is_symlink && shared_has_full_name {
        full_name.to_owned()
    } else {
        requested.to_owned()
    }
}

/// Whether the file that a name in `bin` leads to is run as it is, without the
/// dynamic linker. `target` and `launcher` are the metadata of that file and of
/// the running executable; `shared_has_target` says whether a bundled program
/// has the name, `is_launcher` whether the file is the running executable.
pub fn runs_directly(
    target: Option<FileStat>,
    launcher: Option<FileStat>,
    shared_has_target: bool,
    is_launcher: bool,
) -> (r: bool)
    ensures
        r == run_directly(target, launcher, shared_has_target, is_launcher),
{
    is_exe(target) && (is_hardlink(launcher, target) || !shared_has_target || !is_launcher)
}

/// Whether a file of this name is a desktop file.
pub fn is_desktop_name(name: &str) -> (r: bool)
    ensures
        r == has_suffix(name@, desktop_suffix()),
{
    let n = chars_of(name);
    let mut suffix: Vec<char> = Vec::new();
    suffix.push('.');
    suffix.push('d');
    suffix.push('e');
    suffix.push('s');
    suffix.push('k');
    suffix.push('t');
    suffix.push('o');
    suffix.push('p');
    assert(suffix@ =~= desktop_suffix());
    ends_with(n.as_slice(), suffix.as_slice())
}

/// The paths of the desktop files of a bundle. `entries` is the listing of the
/// root of the bundle.
pub fn desktop_file_paths(entries: &Vec<TreeEntry>) -> (paths: Vec<String>)
    ensures
        paths.deep_view() == desktop_files(entries.deep_view()),
{
    let mut paths: Vec<String> = Vec::new();
    let mut i: usize = 0;
    while i < entries.len()
        invariant
            i <= entries.len(),
            paths.deep_view() == desktop_files(entries.deep_view().take(i as int)),
        decreases entries.len() - i,
    {
        proof {
            let next = entries.deep_view().take(i + 1);
            assert(next.drop_last() =~= entries.deep_view().take(i as int));
            assert(next.last() == entries[i as int].deep_view());
        }
        if entries[i].is_file && is_desktop_name(entries[i].file_name.as_str()) {
            append_string(&mut paths, entries[i].path.clone());
        }
        i += 1;
    }
    assert(entries.deep_view().take(entries.len() as int) =~= entries.deep_view());
    paths
}

/// Whether the desktop files of the bundle are read for the name of the
/// application: only a bundle without an `.app` file is described by them.
pub fn reads_desktop_files(app_file_exists: bool) -> (r: bool)
    ensures
        r == !app_file_exists,
{
    !app_file_exists
}

/// The program that the text of a desktop file starts.
pub fn desktop_exec_name(data: &str) -> (name: String)
    ensures
        name@ == desktop_exec(split(data@, '\n')),
{
    let text = chars_of(data);
    let lines = split_at_char(text.as_slice(), '\n');
    let key = chars_of("Exec=");
    let mut i: usize = 0;
    assert(rows(lines@).subrange(0, lines.len() as int) =~= rows(lines@));
    while i < lines.len()
        invariant
            i <= lines.len(),
            key@ == "Exec="@,
            rows(lines@) == split(data@, '\n'),
            desktop_exec(split(data@, '\n')) == desktop_exec(
                rows(lines@).subrange(i as int, lines.len() as int),
            ),
        decreases lines.len() - i,
    {
        let ghost rest = rows(lines@).subrange(i as int, lines.len() as int);
        assert(rest[0] == lines[i as int]@);
        if starts_with(lines[i].as_slice(), key.as_slice()) {
            let value = slice_of(lines[i].as_slice(), key.len(), lines[i].len());
            let command = split_words(value.as_slice());
            if command.len() > 0 {
                assert(rows(command@)[0] == command[0]@);
                return string_of(command[0].as_slice());
            }
            return String::new();
        }
        assert(rest.drop_first() =~= rows(lines@).subrange(i + 1, lines.len() as int));
        i += 1;
    }
    String::new()
}

/// The program that the desktop files of a bundle start. `desktop_texts` holds
/// the text of each desktop file in the root of the bundle.
pub fn declared_by_desktop(desktop_texts: &Vec<String>) -> (name: String)
    ensures
        name@ == declared_by(desktop_texts.deep_view()),
{
    if desktop_texts.len() == 0 {
        return String::new();
    }
    let last = &desktop_texts[desktop_texts.len() - 1];
    assert(desktop_texts.deep_view().last() == last@);
    desktop_exec_name(last.as_str())
}

/// What declares the application, as far as the desktop files do: the program
/// that they start, where the bundle has no `.app` file and they name one.
/// `None` where the `.app` file is to be read instead. `desktop_texts` holds
/// the text of each desktop file in the root of the bundle.
pub fn declared_application(app_file_exists: bool, desktop_texts: &Vec<String>) -> (declared:
    Option<String>)
    ensures
        declared.deep_view() == declared_without_app_file(
            app_file_exists,
            desktop_texts.deep_view(),
        ),
{
    if app_file_exists {
        return None;
    }
    let name = declared_by_desktop(desktop_texts);
    if chars_of(name.as_str()).len() > 0 {
        Some(name)
    } else {
        None
    }
}

/// The name of the application that `text` declares.
pub fn app_name(text: &str) -> (name: String)
    ensures
        name@ == app_name_of(text@),
{
    let t = chars_of(text);
    let body = trimmed(t.as_slice());
    let lines = split_at_char(body.as_slice(), '\n');
    assert(rows(lines@)[0] == lines[0]@);
    let base = basename_chars(lines[0].as_slice());
    let nothing: Vec<char> = Vec::new();
    assert(nothing@ =~= Seq::<char>::empty());
    let unquoted = replace_each(base.as_slice(), '\'', nothing.as_slice());
    let plain = replace_each(unquoted.as_slice(), '"', nothing.as_slice());
    string_of(plain.as_slice())
}

/// Prepares the environment for the application that the bundle declares.
pub fn export_app_identity(env: &mut Environment, bin_dir: &str, arg0: &str, root: &str)
    ensures
        final(env)@ == with_app_identity(old(env)@, bin_dir@, arg0@, root@),
{
    add_to_env(env, "PATH", bin_dir);
    if chars_of(env.get("ARGV0").as_str()).len() == 0 {
        env.set("ARGV0", arg0);
    }
    if chars_of(env.get("APPDIR").as_str()).len() == 0 {
        env.set("APPDIR", root);
    }
}

/// The text that the launcher prints when asked for help.
pub fn usage(name: &str, description: &str) -> (text: String)
    ensures
        text@ == usage_text(name@, description@),
{
    let mut text = chars_of("[ ");
    push_all(&mut text, chars_of(description).as_slice());
    push_all(&mut text, chars_of(" ]\n\n[ Usage ]: ").as_slice());
    push_all(&mut text, chars_of(name).as_slice());
    push_all(
        &mut text,
        chars_of(
            " [OPTIONS] [EXEC ARGS]...
     Use lib4bin for create 'bin' and 'shared' dirs

[ Arguments ]:
    [EXEC ARGS]...              Command line arguments for execution

[ Options ]:
     l,  lib4bin [ARGS]         Launch the built-in lib4bin
    -g,  --gen-lib-path         Generate a lib.path file
    -v,  --version              Print version
    -h,  --help                 Print help

[ Environments ]:
    SHARUN_WORKING_DIR=/path    Specifies the path to the working directory
    SHARUN_ALLOW_SYS_VKICD=1    Enables breaking system vulkan/icd.d for vulkan loader
    SHARUN_ALLOW_LD_PRELOAD=1   Enables breaking LD_PRELOAD env variable
    SHARUN_PRINTENV=1           Print environment variables to stderr
    SHARUN_LDNAME=ld.so         Specifies the name of the interpreter
    SHARUN_DIR                  Sharun directory",
        ).as_slice(),
    );
    string_of(text.as_slice())
}

} // verus!
