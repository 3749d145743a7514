//! Choice of the dynamic linker that loads a bundled program.

use vstd::prelude::*;
use crate::environ::{value_of, EnvModel, Environment};
use crate::paths::{
    each_under, first_found, is_file, is_regular, join_under, lemma_first_found_from, pick_first,
    regulars, FileStat,
};
use crate::text::chars_of;

verus! {

/// The architectures that the launcher is built for.
#[derive(Clone, Copy, Debug, PartialEq, Eq, Structural)]
pub enum Arch {
    X86_64,
    Aarch64,
}

/// The names under which the dynamic linker of `arch` is known, most wanted
/// first: the glibc one, the musl one and, on x86-64, the generic one.
pub open spec fn default_interpreters(arch: Arch) -> Seq<Seq<char>> {
    match arch {
        Arch::X86_64 => seq!["ld-linux-x86-64.so.2"@, "ld-musl-x86_64.so.1"@, "ld-linux.so.2"@],
        Arch::Aarch64 => seq!["ld-linux-aarch64.so.1"@, "ld-musl-aarch64.so.1"@],
    }
}

/// The names to try: `ldname` alone where the override is not empty, the names of
/// the architecture otherwise.
pub open spec fn interpreter_names(ldname: Seq<char>, arch: Arch) -> Seq<Seq<char>> {
    if ldname.len() > 0 {
        seq![ldname]
    } else {
        default_interpreters(arch)
    }
}

/// The places in the library directory `library_path` where the dynamic linker
/// is looked for: each name to try, resolved against the directory. The
/// override is what `SHARUN_LDNAME` holds.
pub open spec fn interpreter_places(
    library_path: Seq<char>,
    env: EnvModel,
    arch: Arch,
) -> Seq<Seq<char>> {
    each_under(library_path, interpreter_names(value_of(env, "SHARUN_LDNAME"@), arch))
}

/// The dynamic linker of the bundle: the first place that holds a regular
/// file. `stats` holds the metadata of each place in turn.
pub open spec fn interpreter_of(
    library_path: Seq<char>,
    env: EnvModel,
    arch: Arch,
    stats: Seq<Option<FileStat>>,
) -> Option<Seq<char>> {
    first_found(interpreter_places(library_path, env, arch), regulars(stats))
}

/// The dynamic linker that is chosen is the first place, in the order of the
/// candidates, that holds a regular file; none is chosen if and only if no place
/// holds one. A directory or anything else of a candidate's name is passed
/// over.
pub proof fn lemma_interpreter_is_first_file(
    library_path: Seq<char>,
    env: EnvModel,
    arch: Arch,
    stats: Seq<Option<FileStat>>,
)
    ensures
        match interpreter_of(library_path, env, arch, stats) {
            Some(path) => exists|k: int|
                0 <= k < interpreter_places(library_path, env, arch).len() && k < stats.len()
                    && is_regular(#[trigger] stats[k]) && interpreter_places(
                    library_path,
                    env,
                    arch,
                )[k] == path && forall|j: int| 0 <= j < k ==> !is_regular(#[trigger] stats[j]),
            None => forall|j: int|
                0 <= j < interpreter_places(library_path, env, arch).len() && j < stats.len()
                    ==> !is_regular(#[trigger] stats[j]),
        },
{
    let places = interpreter_places(library_path, env, arch);
    let flags = regulars(stats);
    lemma_first_found_from(places, flags, 0);
    match first_found(places, flags) {
        Some(path) => {
            let k = choose|k: int|
                0 <= k < places.len() && k < flags.len() && flags[k] && places[k] == path
                    && forall|j: int| 0 <= j < k ==> !(j < flags.len() && flags[j]);
            assert(is_regular(stats[k]));
            assert forall|j: int| 0 <= j < k implies !is_regular(#[trigger] stats[j]) by {
                assert(!(j < flags.len() && flags[j]));
            }
        },
        None => {
            assert forall|j: int| 0 <= j < places.len() && j < stats.len() implies !is_regular(
                #[trigger] stats[j],
            ) by {
                assert(!(j < flags.len() && flags[j]));
            }
        },
    }
}

/// The names of the dynamic linker to try, in order.
pub fn interpreter_candidates(ldname: &str, arch: Arch) -> (names: Vec<String>)
    ensures
        names.deep_view() == interpreter_names(ldname@, arch),
{
    let mut names: Vec<String> = Vec::new();
    if chars_of(ldname).len() > 0 {
        names.push(ldname.to_owned());
        assert(names.deep_view() =~= seq![ldname@]);
        return names;
    }
    match arch {
        Arch::X86_64 => {
            names.push("ld-linux-x86-64.so.2".to_owned());
            names.push("ld-musl-x86_64.so.1".to_owned());
            names.push("ld-linux.so.2".to_owned());
        },
        Arch::Aarch64 => {
            names.push("ld-linux-aarch64.so.1".to_owned());
            names.push("ld-musl-aarch64.so.1".to_owned());
        },
    }
    assert(names.deep_view() =~= default_interpreters(arch));
    names
}

/// The places in the library directory where the dynamic linker is looked for,
/// in order. `SHARUN_LDNAME` names the linker where it is not empty.
pub fn interpreter_paths(library_path: &str, env: &Environment, arch: Arch) -> (places: Vec<String>)
    ensures
        places.deep_view() == interpreter_places(library_path@, env@, arch),
{
    let ldname = env.get("SHARUN_LDNAME");
    let names = interpreter_candidates(ldname.as_str(), arch);
    let dir = chars_of(library_path);
    join_under(dir.as_slice(), &names)
}

/// The dynamic linker for the bundle: the first place of
/// `interpreter_paths(library_path, env, arch)` that holds a regular file.
/// `stats` holds the metadata of each place in turn, `None` for a place that is
/// not there; a place without metadata counts as missing. `None` where no place
/// holds a regular file.
pub fn get_interpreter(
    library_path: &str,
    env: &Environment,
    arch: Arch,
    stats: &Vec<Option<FileStat>>,
) -> (r: Option<String>)
    ensures
        r.deep_view() == interpreter_of(library_path@, env@, arch, stats@),
{
    let places = interpreter_paths(library_path, env, arch);
    let mut flags: Vec<bool> = Vec::new();
    let mut i: usize = 0;
    while i < stats.len()
        invariant
            i <= stats.len(),
            flags@ == regulars(stats@).take(i as int),
        decreases stats.len() - i,
    {
        flags.push(is_file(stats[i]));
        i += 1;
        assert(flags@ =~= regulars(stats@).take(i as int));
    }
    assert(regulars(stats@).take(stats.len() as int) =~= regulars(stats@));
    pick_first(&places, &flags)
}

} // verus!
