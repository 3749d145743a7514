//! The bundle-authoring helper: a script that is kept compressed, unpacked
//! when asked for, and piped into a shell.

use vstd::prelude::*;
use crate::environ::{add_to_env, is_set, prepended, with_var, EnvModel, Environment};
use crate::text::append_string;

verus! {

/// What a raw deflate stream decompresses to, as `flate2` decodes it; `None`
/// where the stream is broken.
pub uninterp spec fn inflated(data: Seq<u8>) -> Option<Seq<u8>>;

/// `flate2::read::DeflateDecoder` over `data`, read to its end. Decoding reads
/// the bytes and nothing else, so the same bytes give the same result; a stream
/// that the decoder refuses gives `None`.
#[verifier::external_body]
fn inflate(data: &[u8]) -> (r: Option<Vec<u8>>)
    ensures
        match r {
            Some(bytes) => inflated(data@) == Some(bytes@),
            None => inflated(data@) is None,
        },
{
    let mut out = Vec::new();
    let mut decoder = flate2::read::DeflateDecoder::new(data);
    match std::io::Read::read_to_end(&mut decoder, &mut out) {
        Ok(_) => Some(out),
        Err(_) => None,
    }
}

/// The arguments with which the shell reads the helper from its standard input:
/// `-s`, `--`, and what followed the helper's name on the command line.
pub open spec fn shell_args(exec_args: Seq<Seq<char>>) -> Seq<Seq<char>> {
    if exec_args.len() == 0 {
        seq!["-s"@, "--"@]
    } else {
        seq!["-s"@, "--"@] + exec_args.subrange(1, exec_args.len() as int)
    }
}

/// The environment of the helper: the bundle's `bin` on the search path, and the
/// launcher's path in `SHARUN` unless that is set.
pub open spec fn helper_env(env: EnvModel, bin_dir: Seq<char>, launcher: Seq<char>) -> EnvModel {
    let e = prepended(env, "PATH"@, bin_dir);
    if is_set(e, "SHARUN"@) {
        e
    } else {
        with_var(e, "SHARUN"@, launcher)
    }
}

/// The text of the helper script, unpacked.
pub fn helper_script(compressed: &[u8]) -> (script: Option<Vec<u8>>)
    ensures
        match script {
            Some(bytes) => inflated(compressed@) == Some(bytes@),
            None => inflated(compressed@) is None,
        },
{
    inflate(compressed)
}

/// The arguments for the shell that runs the helper. `exec_args` starts with
/// the word that asked for the helper.
pub fn helper_args(exec_args: &Vec<String>) -> (args: Vec<String>)
    ensures
        args.deep_view() == shell_args(exec_args.deep_view()),
{
    let mut args: Vec<String> = Vec::new();
    append_string(&mut args, "-s".to_owned());
    append_string(&mut args, "--".to_owned());
    if exec_args.len() == 0 {
        return args;
    }
    let mut i: usize = 1;
    assert(args.deep_view() =~= seq!["-s"@, "--"@] + exec_args.deep_view().subrange(1, 1));
    while i < exec_args.len()
        invariant
            1 <= i <= exec_args.len(),
            args.deep_view() == seq!["-s"@, "--"@] + exec_args.deep_view().subrange(1, i as int),
        decreases exec_args.len() - i,
    {
        append_string(&mut args, exec_args[i].clone());
        i += 1;
        assert(args.deep_view() =~= seq!["-s"@, "--"@] + exec_args.deep_view().subrange(
            1,
            i as int,
        ));
    }
    args
}

/// Prepares the environment of the helper.
pub fn export_helper_env(env: &mut Environment, bin_dir: &str, launcher: &str)
    ensures
        final(env)@ == helper_env(old(env)@, bin_dir@, launcher@),
{
    add_to_env(env, "PATH", bin_dir);
    if !env.contains_var("SHARUN") {
        env.set("SHARUN", launcher);
    }
}

} // verus!
