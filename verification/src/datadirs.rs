//! Rules that work on the list of data directories: the bundle's `share` is put
//! in front of the host's, and what is looked for below data directories is
//! looked for in each of them.

use vstd::prelude::*;
use crate::environ::{
    add_all_to_env, add_to_env, existing, existing_places, prepended, prepended_all, value_of,
    without_var, EnvModel, Environment,
};
use crate::paths::{join_chars, joined};
use crate::rules::{DataDirs, TreeEntry, TreeEntryModel};
use crate::text::{
    append_string, append_strings, chars_of, contains, has_prefix, has_substring, push_all, rows,
    same_str, split, split_at_char, starts_with, string_of,
};

verus! {

/// The directories of a colon-joined list, last to first.
pub open spec fn reversed_dirs(list: Seq<char>) -> Seq<Seq<char>> {
    let pieces = split(list, ':');
    Seq::new(pieces.len(), |i: int| pieces[pieces.len() - 1 - i])
}

/// The directories of the colon-joined list `dirs`, last to first, each with
/// `path` resolved against it.
pub open spec fn xdg_candidates(dirs: Seq<char>, path: Seq<char>) -> Seq<Seq<char>> {
    let pieces = split(dirs, ':');
    Seq::new(pieces.len(), |i: int| joined(pieces[pieces.len() - 1 - i], path))
}

/// The environment after the data directories are set up for a bundle with a
/// `share` directory: behind `share_dir` come the user's own data directory and
/// the three of the host, then whatever the list held.
pub open spec fn with_data_dirs(env: EnvModel, share_dir: Seq<char>) -> EnvModel {
    let e1 = prepended(env, "XDG_DATA_DIRS"@, "/usr/local/share"@);
    let e2 = prepended(e1, "XDG_DATA_DIRS"@, "/usr/share"@);
    let e3 = prepended(e2, "XDG_DATA_DIRS"@, "/run/opengl-driver/share"@);
    let e4 = prepended(e3, "XDG_DATA_DIRS"@, value_of(e3, "HOME"@) + "/.local/share"@);
    prepended(e4, "XDG_DATA_DIRS"@, share_dir)
}

/// What marks the driver manifests of the host that a bundle may always see.
pub open spec fn always_visible() -> Seq<char> {
    seq!['n', 'v', 'i', 'd', 'i', 'a']
}

/// The paths of the regular files of `entries` whose name holds `nvidia`, in
/// order.
pub open spec fn host_drivers(entries: Seq<TreeEntryModel>) -> Seq<Seq<char>>
    decreases entries.len(),
{
    if entries.len() == 0 {
        Seq::empty()
    } else {
        let before = host_drivers(entries.drop_last());
        if entries.last().is_file && has_substring(entries.last().file_name, always_visible()) {
            before.push(entries.last().path)
        } else {
            before
        }
    }
}

/// The driver manifests that a bundle sees below the data directories `dirs`.
///
/// `path` is where manifests lie below a data directory. Where that place exists
/// below a directory of the bundle's `share_dir`, the place itself is seen;
/// below any other directory only the files of its listing that are always
/// visible are.
pub open spec fn driver_files(
    dirs: Seq<Seq<char>>,
    path: Seq<char>,
    share_dir: Seq<char>,
    exists: Seq<bool>,
    listings: Seq<Seq<TreeEntryModel>>,
) -> Seq<Seq<char>>
    decreases dirs.len(),
{
    if dirs.len() == 0 {
        Seq::empty()
    } else {
        let k = dirs.len() - 1;
        let before = driver_files(dirs.drop_last(), path, share_dir, exists, listings);
        if k < exists.len() && exists[k] {
            if has_prefix(dirs[k], share_dir) {
                before.push(joined(dirs[k], path))
            } else if k < listings.len() {
                before + host_drivers(listings[k])
            } else {
                before
            }
        } else {
            before
        }
    }
}

/// The environment after the rule for driver manifests.
///
/// With `SHARUN_ALLOW_SYS_VKICD` set to `1` the flag is taken out and the
/// host's manifests are exposed like any other data. Without it they are not.
pub open spec fn with_driver_files(
    env: EnvModel,
    xdg_data_dirs: Seq<char>,
    share_dir: Seq<char>,
    name: Seq<char>,
    path: Seq<char>,
    exists: Seq<bool>,
    listings: Seq<Seq<TreeEntryModel>>,
) -> EnvModel {
    if value_of(env, "SHARUN_ALLOW_SYS_VKICD"@) == "1"@ {
        prepended_all(
            without_var(env, "SHARUN_ALLOW_SYS_VKICD"@),
            name,
            existing(xdg_candidates(xdg_data_dirs, path), exists),
        )
    } else {
        prepended_all(
            env,
            name,
            driver_files(reversed_dirs(xdg_data_dirs), path, share_dir, exists, listings),
        )
    }
}

/// Sets up the data directories for a bundle whose `share` directory is
/// `share_dir`, and returns them as the steps on data directories need them.
pub fn seed_data_dirs(env: &mut Environment, share_dir: &str) -> (data: DataDirs)
    ensures
        final(env)@ == with_data_dirs(old(env)@, share_dir@),
        data.list@ == value_of(final(env)@, "XDG_DATA_DIRS"@),
        data.share_dir@ == share_dir@,
{
    add_to_env(env, "XDG_DATA_DIRS", "/usr/local/share");
    add_to_env(env, "XDG_DATA_DIRS", "/usr/share");
    add_to_env(env, "XDG_DATA_DIRS", "/run/opengl-driver/share");
    let mut home = chars_of(env.get("HOME").as_str());
    let tail = chars_of("/.local/share");
    push_all(&mut home, tail.as_slice());
    let user_share = string_of(home.as_slice());
    add_to_env(env, "XDG_DATA_DIRS", user_share.as_str());
    add_to_env(env, "XDG_DATA_DIRS", share_dir);
    DataDirs { list: env.get("XDG_DATA_DIRS"), share_dir: share_dir.to_owned() }
}

/// The places where `path` is looked for below the data directories of the
/// colon-joined list `xdg_data_dirs`: last directory first.
pub fn xdg_data_candidates(xdg_data_dirs: &str, path: &str) -> (out: Vec<String>)
    ensures
        out.deep_view() == xdg_candidates(xdg_data_dirs@, path@),
{
    let dirs = chars_of(xdg_data_dirs);
    let rel = chars_of(path);
    let pieces = split_at_char(dirs.as_slice(), ':');
    let mut out: Vec<String> = Vec::new();
    let mut i: usize = 0;
    while i < pieces.len()
        invariant
            i <= pieces.len(),
            rel@ == path@,
            rows(pieces@) == split(xdg_data_dirs@, ':'),
            out.deep_view() == xdg_candidates(xdg_data_dirs@, path@).take(i as int),
        decreases pieces.len() - i,
    {
        let piece = &pieces[pieces.len() - 1 - i];
        assert(rows(pieces@)[pieces.len() - 1 - i] == piece@);
        let full = join_chars(piece.as_slice(), rel.as_slice());
        let text = string_of(full.as_slice());
        let ghost before = out.deep_view();
        out.push(text);
        assert(out.deep_view() =~= before.push(text@));
        i += 1;
        assert(out.deep_view() =~= xdg_candidates(xdg_data_dirs@, path@).take(i as int));
    }
    assert(xdg_candidates(xdg_data_dirs@, path@).take(pieces.len() as int) =~= xdg_candidates(
        xdg_data_dirs@,
        path@,
    ));
    out
}

/// Puts every place of `xdg_data_candidates(xdg_data_dirs, path)` that exists in
/// front of the list `name`. `exists` answers for each candidate in turn.
pub fn add_to_xdg_data_env(
    env: &mut Environment,
    xdg_data_dirs: &str,
    name: &str,
    path: &str,
    exists: &Vec<bool>,
)
    ensures
        final(env)@ == prepended_all(
            old(env)@,
            name@,
            existing(xdg_candidates(xdg_data_dirs@, path@), exists@),
        ),
{
    let candidates = xdg_data_candidates(xdg_data_dirs, path);
    let places = existing_places(&candidates, exists);
    add_all_to_env(env, name, &places);
}

/// The directories of the colon-joined list `list`, last to first.
pub fn data_dirs_reversed(list: &str) -> (out: Vec<Vec<char>>)
    ensures
        rows(out@) == reversed_dirs(list@),
{
    let text = chars_of(list);
    let mut pieces = split_at_char(text.as_slice(), ':');
    let ghost all = rows(pieces@);
    let mut out: Vec<Vec<char>> = Vec::new();
    while pieces.len() > 0
        invariant
            pieces.len() + out.len() == all.len(),
            all == split(list@, ':'),
            rows(pieces@) == all.take(pieces.len() as int),
            rows(out@) == reversed_dirs(list@).take(out.len() as int),
        decreases pieces.len(),
    {
        let ghost before = rows(out@);
        let ghost left = rows(pieces@);
        let piece = pieces.pop().unwrap();
        assert(piece@ == left[left.len() - 1]);
        assert(rows(pieces@) =~= all.take(pieces.len() as int));
        out.push(piece);
        assert(rows(out@) =~= before.push(piece@));
        assert(rows(out@) =~= reversed_dirs(list@).take(out.len() as int));
    }
    assert(reversed_dirs(list@).take(out.len() as int) =~= reversed_dirs(list@));
    out
}

/// The paths of the regular files of `entries` whose name holds `nvidia`.
fn host_driver_files(entries: &Vec<TreeEntry>) -> (out: Vec<String>)
    ensures
        out.deep_view() == host_drivers(entries.deep_view()),
{
    let mut marker: Vec<char> = Vec::new();
    marker.push('n');
    marker.push('v');
    marker.push('i');
    marker.push('d');
    marker.push('i');
    marker.push('a');
    assert(marker@ =~= always_visible());
    let mut out: Vec<String> = Vec::new();
    let mut i: usize = 0;
    while i < entries.len()
        invariant
            i <= entries.len(),
            marker@ == always_visible(),
            out.deep_view() == host_drivers(entries.deep_view().take(i as int)),
        decreases entries.len() - i,
    {
        proof {
            let next = entries.deep_view().take(i + 1);
            assert(next.drop_last() =~= entries.deep_view().take(i as int));
            assert(next.last() == entries[i as int].deep_view());
        }
        let entry = &entries[i];
        if entry.is_file {
            let file_name = chars_of(entry.file_name.as_str());
            if contains(file_name.as_slice(), marker.as_slice()) {
                append_string(&mut out, entry.path.clone());
            }
        }
        i += 1;
    }
    assert(entries.deep_view().take(entries.len() as int) =~= entries.deep_view());
    out
}

/// The driver manifests that the bundle sees below the data directories of the
/// list `xdg_data_dirs`, last directory first.
pub fn visible_driver_files(
    xdg_data_dirs: &str,
    share_dir: &str,
    path: &str,
    exists: &Vec<bool>,
    listings: &Vec<Vec<TreeEntry>>,
) -> (out: Vec<String>)
    ensures
        out.deep_view() == driver_files(
            reversed_dirs(xdg_data_dirs@),
            path@,
            share_dir@,
            exists@,
            listings.deep_view(),
        ),
{
    let dirs = data_dirs_reversed(xdg_data_dirs);
    let share = chars_of(share_dir);
    let rel = chars_of(path);
    let mut out: Vec<String> = Vec::new();
    let mut i: usize = 0;
    while i < dirs.len()
        invariant
            i <= dirs.len(),
            share@ == share_dir@,
            rel@ == path@,
            rows(dirs@) == reversed_dirs(xdg_data_dirs@),
            out.deep_view() == driver_files(
                rows(dirs@).take(i as int),
                path@,
                share_dir@,
                exists@,
                listings.deep_view(),
            ),
        decreases dirs.len() - i,
    {
        proof {
            let next = rows(dirs@).take(i + 1);
            assert(next.drop_last() =~= rows(dirs@).take(i as int));
            assert(next[i as int] == dirs[i as int]@);
        }
        if i < exists.len() && exists[i] {
            if starts_with(dirs[i].as_slice(), share.as_slice()) {
                let place = join_chars(dirs[i].as_slice(), rel.as_slice());
                append_string(&mut out, string_of(place.as_slice()));
            } else if i < listings.len() {
                assert(listings.deep_view()[i as int] == listings[i as int].deep_view());
                let files = host_driver_files(&listings[i]);
                append_strings(&mut out, &files);
            }
        }
        i += 1;
    }
    assert(rows(dirs@).take(dirs.len() as int) =~= rows(dirs@));
    out
}

/// Applies the rule for driver manifests.
///
/// `xdg_data_dirs` is the list of data directories, `share_dir` the bundle's
/// own, `path` the place of manifests below a data directory. `exists` answers
/// for each directory of the list, last to first, whether `path` exists below
/// it; `listings` holds, in the same order, what the place holds.
pub fn add_driver_files(
    env: &mut Environment,
    xdg_data_dirs: &str,
    share_dir: &str,
    name: &str,
    path: &str,
    exists: &Vec<bool>,
    listings: &Vec<Vec<TreeEntry>>,
)
    ensures
        final(env)@ == with_driver_files(
            old(env)@,
            xdg_data_dirs@,
            share_dir@,
            name@,
            path@,
            exists@,
            listings.deep_view(),
        ),
{
    let flag = env.get("SHARUN_ALLOW_SYS_VKICD");
    if same_str(flag.as_str(), "1") {
        env.remove("SHARUN_ALLOW_SYS_VKICD");
        add_to_xdg_data_env(env, xdg_data_dirs, name, path, exists);
    } else {
        let files = visible_driver_files(xdg_data_dirs, share_dir, path, exists, listings);
        add_all_to_env(env, name, &files);
    }
}

} // verus!
