//! Path utilities: names and directories of a path, joining, and what the
//! file metadata of a path says about it.

use vstd::prelude::*;
use crate::text::{
    chars_of, last_index, lemma_last_index_is, push_all, rows, slice_of, split, split_at_char,
    string_of,
};

verus! {

/// What a path's metadata holds, as far as the launcher reads it.
#[derive(Clone, Copy, Debug)]
pub struct FileStat {
    /// The path names a regular file.
    pub is_file: bool,
    /// The path names a directory.
    pub is_dir: bool,
    /// The permission bits.
    pub mode: u32,
    /// The number of the device that holds the file.
    pub dev: u64,
    /// The inode number on that device.
    pub ino: u64,
}

impl DeepView for FileStat {
    type V = FileStat;

    open spec fn deep_view(&self) -> FileStat {
        *self
    }
}

/// Whether `base` is a prefix of `path` when both are read component by component,
/// as `std::path::Path::starts_with` decides it.
pub uninterp spec fn path_has_prefix(path: Seq<char>, base: Seq<char>) -> bool;

/// The final component of `path` as `std::path::Path::file_name` gives it.
pub uninterp spec fn path_file_name(path: Seq<char>) -> Option<Seq<char>>;

/// `std::path::Path::starts_with`: compares whole components, so `/a/bc` does not
/// start with `/a/b`. The result depends on the two paths alone.
#[verifier::external_body]
fn path_starts_with(path: &str, base: &str) -> (r: bool)
    ensures
        r == path_has_prefix(path@, base@),
{
    std::path::Path::new(path).starts_with(base)
}

/// `std::path::Path::file_name`: the last component of the path unless it ends in
/// `..` or is the root. The result depends on the path alone.
#[verifier::external_body]
fn path_last_component(path: &str) -> (r: Option<String>)
    ensures
        r.deep_view() == path_file_name(path@),
{
    std::path::Path::new(path).file_name().map(|n| n.to_string_lossy().into_owned())
}

/// The part of `path` after its last `/`; the whole of it where it holds none.
pub open spec fn basename_of(path: Seq<char>) -> Seq<char> {
    path.subrange(last_index(path, '/') + 1, path.len() as int)
}

/// The directory part of `path`: what stands before its last `/`.
///
/// A path without `/` has an empty directory part. A path that starts with none of
/// `/`, `.` and `~` is taken relative to `.`. The directory of a name directly
/// under the root is the root.
pub open spec fn dirname_of(path: Seq<char>) -> Seq<char> {
    let k = last_index(path, '/');
    if k < 0 {
        Seq::empty()
    } else if path[0] != '/' && path[0] != '.' && path[0] != '~' {
        seq!['.', '/'] + path.subrange(0, k)
    } else if k == 0 {
        seq!['/']
    } else {
        path.subrange(0, k)
    }
}

/// `name` resolved against `base`: an absolute `name` stands for itself, any other
/// is set behind `base`, with a `/` between them unless `base` is empty or ends in
/// one.
pub open spec fn joined(base: Seq<char>, name: Seq<char>) -> Seq<char> {
    if name.len() > 0 && name[0] == '/' {
        name
    } else if base.len() == 0 || base.last() == '/' {
        base + name
    } else {
        base + seq!['/'] + name
    }
}

/// The entry `name` of the directory `dir`.
pub open spec fn below(dir: Seq<char>, name: Seq<char>) -> Seq<char> {
    dir + seq!['/'] + name
}

/// Whether the metadata is that of a directory.
pub open spec fn is_directory(stat: Option<FileStat>) -> bool {
    stat matches Some(s) && s.is_dir
}

/// Whether the metadata is that of a regular file.
pub open spec fn is_regular(stat: Option<FileStat>) -> bool {
    stat matches Some(s) && s.is_file
}

/// Whether both paths were found and lead to one and the same file: the same
/// inode on the same device. Two names of one file are hardlinks of each other.
pub open spec fn same_file(stat1: Option<FileStat>, stat2: Option<FileStat>) -> bool {
    stat1 matches Some(a) && stat2 matches Some(b) && a.dev == b.dev && a.ino == b.ino
}

/// Whether both canonical paths lie under the canonical root, component by
/// component. A path that could not be resolved lies nowhere.
pub open spec fn same_rootdir(
    rootdir: Option<Seq<char>>,
    path1: Option<Seq<char>>,
    path2: Option<Seq<char>>,
) -> bool {
    rootdir matches Some(root) && path1 matches Some(p1) && path2 matches Some(p2)
        && path_has_prefix(p1, root) && path_has_prefix(p2, root)
}

/// Whether some execute permission bit is set in `mode`.
pub open spec fn has_exec_bit(mode: u32) -> bool {
    mode & 0o111 != 0
}

/// Whether the metadata is that of a regular file that someone may execute.
pub open spec fn is_executable(stat: Option<FileStat>) -> bool {
    stat matches Some(s) && s.is_file && has_exec_bit(s.mode)
}

/// Which of the paths with this metadata are regular files.
pub open spec fn regulars(stats: Seq<Option<FileStat>>) -> Seq<bool> {
    Seq::new(stats.len(), |i: int| is_regular(stats[i]))
}

/// Which of the paths with this metadata are executable files.
pub open spec fn executables(stats: Seq<Option<FileStat>>) -> Seq<bool> {
    Seq::new(stats.len(), |i: int| is_executable(stats[i]))
}

/// The first candidate from position `from` on that was found.
pub open spec fn first_found_from(
    candidates: Seq<Seq<char>>,
    found: Seq<bool>,
    from: int,
) -> Option<Seq<char>>
    decreases candidates.len() - from,
{
    if from < 0 || from >= candidates.len() {
        None
    } else if from < found.len() && found[from] {
        Some(candidates[from])
    } else {
        first_found_from(candidates, found, from + 1)
    }
}

/// The first candidate that was found, where `found` answers for each candidate
/// in turn and a candidate without an answer counts as missing.
pub open spec fn first_found(candidates: Seq<Seq<char>>, found: Seq<bool>) -> Option<Seq<char>> {
    first_found_from(candidates, found, 0)
}

/// `name` resolved against each of `dirs`.
pub open spec fn each_joined(dirs: Seq<Seq<char>>, name: Seq<char>) -> Seq<Seq<char>> {
    Seq::new(dirs.len(), |i: int| joined(dirs[i], name))
}

/// Each of `names` resolved against `dir`.
pub open spec fn each_under(dir: Seq<char>, names: Seq<Seq<char>>) -> Seq<Seq<char>> {
    Seq::new(names.len(), |i: int| joined(dir, names[i]))
}

/// The places where `executable` is looked for: it is resolved against each
/// directory of the colon-joined list `path_env`. No list, no place.
pub open spec fn search_places(
    path_env: Option<Seq<char>>,
    executable: Seq<char>,
) -> Seq<Seq<char>> {
    match path_env {
        Some(list) => each_joined(split(list, ':'), executable),
        None => Seq::empty(),
    }
}

/// What `first_found_from` returns was found, and nothing between `from` and it
/// was.
pub proof fn lemma_first_found_from(candidates: Seq<Seq<char>>, found: Seq<bool>, from: int)
    requires
        0 <= from,
    ensures
        match first_found_from(candidates, found, from) {
            Some(c) => exists|k: int|
                from <= k < candidates.len() && k < found.len() && found[k] && candidates[k] == c
                    && forall|j: int| from <= j < k ==> !(j < found.len() && found[j]),
            None => forall|j: int|
                from <= j < candidates.len() ==> !(j < found.len() && #[trigger] found[j]),
        },
    decreases candidates.len() - from,
{
    if from < candidates.len() {
        if from < found.len() && found[from] {
            assert(from <= from < candidates.len() && found[from] && candidates[from]
                == candidates[from] && forall|j: int|
                from <= j < from ==> !(j < found.len() && found[j]));
        } else {
            lemma_first_found_from(candidates, found, from + 1);
            match first_found_from(candidates, found, from + 1) {
                Some(c) => {
                    let k = choose|k: int|
                        from + 1 <= k < candidates.len() && k < found.len() && found[k]
                            && candidates[k] == c && forall|j: int|
                            from + 1 <= j < k ==> !(j < found.len() && found[j]);
                    assert(from <= k < candidates.len() && k < found.len() && found[k]
                        && candidates[k] == c && forall|j: int|
                        from <= j < k ==> !(j < found.len() && found[j]));
                },
                None => {},
            }
        }
    }
}

/// Position of the last `c` in `s`.
pub fn last_index_in(s: &[char], c: char) -> (r: Option<usize>)
    ensures
        match r {
            Some(k) => k == last_index(s@, c) && k < s.len(),
            None => last_index(s@, c) == -1,
        },
{
    let mut i: usize = s.len();
    while i > 0
        invariant
            i <= s.len(),
            forall|j: int| i <= j < s.len() ==> s@[j] != c,
        decreases i,
    {
        if s[i - 1] == c {
            proof {
                lemma_last_index_is(s@, c, i - 1);
            }
            return Some(i - 1);
        }
        i -= 1;
    }
    proof {
        lemma_last_index_is(s@, c, -1);
    }
    None
}

/// The final name of a path of characters.
pub fn basename_chars(path: &[char]) -> (out: Vec<char>)
    ensures
        out@ == basename_of(path@),
{
    match last_index_in(path, '/') {
        Some(k) => slice_of(path, k + 1, path.len()),
        None => slice_of(path, 0, path.len()),
    }
}

/// The directory part of a path of characters.
pub fn dirname_chars(path: &[char]) -> (out: Vec<char>)
    ensures
        out@ == dirname_of(path@),
{
    match last_index_in(path, '/') {
        None => Vec::new(),
        Some(k) => {
            let head = slice_of(path, 0, k);
            let first = path[0];
            if first != '/' && first != '.' && first != '~' {
                let mut out: Vec<char> = Vec::new();
                out.push('.');
                out.push('/');
                push_all(&mut out, head.as_slice());
                assert(out@ =~= seq!['.', '/'] + head@);
                out
            } else if k == 0 {
                let mut out: Vec<char> = Vec::new();
                out.push('/');
                assert(out@ =~= seq!['/']);
                out
            } else {
                head
            }
        },
    }
}

/// `name` resolved against `base`, on characters.
pub fn join_chars(base: &[char], name: &[char]) -> (out: Vec<char>)
    ensures
        out@ == joined(base@, name@),
{
    let mut out: Vec<char> = Vec::new();
    if name.len() > 0 && name[0] == '/' {
        push_all(&mut out, name);
        assert(out@ =~= name@);
        return out;
    }
    push_all(&mut out, base);
    if base.len() > 0 && base[base.len() - 1] != '/' {
        out.push('/');
    }
    push_all(&mut out, name);
    assert(out@ =~= joined(base@, name@));
    out
}

/// The path made of `dir`, a slash and `name`.
pub fn path_below(dir: &[char], name: &[char]) -> (out: Vec<char>)
    ensures
        out@ == below(dir@, name@),
{
    let mut out: Vec<char> = Vec::new();
    push_all(&mut out, dir);
    out.push('/');
    push_all(&mut out, name);
    assert(out@ =~= below(dir@, name@));
    out
}

/// The final name of `path`.
pub fn basename(path: &str) -> (out: String)
    ensures
        out@ == basename_of(path@),
{
    let p = chars_of(path);
    let b = basename_chars(p.as_slice());
    string_of(b.as_slice())
}

/// The directory part of `path`.
pub fn dirname(path: &str) -> (out: String)
    ensures
        out@ == dirname_of(path@),
{
    let p = chars_of(path);
    let d = dirname_chars(p.as_slice());
    string_of(d.as_slice())
}

/// `name` resolved against `base`.
pub fn join_path(base: &str, name: &str) -> (out: String)
    ensures
        out@ == joined(base@, name@),
{
    let b = chars_of(base);
    let n = chars_of(name);
    let j = join_chars(b.as_slice(), n.as_slice());
    string_of(j.as_slice())
}

/// The path of the entry `name` of the directory `dir`.
pub fn entry_path(dir: &str, name: &str) -> (out: String)
    ensures
        out@ == below(dir@, name@),
{
    let d = chars_of(dir);
    let n = chars_of(name);
    string_of(path_below(d.as_slice(), n.as_slice()).as_slice())
}

/// The final component of `path`, empty where it has none.
pub fn file_name(path: &str) -> (out: String)
    ensures
        out@ == match path_file_name(path@) {
            Some(name) => name,
            None => Seq::empty(),
        },
{
    match path_last_component(path) {
        Some(name) => name,
        None => String::new(),
    }
}

/// The canonical form of a path as the caller resolved it; empty where the path
/// could not be resolved.
pub fn realpath(resolved: Option<String>) -> (out: String)
    ensures
        out@ == match resolved {
            Some(p) => p@,
            None => Seq::empty(),
        },
{
    match resolved {
        Some(p) => p,
        None => String::new(),
    }
}

/// Whether both paths were found and are names of one file: the same inode on
/// the same device. The order of the two does not matter.
pub fn is_hardlink(stat1: Option<FileStat>, stat2: Option<FileStat>) -> (r: bool)
    ensures
        r == same_file(stat1, stat2),
        r == same_file(stat2, stat1),
{
    match (stat1, stat2) {
        (Some(a), Some(b)) => a.dev == b.dev && a.ino == b.ino,
        _ => false,
    }
}

/// Whether both canonical paths lie under the canonical root, by components. Any
/// path that could not be resolved makes the answer `false`.
pub fn is_same_rootdir(rootdir: Option<&str>, path1: Option<&str>, path2: Option<&str>) -> (r: bool)
    ensures
        r == same_rootdir(rootdir.deep_view(), path1.deep_view(), path2.deep_view()),
{
    match (rootdir, path1, path2) {
        (Some(root), Some(p1), Some(p2)) => path_starts_with(p1, root) && path_starts_with(
            p2,
            root,
        ),
        _ => false,
    }
}

/// Whether the path was found and is a directory.
pub fn is_dir(stat: Option<FileStat>) -> (r: bool)
    ensures
        r == is_directory(stat),
{
    match stat {
        Some(s) => s.is_dir,
        None => false,
    }
}

/// Whether the path was found and is a regular file.
pub fn is_file(stat: Option<FileStat>) -> (r: bool)
    ensures
        r == is_regular(stat),
{
    match stat {
        Some(s) => s.is_file,
        None => false,
    }
}

/// Whether the path was found and is a regular file that someone may execute.
pub fn is_exe(stat: Option<FileStat>) -> (r: bool)
    ensures
        r == is_executable(stat),
{
    match stat {
        Some(s) => s.is_file && s.mode & 0o111 != 0,
        None => false,
    }
}

/// The first of `candidates` that was found.
pub fn pick_first(candidates: &Vec<String>, found: &Vec<bool>) -> (r: Option<String>)
    ensures
        r.deep_view() == first_found(candidates.deep_view(), found@),
{
    let mut i: usize = 0;
    while i < candidates.len()
        invariant
            i <= candidates.len(),
            first_found(candidates.deep_view(), found@) == first_found_from(
                candidates.deep_view(),
                found@,
                i as int,
            ),
        decreases candidates.len() - i,
    {
        if i < found.len() && found[i] {
            return Some(candidates[i].clone());
        }
        i += 1;
    }
    None
}

/// `name` resolved against each directory of `dirs`.
pub fn join_each(dirs: &Vec<Vec<char>>, name: &[char]) -> (out: Vec<String>)
    ensures
        out.deep_view() == each_joined(rows(dirs@), name@),
{
    let mut out: Vec<String> = Vec::new();
    let mut i: usize = 0;
    while i < dirs.len()
        invariant
            i <= dirs.len(),
            out.deep_view() == each_joined(rows(dirs@), name@).take(i as int),
        decreases dirs.len() - i,
    {
        let full = join_chars(dirs[i].as_slice(), name);
        let text = string_of(full.as_slice());
        let ghost before = out.deep_view();
        out.push(text);
        assert(out.deep_view() =~= before.push(text@));
        i += 1;
        assert(out.deep_view() =~= each_joined(rows(dirs@), name@).take(i as int));
    }
    assert(each_joined(rows(dirs@), name@).take(dirs.len() as int) =~= each_joined(
        rows(dirs@),
        name@,
    ));
    out
}

/// Each of `names` resolved against `dir`.
pub fn join_under(dir: &[char], names: &Vec<String>) -> (out: Vec<String>)
    ensures
        out.deep_view() == each_under(dir@, names.deep_view()),
{
    let mut out: Vec<String> = Vec::new();
    let mut i: usize = 0;
    while i < names.len()
        invariant
            i <= names.len(),
            out.deep_view() == each_under(dir@, names.deep_view()).take(i as int),
        decreases names.len() - i,
    {
        let name = chars_of(names[i].as_str());
        let full = join_chars(dir, name.as_slice());
        let text = string_of(full.as_slice());
        let ghost before = out.deep_view();
        out.push(text);
        assert(out.deep_view() =~= before.push(text@));
        i += 1;
        assert(out.deep_view() =~= each_under(dir@, names.deep_view()).take(i as int));
    }
    assert(each_under(dir@, names.deep_view()).take(names.len() as int) =~= each_under(
        dir@,
        names.deep_view(),
    ));
    out
}

/// The places where `executable` is looked for along the search path `path_env`,
/// in the order of the path.
pub fn which_candidates(path_env: Option<&str>, executable: &str) -> (out: Vec<String>)
    ensures
        out.deep_view() == search_places(
            match path_env {
                Some(list) => Some(list@),
                None => None,
            },
            executable@,
        ),
{
    match path_env {
        Some(list) => {
            let text = chars_of(list);
            let dirs = split_at_char(text.as_slice(), ':');
            let name = chars_of(executable);
            join_each(&dirs, name.as_slice())
        },
        None => {
            let out: Vec<String> = Vec::new();
            assert(out.deep_view() =~= Seq::<Seq<char>>::empty());
            out
        },
    }
}

/// Looks `executable` up along the search path `path_env`: the first place that
/// holds a regular file with an execute permission bit. `stats` holds the
/// metadata of each place of `which_candidates(path_env, executable)` in turn,
/// `None` for a place that is not there.
pub fn which(path_env: Option<&str>, executable: &str, stats: &Vec<Option<FileStat>>) -> (r: Option<
    String,
>)
    ensures
        r.deep_view() == first_found(
            search_places(
                match path_env {
                    Some(list) => Some(list@),
                    None => None,
                },
                executable@,
            ),
            executables(stats@),
        ),
{
    let places = which_candidates(path_env, executable);
    let mut flags: Vec<bool> = Vec::new();
    let mut i: usize = 0;
    while i < stats.len()
        invariant
            i <= stats.len(),
            flags@ == executables(stats@).take(i as int),
        decreases stats.len() - i,
    {
        flags.push(is_exe(stats[i]));
        i += 1;
        assert(flags@ =~= executables(stats@).take(i as int));
    }
    assert(executables(stats@).take(stats.len() as int) =~= executables(stats@));
    pick_first(&places, &flags)
}

} // verus!
