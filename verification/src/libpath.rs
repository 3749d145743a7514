//! The library search path of a bundle: which directories of a library tree hold
//! shared objects, and the relocatable cache file that lists them.

use vstd::prelude::*;
use crate::paths::{basename_chars, basename_of, below, entry_path};
use crate::text::{
    chars_of, contains, ends_with, has_prefix, has_substring, has_suffix, holds, is_space, join,
    join_with, last_index, lemma_join_first, lemma_last_index, lemma_last_index_concat,
    lemma_replace_char_absent, lemma_replace_char_back, lemma_replace_char_concat,
    lemma_replace_char_join, lemma_replace_char_same, push_all, replace_char, replace_each, rows,
    rows_of, same_chars, slice_of, split, split_at_char, starts_with, string_of, strings_of, trim,
    trim_end, trim_start, trimmed,
};

verus! {

/// One entry that a walk of the library tree met.
#[derive(Debug)]
pub struct WalkEntry {
    /// The entry's own name, without its directory.
    pub file_name: String,
    /// The directory that holds the entry, where the entry has one.
    pub parent: Option<String>,
    /// Whether `parent` is a directory on disk.
    pub parent_is_dir: bool,
}

/// Mathematical content of a `WalkEntry`.
pub struct WalkEntryModel {
    pub file_name: Seq<char>,
    pub parent: Option<Seq<char>>,
    pub parent_is_dir: bool,
}

impl DeepView for WalkEntry {
    type V = WalkEntryModel;

    open spec fn deep_view(&self) -> WalkEntryModel {
        WalkEntryModel {
            file_name: self.file_name@,
            parent: self.parent.deep_view(),
            parent_is_dir: self.parent_is_dir,
        }
    }
}

/// What to do about the cache file of a library tree.
#[derive(Clone, Copy, Debug, PartialEq, Eq, Structural)]
pub enum CachePlan {
    /// The file is there: read it.
    Read,
    /// The file is missing and the tree can be written: scan, write, then read.
    ScanAndWrite,
    /// The file is missing and the tree is read-only: scan on every start and
    /// keep the result in memory.
    ScanOnly,
}

/// The placeholder that stands for the root of the library tree in a cache file.
pub open spec fn placeholder() -> Seq<char> {
    seq!['+']
}

/// The suffix of an unversioned shared object.
pub open spec fn so_suffix() -> Seq<char> {
    seq!['.', 's', 'o']
}

/// What every versioned shared object holds in its name.
pub open spec fn so_infix() -> Seq<char> {
    seq!['.', 's', 'o', '.']
}

/// Whether a file of this name is a shared object: the name ends in `.so` or
/// holds `.so.`.
pub open spec fn is_shared_object(name: Seq<char>) -> bool {
    has_suffix(name, so_suffix()) || has_substring(name, so_infix())
}

/// Whether `entry` adds its directory to the directories `seen` so far: it is a
/// shared object in a directory other than the root, not seen yet, whose name is
/// not in `skip`.
pub open spec fn records_dir(
    root: Seq<char>,
    skip: Seq<Seq<char>>,
    seen: Seq<Seq<char>>,
    entry: WalkEntryModel,
) -> bool {
    &&& is_shared_object(entry.file_name)
    &&& entry.parent matches Some(parent)
    &&& parent != root
    &&& entry.parent_is_dir
    &&& !seen.contains(parent)
    &&& !skip.contains(basename_of(parent))
}

/// The directories that hold shared objects, in the order in which the walk
/// first met them.
pub open spec fn scanned(
    root: Seq<char>,
    skip: Seq<Seq<char>>,
    entries: Seq<WalkEntryModel>,
) -> Seq<Seq<char>>
    decreases entries.len(),
{
    if entries.len() == 0 {
        Seq::empty()
    } else {
        let seen = scanned(root, skip, entries.drop_last());
        if records_dir(root, skip, seen, entries.last()) {
            seen.push(entries.last().parent->0)
        } else {
            seen
        }
    }
}

/// The line that stands for `dir` in the cache of the tree at `root`: the root at
/// its front becomes the placeholder, and a `:` ends a line as it would in the
/// joined search path.
pub open spec fn cache_line(root: Seq<char>, dir: Seq<char>) -> Seq<char> {
    replace_char(
        if has_prefix(dir, root) {
            placeholder() + dir.subrange(root.len() as int, dir.len() as int)
        } else {
            dir
        },
        ':',
        seq!['\n'],
    )
}

/// The text of the cache file: the placeholder for the root itself, then one line
/// for each directory.
pub open spec fn cache_text(root: Seq<char>, dirs: Seq<Seq<char>>) -> Seq<char> {
    seq!['+', '\n'] + join(Seq::new(dirs.len(), |i: int| cache_line(root, dirs[i])), seq!['\n'])
}

/// The search path that the text of a cache file stands for under `root`: its
/// lines joined by `:`, with `root` for every placeholder. An empty text stands
/// for the root alone.
pub open spec fn search_path(data: Seq<char>, root: Seq<char>) -> Seq<char> {
    if data.len() == 0 {
        root
    } else {
        replace_char(replace_char(trim(data), '\n', seq![':']), '+', root)
    }
}

/// `path` followed by the inherited search path, where there is one.
pub open spec fn with_inherited(path: Seq<char>, inherited: Seq<char>) -> Seq<char> {
    if inherited.len() == 0 {
        path
    } else {
        path + seq![':'] + inherited
    }
}

/// The name one level below the root that a cache line speaks of: what stands
/// between its first and second `/`; empty where the line has no `/`.
pub open spec fn line_subdir(line: Seq<char>) -> Seq<char> {
    let pieces = split(line, '/');
    if pieces.len() > 1 {
        pieces[1]
    } else {
        Seq::empty()
    }
}

/// The distinct names that the lines speak of, each where it first occurs.
pub open spec fn distinct_subdirs(lines: Seq<Seq<char>>) -> Seq<Seq<char>>
    decreases lines.len(),
{
    if lines.len() == 0 {
        Seq::empty()
    } else {
        let seen = distinct_subdirs(lines.drop_last());
        if seen.contains(line_subdir(lines.last())) {
            seen
        } else {
            seen.push(line_subdir(lines.last()))
        }
    }
}

/// The distinct top-level names under the library root that the text of a cache
/// file speaks of.
pub open spec fn subdirs(data: Seq<char>) -> Seq<Seq<char>> {
    if data.len() == 0 {
        Seq::empty()
    } else {
        distinct_subdirs(split(data, '\n'))
    }
}

/// The directory names that never count as library directories.
pub open spec fn default_skip_dirs() -> Seq<Seq<char>> {
    seq![seq!['l', 'i', 'b', '-', 'd', 'y', 'n', 'l', 'o', 'a', 'd']]
}

/// The directories `root + rels[i]`.
pub open spec fn under(root: Seq<char>, rels: Seq<Seq<char>>) -> Seq<Seq<char>> {
    Seq::new(rels.len(), |i: int| root + rels[i])
}

/// Paths below a root that a cache file can carry to a reader at `new_root`.
///
/// None holds a line break. None holds the placeholder, unless the reader's root
/// is the placeholder itself. The last does not end in white space or `:`, which
/// the reader would take for the end of the file.
pub open spec fn cacheable(rels: Seq<Seq<char>>, new_root: Seq<char>) -> bool {
    &&& forall|i: int| 0 <= i < rels.len() ==> !rels[i].contains('\n')
    &&& new_root != placeholder() ==> forall|i: int|
        0 <= i < rels.len() ==> !rels[i].contains('+')
    &&& rels.len() > 0 && rels.last().len() > 0 ==> !is_space(rels.last().last())
        && rels.last().last() != ':'
}

/// A walk of a tree, placed at `root`: `entries` gives the directory of each
/// entry relative to the root of the tree, and here it stands below `root`.
pub open spec fn placed(root: Seq<char>, entries: Seq<WalkEntryModel>) -> Seq<WalkEntryModel> {
    Seq::new(
        entries.len(),
        |i: int|
            WalkEntryModel {
                file_name: entries[i].file_name,
                parent: match entries[i].parent {
                    Some(rel) => Some(root + rel),
                    None => None,
                },
                parent_is_dir: entries[i].parent_is_dir,
            },
    )
}

/// Whether `rel` is a directory relative to the root of a tree: nothing, for
/// the root itself, or a path that starts with `/`.
pub open spec fn is_relative(rel: Seq<char>) -> bool {
    rel.len() == 0 || rel[0] == '/'
}

/// Whether every directory of the walk is given relative to the root.
pub open spec fn relative_walk(entries: Seq<WalkEntryModel>) -> bool {
    forall|i: int|
        0 <= i < entries.len() ==> ((#[trigger] entries[i]).parent matches Some(rel)
            ==> is_relative(rel))
}

/// No directory that the scan returns is the root, and none has a name of the
/// skip list.
pub proof fn lemma_scan_skips(
    root: Seq<char>,
    skip: Seq<Seq<char>>,
    entries: Seq<WalkEntryModel>,
    k: int,
)
    requires
        0 <= k < scanned(root, skip, entries).len(),
    ensures
        scanned(root, skip, entries)[k] != root,
        !skip.contains(basename_of(scanned(root, skip, entries)[k])),
    decreases entries.len(),
{
    if entries.len() > 0 {
        let seen = scanned(root, skip, entries.drop_last());
        if k < seen.len() {
            lemma_scan_skips(root, skip, entries.drop_last(), k);
        }
    }
}

/// A shared object in a directory whose name is in the skip list adds nothing to
/// the directories found so far.
pub proof fn lemma_skipped_entry_adds_nothing(
    root: Seq<char>,
    skip: Seq<Seq<char>>,
    entries: Seq<WalkEntryModel>,
    entry: WalkEntryModel,
)
    requires
        entry.parent matches Some(parent) && skip.contains(basename_of(parent)),
    ensures
        scanned(root, skip, entries.push(entry)) == scanned(root, skip, entries),
{
    assert(entries.push(entry).drop_last() =~= entries);
}

/// The scan returns no directory twice.
pub proof fn lemma_scan_distinct(
    root: Seq<char>,
    skip: Seq<Seq<char>>,
    entries: Seq<WalkEntryModel>,
)
    ensures
        forall|i: int, j: int|
            0 <= i < j < scanned(root, skip, entries).len() ==> scanned(root, skip, entries)[i]
                != scanned(root, skip, entries)[j],
    decreases entries.len(),
{
    if entries.len() > 0 {
        lemma_scan_distinct(root, skip, entries.drop_last());
        let seen = scanned(root, skip, entries.drop_last());
        let all = scanned(root, skip, entries);
        assert forall|i: int, j: int| 0 <= i < j < all.len() implies all[i] != all[j] by {
            assert(all[i] == seen[i]);
            if j < seen.len() {
                assert(all[j] == seen[j]);
            } else {
                assert(!seen.contains(all[j]));
            }
        }
    }
}

/// The scan keeps the order of discovery: what it returns for the first `n`
/// entries of a walk stands at the front of what it returns for the whole walk.
pub proof fn lemma_scan_keeps_order(
    root: Seq<char>,
    skip: Seq<Seq<char>>,
    entries: Seq<WalkEntryModel>,
    n: int,
)
    requires
        0 <= n <= entries.len(),
    ensures
        scanned(root, skip, entries.take(n)).is_prefix_of(scanned(root, skip, entries)),
    decreases entries.len() - n,
{
    if n == entries.len() {
        assert(entries.take(n) =~= entries);
    } else {
        lemma_scan_keeps_order(root, skip, entries, n + 1);
        assert(entries.take(n + 1).drop_last() =~= entries.take(n));
    }
}

/// The scan misses no directory: the directory of every shared object of the
/// walk is returned, unless it is the root, no directory, or skipped by name.
pub proof fn lemma_scan_complete(
    root: Seq<char>,
    skip: Seq<Seq<char>>,
    entries: Seq<WalkEntryModel>,
    k: int,
)
    requires
        0 <= k < entries.len(),
        is_shared_object(entries[k].file_name),
        entries[k].parent is Some,
        entries[k].parent->0 != root,
        entries[k].parent_is_dir,
        !skip.contains(basename_of(entries[k].parent->0)),
    ensures
        scanned(root, skip, entries).contains(entries[k].parent->0),
    decreases entries.len(),
{
    let seen = scanned(root, skip, entries.drop_last());
    let all = scanned(root, skip, entries);
    if k == entries.len() - 1 {
        if seen.contains(entries[k].parent->0) {
        } else {
            assert(all[seen.len() as int] == entries[k].parent->0);
        }
    } else {
        lemma_scan_complete(root, skip, entries.drop_last(), k);
        let at = choose|at: int| 0 <= at < seen.len() && seen[at] == entries[k].parent->0;
        assert(all[at] == seen[at]);
    }
}

/// Every directory that the scan returns was seen to hold a shared object: it is
/// the directory of some entry of the walk with the name of one.
pub proof fn lemma_scan_sound(
    root: Seq<char>,
    skip: Seq<Seq<char>>,
    entries: Seq<WalkEntryModel>,
    k: int,
)
    requires
        0 <= k < scanned(root, skip, entries).len(),
    ensures
        exists|i: int|
            0 <= i < entries.len() && is_shared_object(#[trigger] entries[i].file_name)
                && entries[i].parent == Some(scanned(root, skip, entries)[k])
                && entries[i].parent_is_dir,
    decreases entries.len(),
{
    if entries.len() > 0 {
        let head = entries.drop_last();
        let seen = scanned(root, skip, head);
        if k < seen.len() {
            lemma_scan_sound(root, skip, head, k);
            let i = choose|i: int|
                0 <= i < head.len() && is_shared_object(#[trigger] head[i].file_name)
                    && head[i].parent == Some(seen[k]) && head[i].parent_is_dir;
            assert(entries[i] == head[i]);
        } else {
            let i = entries.len() - 1;
            assert(is_shared_object(entries[i].file_name));
        }
    }
}

/// The names that a cache file speaks of are listed once each.
pub proof fn lemma_subdirs_distinct(lines: Seq<Seq<char>>)
    ensures
        forall|i: int, j: int|
            0 <= i < j < distinct_subdirs(lines).len() ==> distinct_subdirs(lines)[i]
                != distinct_subdirs(lines)[j],
    decreases lines.len(),
{
    if lines.len() > 0 {
        lemma_subdirs_distinct(lines.drop_last());
        let seen = distinct_subdirs(lines.drop_last());
        let all = distinct_subdirs(lines);
        assert forall|i: int, j: int| 0 <= i < j < all.len() implies all[i] != all[j] by {
            assert(all[i] == seen[i]);
            if j < seen.len() {
                assert(all[j] == seen[j]);
            } else {
                assert(!seen.contains(all[j]));
            }
        }
    }
}

/// A joined text ends as its last piece does.
proof fn lemma_join_last(parts: Seq<Seq<char>>, sep: Seq<char>)
    requires
        parts.len() > 0,
        parts.last().len() > 0,
    ensures
        join(parts, sep).len() > 0,
        join(parts, sep).last() == parts.last().last(),
{
}

/// The line of a directory below the root is the placeholder and the rest.
proof fn lemma_cache_line_under(root: Seq<char>, rel: Seq<char>)
    ensures
        cache_line(root, root + rel) == replace_char(placeholder() + rel, ':', seq!['\n']),
{
    let dir = root + rel;
    assert(dir.subrange(0, root.len() as int) =~= root);
    assert(dir.subrange(root.len() as int, dir.len() as int) =~= rel);
}

/// Relocation: a cache written for the tree at `old_root` with the directories
/// `old_root + rels[i]`, read under `new_root`, gives the search path of
/// `new_root` and the directories `new_root + rels[i]`, in the same order.
pub proof fn lemma_cache_relocates(old_root: Seq<char>, new_root: Seq<char>, rels: Seq<Seq<char>>)
    requires
        cacheable(rels, new_root),
    ensures
        search_path(cache_text(old_root, under(old_root, rels)), new_root) == join(
            seq![new_root] + under(new_root, rels),
            seq![':'],
        ),
{
    let dirs = under(old_root, rels);
    let lines = Seq::new(dirs.len(), |i: int| cache_line(old_root, dirs[i]));
    let nl = seq!['\n'];
    let colon = seq![':'];
    let body = join(lines, nl);
    let text = seq!['+', '\n'] + body;
    assert(text == cache_text(old_root, dirs));
    let e = Seq::<char>::empty();
    // Small facts about the two characters at the front.
    assert(replace_char(e, '\n', colon) =~= e);
    assert(replace_char(e, '+', new_root) =~= e);
    assert(seq!['+'].drop_last() =~= e);
    assert(seq!['\n'].drop_last() =~= e);
    assert(seq![':'].drop_last() =~= e);
    assert(replace_char(seq!['+'], '\n', colon) =~= seq!['+']);
    assert(replace_char(nl, '\n', colon) =~= colon);
    assert(replace_char(seq!['+'], '+', new_root) =~= new_root);
    assert(replace_char(colon, '+', new_root) =~= colon);
    if rels.len() == 0 {
        assert(body =~= e);
        assert(text =~= seq!['+', '\n']);
        assert(text.drop_last() =~= seq!['+']);
        assert(trim_start(text) == text);
        assert(trim_end(seq!['+']) == seq!['+']);
        assert(trim_end(text) == seq!['+']);
        assert(seq![new_root] + under(new_root, rels) =~= seq![new_root]);
    } else {
        let n = rels.len() as int;
        // The text survives trimming.
        assert forall|i: int| 0 <= i < n implies lines[i] == replace_char(
            placeholder() + rels[i],
            ':',
            nl,
        ) by {
            lemma_cache_line_under(old_root, rels[i]);
        }
        let last = placeholder() + rels.last();
        assert(last.last() != ':' && !is_space(last.last())) by {
            if rels.last().len() > 0 {
                assert(last.last() == rels.last().last());
            } else {
                assert(last =~= seq!['+']);
            }
        }
        assert(lines.last() == replace_char(last.drop_last(), ':', nl) + seq![last.last()]);
        assert(lines.last().last() == last.last());
        lemma_join_last(lines, nl);
        assert(text.last() == body.last());
        assert(trim_start(text) == text);
        assert(trim_end(text) == text);
        // Line breaks become colons.
        lemma_replace_char_concat(seq!['+', '\n'], body, '\n', colon);
        lemma_replace_char_concat(seq!['+'], nl, '\n', colon);
        assert(seq!['+'] + nl =~= seq!['+', '\n']);
        lemma_replace_char_join(lines, nl, '\n', colon);
        let plain = Seq::new(rels.len(), |i: int| placeholder() + rels[i]);
        assert(Seq::new(lines.len(), |i: int| replace_char(lines[i], '\n', colon)) =~= plain) by {
            assert forall|i: int| 0 <= i < n implies replace_char(lines[i], '\n', colon)
                == plain[i] by {
                let p = placeholder() + rels[i];
                assert forall|j: int| 0 <= j < p.len() implies p[j] != '\n' by {
                    if j > 0 {
                        assert(p[j] == rels[i][j - 1]);
                    }
                }
                lemma_replace_char_back(p, ':', '\n');
            }
        }
        let step1 = replace_char(text, '\n', colon);
        assert(step1 == seq!['+'] + colon + join(plain, colon));
        // Placeholders become the new root.
        lemma_replace_char_concat(seq!['+'] + colon, join(plain, colon), '+', new_root);
        lemma_replace_char_concat(seq!['+'], colon, '+', new_root);
        lemma_replace_char_join(plain, colon, '+', new_root);
        assert(Seq::new(plain.len(), |i: int| replace_char(plain[i], '+', new_root)) =~= under(
            new_root,
            rels,
        )) by {
            assert forall|i: int| 0 <= i < n implies replace_char(plain[i], '+', new_root)
                == new_root + rels[i] by {
                if new_root == placeholder() {
                    lemma_replace_char_same(plain[i], '+');
                } else {
                    lemma_replace_char_concat(placeholder(), rels[i], '+', new_root);
                    lemma_replace_char_absent(rels[i], '+', new_root);
                }
            }
        }
        lemma_join_first(new_root, under(new_root, rels), colon);
    }
}

/// Round trip: a cache written for a tree and read back under the same root gives
/// the search path of the root and exactly the directories written, in their
/// order.
pub proof fn lemma_cache_round_trip(root: Seq<char>, rels: Seq<Seq<char>>)
    requires
        cacheable(rels, root),
    ensures
        search_path(cache_text(root, under(root, rels)), root) == join(
            seq![root] + under(root, rels),
            seq![':'],
        ),
{
    lemma_cache_relocates(root, root, rels);
}

/// Round trip of a scan: where every directory that the scan of a walk found
/// lies below the root, the cache written from the scan and read back under the
/// same root gives the search path of the root and exactly those directories,
/// in the order of their discovery.
pub proof fn lemma_scan_round_trip(
    root: Seq<char>,
    skip: Seq<Seq<char>>,
    entries: Seq<WalkEntryModel>,
    rels: Seq<Seq<char>>,
)
    requires
        scanned(root, skip, entries) == under(root, rels),
        cacheable(rels, root),
    ensures
        search_path(cache_text(root, scanned(root, skip, entries)), root) == join(
            seq![root] + scanned(root, skip, entries),
            seq![':'],
        ),
{
    lemma_cache_round_trip(root, rels);
}

/// The final name of a directory below a root is that of its relative path.
proof fn lemma_basename_below(root: Seq<char>, rel: Seq<char>)
    requires
        rel.len() > 0,
        rel[0] == '/',
    ensures
        basename_of(root + rel) == basename_of(rel),
{
    lemma_last_index(rel, '/');
    lemma_last_index_concat(root, rel, '/');
    let k = last_index(rel, '/');
    assert((root + rel).subrange(root.len() + k + 1, (root + rel).len() as int) =~= rel.subrange(
        k + 1,
        rel.len() as int,
    ));
}

/// The scan of a tree does not depend on where the tree lies: the directories
/// found in a walk placed at `root` are those found in the relative walk, each
/// below `root`.
pub proof fn lemma_scan_is_relative(
    root: Seq<char>,
    skip: Seq<Seq<char>>,
    entries: Seq<WalkEntryModel>,
)
    requires
        relative_walk(entries),
    ensures
        scanned(root, skip, placed(root, entries)) == under(
            root,
            scanned(Seq::empty(), skip, entries),
        ),
    decreases entries.len(),
{
    let nothing = Seq::<char>::empty();
    if entries.len() == 0 {
        assert(under(root, scanned(nothing, skip, entries)) =~= Seq::<Seq<char>>::empty());
    } else {
        let head = entries.drop_last();
        let last = entries.last();
        assert forall|i: int| 0 <= i < head.len() implies ((#[trigger] head[i]).parent matches Some(
            rel,
        ) ==> is_relative(rel)) by {
            assert(head[i] == entries[i]);
        }
        lemma_scan_is_relative(root, skip, head);
        let all = placed(root, entries);
        assert(all.drop_last() =~= placed(root, head));
        let rels = scanned(nothing, skip, head);
        let seen = under(root, rels);
        let there = all[all.len() - 1];
        assert(there == all.last());
        assert(there.file_name == last.file_name && there.parent_is_dir == last.parent_is_dir);
        match last.parent {
            Some(rel) => {
                assert(entries[entries.len() - 1] == last);
                assert(is_relative(rel));
                assert(there.parent == Some(root + rel));
                assert((root + rel == root) == (rel == nothing)) by {
                    assert((root + rel).len() == root.len() + rel.len());
                    if rel.len() == 0 {
                        assert(rel =~= nothing);
                        assert(root + rel =~= root);
                    }
                }
                assert(seen.contains(root + rel) == rels.contains(rel)) by {
                    if rels.contains(rel) {
                        let at = choose|at: int| 0 <= at < rels.len() && rels[at] == rel;
                        assert(seen[at] == root + rel);
                    }
                    if seen.contains(root + rel) {
                        let at = choose|at: int| 0 <= at < seen.len() && seen[at] == root + rel;
                        let n = root.len() as int;
                        assert((root + rels[at]).subrange(n, n + rels[at].len()) =~= rels[at]);
                        assert((root + rel).subrange(n, n + rel.len()) =~= rel);
                        assert((root + rels[at]).len() == (root + rel).len());
                        assert(rels[at] == rel);
                    }
                }
                if rel.len() > 0 {
                    lemma_basename_below(root, rel);
                }
                assert(records_dir(root, skip, seen, there) == records_dir(
                    nothing,
                    skip,
                    rels,
                    last,
                ));
                assert(under(root, rels.push(rel)) =~= seen.push(root + rel));
            },
            None => {
                assert(there.parent is None);
                assert(!records_dir(root, skip, seen, there));
                assert(!records_dir(nothing, skip, rels, last));
            },
        }
    }
}

/// The text of a cache file speaks of the root by its placeholder alone: the
/// same relative directories give the same text below any root.
pub proof fn lemma_cache_text_of_relative(
    root_a: Seq<char>,
    root_b: Seq<char>,
    rels: Seq<Seq<char>>,
)
    ensures
        cache_text(root_a, under(root_a, rels)) == cache_text(root_b, under(root_b, rels)),
{
    let lines_a = Seq::new(rels.len(), |i: int| cache_line(root_a, under(root_a, rels)[i]));
    let lines_b = Seq::new(rels.len(), |i: int| cache_line(root_b, under(root_b, rels)[i]));
    assert(lines_a =~= lines_b) by {
        assert forall|i: int| 0 <= i < rels.len() implies lines_a[i] == lines_b[i] by {
            lemma_cache_line_under(root_a, rels[i]);
            lemma_cache_line_under(root_b, rels[i]);
        }
    }
}

/// The cache file depends on the shape of the tree only, not on where the tree
/// lies: two trees with the same relative entries, walked in the same order,
/// give the same text, character by character.
pub proof fn lemma_cache_text_is_relative(
    root_a: Seq<char>,
    root_b: Seq<char>,
    skip: Seq<Seq<char>>,
    entries: Seq<WalkEntryModel>,
)
    requires
        relative_walk(entries),
    ensures
        cache_text(root_a, scanned(root_a, skip, placed(root_a, entries))) == cache_text(
            root_b,
            scanned(root_b, skip, placed(root_b, entries)),
        ),
{
    lemma_scan_is_relative(root_a, skip, entries);
    lemma_scan_is_relative(root_b, skip, entries);
    lemma_cache_text_of_relative(root_a, root_b, scanned(Seq::empty(), skip, entries));
}

/// Whether a file of this name is a shared object.
pub fn is_shared_object_name(name: &str) -> (r: bool)
    ensures
        r == is_shared_object(name@),
{
    let n = chars_of(name);
    let mut suffix: Vec<char> = Vec::new();
    suffix.push('.');
    suffix.push('s');
    suffix.push('o');
    assert(suffix@ =~= so_suffix());
    if ends_with(n.as_slice(), suffix.as_slice()) {
        return true;
    }
    suffix.push('.');
    assert(suffix@ =~= so_infix());
    contains(n.as_slice(), suffix.as_slice())
}

/// What to do about a cache file that exists or not, in a tree that can be
/// written or not.
pub fn cache_plan(cache_exists: bool, tree_writable: bool) -> (plan: CachePlan)
    ensures
        plan == if cache_exists {
            CachePlan::Read
        } else if tree_writable {
            CachePlan::ScanAndWrite
        } else {
            CachePlan::ScanOnly
        },
{
    if cache_exists {
        CachePlan::Read
    } else if tree_writable {
        CachePlan::ScanAndWrite
    } else {
        CachePlan::ScanOnly
    }
}

/// The cache file of the library tree at `library_path`: `lib.path` in its root.
pub fn cache_file(library_path: &str) -> (path: String)
    ensures
        path@ == below(library_path@, "lib.path"@),
{
    entry_path(library_path, "lib.path")
}

/// The directories below `library_path` that hold shared objects, in the order in
/// which `entries`, the walk of the tree, first meets them. A directory whose
/// name is in `skip_dirs` is left out.
pub fn scan_library_dirs(
    library_path: &str,
    entries: &Vec<WalkEntry>,
    skip_dirs: &Vec<String>,
) -> (dirs: Vec<String>)
    ensures
        dirs.deep_view() == scanned(library_path@, skip_dirs.deep_view(), entries.deep_view()),
{
    let root = chars_of(library_path);
    let skip = rows_of(skip_dirs);
    let mut new_paths: Vec<Vec<char>> = Vec::new();
    let mut i: usize = 0;
    while i < entries.len()
        invariant
            i <= entries.len(),
            root@ == library_path@,
            rows(skip@) == skip_dirs.deep_view(),
            rows(new_paths@) == scanned(
                library_path@,
                skip_dirs.deep_view(),
                entries.deep_view().take(i as int),
            ),
        decreases entries.len() - i,
    {
        proof {
            let next = entries.deep_view().take(i + 1);
            assert(next.drop_last() =~= entries.deep_view().take(i as int));
            assert(next.last() == entries[i as int].deep_view());
        }
        let entry = &entries[i];
        if is_shared_object_name(entry.file_name.as_str()) && entry.parent_is_dir {
            match &entry.parent {
                Some(parent) => {
                    let dir = chars_of(parent.as_str());
                    let name = basename_chars(dir.as_slice());
                    if !same_chars(dir.as_slice(), root.as_slice()) && !holds(
                        &new_paths,
                        dir.as_slice(),
                    ) && !holds(&skip, name.as_slice()) {
                        let ghost before = rows(new_paths@);
                        new_paths.push(dir);
                        assert(rows(new_paths@) =~= before.push(parent@));
                    }
                },
                None => {},
            }
        }
        i += 1;
    }
    assert(entries.deep_view().take(entries.len() as int) =~= entries.deep_view());
    strings_of(&new_paths)
}

/// The text of the cache file for the tree at `library_path` with the
/// directories `dirs`.
pub fn cache_file_text(library_path: &str, dirs: &Vec<String>) -> (text: String)
    ensures
        text@ == cache_text(library_path@, dirs.deep_view()),
{
    let root = chars_of(library_path);
    let mut lines: Vec<Vec<char>> = Vec::new();
    let mut newline: Vec<char> = Vec::new();
    newline.push('\n');
    assert(newline@ =~= seq!['\n']);
    let mut i: usize = 0;
    while i < dirs.len()
        invariant
            i <= dirs.len(),
            root@ == library_path@,
            newline@ == seq!['\n'],
            rows(lines@) == Seq::new(
                dirs.deep_view().len(),
                |k: int| cache_line(library_path@, dirs.deep_view()[k]),
            ).take(i as int),
        decreases dirs.len() - i,
    {
        let dir = chars_of(dirs[i].as_str());
        let relative = if starts_with(dir.as_slice(), root.as_slice()) {
            let mut line: Vec<char> = Vec::new();
            line.push('+');
            let rest = slice_of(dir.as_slice(), root.len(), dir.len());
            push_all(&mut line, rest.as_slice());
            assert(line@ =~= placeholder() + dir@.subrange(root@.len() as int, dir@.len() as int));
            line
        } else {
            dir
        };
        let line = replace_each(relative.as_slice(), ':', newline.as_slice());
        let ghost before = rows(lines@);
        lines.push(line);
        assert(rows(lines@) =~= before.push(line@));
        i += 1;
        assert(rows(lines@) =~= Seq::new(
            dirs.deep_view().len(),
            |k: int| cache_line(library_path@, dirs.deep_view()[k]),
        ).take(i as int));
    }
    assert(Seq::new(
        dirs.deep_view().len(),
        |k: int| cache_line(library_path@, dirs.deep_view()[k]),
    ).take(dirs.len() as int) =~= Seq::new(
        dirs.deep_view().len(),
        |k: int| cache_line(library_path@, dirs.deep_view()[k]),
    ));
    let mut text: Vec<char> = Vec::new();
    text.push('+');
    text.push('\n');
    let body = join_with(&lines, newline.as_slice());
    push_all(&mut text, body.as_slice());
    assert(text@ =~= seq!['+', '\n'] + body@);
    string_of(text.as_slice())
}

/// Scans the walk `entries` of the tree at `library_path` and returns the text of
/// its cache file. Directories called `lib-dynload` are skipped.
pub fn gen_library_path(library_path: &str, entries: &Vec<WalkEntry>) -> (text: String)
    ensures
        text@ == cache_text(
            library_path@,
            scanned(library_path@, default_skip_dirs(), entries.deep_view()),
        ),
{
    let mut skip_dirs: Vec<String> = Vec::new();
    let name = "lib-dynload";
    proof {
        reveal_strlit("lib-dynload");
        assert(name@ =~= default_skip_dirs()[0]);
    }
    skip_dirs.push(name.to_owned());
    assert(skip_dirs.deep_view() =~= default_skip_dirs());
    let dirs = scan_library_dirs(library_path, entries, &skip_dirs);
    cache_file_text(library_path, &dirs)
}

/// The search path that `lib_path_data`, the text of the cache file of the tree
/// at `library_path`, stands for.
pub fn read_library_path(lib_path_data: &str, library_path: &str) -> (path: String)
    ensures
        path@ == search_path(lib_path_data@, library_path@),
{
    let data = chars_of(lib_path_data);
    if data.len() == 0 {
        return library_path.to_owned();
    }
    let body = trimmed(data.as_slice());
    let mut colon: Vec<char> = Vec::new();
    colon.push(':');
    assert(colon@ =~= seq![':']);
    let joined_lines = replace_each(body.as_slice(), '\n', colon.as_slice());
    let root = chars_of(library_path);
    let path = replace_each(joined_lines.as_slice(), '+', root.as_slice());
    string_of(path.as_slice())
}

/// `library_path` followed by the search path that the launcher inherited, so
/// that the bundle's own directories come first.
pub fn append_inherited(library_path: &str, inherited: &str) -> (path: String)
    ensures
        path@ == with_inherited(library_path@, inherited@),
{
    let mut path = chars_of(library_path);
    let extra = chars_of(inherited);
    if extra.len() == 0 {
        return library_path.to_owned();
    }
    path.push(':');
    push_all(&mut path, extra.as_slice());
    assert(path@ =~= library_path@ + seq![':'] + inherited@);
    string_of(path.as_slice())
}

/// The distinct top-level names under the library root that the cache file
/// speaks of, each where it first occurs.
pub fn library_subdirs(lib_path_data: &str) -> (names: Vec<String>)
    ensures
        names.deep_view() == subdirs(lib_path_data@),
{
    let data = chars_of(lib_path_data);
    let mut names: Vec<Vec<char>> = Vec::new();
    if data.len() == 0 {
        let out: Vec<String> = Vec::new();
        assert(out.deep_view() =~= Seq::<Seq<char>>::empty());
        return out;
    }
    let lines = split_at_char(data.as_slice(), '\n');
    let mut i: usize = 0;
    while i < lines.len()
        invariant
            i <= lines.len(),
            rows(names@) == distinct_subdirs(rows(lines@).take(i as int)),
        decreases lines.len() - i,
    {
        proof {
            let next = rows(lines@).take(i + 1);
            assert(next.drop_last() =~= rows(lines@).take(i as int));
            assert(next.last() == lines[i as int]@);
        }
        let mut pieces = split_at_char(lines[i].as_slice(), '/');
        let name: Vec<char> = if pieces.len() > 1 {
            assert(rows(pieces@)[1] == pieces@[1]@);
            pieces.swap_remove(1)
        } else {
            Vec::new()
        };
        if !holds(&names, name.as_slice()) {
            let ghost before = rows(names@);
            names.push(name);
            assert(rows(names@) =~= before.push(name@));
        }
        i += 1;
    }
    assert(rows(lines@).take(lines.len() as int) =~= rows(lines@));
    strings_of(&names)
}

} // verus!
