//! Character sequences: the model of every path, name and line in this crate.
//!
//! Contracts elsewhere are written over `Seq<char>`; the executable side works on
//! `Vec<char>` and converts at the public boundary.

use vstd::prelude::*;

verus! {

/// `String::push` appends one character to the end of the string.
pub assume_specification[ String::push ](s: &mut String, c: char)
    ensures
        final(s)@ == old(s)@.push(c),
;

/// The character sequences that the rows of `v` hold.
pub open spec fn rows(v: Seq<Vec<char>>) -> Seq<Seq<char>> {
    Seq::new(v.len(), |i: int| v[i]@)
}

/// `p` is an initial segment of `s`.
pub open spec fn has_prefix(s: Seq<char>, p: Seq<char>) -> bool {
    p.len() <= s.len() && s.subrange(0, p.len() as int) == p
}

/// `p` is a final segment of `s`.
pub open spec fn has_suffix(s: Seq<char>, p: Seq<char>) -> bool {
    p.len() <= s.len() && s.subrange(s.len() - p.len(), s.len() as int) == p
}

/// `p` stands in `s` at position `i`.
pub open spec fn occurs_at(s: Seq<char>, p: Seq<char>, i: int) -> bool {
    0 <= i && i + p.len() <= s.len() && s.subrange(i, i + p.len()) == p
}

/// `p` stands somewhere in `s`.
pub open spec fn has_substring(s: Seq<char>, p: Seq<char>) -> bool {
    exists|i: int| occurs_at(s, p, i)
}

/// Position of the last `c` in `s`, or -1 where `s` holds none.
pub open spec fn last_index(s: Seq<char>, c: char) -> int
    decreases s.len(),
{
    if s.len() == 0 {
        -1
    } else if s.last() == c {
        s.len() - 1
    } else {
        last_index(s.drop_last(), c)
    }
}

/// Position of the first `c` in `s`, or `s.len()` where `s` holds none.
pub open spec fn first_index(s: Seq<char>, c: char) -> int
    decreases s.len(),
{
    if s.len() == 0 {
        0
    } else if s[0] == c {
        0
    } else {
        1 + first_index(s.drop_first(), c)
    }
}

/// The pieces of `s` between occurrences of `sep`; empty pieces are kept.
pub open spec fn split(s: Seq<char>, sep: char) -> Seq<Seq<char>>
    decreases s.len(),
{
    let i = first_index(s, sep);
    if 0 <= i < s.len() {
        seq![s.subrange(0, i)] + split(s.subrange(i + 1, s.len() as int), sep)
    } else {
        seq![s]
    }
}

/// The pieces set one after another with `sep` between each two.
pub open spec fn join(parts: Seq<Seq<char>>, sep: Seq<char>) -> Seq<char>
    decreases parts.len(),
{
    if parts.len() == 0 {
        Seq::empty()
    } else if parts.len() == 1 {
        parts[0]
    } else {
        join(parts.drop_last(), sep) + sep + parts.last()
    }
}

/// The characters that count as white space: those with the Unicode property
/// White_Space.
pub open spec fn is_space(c: char) -> bool {
    let n = c as u32;
    ||| 0x09 <= n <= 0x0d
    ||| n == 0x20
    ||| n == 0x85
    ||| n == 0xa0
    ||| n == 0x1680
    ||| 0x2000 <= n <= 0x200a
    ||| n == 0x2028
    ||| n == 0x2029
    ||| n == 0x202f
    ||| n == 0x205f
    ||| n == 0x3000
}

/// `s` without its leading white space.
pub open spec fn trim_start(s: Seq<char>) -> Seq<char>
    decreases s.len(),
{
    if s.len() > 0 && is_space(s[0]) {
        trim_start(s.drop_first())
    } else {
        s
    }
}

/// `s` without its trailing white space.
pub open spec fn trim_end(s: Seq<char>) -> Seq<char>
    decreases s.len(),
{
    if s.len() > 0 && is_space(s.last()) {
        trim_end(s.drop_last())
    } else {
        s
    }
}

/// `s` without leading and trailing white space.
pub open spec fn trim(s: Seq<char>) -> Seq<char> {
    trim_end(trim_start(s))
}

/// The words of `s` that follow once `cur`, the word in progress, is closed.
pub open spec fn words_after(s: Seq<char>, cur: Seq<char>) -> Seq<Seq<char>>
    decreases s.len(),
{
    let closed = if cur.len() > 0 {
        seq![cur]
    } else {
        Seq::empty()
    };
    if s.len() == 0 {
        closed
    } else if is_space(s[0]) {
        closed + words_after(s.drop_first(), Seq::empty())
    } else {
        words_after(s.drop_first(), cur.push(s[0]))
    }
}

/// The maximal runs of characters of `s` that hold no white space.
pub open spec fn words(s: Seq<char>) -> Seq<Seq<char>> {
    words_after(s, Seq::empty())
}

/// `s` with every `c` replaced by `to`.
pub open spec fn replace_char(s: Seq<char>, c: char, to: Seq<char>) -> Seq<char>
    decreases s.len(),
{
    if s.len() == 0 {
        Seq::empty()
    } else {
        replace_char(s.drop_last(), c, to) + (if s.last() == c {
            to
        } else {
            seq![s.last()]
        })
    }
}

/// `s` with every occurrence of `pat` replaced by `to`, found from the left and
/// not overlapping. An empty `pat` is found before every character and at the end.
pub open spec fn replace(s: Seq<char>, pat: Seq<char>, to: Seq<char>) -> Seq<char>
    decreases s.len(),
{
    if s.len() == 0 {
        if pat.len() == 0 {
            to
        } else {
            s
        }
    } else if pat.len() == 0 {
        to + seq![s[0]] + replace(s.drop_first(), pat, to)
    } else if has_prefix(s, pat) {
        to + replace(s.subrange(pat.len() as int, s.len() as int), pat, to)
    } else {
        seq![s[0]] + replace(s.drop_first(), pat, to)
    }
}

/// What `last_index` returns is the last position of `c`.
pub proof fn lemma_last_index(s: Seq<char>, c: char)
    ensures
        -1 <= last_index(s, c) < s.len(),
        last_index(s, c) >= 0 ==> s[last_index(s, c)] == c,
        forall|j: int| last_index(s, c) < j < s.len() ==> s[j] != c,
    decreases s.len(),
{
    if s.len() > 0 && s.last() != c {
        let t = s.drop_last();
        lemma_last_index(t, c);
        assert forall|j: int| last_index(s, c) < j < s.len() implies s[j] != c by {
            if j < s.len() - 1 {
                assert(s[j] == t[j]);
            }
        }
    }
}

/// A position that holds `c` with no `c` after it is the last index.
pub proof fn lemma_last_index_is(s: Seq<char>, c: char, k: int)
    requires
        -1 <= k < s.len(),
        k >= 0 ==> s[k] == c,
        forall|j: int| k < j < s.len() ==> s[j] != c,
    ensures
        last_index(s, c) == k,
{
    lemma_last_index(s, c);
}

/// What `first_index` returns is the first position of `c`.
pub proof fn lemma_first_index(s: Seq<char>, c: char)
    ensures
        0 <= first_index(s, c) <= s.len(),
        first_index(s, c) < s.len() ==> s[first_index(s, c)] == c,
        forall|j: int| 0 <= j < first_index(s, c) ==> s[j] != c,
    decreases s.len(),
{
    if s.len() > 0 && s[0] != c {
        let t = s.drop_first();
        lemma_first_index(t, c);
        assert forall|j: int| 0 <= j < first_index(s, c) implies s[j] != c by {
            if j > 0 {
                assert(s[j] == t[j - 1]);
            }
        }
    }
}

/// A position that holds `c` with no `c` before it is the first index.
pub proof fn lemma_first_index_is(s: Seq<char>, c: char, k: int)
    requires
        0 <= k <= s.len(),
        k < s.len() ==> s[k] == c,
        forall|j: int| 0 <= j < k ==> s[j] != c,
    ensures
        first_index(s, c) == k,
{
    lemma_first_index(s, c);
}

/// Joining pieces after a first one.
pub proof fn lemma_join_first(first: Seq<char>, others: Seq<Seq<char>>, sep: Seq<char>)
    ensures
        join(seq![first] + others, sep) == if others.len() == 0 {
            first
        } else {
            first + sep + join(others, sep)
        },
    decreases others.len(),
{
    let all = seq![first] + others;
    assert(join(seq![first], sep) == first);
    if others.len() == 0 {
        assert(all =~= seq![first]);
    } else if others.len() == 1 {
        assert(all.drop_last() =~= seq![first]);
        assert(all.last() == others[0]);
        assert(join(others, sep) == others[0]);
        assert(join(all, sep) == join(all.drop_last(), sep) + sep + all.last());
    } else {
        assert(all.drop_last() =~= seq![first] + others.drop_last());
        assert(all.last() == others.last());
        lemma_join_first(first, others.drop_last(), sep);
        assert(join(all, sep) == join(all.drop_last(), sep) + sep + all.last());
        assert(join(others, sep) == join(others.drop_last(), sep) + sep + others.last());
        assert(first + sep + join(others.drop_last(), sep) + sep + others.last() =~= first + sep
            + (join(others.drop_last(), sep) + sep + others.last()));
    }
}

/// Every piece of a split stands in the string that was split.
pub proof fn lemma_split_piece_is_substring(s: Seq<char>, sep: char, k: int)
    requires
        0 <= k < split(s, sep).len(),
    ensures
        has_substring(s, split(s, sep)[k]),
    decreases s.len(),
{
    lemma_first_index(s, sep);
    let i = first_index(s, sep);
    if i < s.len() {
        if k == 0 {
            assert(occurs_at(s, s.subrange(0, i), 0));
        } else {
            let rest = s.subrange(i + 1, s.len() as int);
            lemma_split_piece_is_substring(rest, sep, k - 1);
            let piece = split(rest, sep)[k - 1];
            assert(split(s, sep)[k] == piece);
            let at = choose|at: int| occurs_at(rest, piece, at);
            assert(rest.subrange(at, at + piece.len()) =~= s.subrange(
                i + 1 + at,
                i + 1 + at + piece.len(),
            ));
            assert(occurs_at(s, piece, i + 1 + at));
        }
    } else {
        assert(s.subrange(0, s.len() as int) =~= s);
        assert(occurs_at(s, s, 0));
    }
}

/// A word in progress is a word of the result.
pub proof fn lemma_words_after_open(s: Seq<char>, cur: Seq<char>)
    requires
        cur.len() > 0,
    ensures
        words_after(s, cur).len() >= 1,
    decreases s.len(),
{
    if s.len() > 0 && !is_space(s[0]) {
        lemma_words_after_open(s.drop_first(), cur.push(s[0]));
    }
}

/// A string that starts with a character that is no white space has a word.
pub proof fn lemma_words_nonempty(s: Seq<char>)
    requires
        s.len() > 0,
        !is_space(s[0]),
    ensures
        words(s).len() >= 1,
{
    lemma_words_after_open(s.drop_first(), Seq::<char>::empty().push(s[0]));
}

/// Replacing a character works piece by piece.
pub proof fn lemma_replace_char_concat(a: Seq<char>, b: Seq<char>, c: char, to: Seq<char>)
    ensures
        replace_char(a + b, c, to) == replace_char(a, c, to) + replace_char(b, c, to),
    decreases b.len(),
{
    if b.len() == 0 {
        assert(a + b =~= a);
        assert(replace_char(a, c, to) + replace_char(b, c, to) =~= replace_char(a, c, to));
    } else {
        assert((a + b).drop_last() =~= a + b.drop_last());
        lemma_replace_char_concat(a, b.drop_last(), c, to);
        let tail = if b.last() == c {
            to
        } else {
            seq![b.last()]
        };
        assert(replace_char(a + b, c, to) =~= replace_char(a, c, to) + (replace_char(
            b.drop_last(),
            c,
            to,
        ) + tail));
    }
}

/// Replacing a character that does not occur changes nothing.
pub proof fn lemma_replace_char_absent(s: Seq<char>, c: char, to: Seq<char>)
    requires
        !s.contains(c),
    ensures
        replace_char(s, c, to) == s,
    decreases s.len(),
{
    if s.len() > 0 {
        let t = s.drop_last();
        assert(s.last() == s[s.len() - 1]);
        assert forall|j: int| 0 <= j < t.len() implies t[j] != c by {
            assert(t[j] == s[j]);
        }
        assert(!t.contains(c));
        lemma_replace_char_absent(t, c, to);
        assert(t + seq![s.last()] =~= s);
    }
}

/// Replacing a character by itself changes nothing.
pub proof fn lemma_replace_char_same(s: Seq<char>, c: char)
    ensures
        replace_char(s, c, seq![c]) == s,
    decreases s.len(),
{
    if s.len() > 0 {
        lemma_replace_char_same(s.drop_last(), c);
        assert(s.drop_last() + seq![s.last()] =~= s);
    }
}

/// What is left of `s[from..]` once leading white space is dropped starts at the
/// first character from `from` on that is no white space.
proof fn lemma_trim_start_from(s: Seq<char>, a: int)
    requires
        0 <= a <= s.len(),
        forall|j: int| 0 <= j < a ==> is_space(s[j]),
        a < s.len() ==> !is_space(s[a]),
    ensures
        trim_start(s) == s.subrange(a, s.len() as int),
    decreases a,
{
    if a == 0 {
        assert(s.subrange(0, s.len() as int) =~= s);
    } else {
        let t = s.drop_first();
        assert forall|j: int| 0 <= j < a - 1 implies is_space(t[j]) by {
            assert(t[j] == s[j + 1]);
        }
        lemma_trim_start_from(t, a - 1);
        assert(t.subrange(a - 1, t.len() as int) =~= s.subrange(a, s.len() as int));
    }
}

/// Mirror image of `lemma_trim_start_from`.
proof fn lemma_trim_end_to(s: Seq<char>, b: int)
    requires
        0 <= b <= s.len(),
        forall|j: int| b <= j < s.len() ==> is_space(s[j]),
        b > 0 ==> !is_space(s[b - 1]),
    ensures
        trim_end(s) == s.subrange(0, b),
    decreases s.len() - b,
{
    if b == s.len() {
        assert(s.subrange(0, s.len() as int) =~= s);
    } else {
        let t = s.drop_last();
        assert forall|j: int| b <= j < t.len() implies is_space(t[j]) by {
            assert(t[j] == s[j]);
        }
        lemma_trim_end_to(t, b);
        assert(t.subrange(0, b) =~= s.subrange(0, b));
    }
}

/// Replacing a character in a joined text is replacing it in every piece and in
/// the separator.
pub proof fn lemma_replace_char_join(parts: Seq<Seq<char>>, sep: Seq<char>, c: char, to: Seq<char>)
    ensures
        replace_char(join(parts, sep), c, to) == join(
            Seq::new(parts.len(), |i: int| replace_char(parts[i], c, to)),
            replace_char(sep, c, to),
        ),
    decreases parts.len(),
{
    let mapped = Seq::new(parts.len(), |i: int| replace_char(parts[i], c, to));
    if parts.len() == 0 {
    } else if parts.len() == 1 {
    } else {
        let head = parts.drop_last();
        lemma_replace_char_join(head, sep, c, to);
        assert(mapped.drop_last() =~= Seq::new(head.len(), |i: int| replace_char(head[i], c, to)));
        lemma_replace_char_concat(join(head, sep) + sep, parts.last(), c, to);
        lemma_replace_char_concat(join(head, sep), sep, c, to);
    }
}

/// Turning every `c` into `d` and then every `d` into `c` gives back a text that
/// held no `d`.
pub proof fn lemma_replace_char_back(s: Seq<char>, c: char, d: char)
    requires
        !s.contains(d),
    ensures
        replace_char(replace_char(s, c, seq![d]), d, seq![c]) == s,
    decreases s.len(),
{
    if s.len() > 0 {
        let t = s.drop_last();
        assert(s.last() == s[s.len() - 1]);
        assert forall|j: int| 0 <= j < t.len() implies t[j] != d by {
            assert(t[j] == s[j]);
        }
        assert(!t.contains(d));
        lemma_replace_char_back(t, c, d);
        let tail = if s.last() == c {
            seq![d]
        } else {
            seq![s.last()]
        };
        lemma_replace_char_concat(replace_char(t, c, seq![d]), tail, d, seq![c]);
        assert(tail.drop_last() =~= Seq::<char>::empty());
        assert(replace_char(Seq::<char>::empty(), d, seq![c]) =~= Seq::<char>::empty());
        assert(replace_char(tail, d, seq![c]) =~= seq![s.last()]);
        assert(t + seq![s.last()] =~= s);
    }
}

/// The last `c` of a text that ends in a part with a `c` is the last `c` of
/// that part.
pub proof fn lemma_last_index_concat(a: Seq<char>, b: Seq<char>, c: char)
    requires
        last_index(b, c) >= 0,
    ensures
        last_index(a + b, c) == a.len() + last_index(b, c),
{
    lemma_last_index(b, c);
    let k = a.len() + last_index(b, c);
    assert((a + b)[k] == b[last_index(b, c)]);
    assert forall|j: int| k < j < (a + b).len() implies (a + b)[j] != c by {
        assert((a + b)[j] == b[j - a.len()]);
    }
    lemma_last_index_is(a + b, c, k);
}

/// The characters of `s`, in order.
pub fn chars_of(s: &str) -> (out: Vec<char>)
    ensures
        out@ == s@,
{
    let mut out: Vec<char> = Vec::new();
    for c in it: s.chars()
        invariant
            it.seq() == s@,
            out@ == s@.take(it.index()),
    {
        out.push(c);
    }
    out
}

/// The string spelled by `chars`.
pub fn string_of(chars: &[char]) -> (out: String)
    ensures
        out@ == chars@,
{
    let mut out = String::new();
    let mut i: usize = 0;
    while i < chars.len()
        invariant
            i <= chars.len(),
            out@ == chars@.take(i as int),
        decreases chars.len() - i,
    {
        out.push(chars[i]);
        i += 1;
    }
    out
}

/// A copy of `s[from..to]`.
pub(crate) fn slice_of(s: &[char], from: usize, to: usize) -> (out: Vec<char>)
    requires
        from <= to <= s.len(),
    ensures
        out@ == s@.subrange(from as int, to as int),
{
    let mut out: Vec<char> = Vec::new();
    let mut i: usize = from;
    while i < to
        invariant
            from <= i <= to <= s.len(),
            out@ == s@.subrange(from as int, i as int),
        decreases to - i,
    {
        out.push(s[i]);
        i += 1;
    }
    out
}

/// Appends `src` to `dst`.
pub fn push_all(dst: &mut Vec<char>, src: &[char])
    ensures
        final(dst)@ == old(dst)@ + src@,
{
    let mut i: usize = 0;
    while i < src.len()
        invariant
            i <= src.len(),
            dst@ == old(dst)@ + src@.take(i as int),
        decreases src.len() - i,
    {
        dst.push(src[i]);
        i += 1;
    }
}

/// Whether `p` stands in `s` at position `i`.
pub fn matches_at(s: &[char], p: &[char], i: usize) -> (r: bool)
    ensures
        r == occurs_at(s@, p@, i as int),
{
    if i > s.len() || p.len() > s.len() - i {
        return false;
    }
    let mut k: usize = 0;
    while k < p.len()
        invariant
            k <= p.len(),
            i + p.len() <= s.len(),
            forall|j: int| 0 <= j < k ==> s@[i + j] == p@[j],
        decreases p.len() - k,
    {
        if s[i + k] != p[k] {
            proof {
                let sub = s@.subrange(i as int, i + p.len());
                assert(sub[k as int] == s@[i + k]);
            }
            return false;
        }
        k += 1;
    }
    assert(s@.subrange(i as int, i + p.len()) =~= p@);
    true
}

/// Whether the two sequences hold the same characters.
pub fn same_chars(a: &[char], b: &[char]) -> (r: bool)
    ensures
        r == (a@ == b@),
{
    if a.len() != b.len() {
        return false;
    }
    let r = matches_at(a, b, 0);
    proof {
        if r {
            assert(a@.subrange(0, b@.len() as int) =~= a@);
        } else if a@ == b@ {
            assert(a@.subrange(0, b@.len() as int) =~= a@);
        }
    }
    r
}

/// Whether the two strings hold the same characters.
pub fn same_str(a: &str, b: &str) -> (r: bool)
    ensures
        r == (a@ == b@),
{
    let x = chars_of(a);
    let y = chars_of(b);
    same_chars(x.as_slice(), y.as_slice())
}

/// Whether `s` begins with `p`.
pub fn starts_with(s: &[char], p: &[char]) -> (r: bool)
    ensures
        r == has_prefix(s@, p@),
{
    matches_at(s, p, 0)
}

/// Whether `s` ends with `p`.
pub fn ends_with(s: &[char], p: &[char]) -> (r: bool)
    ensures
        r == has_suffix(s@, p@),
{
    if p.len() > s.len() {
        return false;
    }
    matches_at(s, p, s.len() - p.len())
}

/// Whether `p` stands somewhere in `s`.
pub fn contains(s: &[char], p: &[char]) -> (r: bool)
    ensures
        r == has_substring(s@, p@),
{
    if p.len() > s.len() {
        assert forall|i: int| !occurs_at(s@, p@, i) by {}
        return false;
    }
    let last: usize = s.len() - p.len();
    let mut i: usize = 0;
    while i < last
        invariant
            last == s.len() - p.len(),
            i <= last,
            forall|j: int| 0 <= j < i ==> !occurs_at(s@, p@, j),
        decreases last - i,
    {
        if matches_at(s, p, i) {
            return true;
        }
        i += 1;
    }
    let r = matches_at(s, p, last);
    assert(!r ==> forall|j: int| !occurs_at(s@, p@, j));
    r
}

/// Whether `c` is white space.
pub fn is_space_char(c: char) -> (r: bool)
    ensures
        r == is_space(c),
{
    let n: u32 = c as u32;
    (0x09 <= n && n <= 0x0d) || n == 0x20 || n == 0x85 || n == 0xa0 || n == 0x1680 || (0x2000 <= n
        && n <= 0x200a) || n == 0x2028 || n == 0x2029 || n == 0x202f || n == 0x205f || n == 0x3000
}

/// Splits `s` at every `sep`.
pub fn split_at_char(s: &[char], sep: char) -> (out: Vec<Vec<char>>)
    ensures
        rows(out@) == split(s@, sep),
        out.len() >= 1,
{
    let mut out: Vec<Vec<char>> = Vec::new();
    let mut start: usize = 0;
    let mut i: usize = 0;
    proof {
        assert(s@.subrange(0, s.len() as int) =~= s@);
        assert(rows(out@) + split(s@, sep) =~= split(s@, sep));
    }
    while i < s.len()
        invariant
            start <= i <= s.len(),
            forall|j: int| start <= j < i ==> s@[j] != sep,
            split(s@, sep) == rows(out@) + split(s@.subrange(start as int, s.len() as int), sep),
        decreases s.len() - i,
    {
        if s[i] == sep {
            let piece = slice_of(s, start, i);
            proof {
                let rest = s@.subrange(start as int, s.len() as int);
                assert forall|j: int| 0 <= j < i - start implies rest[j] != sep by {
                    assert(rest[j] == s@[start + j]);
                }
                lemma_first_index_is(rest, sep, i - start);
                assert(rest.subrange(0, i - start) =~= piece@);
                assert(rest.subrange(i - start + 1, rest.len() as int) =~= s@.subrange(
                    i + 1,
                    s.len() as int,
                ));
                assert(rows(out@).push(piece@) =~= rows(out@) + seq![piece@]);
            }
            let ghost before = rows(out@);
            out.push(piece);
            assert(rows(out@) =~= before.push(piece@));
            start = i + 1;
        }
        i += 1;
    }
    let piece = slice_of(s, start, s.len());
    proof {
        let rest = s@.subrange(start as int, s.len() as int);
        assert forall|j: int| 0 <= j < rest.len() implies rest[j] != sep by {
            assert(rest[j] == s@[start + j]);
        }
        lemma_first_index_is(rest, sep, rest.len() as int);
    }
    let ghost before = rows(out@);
    out.push(piece);
    assert(rows(out@) =~= before.push(piece@));
    out
}

/// Joins `parts` with `sep` between each two.
pub fn join_with(parts: &Vec<Vec<char>>, sep: &[char]) -> (out: Vec<char>)
    ensures
        out@ == join(rows(parts@), sep@),
{
    let mut out: Vec<char> = Vec::new();
    let mut i: usize = 0;
    while i < parts.len()
        invariant
            i <= parts.len(),
            out@ == join(rows(parts@).take(i as int), sep@),
        decreases parts.len() - i,
    {
        proof {
            let next = rows(parts@).take(i + 1);
            assert(next.drop_last() =~= rows(parts@).take(i as int));
            assert(next.last() == parts[i as int]@);
        }
        if i > 0 {
            push_all(&mut out, sep);
        }
        push_all(&mut out, parts[i].as_slice());
        i += 1;
    }
    assert(rows(parts@).take(parts.len() as int) =~= rows(parts@));
    out
}

/// `s` without leading and trailing white space.
pub fn trimmed(s: &[char]) -> (out: Vec<char>)
    ensures
        out@ == trim(s@),
{
    let mut a: usize = 0;
    while a < s.len() && is_space_char(s[a])
        invariant
            a <= s.len(),
            forall|j: int| 0 <= j < a ==> is_space(s@[j]),
        decreases s.len() - a,
    {
        a += 1;
    }
    let mut b: usize = s.len();
    while b > a && is_space_char(s[b - 1])
        invariant
            a <= b <= s.len(),
            forall|j: int| b <= j < s.len() ==> is_space(s@[j]),
        decreases b,
    {
        b -= 1;
    }
    proof {
        lemma_trim_start_from(s@, a as int);
        let t = s@.subrange(a as int, s.len() as int);
        assert forall|j: int| b - a <= j < t.len() implies is_space(t[j]) by {
            assert(t[j] == s@[a + j]);
        }
        if b > a {
            assert(t[b - a - 1] == s@[b - 1]);
        }
        lemma_trim_end_to(t, b - a);
        assert(t.subrange(0, b - a) =~= s@.subrange(a as int, b as int));
    }
    slice_of(s, a, b)
}

/// The maximal runs of characters of `s` that hold no white space.
pub fn split_words(s: &[char]) -> (out: Vec<Vec<char>>)
    ensures
        rows(out@) == words(s@),
{
    let mut out: Vec<Vec<char>> = Vec::new();
    let mut cur: Vec<char> = Vec::new();
    let mut i: usize = 0;
    proof {
        assert(s@.subrange(0, s.len() as int) =~= s@);
        assert(rows(out@) + words(s@) =~= words(s@));
    }
    while i < s.len()
        invariant
            i <= s.len(),
            words(s@) == rows(out@) + words_after(s@.subrange(i as int, s.len() as int), cur@),
        decreases s.len() - i,
    {
        let ghost rest = s@.subrange(i as int, s.len() as int);
        proof {
            assert(rest[0] == s@[i as int]);
            assert(rest.drop_first() =~= s@.subrange(i + 1, s.len() as int));
        }
        if is_space_char(s[i]) {
            if cur.len() > 0 {
                let ghost before = rows(out@);
                out.push(cur);
                assert(rows(out@) =~= before.push(cur@));
                assert(before.push(cur@) =~= before + seq![cur@]);
                cur = Vec::new();
            } else {
                assert(rows(out@) + Seq::<Seq<char>>::empty() =~= rows(out@));
            }
            assert(cur@ =~= Seq::<char>::empty());
        } else {
            cur.push(s[i]);
        }
        i += 1;
    }
    if cur.len() > 0 {
        let ghost before = rows(out@);
        out.push(cur);
        assert(rows(out@) =~= before.push(cur@));
        assert(before.push(cur@) =~= before + seq![cur@]);
    } else {
        assert(rows(out@) + Seq::<Seq<char>>::empty() =~= rows(out@));
    }
    out
}

/// `s` with every `c` replaced by `to`.
pub fn replace_each(s: &[char], c: char, to: &[char]) -> (out: Vec<char>)
    ensures
        out@ == replace_char(s@, c, to@),
{
    let mut out: Vec<char> = Vec::new();
    let mut i: usize = 0;
    while i < s.len()
        invariant
            i <= s.len(),
            out@ == replace_char(s@.take(i as int), c, to@),
        decreases s.len() - i,
    {
        proof {
            let next = s@.take(i + 1);
            assert(next.drop_last() =~= s@.take(i as int));
            assert(next.last() == s@[i as int]);
        }
        if s[i] == c {
            push_all(&mut out, to);
        } else {
            out.push(s[i]);
        }
        i += 1;
    }
    assert(s@.take(s.len() as int) =~= s@);
    out
}

/// `s` with every occurrence of `pat` replaced by `to`.
pub fn replace_all(s: &[char], pat: &[char], to: &[char]) -> (out: Vec<char>)
    ensures
        out@ == replace(s@, pat@, to@),
{
    let mut out: Vec<char> = Vec::new();
    let mut i: usize = 0;
    proof {
        assert(s@.subrange(0, s.len() as int) =~= s@);
        assert(out@ + replace(s@, pat@, to@) =~= replace(s@, pat@, to@));
    }
    while i < s.len()
        invariant
            i <= s.len(),
            replace(s@, pat@, to@) == out@ + replace(
                s@.subrange(i as int, s.len() as int),
                pat@,
                to@,
            ),
        decreases s.len() - i,
    {
        let ghost rest = s@.subrange(i as int, s.len() as int);
        let ghost done = out@;
        proof {
            assert(rest[0] == s@[i as int]);
            assert(rest.drop_first() =~= s@.subrange(i + 1, s.len() as int));
        }
        if pat.len() == 0 {
            push_all(&mut out, to);
            out.push(s[i]);
            assert(out@ + replace(rest.drop_first(), pat@, to@) =~= done + (to@ + seq![rest[0]]
                + replace(rest.drop_first(), pat@, to@)));
            i += 1;
        } else if matches_at(s, pat, i) {
            proof {
                assert(rest.subrange(0, pat@.len() as int) =~= s@.subrange(
                    i as int,
                    i + pat@.len(),
                ));
                assert(rest.subrange(pat@.len() as int, rest.len() as int) =~= s@.subrange(
                    i + pat@.len(),
                    s.len() as int,
                ));
            }
            push_all(&mut out, to);
            assert(out@ + replace(s@.subrange(i + pat@.len(), s.len() as int), pat@, to@) =~= done
                + (to@ + replace(s@.subrange(i + pat@.len(), s.len() as int), pat@, to@)));
            i += pat.len();
        } else {
            proof {
                if has_prefix(rest, pat@) {
                    assert(rest.subrange(0, pat@.len() as int) =~= s@.subrange(
                        i as int,
                        i + pat@.len(),
                    ));
                }
            }
            out.push(s[i]);
            assert(out@ + replace(rest.drop_first(), pat@, to@) =~= done + (seq![rest[0]]
                + replace(rest.drop_first(), pat@, to@)));
            i += 1;
        }
    }
    if pat.len() == 0 {
        push_all(&mut out, to);
    } else {
        assert(out@ + Seq::<char>::empty() =~= out@);
    }
    out
}

/// Whether `item` is one of `list`.
pub fn holds(list: &Vec<Vec<char>>, item: &[char]) -> (r: bool)
    ensures
        r == rows(list@).contains(item@),
{
    let mut i: usize = 0;
    while i < list.len()
        invariant
            i <= list.len(),
            forall|j: int| 0 <= j < i ==> rows(list@)[j] != item@,
        decreases list.len() - i,
    {
        if same_chars(list[i].as_slice(), item) {
            assert(rows(list@)[i as int] == item@);
            return true;
        }
        i += 1;
    }
    false
}

/// The strings that spell the rows of `list`.
pub fn strings_of(list: &Vec<Vec<char>>) -> (out: Vec<String>)
    ensures
        out.deep_view() == rows(list@),
{
    let mut out: Vec<String> = Vec::new();
    let mut i: usize = 0;
    while i < list.len()
        invariant
            i <= list.len(),
            out.deep_view() == rows(list@).take(i as int),
        decreases list.len() - i,
    {
        let text = string_of(list[i].as_slice());
        let ghost before = out.deep_view();
        out.push(text);
        assert(out.deep_view() =~= before.push(text@));
        i += 1;
        assert(out.deep_view() =~= rows(list@).take(i as int));
    }
    assert(rows(list@).take(list.len() as int) =~= rows(list@));
    out
}

/// The rows of characters that `list` spells.
pub fn rows_of(list: &Vec<String>) -> (out: Vec<Vec<char>>)
    ensures
        rows(out@) == list.deep_view(),
{
    let mut out: Vec<Vec<char>> = Vec::new();
    let mut i: usize = 0;
    while i < list.len()
        invariant
            i <= list.len(),
            rows(out@) == list.deep_view().take(i as int),
        decreases list.len() - i,
    {
        let row = chars_of(list[i].as_str());
        let ghost before = rows(out@);
        out.push(row);
        assert(rows(out@) =~= before.push(row@));
        i += 1;
        assert(rows(out@) =~= list.deep_view().take(i as int));
    }
    assert(list.deep_view().take(list.len() as int) =~= list.deep_view());
    out
}

/// Appends copies of the strings of `src` to `dst`.
pub fn append_strings(dst: &mut Vec<String>, src: &Vec<String>)
    ensures
        final(dst).deep_view() == old(dst).deep_view() + src.deep_view(),
{
    let mut i: usize = 0;
    assert(dst.deep_view() + src.deep_view().take(0) =~= dst.deep_view());
    while i < src.len()
        invariant
            i <= src.len(),
            dst.deep_view() == old(dst).deep_view() + src.deep_view().take(i as int),
        decreases src.len() - i,
    {
        let ghost before = dst.deep_view();
        let item = src[i].clone();
        dst.push(item);
        assert(dst.deep_view() =~= before.push(src[i as int]@));
        i += 1;
        assert(dst.deep_view() =~= old(dst).deep_view() + src.deep_view().take(i as int));
    }
    assert(src.deep_view().take(src.len() as int) =~= src.deep_view());
}

/// Appends one string to `dst`.
pub fn append_string(dst: &mut Vec<String>, item: String)
    ensures
        final(dst).deep_view() == old(dst).deep_view().push(item@),
{
    let ghost before = dst.deep_view();
    dst.push(item);
    assert(dst.deep_view() =~= before.push(item@));
}

} // verus!
