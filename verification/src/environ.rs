//! The process environment as an explicit value: an ordered list of variables
//! that the launcher reads, rewrites and at last hands to the target.

use vstd::prelude::*;
use crate::text::{
    append_string, chars_of, contains, has_prefix, has_substring, lemma_split_piece_is_substring,
    lemma_words_nonempty, occurs_at, push_all, rows, same_chars, split, split_at_char,
    split_words, starts_with, string_of, trim, trimmed, words,
};

verus! {

/// Mathematical content of an environment: names with their values, in the order
/// in which the variables were first set.
pub type EnvModel = Seq<(Seq<char>, Seq<char>)>;

/// One variable of the environment.
#[derive(Debug)]
struct EnvVar {
    name: String,
    value: String,
}

/// The environment that the launcher derives for its target.
#[derive(Debug)]
pub struct Environment {
    vars: Vec<EnvVar>,
}

impl View for Environment {
    type V = EnvModel;

    closed spec fn view(&self) -> EnvModel {
        Seq::new(self.vars@.len(), |i: int| (self.vars@[i].name@, self.vars@[i].value@))
    }
}

/// Position of the first variable called `name`, or the number of variables where
/// none is.
pub open spec fn position(env: EnvModel, name: Seq<char>) -> int
    decreases env.len(),
{
    if env.len() == 0 {
        0
    } else if env[0].0 == name {
        0
    } else {
        1 + position(env.drop_first(), name)
    }
}

/// Whether a variable called `name` is set.
pub open spec fn is_set(env: EnvModel, name: Seq<char>) -> bool {
    position(env, name) < env.len()
}

/// The value of `name`; a variable that is not set reads as empty.
pub open spec fn value_of(env: EnvModel, name: Seq<char>) -> Seq<char> {
    if is_set(env, name) {
        env[position(env, name)].1
    } else {
        Seq::empty()
    }
}

/// `env` after `name` is set to `value`: in place where it was set, at the end
/// where it was not.
pub open spec fn with_var(env: EnvModel, name: Seq<char>, value: Seq<char>) -> EnvModel {
    if is_set(env, name) {
        env.update(position(env, name), (name, value))
    } else {
        env.push((name, value))
    }
}

/// `env` after `name` is removed.
pub open spec fn without_var(env: EnvModel, name: Seq<char>) -> EnvModel {
    if is_set(env, name) {
        env.remove(position(env, name))
    } else {
        env
    }
}

/// `env` after `value` is put in front of the colon-joined list `name`: an empty
/// or unset variable becomes `value`; a list that holds `value` as a substring
/// stays as it is.
pub open spec fn prepended(env: EnvModel, name: Seq<char>, value: Seq<char>) -> EnvModel {
    let old = value_of(env, name);
    if old.len() == 0 {
        with_var(env, name, value)
    } else if !has_substring(old, value) {
        with_var(env, name, value + seq![':'] + old)
    } else {
        env
    }
}

/// No name occurs twice.
pub open spec fn distinct_names(env: EnvModel) -> bool {
    forall|i: int, j: int| 0 <= i < j < env.len() ==> env[i].0 != env[j].0
}

/// `env` after each name of `names` is removed, first to last.
pub open spec fn without_vars(env: EnvModel, names: Seq<Seq<char>>) -> EnvModel
    decreases names.len(),
{
    if names.len() == 0 {
        env
    } else {
        without_var(without_vars(env, names.drop_last()), names.last())
    }
}

/// `env` after every pair of `pairs` is set, first to last.
pub open spec fn assigned(env: EnvModel, pairs: EnvModel) -> EnvModel
    decreases pairs.len(),
{
    if pairs.len() == 0 {
        env
    } else {
        with_var(assigned(env, pairs.drop_last()), pairs.last().0, pairs.last().1)
    }
}

/// `env` after each of `values` is put in front of the list `name`, first to
/// last.
pub open spec fn prepended_all(env: EnvModel, name: Seq<char>, values: Seq<Seq<char>>) -> EnvModel
    decreases values.len(),
{
    if values.len() == 0 {
        env
    } else {
        prepended(prepended_all(env, name, values.drop_last()), name, values.last())
    }
}

/// The candidates that exist, in order. `exists` answers for each candidate in
/// turn; a candidate without an answer counts as missing.
pub open spec fn existing(candidates: Seq<Seq<char>>, exists: Seq<bool>) -> Seq<Seq<char>>
    decreases candidates.len(),
{
    if candidates.len() == 0 {
        Seq::empty()
    } else {
        let before = existing(candidates.drop_last(), exists);
        if candidates.len() <= exists.len() && exists[candidates.len() - 1] {
            before.push(candidates.last())
        } else {
            before
        }
    }
}

/// Putting `value` in front of the list `name` leaves `env` as it is.
pub open spec fn absorbs(env: EnvModel, name: Seq<char>, value: Seq<char>) -> bool {
    prepended(env, name, value) == env
}

/// The word that opens an unset directive, with the blank behind it.
pub open spec fn unset_keyword() -> Seq<char> {
    seq!['u', 'n', 's', 'e', 't', ' ']
}

/// The names that one line of a directive file asks to unset: the words after
/// `unset` where the line, trimmed, starts with `unset` and a blank.
pub open spec fn line_unsets(line: Seq<char>) -> Seq<Seq<char>> {
    let t = trim(line);
    if has_prefix(t, unset_keyword()) {
        words(t).drop_first()
    } else {
        Seq::empty()
    }
}

/// The names that `lines` ask to unset, in order.
pub open spec fn lines_unsets(lines: Seq<Seq<char>>) -> Seq<Seq<char>>
    decreases lines.len(),
{
    if lines.len() == 0 {
        Seq::empty()
    } else {
        lines_unsets(lines.drop_last()) + line_unsets(lines.last())
    }
}

/// The names that the text of a directive file asks to unset.
pub open spec fn unset_directives(data: Seq<char>) -> Seq<Seq<char>> {
    lines_unsets(split(trim(data), '\n'))
}

/// `env` after each pair of `pairs` whose name is not set yet is set, first to
/// last.
pub open spec fn defaulted(env: EnvModel, pairs: EnvModel) -> EnvModel
    decreases pairs.len(),
{
    if pairs.len() == 0 {
        env
    } else {
        let before = defaulted(env, pairs.drop_last());
        if is_set(before, pairs.last().0) {
            before
        } else {
            with_var(before, pairs.last().0, pairs.last().1)
        }
    }
}

/// What `position` returns is the first variable of that name.
pub proof fn lemma_position(env: EnvModel, name: Seq<char>)
    ensures
        0 <= position(env, name) <= env.len(),
        position(env, name) < env.len() ==> env[position(env, name)].0 == name,
        forall|j: int| 0 <= j < position(env, name) ==> env[j].0 != name,
    decreases env.len(),
{
    if env.len() > 0 && env[0].0 != name {
        let t = env.drop_first();
        lemma_position(t, name);
        assert forall|j: int| 0 <= j < position(env, name) implies env[j].0 != name by {
            if j > 0 {
                assert(env[j] == t[j - 1]);
            }
        }
    }
}

/// An index that holds `name` with no `name` before it is its position.
pub proof fn lemma_position_is(env: EnvModel, name: Seq<char>, k: int)
    requires
        0 <= k <= env.len(),
        k < env.len() ==> env[k].0 == name,
        forall|j: int| 0 <= j < k ==> env[j].0 != name,
    ensures
        position(env, name) == k,
{
    lemma_position(env, name);
}

/// Setting a variable keeps its position, and every other variable.
pub proof fn lemma_with_var(env: EnvModel, name: Seq<char>, value: Seq<char>)
    ensures
        position(with_var(env, name, value), name) == position(env, name),
        is_set(with_var(env, name, value), name),
        value_of(with_var(env, name, value), name) == value,
        distinct_names(env) ==> distinct_names(with_var(env, name, value)),
        forall|other: Seq<char>|
            other != name ==> position(with_var(env, name, value), other) == position(env, other)
                + (if is_set(env, other) || is_set(env, name) {
                    0int
                } else {
                    1int
                }),
{
    lemma_position(env, name);
    let after = with_var(env, name, value);
    lemma_position_is(after, name, position(env, name));
    assert forall|other: Seq<char>| other != name implies position(after, other) == position(
        env,
        other,
    ) + (if is_set(env, other) || is_set(env, name) {
        0int
    } else {
        1int
    }) by {
        lemma_position(env, other);
        let k = position(env, other);
        if is_set(env, other) || is_set(env, name) {
            lemma_position_is(after, other, k);
        } else {
            lemma_position_is(after, other, k + 1);
        }
    }
}

/// Setting a variable leaves the value of every other variable as it is.
pub proof fn lemma_with_var_keeps_others(
    env: EnvModel,
    name: Seq<char>,
    value: Seq<char>,
    other: Seq<char>,
)
    requires
        other != name,
    ensures
        is_set(with_var(env, name, value), other) == is_set(env, other),
        value_of(with_var(env, name, value), other) == value_of(env, other),
{
    lemma_with_var(env, name, value);
    lemma_position(env, other);
    lemma_position(env, name);
}

/// Putting values in front of a list leaves the value of every other variable
/// as it is.
pub proof fn lemma_prepended_all_keeps_others(
    env: EnvModel,
    name: Seq<char>,
    values: Seq<Seq<char>>,
    other: Seq<char>,
)
    requires
        other != name,
    ensures
        value_of(prepended_all(env, name, values), other) == value_of(env, other),
    decreases values.len(),
{
    if values.len() > 0 {
        let before = prepended_all(env, name, values.drop_last());
        lemma_prepended_all_keeps_others(env, name, values.drop_last(), other);
        let old = value_of(before, name);
        lemma_with_var_keeps_others(before, name, values.last(), other);
        lemma_with_var_keeps_others(before, name, values.last() + seq![':'] + old, other);
    }
}

/// Setting a variable to the same value twice is the same as setting it once.
pub proof fn lemma_with_var_idempotent(env: EnvModel, name: Seq<char>, value: Seq<char>)
    ensures
        with_var(with_var(env, name, value), name, value) == with_var(env, name, value),
{
    lemma_with_var(env, name, value);
    lemma_position(env, name);
    let once = with_var(env, name, value);
    assert(once[position(env, name)] == (name, value));
    assert(with_var(once, name, value) =~= once);
}

/// Removing a variable of an environment without repeated names unsets it.
pub proof fn lemma_without_var(env: EnvModel, name: Seq<char>)
    requires
        distinct_names(env),
    ensures
        !is_set(without_var(env, name), name),
        value_of(without_var(env, name), name) == Seq::<char>::empty(),
        distinct_names(without_var(env, name)),
{
    lemma_position(env, name);
    let after = without_var(env, name);
    let k = position(env, name);
    if k < env.len() {
        assert forall|j: int| 0 <= j < after.len() implies after[j].0 != name by {
            if j < k {
                assert(after[j] == env[j]);
            } else {
                assert(after[j] == env[j + 1]);
            }
        }
        lemma_position_is(after, name, after.len() as int);
        assert forall|i: int, j: int| 0 <= i < j < after.len() implies after[i].0 != after[j].0 by {
            let a = if i < k { i } else { i + 1 };
            let b = if j < k { j } else { j + 1 };
            assert(after[i] == env[a]);
            assert(after[j] == env[b]);
        }
    }
}

/// Putting the same value in front of a list twice is the same as doing it once.
pub proof fn lemma_prepend_idempotent(env: EnvModel, name: Seq<char>, value: Seq<char>)
    ensures
        prepended(prepended(env, name, value), name, value) == prepended(env, name, value),
{
    let old = value_of(env, name);
    let once = prepended(env, name, value);
    if old.len() == 0 {
        lemma_with_var(env, name, value);
        if value.len() == 0 {
            lemma_position(env, name);
            assert(once[position(env, name)] == (name, value));
            assert(with_var(once, name, value) =~= once);
        } else {
            assert(value.subrange(0, value.len() as int) =~= value);
            assert(occurs_at(value, value, 0));
        }
    } else if !has_substring(old, value) {
        let list = value + seq![':'] + old;
        lemma_with_var(env, name, list);
        assert(list.subrange(0, value.len() as int) =~= value);
        assert(occurs_at(list, value, 0));
    }
}

/// A value that already is a segment of a non-empty colon-joined list is not put
/// in front of it again: the environment stays as it is.
pub proof fn lemma_prepend_keeps_present_segment(
    env: EnvModel,
    name: Seq<char>,
    value: Seq<char>,
    k: int,
)
    requires
        value_of(env, name).len() > 0,
        0 <= k < split(value_of(env, name), ':').len(),
        split(value_of(env, name), ':')[k] == value,
    ensures
        prepended(env, name, value) == env,
{
    lemma_split_piece_is_substring(value_of(env, name), ':', k);
}

/// What a list has absorbed it keeps when something else is put in front of it.
pub proof fn lemma_absorbs_stays(env: EnvModel, name: Seq<char>, value: Seq<char>, other: Seq<char>)
    requires
        absorbs(env, name, other),
    ensures
        absorbs(prepended(env, name, value), name, other),
{
    let old = value_of(env, name);
    let after = prepended(env, name, value);
    if after != env {
        if old.len() == 0 {
            lemma_with_var(env, name, other);
            lemma_with_var(env, name, value);
            assert(other == old);
            assert(value_of(after, name) == value);
            if value.len() == 0 {
                assert(value =~= other);
                lemma_with_var_idempotent(env, name, value);
            } else {
                assert(value.subrange(0, 0) =~= other);
                assert(occurs_at(value, other, 0));
            }
        } else {
            let list = value + seq![':'] + old;
            lemma_with_var(env, name, list);
            assert(value_of(after, name) == list);
            if !has_substring(old, other) {
                let longer = other + seq![':'] + old;
                lemma_with_var(env, name, longer);
                assert(longer.len() == other.len() + 1 + old.len());
                assert(false);
            }
            let at = choose|at: int| occurs_at(old, other, at);
            assert(list.subrange(value.len() + 1 + at, value.len() + 1 + at + other.len())
                =~= old.subrange(at, at + other.len()));
            assert(occurs_at(list, other, value.len() + 1 + at));
        }
    }
}

/// A list has absorbed every value that was put in front of it.
pub proof fn lemma_prepended_all_absorbs(
    env: EnvModel,
    name: Seq<char>,
    values: Seq<Seq<char>>,
    k: int,
)
    requires
        0 <= k < values.len(),
    ensures
        absorbs(prepended_all(env, name, values), name, values[k]),
    decreases values.len(),
{
    let before = prepended_all(env, name, values.drop_last());
    if k == values.len() - 1 {
        lemma_prepend_idempotent(before, name, values.last());
    } else {
        lemma_prepended_all_absorbs(env, name, values.drop_last(), k);
        lemma_absorbs_stays(before, name, values.last(), values[k]);
    }
}

/// Putting values that a list has absorbed in front of it changes nothing.
pub proof fn lemma_prepended_all_absorbed(env: EnvModel, name: Seq<char>, values: Seq<Seq<char>>)
    requires
        forall|k: int| 0 <= k < values.len() ==> absorbs(env, name, #[trigger] values[k]),
    ensures
        prepended_all(env, name, values) == env,
    decreases values.len(),
{
    if values.len() > 0 {
        let head = values.drop_last();
        assert forall|k: int| 0 <= k < head.len() implies absorbs(
            env,
            name,
            #[trigger] head[k],
        ) by {
            assert(head[k] == values[k]);
        }
        lemma_prepended_all_absorbed(env, name, head);
        assert(absorbs(env, name, values[values.len() - 1]));
    }
}

/// Putting the same values in front of a list twice is the same as doing it
/// once.
pub proof fn lemma_prepended_all_idempotent(env: EnvModel, name: Seq<char>, values: Seq<Seq<char>>)
    ensures
        prepended_all(prepended_all(env, name, values), name, values) == prepended_all(
            env,
            name,
            values,
        ),
{
    let once = prepended_all(env, name, values);
    assert forall|k: int| 0 <= k < values.len() implies absorbs(
        once,
        name,
        #[trigger] values[k],
    ) by {
        lemma_prepended_all_absorbs(env, name, values, k);
    }
    lemma_prepended_all_absorbed(once, name, values);
}

impl Environment {
    /// Whether no name occurs twice. Every environment built by `new` and the
    /// methods of this type is of this kind.
    pub open spec fn wf(&self) -> bool {
        distinct_names(self@)
    }

    /// The empty environment.
    pub fn new() -> (env: Self)
        ensures
            env@ == Seq::<(Seq<char>, Seq<char>)>::empty(),
            env.wf(),
    {
        let env = Environment { vars: Vec::new() };
        assert(env@ =~= Seq::<(Seq<char>, Seq<char>)>::empty());
        env
    }

    /// The number of variables.
    pub fn len(&self) -> (n: usize)
        ensures
            n == self@.len(),
    {
        self.vars.len()
    }

    /// Name and value of the variable at `index`.
    pub fn entry(&self, index: usize) -> (r: Option<(String, String)>)
        ensures
            r.deep_view() == if index < self@.len() {
                Some(self@[index as int])
            } else {
                None
            },
    {
        if index < self.vars.len() {
            Some((self.vars[index].name.clone(), self.vars[index].value.clone()))
        } else {
            None
        }
    }

    /// Position of the variable called `name`.
    fn find(&self, name: &str) -> (k: usize)
        ensures
            k == position(self@, name@),
            k <= self.vars.len(),
    {
        let wanted = chars_of(name);
        let mut i: usize = 0;
        while i < self.vars.len()
            invariant
                i <= self.vars.len(),
                wanted@ == name@,
                forall|j: int| 0 <= j < i ==> self@[j].0 != name@,
            decreases self.vars.len() - i,
        {
            let have = chars_of(self.vars[i].name.as_str());
            if same_chars(have.as_slice(), wanted.as_slice()) {
                proof {
                    lemma_position_is(self@, name@, i as int);
                }
                return i;
            }
            i += 1;
        }
        proof {
            lemma_position_is(self@, name@, i as int);
        }
        i
    }

    /// Whether `name` is set.
    pub fn contains_var(&self, name: &str) -> (r: bool)
        ensures
            r == is_set(self@, name@),
    {
        self.find(name) < self.vars.len()
    }

    /// The value of `name`, empty where it is not set.
    pub fn get(&self, name: &str) -> (value: String)
        ensures
            value@ == value_of(self@, name@),
    {
        let k = self.find(name);
        if k < self.vars.len() {
            self.vars[k].value.clone()
        } else {
            String::new()
        }
    }

    /// Sets `name` to `value`.
    pub fn set(&mut self, name: &str, value: &str)
        ensures
            final(self)@ == with_var(old(self)@, name@, value@),
            old(self).wf() ==> final(self).wf(),
    {
        proof {
            lemma_with_var(self@, name@, value@);
        }
        let k = self.find(name);
        let var = EnvVar { name: name.to_owned(), value: value.to_owned() };
        if k < self.vars.len() {
            self.vars.set(k, var);
            assert(self@ =~= with_var(old(self)@, name@, value@));
        } else {
            self.vars.push(var);
            assert(self@ =~= with_var(old(self)@, name@, value@));
        }
    }

    /// Removes `name`.
    pub fn remove(&mut self, name: &str)
        ensures
            final(self)@ == without_var(old(self)@, name@),
            old(self).wf() ==> final(self).wf(),
    {
        proof {
            if self.wf() {
                lemma_without_var(self@, name@);
            }
        }
        let k = self.find(name);
        if k < self.vars.len() {
            self.vars.remove(k);
            assert(self@ =~= without_var(old(self)@, name@));
        }
    }

    /// The variables as `NAME=value` strings, in order.
    pub fn to_vector(&self) -> (out: Vec<String>)
        ensures
            out.deep_view() == self@.map_values(|v: (Seq<char>, Seq<char>)| v.0 + seq!['='] + v.1),
    {
        let mut out: Vec<String> = Vec::new();
        let mut i: usize = 0;
        while i < self.vars.len()
            invariant
                i <= self.vars.len(),
                out.deep_view() == self@.map_values(
                    |v: (Seq<char>, Seq<char>)| v.0 + seq!['='] + v.1,
                ).take(i as int),
            decreases self.vars.len() - i,
        {
            let mut line = chars_of(self.vars[i].name.as_str());
            line.push('=');
            let value = chars_of(self.vars[i].value.as_str());
            push_all(&mut line, value.as_slice());
            let text = string_of(line.as_slice());
            let ghost before = out.deep_view();
            out.push(text);
            assert(out.deep_view() =~= before.push(text@));
            assert(text@ =~= self@[i as int].0 + seq!['='] + self@[i as int].1);
            i += 1;
            assert(out.deep_view() =~= self@.map_values(
                |v: (Seq<char>, Seq<char>)| v.0 + seq!['='] + v.1,
            ).take(i as int));
        }
        assert(self@.map_values(|v: (Seq<char>, Seq<char>)| v.0 + seq!['='] + v.1).take(
            self.vars.len() as int,
        ) =~= self@.map_values(|v: (Seq<char>, Seq<char>)| v.0 + seq!['='] + v.1));
        out
    }
}

/// The value of `key` in `env`, empty where it is not set.
pub fn get_env_var(env: &Environment, key: &str) -> (value: String)
    ensures
        value@ == value_of(env@, key@),
{
    env.get(key)
}

/// Puts `val` in front of the colon-joined list `key`, unless the list already
/// holds it.
pub fn add_to_env(env: &mut Environment, key: &str, val: &str)
    ensures
        final(env)@ == prepended(old(env)@, key@, val@),
{
    let old_val = chars_of(env.get(key).as_str());
    if old_val.len() == 0 {
        env.set(key, val);
    } else {
        let new_val = chars_of(val);
        if !contains(old_val.as_slice(), new_val.as_slice()) {
            let mut list = new_val;
            list.push(':');
            push_all(&mut list, old_val.as_slice());
            let text = string_of(list.as_slice());
            assert(text@ =~= val@ + seq![':'] + old_val@);
            env.set(key, text.as_str());
        }
    }
}

/// Removes every variable that `names` lists.
pub fn unset_all(env: &mut Environment, names: &Vec<String>)
    ensures
        final(env)@ == without_vars(old(env)@, names.deep_view()),
{
    let mut i: usize = 0;
    while i < names.len()
        invariant
            i <= names.len(),
            env@ == without_vars(old(env)@, names.deep_view().take(i as int)),
        decreases names.len() - i,
    {
        proof {
            let next = names.deep_view().take(i + 1);
            assert(next.drop_last() =~= names.deep_view().take(i as int));
            assert(next.last() == names[i as int]@);
        }
        env.remove(names[i].as_str());
        i += 1;
    }
    assert(names.deep_view().take(names.len() as int) =~= names.deep_view());
}

/// The environment in which each pair of `pairs` was set in turn; a later pair
/// of the same name replaces the value of an earlier one.
pub fn from_pairs(pairs: &Vec<(String, String)>) -> (env: Environment)
    ensures
        env@ == assigned(Seq::empty(), pairs.deep_view()),
        env.wf(),
{
    let mut env = Environment::new();
    let mut i: usize = 0;
    while i < pairs.len()
        invariant
            i <= pairs.len(),
            env.wf(),
            env@ == assigned(Seq::empty(), pairs.deep_view().take(i as int)),
        decreases pairs.len() - i,
    {
        proof {
            let next = pairs.deep_view().take(i + 1);
            assert(next.drop_last() =~= pairs.deep_view().take(i as int));
            assert(next.last() == (pairs[i as int].0@, pairs[i as int].1@));
        }
        env.set(pairs[i].0.as_str(), pairs[i].1.as_str());
        i += 1;
    }
    assert(pairs.deep_view().take(pairs.len() as int) =~= pairs.deep_view());
    env
}

/// The candidates that exist, in order.
pub fn existing_places(candidates: &Vec<String>, exists: &Vec<bool>) -> (out: Vec<String>)
    ensures
        out.deep_view() == existing(candidates.deep_view(), exists@),
{
    let mut out: Vec<String> = Vec::new();
    let mut i: usize = 0;
    while i < candidates.len()
        invariant
            i <= candidates.len(),
            out.deep_view() == existing(candidates.deep_view().take(i as int), exists@),
        decreases candidates.len() - i,
    {
        proof {
            let next = candidates.deep_view().take(i + 1);
            assert(next.drop_last() =~= candidates.deep_view().take(i as int));
            assert(next.last() == candidates[i as int]@);
        }
        if i < exists.len() && exists[i] {
            append_string(&mut out, candidates[i].clone());
        }
        i += 1;
    }
    assert(candidates.deep_view().take(candidates.len() as int) =~= candidates.deep_view());
    out
}

/// Puts each of `values` in front of the list `name`, first to last.
pub fn add_all_to_env(env: &mut Environment, name: &str, values: &Vec<String>)
    ensures
        final(env)@ == prepended_all(old(env)@, name@, values.deep_view()),
{
    let mut i: usize = 0;
    while i < values.len()
        invariant
            i <= values.len(),
            env@ == prepended_all(old(env)@, name@, values.deep_view().take(i as int)),
        decreases values.len() - i,
    {
        proof {
            let next = values.deep_view().take(i + 1);
            assert(next.drop_last() =~= values.deep_view().take(i as int));
            assert(next.last() == values[i as int]@);
        }
        add_to_env(env, name, values[i].as_str());
        i += 1;
    }
    assert(values.deep_view().take(values.len() as int) =~= values.deep_view());
}

/// Reads the unset directives out of the text of a bundle's `.env` file.
pub fn read_dotenv(data: &str) -> (unset_envs: Vec<String>)
    ensures
        unset_envs.deep_view() == unset_directives(data@),
{
    let mut unset_envs: Vec<String> = Vec::new();
    let text = chars_of(data);
    let body = trimmed(text.as_slice());
    let lines = split_at_char(body.as_slice(), '\n');
    let mut keyword: Vec<char> = Vec::new();
    keyword.push('u');
    keyword.push('n');
    keyword.push('s');
    keyword.push('e');
    keyword.push('t');
    keyword.push(' ');
    assert(keyword@ =~= unset_keyword());
    let mut i: usize = 0;
    while i < lines.len()
        invariant
            i <= lines.len(),
            keyword@ == unset_keyword(),
            unset_envs.deep_view() == lines_unsets(rows(lines@).take(i as int)),
        decreases lines.len() - i,
    {
        proof {
            let next = rows(lines@).take(i + 1);
            assert(next.drop_last() =~= rows(lines@).take(i as int));
            assert(next.last() == lines[i as int]@);
        }
        let line = trimmed(lines[i].as_slice());
        if starts_with(line.as_slice(), keyword.as_slice()) {
            let names = split_words(line.as_slice());
            proof {
                assert(line@[0] == unset_keyword()[0]) by {
                    assert(line@.subrange(0, 6)[0] == line@[0]);
                }
                lemma_words_nonempty(line@);
            }
            let ghost start = unset_envs.deep_view();
            let mut k: usize = 1;
            assert(start + rows(names@).subrange(1, 1) =~= start);
            while k < names.len()
                invariant
                    1 <= k <= names.len(),
                    unset_envs.deep_view() == start + rows(names@).subrange(1, k as int),
                decreases names.len() - k,
            {
                let name = string_of(names[k].as_slice());
                let ghost before = unset_envs.deep_view();
                unset_envs.push(name);
                assert(unset_envs.deep_view() =~= before.push(name@));
                k += 1;
                assert(unset_envs.deep_view() =~= start + rows(names@).subrange(1, k as int));
            }
            assert(rows(names@).subrange(1, names.len() as int) =~= rows(names@).drop_first());
        } else {
            assert(unset_envs.deep_view() + Seq::<Seq<char>>::empty() =~= unset_envs.deep_view());
        }
        i += 1;
    }
    assert(rows(lines@).take(lines.len() as int) =~= rows(lines@));
    unset_envs
}

/// Sets each variable of `pairs` that is not set yet. What is set stays as it
/// is, also where an earlier pair of the list has set it.
pub fn add_defaults(env: &mut Environment, pairs: &Vec<(String, String)>)
    ensures
        final(env)@ == defaulted(old(env)@, pairs.deep_view()),
        old(env).wf() ==> final(env).wf(),
{
    let mut i: usize = 0;
    while i < pairs.len()
        invariant
            i <= pairs.len(),
            old(env).wf() ==> env.wf(),
            env@ == defaulted(old(env)@, pairs.deep_view().take(i as int)),
        decreases pairs.len() - i,
    {
        proof {
            let next = pairs.deep_view().take(i + 1);
            assert(next.drop_last() =~= pairs.deep_view().take(i as int));
            assert(next.last() == (pairs[i as int].0@, pairs[i as int].1@));
        }
        if !env.contains_var(pairs[i].0.as_str()) {
            env.set(pairs[i].0.as_str(), pairs[i].1.as_str());
        }
        i += 1;
    }
    assert(pairs.deep_view().take(pairs.len() as int) =~= pairs.deep_view());
}

/// The search path for programs: what `PATH` holds, where it is set.
pub fn search_path_var(env: &Environment) -> (r: Option<String>)
    ensures
        r.deep_view() == if is_set(env@, "PATH"@) {
            Some(value_of(env@, "PATH"@))
        } else {
            None
        },
{
    if env.contains_var("PATH") {
        Some(env.get("PATH"))
    } else {
        None
    }
}

} // verus!
