//! The environment derivation engine: a table of rules, each of which says
//! what a directory of a given name means for one environment variable, and
//! the interpreter that turns the rules into steps and the steps into changes of
//! the environment.
//!
//! A rule speaks of places relative to the bundle. The engine resolves them to
//! paths, and leaves it to its caller to look at the disk: the caller answers
//! the probes of a step and, where a step wants a file found, hands in the walk
//! of the tree.

use vstd::prelude::*;
use crate::datadirs::{
    add_driver_files, add_to_xdg_data_env, driver_files, reversed_dirs, with_driver_files,
    xdg_candidates, xdg_data_candidates,
};
use crate::environ::{
    add_to_env, existing, lemma_prepend_idempotent, lemma_prepended_all_idempotent,
    lemma_prepended_all_keeps_others, lemma_with_var_idempotent, prepended, prepended_all,
    value_of, with_var, EnvModel, Environment,
};
use crate::paths::{below, is_exe, is_executable, path_below, FileStat};
use crate::text::{
    append_string, chars_of, has_prefix, replace, replace_all, same_str, starts_with, string_of,
};

verus! {

/// What a probe asks of a path.
#[derive(Clone, Copy, Debug, PartialEq, Eq, Structural)]
pub enum ProbeKind {
    /// The path exists.
    Exists,
    /// The path does not exist.
    Missing,
    /// The path cannot be written.
    ReadOnly,
    /// The path is a regular file that may be executed.
    Executable,
}

/// What a rule's text stands for.
#[derive(Clone, Copy, Debug, PartialEq, Eq, Structural)]
pub enum Place {
    /// The text itself.
    Literal,
    /// The root of the bundle.
    Root,
    /// The directory that the rule matched.
    Dir,
    /// The entry called by the text inside the matched directory.
    Below,
    /// The entry called by the text inside the bundle's `bin` directory.
    InBin,
    /// The directory beside the matched one whose name has the text wherever
    /// the matched name has the name of the rule.
    Sibling,
    /// The first regular file called by the text in the tree below the matched
    /// directory.
    FileBelow,
    /// The first directory called by the text in the tree below the matched
    /// directory.
    DirBelow,
}

/// How a step changes its variable.
#[derive(Clone, Copy, Debug, PartialEq, Eq, Structural)]
pub enum Change {
    /// The variable becomes the value.
    Assign,
    /// The value is put in front of the colon-joined list, if it is not in it.
    Prepend,
    /// Each existing copy of the value below the data directories is put in
    /// front of the list.
    PrependData,
    /// As `PrependData`, but host directories contribute only what the bundle
    /// is allowed to see of them.
    PrependDrivers,
}

/// What a step looks for in a tree.
#[derive(Clone, Copy, Debug, PartialEq, Eq, Structural)]
pub enum Locate {
    /// Nothing: the value is a path.
    Nothing,
    /// A regular file.
    File,
    /// A directory.
    Directory,
}

/// One condition of a rule.
#[derive(Debug)]
pub struct Check {
    pub kind: ProbeKind,
    pub place: Place,
    pub text: String,
}

impl DeepView for Check {
    type V = (ProbeKind, Place, Seq<char>);

    open spec fn deep_view(&self) -> (ProbeKind, Place, Seq<char>) {
        (self.kind, self.place, self.text@)
    }
}

/// One rule of the table.
#[derive(Debug)]
pub struct Rule {
    /// The directory name that the rule is for.
    pub name: String,
    /// `name` is only the start of the directory names that the rule is for.
    pub prefix: bool,
    /// What must hold for the rule to apply.
    pub checks: Vec<Check>,
    /// How the variable changes.
    pub change: Change,
    /// The variable.
    pub var: String,
    /// Where the value comes from.
    pub place: Place,
    /// The text that `place` speaks of.
    pub text: String,
}

/// Mathematical content of a `Rule`.
pub struct RuleModel {
    pub name: Seq<char>,
    pub prefix: bool,
    pub checks: Seq<(ProbeKind, Place, Seq<char>)>,
    pub change: Change,
    pub var: Seq<char>,
    pub place: Place,
    pub text: Seq<char>,
}

impl DeepView for Rule {
    type V = RuleModel;

    open spec fn deep_view(&self) -> RuleModel {
        RuleModel {
            name: self.name@,
            prefix: self.prefix,
            checks: self.checks.deep_view(),
            change: self.change,
            var: self.var@,
            place: self.place,
            text: self.text@,
        }
    }
}

/// One question to the disk.
#[derive(Debug)]
pub struct Probe {
    pub kind: ProbeKind,
    pub path: String,
}

impl DeepView for Probe {
    type V = (ProbeKind, Seq<char>);

    open spec fn deep_view(&self) -> (ProbeKind, Seq<char>) {
        (self.kind, self.path@)
    }
}

/// A rule applied to one directory: what to ask the disk, and what to do to
/// the environment where every probe holds.
#[derive(Debug)]
pub struct Step {
    /// The questions that must all be answered with yes.
    pub probes: Vec<Probe>,
    /// How the variable changes.
    pub change: Change,
    /// The variable.
    pub var: String,
    /// What to look for in the tree below `value`, if anything.
    pub locate: Locate,
    /// The value, or the root of the tree to search.
    pub value: String,
    /// The name to look for in the tree.
    pub name: String,
}

/// Mathematical content of a `Step`.
pub struct StepModel {
    pub probes: Seq<(ProbeKind, Seq<char>)>,
    pub change: Change,
    pub var: Seq<char>,
    pub locate: Locate,
    pub value: Seq<char>,
    pub name: Seq<char>,
}

impl DeepView for Step {
    type V = StepModel;

    open spec fn deep_view(&self) -> StepModel {
        StepModel {
            probes: self.probes.deep_view(),
            change: self.change,
            var: self.var@,
            locate: self.locate,
            value: self.value@,
            name: self.name@,
        }
    }
}

/// Where the directories that the rules speak of lie.
#[derive(Debug)]
pub struct Bundle {
    /// The root of the bundle.
    pub root: String,
    /// Its `bin` directory.
    pub bin_dir: String,
    /// The directory whose entries the rules are applied to.
    pub base: String,
}

/// Mathematical content of a `Bundle`.
pub struct BundleModel {
    pub root: Seq<char>,
    pub bin_dir: Seq<char>,
    pub base: Seq<char>,
}

impl DeepView for Bundle {
    type V = BundleModel;

    open spec fn deep_view(&self) -> BundleModel {
        BundleModel { root: self.root@, bin_dir: self.bin_dir@, base: self.base@ }
    }
}

/// One entry of the walk of a tree.
#[derive(Debug)]
pub struct TreeEntry {
    /// The entry's path.
    pub path: String,
    /// The entry's own name.
    pub file_name: String,
    /// The entry is a regular file.
    pub is_file: bool,
    /// The entry is a directory.
    pub is_dir: bool,
}

/// Mathematical content of a `TreeEntry`.
pub struct TreeEntryModel {
    pub path: Seq<char>,
    pub file_name: Seq<char>,
    pub is_file: bool,
    pub is_dir: bool,
}

impl DeepView for TreeEntry {
    type V = TreeEntryModel;

    open spec fn deep_view(&self) -> TreeEntryModel {
        TreeEntryModel {
            path: self.path@,
            file_name: self.file_name@,
            is_file: self.is_file,
            is_dir: self.is_dir,
        }
    }
}

/// What the disk says of one path.
#[derive(Clone, Copy, Debug)]
pub struct PathFacts {
    /// The metadata of what the path leads to; `None` where it leads nowhere.
    pub stat: Option<FileStat>,
    /// The path can be written.
    pub writable: bool,
}

/// What the disk answered to one step.
#[derive(Debug)]
pub struct Answer {
    /// What the disk says of the path of each probe of the step, in turn.
    pub probes: Vec<PathFacts>,
    /// For a step that looks for something: the walk of the tree below the
    /// step's value.
    pub walk: Vec<TreeEntry>,
    /// For a step that works on the data directories: whether the step's value
    /// exists below each of them, last directory first.
    pub exists: Vec<bool>,
    /// For the step for driver manifests: what lies at the step's value below
    /// each data directory, last directory first.
    pub listings: Vec<Vec<TreeEntry>>,
}

/// Mathematical content of an `Answer`.
pub struct AnswerModel {
    pub probes: Seq<PathFacts>,
    pub walk: Seq<TreeEntryModel>,
    pub exists: Seq<bool>,
    pub listings: Seq<Seq<TreeEntryModel>>,
}

impl DeepView for Answer {
    type V = AnswerModel;

    open spec fn deep_view(&self) -> AnswerModel {
        AnswerModel {
            probes: self.probes@,
            walk: self.walk.deep_view(),
            exists: self.exists@,
            listings: self.listings.deep_view(),
        }
    }
}

/// The data directories that steps on them work with.
#[derive(Debug)]
pub struct DataDirs {
    /// The colon-joined list of data directories.
    pub list: String,
    /// The bundle's own data directory.
    pub share_dir: String,
}

/// Mathematical content of a `DataDirs`.
pub struct DataDirsModel {
    pub list: Seq<char>,
    pub share_dir: Seq<char>,
}

impl DeepView for DataDirs {
    type V = DataDirsModel;

    open spec fn deep_view(&self) -> DataDirsModel {
        DataDirsModel { list: self.list@, share_dir: self.share_dir@ }
    }
}

/// What is still to be asked of the disk for a step, once its probes are
/// answered.
#[derive(Debug)]
pub struct Questions {
    /// The root of the tree to walk, for a step that looks for something.
    pub walk: Option<String>,
    /// The places of which to ask whether they exist, for a step that works on
    /// the data directories: its value below each of them, last directory
    /// first.
    pub places: Vec<String>,
    /// What each of the places holds is to be listed as well.
    pub list_places: bool,
}

/// Mathematical content of a `Questions`.
pub struct QuestionsModel {
    pub walk: Option<Seq<char>>,
    pub places: Seq<Seq<char>>,
    pub list_places: bool,
}

impl DeepView for Questions {
    type V = QuestionsModel;

    open spec fn deep_view(&self) -> QuestionsModel {
        QuestionsModel {
            walk: self.walk.deep_view(),
            places: self.places.deep_view(),
            list_places: self.list_places,
        }
    }
}

/// Whether the rule is for a directory called `dir`.
pub open spec fn rule_matches(rule: RuleModel, dir: Seq<char>) -> bool {
    if rule.prefix {
        has_prefix(dir, rule.name)
    } else {
        dir == rule.name
    }
}

/// The path that `place` and `text` stand for when a rule for `name` is applied
/// to the directory `dir` of the bundle. For a place that is found by a search,
/// this is where the search starts.
pub open spec fn place_path(
    place: Place,
    text: Seq<char>,
    name: Seq<char>,
    dir: Seq<char>,
    bundle: BundleModel,
) -> Seq<char> {
    match place {
        Place::Literal => text,
        Place::Root => bundle.root,
        Place::Dir => below(bundle.base, dir),
        Place::Below => below(below(bundle.base, dir), text),
        Place::InBin => below(bundle.bin_dir, text),
        Place::Sibling => below(bundle.base, replace(dir, name, text)),
        Place::FileBelow => below(bundle.base, dir),
        Place::DirBelow => below(bundle.base, dir),
    }
}

/// What a place asks to be found.
pub open spec fn place_locate(place: Place) -> Locate {
    match place {
        Place::FileBelow => Locate::File,
        Place::DirBelow => Locate::Directory,
        _ => Locate::Nothing,
    }
}

/// The step that `rule` gives for the directory `dir`.
pub open spec fn step_of(rule: RuleModel, dir: Seq<char>, bundle: BundleModel) -> StepModel {
    StepModel {
        probes: Seq::new(
            rule.checks.len(),
            |i: int|
                (
                    rule.checks[i].0,
                    place_path(rule.checks[i].1, rule.checks[i].2, rule.name, dir, bundle),
                ),
        ),
        change: rule.change,
        var: rule.var,
        locate: place_locate(rule.place),
        value: place_path(rule.place, rule.text, rule.name, dir, bundle),
        name: rule.text,
    }
}

/// The steps that the rules of `table` give for the directory `dir`, in the order
/// of the table.
pub open spec fn steps_for(table: Seq<RuleModel>, dir: Seq<char>, bundle: BundleModel) -> Seq<
    StepModel,
>
    decreases table.len(),
{
    if table.len() == 0 {
        Seq::empty()
    } else {
        let before = steps_for(table.drop_last(), dir, bundle);
        if rule_matches(table.last(), dir) {
            before.push(step_of(table.last(), dir, bundle))
        } else {
            before
        }
    }
}

/// Whether the entry is what is looked for.
pub open spec fn is_wanted(entry: TreeEntryModel, name: Seq<char>, locate: Locate) -> bool {
    entry.file_name == name && match locate {
        Locate::Nothing => false,
        Locate::File => entry.is_file,
        Locate::Directory => entry.is_dir,
    }
}

/// The path of the first entry of the walk from position `from` on that is what
/// is looked for.
pub open spec fn located_from(
    entries: Seq<TreeEntryModel>,
    name: Seq<char>,
    locate: Locate,
    from: int,
) -> Option<Seq<char>>
    decreases entries.len() - from,
{
    if from < 0 || from >= entries.len() {
        None
    } else if is_wanted(entries[from], name, locate) {
        Some(entries[from].path)
    } else {
        located_from(entries, name, locate, from + 1)
    }
}

/// The path of the first entry of the walk that is what is looked for.
pub open spec fn located(entries: Seq<TreeEntryModel>, name: Seq<char>, locate: Locate) -> Option<
    Seq<char>,
> {
    located_from(entries, name, locate, 0)
}

/// Whether a probe of this kind holds of a path of which the disk says `facts`.
pub open spec fn probe_holds(kind: ProbeKind, facts: PathFacts) -> bool {
    match kind {
        ProbeKind::Exists => facts.stat is Some,
        ProbeKind::Missing => facts.stat is None,
        ProbeKind::ReadOnly => !facts.writable,
        ProbeKind::Executable => is_executable(facts.stat),
    }
}

/// Whether every probe holds. `facts` answers for each probe in turn; a probe
/// without an answer does not hold.
pub open spec fn probes_hold(probes: Seq<(ProbeKind, Seq<char>)>, facts: Seq<PathFacts>) -> bool {
    probes.len() <= facts.len() && forall|i: int|
        0 <= i < probes.len() ==> probe_holds(#[trigger] probes[i].0, facts[i])
}

/// The value that a step gives to its variable: its path or, for a step that
/// looks for something, the first entry of the walk of its tree that is what is
/// looked for.
pub open spec fn step_value(step: StepModel, walk: Seq<TreeEntryModel>) -> Option<Seq<char>> {
    match step.locate {
        Locate::Nothing => Some(step.value),
        _ => located(walk, step.name, step.locate),
    }
}

/// The steps that the rules of `table` give for each of the directories `dirs`
/// in turn.
pub open spec fn steps_for_all(
    table: Seq<RuleModel>,
    dirs: Seq<Seq<char>>,
    bundle: BundleModel,
) -> Seq<StepModel>
    decreases dirs.len(),
{
    if dirs.len() == 0 {
        Seq::empty()
    } else {
        steps_for_all(table, dirs.drop_last(), bundle) + steps_for(table, dirs.last(), bundle)
    }
}

/// The environment after `step`.
///
/// A step whose probes do not all hold changes nothing, nor does one that
/// looked for something and found nothing. A step on the data directories puts
/// in front of its list what exists of its value below them.
pub open spec fn stepped(
    env: EnvModel,
    step: StepModel,
    answer: AnswerModel,
    data: DataDirsModel,
) -> EnvModel {
    if !probes_hold(step.probes, answer.probes) {
        env
    } else {
        match step.change {
            Change::Assign => match step_value(step, answer.walk) {
                Some(value) => with_var(env, step.var, value),
                None => env,
            },
            Change::Prepend => match step_value(step, answer.walk) {
                Some(value) => prepended(env, step.var, value),
                None => env,
            },
            Change::PrependData => prepended_all(
                env,
                step.var,
                existing(xdg_candidates(data.list, step.value), answer.exists),
            ),
            Change::PrependDrivers => with_driver_files(
                env,
                data.list,
                data.share_dir,
                step.var,
                step.value,
                answer.exists,
                answer.listings,
            ),
        }
    }
}

/// The environment after each of `steps`, first to last. A step without an
/// answer changes nothing.
pub open spec fn all_stepped(
    env: EnvModel,
    steps: Seq<StepModel>,
    answers: Seq<AnswerModel>,
    data: DataDirsModel,
) -> EnvModel
    decreases steps.len(),
{
    if steps.len() == 0 {
        env
    } else {
        let before = all_stepped(env, steps.drop_last(), answers, data);
        if steps.len() <= answers.len() {
            stepped(before, steps.last(), answers[steps.len() - 1], data)
        } else {
            before
        }
    }
}

/// The names of the directories among `entries`, in order.
pub open spec fn directories(entries: Seq<TreeEntryModel>) -> Seq<Seq<char>>
    decreases entries.len(),
{
    if entries.len() == 0 {
        Seq::empty()
    } else if entries.last().is_dir {
        directories(entries.drop_last()).push(entries.last().file_name)
    } else {
        directories(entries.drop_last())
    }
}

/// Whether the step reads the walk of its tree: it sets or prepends what it finds
/// there.
pub open spec fn asks_walk(step: StepModel) -> bool {
    (step.change == Change::Assign || step.change == Change::Prepend) && step.locate
        != Locate::Nothing
}

/// Whether the step reads which places exist below the data directories.
pub open spec fn asks_places(step: StepModel) -> bool {
    step.change == Change::PrependData || step.change == Change::PrependDrivers
}

/// Whether the step reads what the places below the data directories hold.
pub open spec fn asks_listings(step: StepModel) -> bool {
    step.change == Change::PrependDrivers
}

/// What is still to be asked of the disk for `step` when the disk says `facts`
/// of its probes. A step whose probes do not all hold asks nothing more.
pub open spec fn questions_of(
    step: StepModel,
    facts: Seq<PathFacts>,
    data: DataDirsModel,
) -> QuestionsModel {
    let holds = probes_hold(step.probes, facts);
    QuestionsModel {
        walk: if holds && asks_walk(step) {
            Some(step.value)
        } else {
            None
        },
        places: if holds && asks_places(step) {
            xdg_candidates(data.list, step.value)
        } else {
            Seq::empty()
        },
        list_places: holds && asks_listings(step),
    }
}

/// What `located_from` returns is the path of the first entry from `from` on
/// that is what is looked for.
pub proof fn lemma_located_from(
    entries: Seq<TreeEntryModel>,
    name: Seq<char>,
    locate: Locate,
    from: int,
)
    requires
        0 <= from,
    ensures
        match located_from(entries, name, locate, from) {
            Some(path) => exists|k: int|
                from <= k < entries.len() && is_wanted(#[trigger] entries[k], name, locate)
                    && entries[k].path == path && forall|j: int|
                    from <= j < k ==> !is_wanted(#[trigger] entries[j], name, locate),
            None => forall|j: int|
                from <= j < entries.len() ==> !is_wanted(#[trigger] entries[j], name, locate),
        },
    decreases entries.len() - from,
{
    if from < entries.len() && !is_wanted(entries[from], name, locate) {
        lemma_located_from(entries, name, locate, from + 1);
        match located_from(entries, name, locate, from + 1) {
            Some(path) => {
                let k = choose|k: int|
                    from + 1 <= k < entries.len() && is_wanted(#[trigger] entries[k], name, locate)
                        && entries[k].path == path && forall|j: int|
                        from + 1 <= j < k ==> !is_wanted(#[trigger] entries[j], name, locate);
                assert(from <= k < entries.len() && is_wanted(entries[k], name, locate)
                    && entries[k].path == path && forall|j: int|
                    from <= j < k ==> !is_wanted(#[trigger] entries[j], name, locate));
            },
            None => {},
        }
    } else if from < entries.len() {
        assert(is_wanted(entries[from], name, locate) && entries[from].path == entries[from].path
            && forall|j: int| from <= j < from ==> !is_wanted(#[trigger] entries[j], name, locate));
    }
}

/// A step reads no more of an answer than it asks for: two answers that say the
/// same of the probes, and the same of whatever the step still asks, leave the
/// same environment.
pub proof fn lemma_step_reads_what_it_asks(
    env: EnvModel,
    step: StepModel,
    first: AnswerModel,
    second: AnswerModel,
    data: DataDirsModel,
)
    requires
        first.probes == second.probes,
        questions_of(step, first.probes, data).walk is Some ==> first.walk == second.walk,
        probes_hold(step.probes, first.probes) && asks_places(step) ==> first.exists
            == second.exists,
        questions_of(step, first.probes, data).list_places ==> first.listings == second.listings,
    ensures
        stepped(env, step, first, data) == stepped(env, step, second, data),
{
}

/// Every step is idempotent: applied twice with the same answers from the disk,
/// it leaves the environment as it was after the first time.
///
/// The step for driver manifests is left out where the flag that opens the
/// host is set: the first time takes the flag out, so the second time is
/// another step.
pub proof fn lemma_step_idempotent(
    env: EnvModel,
    step: StepModel,
    answer: AnswerModel,
    data: DataDirsModel,
)
    requires
        step.change == Change::PrependDrivers ==> step.var != "SHARUN_ALLOW_SYS_VKICD"@
            && value_of(env, "SHARUN_ALLOW_SYS_VKICD"@) != "1"@,
    ensures
        stepped(stepped(env, step, answer, data), step, answer, data) == stepped(
            env,
            step,
            answer,
            data,
        ),
{
    if probes_hold(step.probes, answer.probes) {
        match step.change {
            Change::Assign | Change::Prepend => {
                match step_value(step, answer.walk) {
                    Some(value) => {
                        lemma_with_var_idempotent(env, step.var, value);
                        lemma_prepend_idempotent(env, step.var, value);
                    },
                    None => {},
                }
            },
            Change::PrependData => {
                lemma_prepended_all_idempotent(
                    env,
                    step.var,
                    existing(xdg_candidates(data.list, step.value), answer.exists),
                );
            },
            Change::PrependDrivers => {
                let files = driver_files(
                    reversed_dirs(data.list),
                    step.value,
                    data.share_dir,
                    answer.exists,
                    answer.listings,
                );
                lemma_prepended_all_keeps_others(env, step.var, files, "SHARUN_ALLOW_SYS_VKICD"@);
                lemma_prepended_all_idempotent(env, step.var, files);
            },
        }
    }
}

/// Whether `rule` is for a directory called `dir`.
pub fn matches_rule(rule: &Rule, dir: &str) -> (r: bool)
    ensures
        r == rule_matches(rule.deep_view(), dir@),
{
    if rule.prefix {
        let d = chars_of(dir);
        let n = chars_of(rule.name.as_str());
        starts_with(d.as_slice(), n.as_slice())
    } else {
        same_str(dir, rule.name.as_str())
    }
}

/// Resolves a place to a path.
fn resolve_place(place: Place, text: &str, name: &str, dir: &str, bundle: &Bundle) -> (out: String)
    ensures
        out@ == place_path(place, text@, name@, dir@, bundle.deep_view()),
{
    let base = chars_of(bundle.base.as_str());
    let d = chars_of(dir);
    let t = chars_of(text);
    match place {
        Place::Literal => text.to_owned(),
        Place::Root => bundle.root.clone(),
        Place::Dir | Place::FileBelow | Place::DirBelow => {
            let p = path_below(base.as_slice(), d.as_slice());
            string_of(p.as_slice())
        },
        Place::Below => {
            let p = path_below(base.as_slice(), d.as_slice());
            let q = path_below(p.as_slice(), t.as_slice());
            string_of(q.as_slice())
        },
        Place::InBin => {
            let bin = chars_of(bundle.bin_dir.as_str());
            let p = path_below(bin.as_slice(), t.as_slice());
            string_of(p.as_slice())
        },
        Place::Sibling => {
            let n = chars_of(name);
            let other = replace_all(d.as_slice(), n.as_slice(), t.as_slice());
            let p = path_below(base.as_slice(), other.as_slice());
            string_of(p.as_slice())
        },
    }
}

/// The step that `rule` gives for the directory `dir`.
pub fn instantiate(rule: &Rule, dir: &str, bundle: &Bundle) -> (step: Step)
    ensures
        step.deep_view() == step_of(rule.deep_view(), dir@, bundle.deep_view()),
{
    let mut probes: Vec<Probe> = Vec::new();
    let mut i: usize = 0;
    let ghost wanted = step_of(rule.deep_view(), dir@, bundle.deep_view()).probes;
    while i < rule.checks.len()
        invariant
            i <= rule.checks.len(),
            wanted == step_of(rule.deep_view(), dir@, bundle.deep_view()).probes,
            probes.deep_view() == wanted.take(i as int),
        decreases rule.checks.len() - i,
    {
        let check = &rule.checks[i];
        assert(rule.deep_view().checks[i as int] == check.deep_view());
        let path = resolve_place(check.place, check.text.as_str(), rule.name.as_str(), dir, bundle);
        let probe = Probe { kind: check.kind, path };
        let ghost before = probes.deep_view();
        probes.push(probe);
        assert(probes.deep_view() =~= before.push(probe.deep_view()));
        i += 1;
        assert(probes.deep_view() =~= wanted.take(i as int));
    }
    assert(wanted.take(rule.checks.len() as int) =~= wanted);
    let locate = match rule.place {
        Place::FileBelow => Locate::File,
        Place::DirBelow => Locate::Directory,
        _ => Locate::Nothing,
    };
    Step {
        probes,
        change: rule.change,
        var: rule.var.clone(),
        locate,
        value: resolve_place(rule.place, rule.text.as_str(), rule.name.as_str(), dir, bundle),
        name: rule.text.clone(),
    }
}

/// The steps that the rules of `table` give for the directory `dir`.
pub fn derive_steps(table: &Vec<Rule>, dir: &str, bundle: &Bundle) -> (steps: Vec<Step>)
    ensures
        steps.deep_view() == steps_for(table.deep_view(), dir@, bundle.deep_view()),
{
    let mut steps: Vec<Step> = Vec::new();
    let mut i: usize = 0;
    while i < table.len()
        invariant
            i <= table.len(),
            steps.deep_view() == steps_for(
                table.deep_view().take(i as int),
                dir@,
                bundle.deep_view(),
            ),
        decreases table.len() - i,
    {
        proof {
            let next = table.deep_view().take(i + 1);
            assert(next.drop_last() =~= table.deep_view().take(i as int));
            assert(next.last() == table[i as int].deep_view());
        }
        if matches_rule(&table[i], dir) {
            let step = instantiate(&table[i], dir, bundle);
            let ghost before = steps.deep_view();
            steps.push(step);
            assert(steps.deep_view() =~= before.push(step.deep_view()));
        }
        i += 1;
    }
    assert(table.deep_view().take(table.len() as int) =~= table.deep_view());
    steps
}

/// The path of the first entry of the walk `entries` that is called `name` and is
/// of the kind that `locate` asks for.
pub fn locate_entry(entries: &Vec<TreeEntry>, name: &str, locate: Locate) -> (r: Option<String>)
    ensures
        r.deep_view() == located(entries.deep_view(), name@, locate),
{
    let mut i: usize = 0;
    while i < entries.len()
        invariant
            i <= entries.len(),
            located(entries.deep_view(), name@, locate) == located_from(
                entries.deep_view(),
                name@,
                locate,
                i as int,
            ),
        decreases entries.len() - i,
    {
        let entry = &entries[i];
        assert(entries.deep_view()[i as int] == entry.deep_view());
        let kind_fits = match locate {
            Locate::Nothing => false,
            Locate::File => entry.is_file,
            Locate::Directory => entry.is_dir,
        };
        if kind_fits && same_str(entry.file_name.as_str(), name) {
            return Some(entry.path.clone());
        }
        i += 1;
    }
    None
}

/// The names of the directories that a directory holds: what the rules of a
/// table are applied to. `entries` is the listing of the directory.
pub fn directory_names(entries: &Vec<TreeEntry>) -> (names: Vec<String>)
    ensures
        names.deep_view() == directories(entries.deep_view()),
{
    let mut names: Vec<String> = Vec::new();
    let mut i: usize = 0;
    while i < entries.len()
        invariant
            i <= entries.len(),
            names.deep_view() == directories(entries.deep_view().take(i as int)),
        decreases entries.len() - i,
    {
        proof {
            let next = entries.deep_view().take(i + 1);
            assert(next.drop_last() =~= entries.deep_view().take(i as int));
            assert(next.last() == entries[i as int].deep_view());
        }
        if entries[i].is_dir {
            append_string(&mut names, entries[i].file_name.clone());
        }
        i += 1;
    }
    assert(entries.deep_view().take(entries.len() as int) =~= entries.deep_view());
    names
}

/// The steps that the rules of `table` give for each directory of `dirs`.
pub fn derive_all(table: &Vec<Rule>, dirs: &Vec<String>, bundle: &Bundle) -> (steps: Vec<Step>)
    ensures
        steps.deep_view() == steps_for_all(table.deep_view(), dirs.deep_view(), bundle.deep_view()),
{
    let mut steps: Vec<Step> = Vec::new();
    let mut i: usize = 0;
    while i < dirs.len()
        invariant
            i <= dirs.len(),
            steps.deep_view() == steps_for_all(
                table.deep_view(),
                dirs.deep_view().take(i as int),
                bundle.deep_view(),
            ),
        decreases dirs.len() - i,
    {
        proof {
            let next = dirs.deep_view().take(i + 1);
            assert(next.drop_last() =~= dirs.deep_view().take(i as int));
            assert(next.last() == dirs[i as int]@);
        }
        let mut more = derive_steps(table, dirs[i].as_str(), bundle);
        let ghost before = steps.deep_view();
        let ghost added = more.deep_view();
        steps.append(&mut more);
        assert(steps.deep_view() =~= before + added);
        i += 1;
    }
    assert(dirs.deep_view().take(dirs.len() as int) =~= dirs.deep_view());
    steps
}

/// Whether every probe of `step` holds of what the disk says.
pub fn check_probes(step: &Step, facts: &Vec<PathFacts>) -> (r: bool)
    ensures
        r == probes_hold(step.deep_view().probes, facts@),
{
    if facts.len() < step.probes.len() {
        return false;
    }
    let mut i: usize = 0;
    while i < step.probes.len()
        invariant
            i <= step.probes.len() <= facts.len(),
            forall|j: int|
                0 <= j < i ==> probe_holds(#[trigger] step.deep_view().probes[j].0, facts@[j]),
        decreases step.probes.len() - i,
    {
        assert(step.deep_view().probes[i as int] == step.probes[i as int].deep_view());
        let holds = match step.probes[i].kind {
            ProbeKind::Exists => facts[i].stat.is_some(),
            ProbeKind::Missing => facts[i].stat.is_none(),
            ProbeKind::ReadOnly => !facts[i].writable,
            ProbeKind::Executable => is_exe(facts[i].stat),
        };
        if !holds {
            assert(!probe_holds(step.deep_view().probes[i as int].0, facts@[i as int]));
            return false;
        }
        i += 1;
    }
    true
}

/// What is still to be asked of the disk for `step`. `facts` holds what the disk
/// says of the path of each probe of the step, in turn.
pub fn step_questions(step: &Step, facts: &Vec<PathFacts>, data: &DataDirs) -> (asked: Questions)
    ensures
        asked.deep_view() == questions_of(step.deep_view(), facts@, data.deep_view()),
{
    let holds = check_probes(step, facts);
    let sets = match step.change {
        Change::Assign | Change::Prepend => true,
        _ => false,
    };
    let finds = match step.locate {
        Locate::Nothing => false,
        _ => true,
    };
    let lists = match step.change {
        Change::PrependDrivers => true,
        _ => false,
    };
    let walk = if holds && sets && finds {
        Some(step.value.clone())
    } else {
        None
    };
    let places = if holds && !sets {
        xdg_data_candidates(data.list.as_str(), step.value.as_str())
    } else {
        let none: Vec<String> = Vec::new();
        assert(none.deep_view() =~= Seq::<Seq<char>>::empty());
        none
    };
    Questions { walk, places, list_places: holds && lists }
}

/// Applies one step to the environment.
pub fn apply_step(env: &mut Environment, step: &Step, answer: &Answer, data: &DataDirs)
    ensures
        final(env)@ == stepped(old(env)@, step.deep_view(), answer.deep_view(), data.deep_view()),
{
    if !check_probes(step, &answer.probes) {
        return ;
    }
    match step.change {
        Change::Assign | Change::Prepend => {
            let value: String = match step.locate {
                Locate::Nothing => step.value.clone(),
                _ => match locate_entry(&answer.walk, step.name.as_str(), step.locate) {
                    Some(path) => path,
                    None => { return ; },
                },
            };
            match step.change {
                Change::Assign => env.set(step.var.as_str(), value.as_str()),
                _ => add_to_env(env, step.var.as_str(), value.as_str()),
            }
        },
        Change::PrependData => add_to_xdg_data_env(
            env,
            data.list.as_str(),
            step.var.as_str(),
            step.value.as_str(),
            &answer.exists,
        ),
        Change::PrependDrivers => add_driver_files(
            env,
            data.list.as_str(),
            data.share_dir.as_str(),
            step.var.as_str(),
            step.value.as_str(),
            &answer.exists,
            &answer.listings,
        ),
    }
}

/// Applies the steps to the environment, first to last. `answers` holds what
/// the disk answered to each step in turn.
pub fn apply_steps(env: &mut Environment, steps: &Vec<Step>, answers: &Vec<Answer>, data: &DataDirs)
    ensures
        final(env)@ == all_stepped(
            old(env)@,
            steps.deep_view(),
            answers.deep_view(),
            data.deep_view(),
        ),
{
    let mut i: usize = 0;
    while i < steps.len()
        invariant
            i <= steps.len(),
            env@ == all_stepped(
                old(env)@,
                steps.deep_view().take(i as int),
                answers.deep_view(),
                data.deep_view(),
            ),
        decreases steps.len() - i,
    {
        proof {
            let next = steps.deep_view().take(i + 1);
            assert(next.drop_last() =~= steps.deep_view().take(i as int));
            assert(next.last() == steps[i as int].deep_view());
        }
        if i < answers.len() {
            assert(answers.deep_view()[i as int] == answers[i as int].deep_view());
            apply_step(env, &steps[i], &answers[i], data);
        }
        i += 1;
    }
    assert(steps.deep_view().take(steps.len() as int) =~= steps.deep_view());
}

} // verus!
