//! The directory that a run keeps its state in, and what a run starts from.
use crate::automode::types::{AutomodeState, StateModel};
use crate::paths::{file_name, join_path, joined, name_of, PathRules};
use crate::text::{
    all_digits, chars_of, decimal, decimal_string, is_ascii_digit, is_digit, lemma_decimal_digits,
    lemma_decimal_injective, number_of, opt_text, parse_digits, same_text, strip_prefix, texts,
    trim, trim_of,
};
use vstd::prelude::*;
use vstd::string::*;

verus! {

/// The file that holds the progress document.
pub const PROGRESS_DOC_FILE: &'static str = "progress.md";

/// The file that holds the state of a run.
pub const STATE_FILE: &'static str = "state.json";

/// The file that the events of a run are appended to.
pub const EVENTS_FILE: &'static str = "events.jsonl";

/// What the name of every numbered run starts with.
pub const RUN_PREFIX: &'static str = "run";

/// The name of a numbered run.
pub open spec fn run_name(number: nat) -> Seq<char> {
    RUN_PREFIX@ + decimal(number)
}

/// Whether `name` is the name of the run with that number. Runs are numbered from one.
pub open spec fn names_run(name: Seq<char>, number: nat) -> bool {
    0 < number <= u64::MAX && name == run_name(number)
}

/// The number of the run that `name` names, if it names one.
pub open spec fn run_number(name: Seq<char>) -> Option<nat> {
    if exists|number: nat| names_run(name, number) {
        Some(choose|number: nat| names_run(name, number))
    } else {
        None
    }
}

/// The largest number of a run that is named, and zero if none is.
pub open spec fn largest_run(names: Seq<Seq<char>>) -> nat
    decreases names.len(),
{
    if names.len() == 0 {
        0
    } else {
        let before = largest_run(names.drop_last());
        match run_number(names.last()) {
            Some(number) if number > before => number,
            _ => before,
        }
    }
}

/// The name of the run that follows those that are named.
pub open spec fn next_run(names: Seq<Seq<char>>) -> Result<Seq<char>, Seq<char>> {
    if largest_run(names) < u64::MAX {
        Ok(run_name(largest_run(names) + 1))
    } else {
        Err("automode run number overflowed"@)
    }
}

/// The directory of a project under which numbered runs, and the files of interactive ones, are
/// kept.
pub open spec fn run_root(separator: char, project: Seq<char>) -> Seq<char> {
    joined(separator, joined(separator, project, ".codex"@), "automode"@)
}

/// The state directory of a run: the one that was asked for, or else that of the next numbered
/// run, where `names` are those in the project's run root.
pub open spec fn state_dir_of(
    separator: char,
    project: Seq<char>,
    asked: Option<Seq<char>>,
    names: Seq<Seq<char>>,
) -> Result<Seq<char>, Seq<char>> {
    match asked {
        Some(path) => Ok(joined(separator, project, path)),
        None => match next_run(names) {
            Ok(name) => Ok(joined(separator, run_root(separator, project), name)),
            Err(message) => Err(message),
        },
    }
}

/// The line that names a numbered run in its progress document.
pub open spec fn run_line(separator: char, state_dir: Seq<char>) -> Seq<char> {
    match name_of(separator, state_dir) {
        Some(name) if run_number(name) is Some => "\n\nRun: "@ + name,
        _ => ""@,
    }
}

/// The progress document that a run starts with.
pub open spec fn initial_document(
    separator: char,
    goal: Seq<char>,
    project: Seq<char>,
    state_dir: Seq<char>,
) -> Seq<char> {
    "# Automode Progress\n\nGoal: "@ + goal + "\n\nProject: "@ + project + run_line(
        separator,
        state_dir,
    ) + "\n\nNo simulated operator decision has been recorded yet. The first operator turn must define numeric metrics with fixed baselines and targets before worker turns begin.\n"@
}

/// The state that a run starts from: what an earlier run left there, with the goal, the project
/// and the deadline of this one, or a state of which nothing has happened yet.
pub open spec fn initial_state(
    separator: char,
    kept: Option<StateModel>,
    state_dir: Seq<char>,
    goal: Seq<char>,
    project: Seq<char>,
    started_at: i64,
    deadline_at: i64,
) -> StateModel {
    let document = initial_document(separator, goal, project, state_dir);
    match kept {
        Some(state) => StateModel {
            goal,
            project,
            deadline_at,
            progress_document: if trim_of(state.progress_document).len() == 0 {
                document
            } else {
                state.progress_document
            },
            ..state
        },
        None => StateModel {
            goal,
            project,
            started_at,
            deadline_at,
            iteration: 0,
            progress_document: document,
            last_worker_summary: None,
            last_decision: None,
        },
    }
}

/// A number of seconds as a signed number, wrapped around where it has no room.
pub open spec fn signed_secs(secs: u64) -> int {
    if secs <= i64::MAX {
        secs as int
    } else {
        secs as int - 0x1_0000_0000_0000_0000
    }
}

/// The time `secs` seconds after `started_at`, held at the ends of the range.
pub open spec fn deadline_after(started_at: i64, secs: u64) -> int {
    let sum = started_at as int + signed_secs(secs);
    if sum > i64::MAX {
        i64::MAX as int
    } else if sum < i64::MIN {
        i64::MIN as int
    } else {
        sum
    }
}

/// A name names at most one run.
pub proof fn lemma_run_number(name: Seq<char>, number: nat)
    requires
        names_run(name, number),
    ensures
        run_number(name) == Some(number),
{
    let other = choose|n: nat| names_run(name, n);
    assert(names_run(name, other));
    let n = RUN_PREFIX@.len() as int;
    assert(decimal(other) =~= name.skip(n));
    assert(decimal(number) =~= name.skip(n));
    lemma_decimal_injective(other, number);
}

/// The name of the next run is the name of none that is there, and its number is above all of
/// theirs.
pub proof fn law_next_run_is_new(names: Seq<Seq<char>>)
    requires
        next_run(names) is Ok,
    ensures
        !names.contains(next_run(names)->Ok_0),
        run_number(next_run(names)->Ok_0) == Some(largest_run(names) + 1),
        forall|i: int|
            0 <= i < names.len() && run_number(#[trigger] names[i]) is Some ==> run_number(
                names[i],
            )->0 < largest_run(names) + 1,
{
    let next = largest_run(names) + 1;
    lemma_run_number(run_name(next), next);
    lemma_largest_run(names);
    assert forall|i: int| 0 <= i < names.len() implies #[trigger] names[i] != run_name(next) by {
        if names[i] == run_name(next) {
            assert(run_number(names[i]) == Some(next));
        }
    }
}

proof fn lemma_largest_run(names: Seq<Seq<char>>)
    ensures
        forall|i: int|
            0 <= i < names.len() && run_number(#[trigger] names[i]) is Some ==> run_number(
                names[i],
            )->0 <= largest_run(names),
    decreases names.len(),
{
    if names.len() > 0 {
        let before = names.drop_last();
        lemma_largest_run(before);
        assert forall|i: int|
            0 <= i < names.len() && run_number(#[trigger] names[i]) is Some implies run_number(
            names[i],
        )->0 <= largest_run(names) by {
            if i < before.len() {
                assert(before[i] == names[i]);
            }
        }
    }
}

/// The first progress document of a run without an explicit state directory is marked with the
/// name of that run, as long as the last part of that directory is the name that was put there.
/// Where a slash separates the parts of a path, it always is.
pub proof fn law_numbered_runs_are_marked(
    separator: char,
    project: Seq<char>,
    names: Seq<Seq<char>>,
)
    requires
        state_dir_of(separator, project, None, names) is Ok,
        separator == '/' || name_of(
            separator,
            joined(separator, run_root(separator, project), next_run(names)->Ok_0),
        ) == Some(next_run(names)->Ok_0),
    ensures
        run_line(separator, state_dir_of(separator, project, None, names)->Ok_0) == "\n\nRun: "@
            + next_run(names)->Ok_0,
{
    let name = next_run(names)->Ok_0;
    let next = largest_run(names) + 1;
    lemma_run_number(name, next);
    lemma_decimal_digits(next);
    reveal_strlit("run");
    reveal_strlit(".");
    reveal_strlit("..");
    assert forall|k: int| 0 <= k < name.len() implies #[trigger] name[k] != '/' by {
        if k >= 3 {
            assert(name[k] == decimal(next)[k - 3]);
            assert(is_digit(decimal(next)[k - 3]));
        }
    }
    assert(name[0] == 'r');
    crate::paths::lemma_name_of_joined(run_root(separator, project), name);
}

/// Returns the number of the run that a name names, if it names one.
pub fn parse_run_number(value: &str) -> (r: Option<u64>)
    ensures
        run_number(value@) == (match r {
            Some(number) => Some(number as nat),
            None => None,
        }),
{
    let suffix = match strip_prefix(value, RUN_PREFIX) {
        Some(suffix) => suffix,
        None => {
            assert(forall|number: nat| names_run(value@, number) ==> value@.take(
                RUN_PREFIX@.len() as int,
            ) =~= RUN_PREFIX@);
            return None;
        },
    };
    let ghost n = RUN_PREFIX@.len() as int;
    assert(value@ =~= RUN_PREFIX@ + suffix@);
    assert forall|number: nat| #[trigger] names_run(value@, number) implies suffix@ == decimal(
        number,
    ) && all_digits(suffix@) && number_of(suffix@) == number by {
        assert(suffix@ =~= decimal(number));
        lemma_decimal_digits(number);
    }
    let chars = chars_of(suffix);
    let mut i: usize = 0;
    while i < chars.len()
        invariant
            i <= chars.len(),
            chars@ == suffix@,
            forall|k: int| 0 <= k < i ==> is_digit(#[trigger] chars@[k]),
            forall|number: nat| #[trigger]
                names_run(value@, number) ==> suffix@ == decimal(number) && all_digits(suffix@)
                    && number_of(suffix@) == number,
        decreases chars.len() - i,
    {
        if !is_ascii_digit(chars[i]) {
            assert(!all_digits(suffix@)) by {
                assert(!is_digit(suffix@[i as int]));
            }
            return None;
        }
        i += 1;
    }
    let number: u64 = match parse_digits(chars.as_slice()) {
        Some(number) => number,
        None => return None,
    };
    let digits = decimal_string(number);
    if number > 0 && same_text(suffix, digits.as_str()) {
        proof {
            lemma_run_number(value@, number as nat);
        }
        Some(number)
    } else {
        None
    }
}

/// Returns the name of the run that follows those that are named.
pub fn next_run_name(names: &Vec<String>) -> (r: Result<String, String>)
    ensures
        next_run(texts(names@)) == (match r {
            Ok(name) => Ok::<Seq<char>, Seq<char>>(name@),
            Err(message) => Err::<Seq<char>, Seq<char>>(message@),
        }),
{
    let mut max: u64 = 0;
    let mut i: usize = 0;
    let ghost all = texts(names@);
    assert(all.take(0) =~= seq![]);
    while i < names.len()
        invariant
            i <= names.len(),
            all == texts(names@),
            max == largest_run(all.take(i as int)),
        decreases names.len() - i,
    {
        assert(all.take(i + 1).drop_last() =~= all.take(i as int));
        if let Some(number) = parse_run_number(names[i].as_str()) {
            if number > max {
                max = number;
            }
        }
        i += 1;
    }
    assert(all.take(all.len() as int) =~= all);
    match max.checked_add(1) {
        Some(next) => {
            let digits = decimal_string(next);
            let mut name = RUN_PREFIX.to_owned();
            name.append(digits.as_str());
            Ok(name)
        },
        None => Err("automode run number overflowed".to_owned()),
    }
}

/// Returns the state directory of a run: the one that was asked for, relative to the project, or
/// else that of the next numbered run, where `names` are those in the project's run root.
pub fn resolve_state_dir(
    rules: PathRules,
    project: &str,
    state_dir: Option<String>,
    names: &Vec<String>,
) -> (r: Result<String, String>)
    ensures
        state_dir_of(rules@, project@, opt_text(state_dir), texts(names@)) == (match r {
            Ok(path) => Ok::<Seq<char>, Seq<char>>(path@),
            Err(message) => Err::<Seq<char>, Seq<char>>(message@),
        }),
{
    match state_dir {
        Some(path) => Ok(join_path(rules, project, path.as_str())),
        None => {
            let run_name = next_run_name(names)?;
            let root = run_root_dir(rules, project);
            Ok(join_path(rules, root.as_str(), run_name.as_str()))
        },
    }
}

/// Returns the directory under which numbered runs are kept.
pub fn run_root_dir(rules: PathRules, project: &str) -> (r: String)
    ensures
        r@ == run_root(rules@, project@),
{
    let codex = join_path(rules, project, ".codex");
    join_path(rules, codex.as_str(), "automode")
}

/// Returns the progress document that a run starts with.
pub fn initial_progress_document(
    rules: PathRules,
    goal: &str,
    project: &str,
    state_dir: &str,
) -> (r: String)
    ensures
        r@ == initial_document(rules@, goal@, project@, state_dir@),
{
    let mut line = "".to_owned();
    if let Some(name) = file_name(rules, state_dir) {
        if parse_run_number(name.as_str()).is_some() {
            line = "\n\nRun: ".to_owned();
            line.append(name.as_str());
        }
    }
    let mut r = "# Automode Progress\n\nGoal: ".to_owned();
    r.append(goal);
    r.append("\n\nProject: ");
    r.append(project);
    r.append(line.as_str());
    r.append(
        "\n\nNo simulated operator decision has been recorded yet. The first operator turn must define numeric metrics with fixed baselines and targets before worker turns begin.\n",
    );
    r
}

/// Returns the state that a run starts from, given what an earlier run left in the state
/// directory.
pub fn load_state(
    rules: PathRules,
    kept: Option<AutomodeState>,
    state_dir: &str,
    goal: &str,
    project: &str,
    started_at: i64,
    deadline_at: i64,
) -> (r: AutomodeState)
    ensures
        r@ == initial_state(
            rules@,
            match kept {
                Some(state) => Some(state@),
                None => None,
            },
            state_dir@,
            goal@,
            project@,
            started_at,
            deadline_at,
        ),
{
    match kept {
        Some(state) => {
            let blank = trim(state.progress_document.as_str()).unicode_len() == 0;
            AutomodeState {
                goal: goal.to_owned(),
                project: project.to_owned(),
                started_at: state.started_at,
                deadline_at,
                iteration: state.iteration,
                progress_document: if blank {
                    initial_progress_document(rules, goal, project, state_dir)
                } else {
                    state.progress_document
                },
                last_worker_summary: state.last_worker_summary,
                last_decision: state.last_decision,
            }
        },
        None => AutomodeState {
            goal: goal.to_owned(),
            project: project.to_owned(),
            started_at,
            deadline_at,
            iteration: 0,
            progress_document: initial_progress_document(rules, goal, project, state_dir),
            last_worker_summary: None,
            last_decision: None,
        },
    }
}

/// Returns a number of seconds since the epoch as a timestamp, held at the end of the range.
pub fn timestamp_secs(secs: u64) -> (r: i64)
    ensures
        r == (if secs <= i64::MAX {
            secs as int
        } else {
            i64::MAX as int
        }),
{
    if secs <= i64::MAX as u64 {
        secs as i64
    } else {
        i64::MAX
    }
}

/// Returns the timestamp at which a run ends that is to last `secs` seconds.
pub fn deadline_timestamp(started_at: i64, secs: u64) -> (r: i64)
    ensures
        r == deadline_after(started_at, secs),
{
    let wide: i128 = if secs <= i64::MAX as u64 {
        secs as i128
    } else {
        secs as i128 - 0x1_0000_0000_0000_0000
    };
    let sum: i128 = started_at as i128 + wide;
    if sum > i64::MAX as i128 {
        i64::MAX
    } else if sum < i64::MIN as i128 {
        i64::MIN
    } else {
        sum as i64
    }
}

} // verus!
