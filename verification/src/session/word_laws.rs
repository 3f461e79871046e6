//! What each word of the `/automode` command adds to what stands before it.
use crate::duration::duration_of;
use crate::paths::{joined, PathRules};
use crate::session::command::{
    command_words, format_automode_command, no_args, parse_automode_slash_args,
    parse_automode_words, resume_args, resume_of, slash_of, slash_result, start_args, start_of,
    starts_with_digit, ArgsModel, AutomodeSlashArgs, AutomodeSlashCommand, AutomodeStartRequest,
    RequestModel, ResumeModel, SlashModel, AUTOMODE_USAGE,
};
use crate::session::command_laws::{asked_for, can_be_asked_for, law_shown_command_is_read_back};
use crate::shell::plain_words;
use crate::text::{is_space, join_of, lemma_trim_bounds, same_ignoring_case, texts, trim_of};
use vstd::prelude::*;

verus! {

/// Whether none of the words is the option that everything behind it belongs to.
pub open spec fn without_goal_option(words: Seq<Seq<char>>) -> bool {
    forall|i: int|
        0 <= i < words.len() ==> (#[trigger] words[i]) != "--goal"@ && words[i] != "-g"@
}

/// Whether a word is no option.
pub open spec fn is_plain(word: Seq<char>) -> bool {
    &&& word != "--project"@
    &&& word != "-p"@
    &&& word != "--duration"@
    &&& word != "-d"@
    &&& word != "--goal"@
    &&& word != "-g"@
    &&& word != "--skip-git-repo-check"@
}

/// Arguments that are refused with a message.
pub open spec fn refused(message: Seq<char>) -> Result<ArgsModel, Seq<char>> {
    Err(message)
}

proof fn lemma_different_flags()
    ensures
        "--project"@ != "--duration"@,
        "--project"@ != "--goal"@,
        "--project"@ != "--skip-git-repo-check"@,
        "--duration"@ != "--goal"@,
        "--duration"@ != "--skip-git-repo-check"@,
        "--goal"@ != "--skip-git-repo-check"@,
        "--project"@.len() > 2,
        "--duration"@.len() > 2,
        "--goal"@.len() > 2,
        "--skip-git-repo-check"@.len() > 2,
        "-p"@.len() == 2,
        "-d"@.len() == 2,
        "-g"@.len() == 2,
        "-p"@ != "-d"@,
        "-p"@ != "-g"@,
        "-d"@ != "-g"@,
{
    reveal_strlit("--project");
    reveal_strlit("--duration");
    reveal_strlit("--goal");
    reveal_strlit("--skip-git-repo-check");
    reveal_strlit("-p");
    reveal_strlit("-d");
    reveal_strlit("-g");
    assert("--project"@.len() != "--duration"@.len());
    assert("-p"@[1] != "-d"@[1]);
    assert("-p"@[1] != "-g"@[1]);
    assert("-d"@[1] != "-g"@[1]);
}

/// The words of a new run are read from left to right: those that follow are read with what the
/// ones before them came to.
proof fn lemma_start_goes_on(
    separator: char,
    words: Seq<Seq<char>>,
    more: Seq<Seq<char>>,
    args: ArgsModel,
    default_project: Seq<char>,
)
    requires
        without_goal_option(words),
        start_args(separator, words, args, default_project) is Ok,
    ensures
        start_args(separator, words + more, args, default_project) == start_args(
            separator,
            more,
            start_args(separator, words, args, default_project)->Ok_0,
            default_project,
        ),
    decreases words.len(),
{
    let all = words + more;
    if words.len() == 0 {
        assert(all =~= more);
    } else {
        assert(words[0] != "--goal"@ && words[0] != "-g"@);
        assert(all[0] == words[0]);
        assert(all.skip(1) =~= words.skip(1) + more);
        assert forall|i: int| 0 <= i < words.skip(1).len() implies (#[trigger] words.skip(1)[i])
            != "--goal"@ && words.skip(1)[i] != "-g"@ by {
            assert(words.skip(1)[i] == words[i + 1]);
        }
        if words.len() >= 2 {
            assert(all[1] == words[1]);
            assert(all.skip(2) =~= words.skip(2) + more);
            assert forall|i: int| 0 <= i < words.skip(2).len() implies (
            #[trigger] words.skip(2)[i]) != "--goal"@ && words.skip(2)[i] != "-g"@ by {
                assert(words.skip(2)[i] == words[i + 2]);
            }
        }
        let token = words[0];
        if token == "--project"@ || token == "-p"@ {
            let next = ArgsModel { project: joined(separator, default_project, words[1]), ..args };
            lemma_start_goes_on(separator, words.skip(2), more, next, default_project);
        } else if token == "--duration"@ || token == "-d"@ {
            let next = ArgsModel { duration: Some(duration_of(words[1])->Ok_0), ..args };
            lemma_start_goes_on(separator, words.skip(2), more, next, default_project);
        } else if token == "--skip-git-repo-check"@ {
            let next = ArgsModel { skip_git_repo_check: true, ..args };
            lemma_start_goes_on(separator, words.skip(1), more, next, default_project);
        } else if args.duration is None && duration_of(token) is Ok {
            let next = ArgsModel { duration: Some(duration_of(token)->Ok_0), ..args };
            lemma_start_goes_on(separator, words.skip(1), more, next, default_project);
        } else {
            let next = ArgsModel { goal: args.goal.push(token), ..args };
            lemma_start_goes_on(separator, words.skip(1), more, next, default_project);
        }
    }
}

/// Each word of a new run sets its own part and leaves the others: what the words before it came
/// to stays, but for the project behind `--project`, the run time behind `--duration`, the check
/// that `--skip-git-repo-check` skips, and the goal, which every word that is neither an option
/// nor the first run time is added to. Everything behind `--goal` is added to the goal.
pub proof fn law_words_of_a_new_run(
    separator: char,
    words: Seq<Seq<char>>,
    args: ArgsModel,
    default_project: Seq<char>,
    word: Seq<char>,
    more: Seq<Seq<char>>,
)
    requires
        without_goal_option(words),
        start_args(separator, words, no_args(default_project), default_project) == Ok::<
            ArgsModel,
            Seq<char>,
        >(args),
    ensures
        ({
            let read = |next: Seq<Seq<char>>|
                start_args(separator, words + next, no_args(default_project), default_project);
            let project = Ok::<ArgsModel, Seq<char>>(
                ArgsModel { project: joined(separator, default_project, word), ..args },
            );
            let duration = match duration_of(word) {
                Ok(secs) => Ok::<ArgsModel, Seq<char>>(ArgsModel { duration: Some(secs), ..args }),
                Err(message) => Err::<ArgsModel, Seq<char>>(message),
            };
            let goal = Ok::<ArgsModel, Seq<char>>(ArgsModel { goal: args.goal.push(word), ..args });
            &&& read(seq!["--project"@, word]) == project
            &&& read(seq!["-p"@, word]) == project
            &&& read(seq!["--duration"@, word]) == duration
            &&& read(seq!["-d"@, word]) == duration
            &&& read(seq!["--skip-git-repo-check"@]) == Ok::<ArgsModel, Seq<char>>(
                ArgsModel { skip_git_repo_check: true, ..args },
            )
            &&& is_plain(word) && args.duration is Some ==> read(seq![word]) == goal
            &&& is_plain(word) && args.duration is None && duration_of(word) is Ok ==> read(
                seq![word],
            ) == duration
            &&& is_plain(word) && duration_of(word) is Err && !starts_with_digit(word) ==> read(
                seq![word],
            ) == goal
            &&& is_plain(word) && args.duration is None && duration_of(word) is Err
                && starts_with_digit(word) ==> read(seq![word]) == refused(
                duration_of(word)->Err_0
                    + ". First positional argument must be a valid duration or part of the goal."@,
            )
            &&& more.len() > 0 ==> read(seq!["--goal"@] + more) == Ok::<ArgsModel, Seq<char>>(
                ArgsModel { goal: args.goal + more, ..args },
            )
            &&& more.len() > 0 ==> read(seq!["-g"@] + more) == read(seq!["--goal"@] + more)
            &&& read(seq!["--project"@]) == refused("Missing value after --project."@)
            &&& read(seq!["-p"@]) == refused("Missing value after --project."@)
            &&& read(seq!["--duration"@]) == refused("Missing value after --duration."@)
            &&& read(seq!["-d"@]) == refused("Missing value after --duration."@)
            &&& read(seq!["--goal"@]) == refused("Missing value after --goal."@)
            &&& read(seq!["-g"@]) == refused("Missing value after --goal."@)
        }),
{
    lemma_different_flags();
    let none = no_args(default_project);
    lemma_start_pair(separator, words, args, default_project, "--project"@, word);
    lemma_start_pair(separator, words, args, default_project, "-p"@, word);
    lemma_start_pair(separator, words, args, default_project, "--duration"@, word);
    lemma_start_pair(separator, words, args, default_project, "-d"@, word);
    lemma_start_one(separator, words, args, default_project, "--skip-git-repo-check"@);
    lemma_start_one(separator, words, args, default_project, "--project"@);
    lemma_start_one(separator, words, args, default_project, "-p"@);
    lemma_start_one(separator, words, args, default_project, "--duration"@);
    lemma_start_one(separator, words, args, default_project, "-d"@);
    lemma_start_one(separator, words, args, default_project, "--goal"@);
    lemma_start_one(separator, words, args, default_project, "-g"@);
    lemma_start_one(separator, words, args, default_project, word);
    lemma_start_goes_on(separator, words, seq!["--goal"@] + more, none, default_project);
    lemma_start_goes_on(separator, words, seq!["-g"@] + more, none, default_project);
    assert((seq!["--goal"@] + more).skip(1) =~= more);
    assert((seq!["-g"@] + more).skip(1) =~= more);
    assert((seq!["--goal"@] + more)[0] == "--goal"@);
    assert((seq!["-g"@] + more)[0] == "-g"@);
}

proof fn lemma_start_pair(
    separator: char,
    words: Seq<Seq<char>>,
    args: ArgsModel,
    default_project: Seq<char>,
    flag: Seq<char>,
    word: Seq<char>,
)
    requires
        without_goal_option(words),
        start_args(separator, words, no_args(default_project), default_project) == Ok::<
            ArgsModel,
            Seq<char>,
        >(args),
    ensures
        flag == "--project"@ || flag == "-p"@ ==> start_args(
            separator,
            words + seq![flag, word],
            no_args(default_project),
            default_project,
        ) == Ok::<ArgsModel, Seq<char>>(
            ArgsModel { project: joined(separator, default_project, word), ..args },
        ),
        flag == "--duration"@ || flag == "-d"@ ==> start_args(
            separator,
            words + seq![flag, word],
            no_args(default_project),
            default_project,
        ) == (match duration_of(word) {
            Ok(secs) => Ok::<ArgsModel, Seq<char>>(ArgsModel { duration: Some(secs), ..args }),
            Err(message) => Err::<ArgsModel, Seq<char>>(message),
        }),
{
    reveal_with_fuel(start_args, 3);
    lemma_different_flags();
    let pair = seq![flag, word];
    lemma_start_goes_on(separator, words, pair, no_args(default_project), default_project);
    assert(pair.skip(2) =~= seq![]);
    assert(pair[0] == flag && pair[1] == word);
}

proof fn lemma_start_one(
    separator: char,
    words: Seq<Seq<char>>,
    args: ArgsModel,
    default_project: Seq<char>,
    word: Seq<char>,
)
    requires
        without_goal_option(words),
        start_args(separator, words, no_args(default_project), default_project) == Ok::<
            ArgsModel,
            Seq<char>,
        >(args),
    ensures
        ({
            let read = start_args(
                separator,
                words + seq![word],
                no_args(default_project),
                default_project,
            );
            let goal = Ok::<ArgsModel, Seq<char>>(ArgsModel { goal: args.goal.push(word), ..args });
            &&& word == "--skip-git-repo-check"@ ==> read == Ok::<ArgsModel, Seq<char>>(
                ArgsModel { skip_git_repo_check: true, ..args },
            )
            &&& word == "--project"@ || word == "-p"@ ==> read == refused(
                "Missing value after --project."@,
            )
            &&& word == "--duration"@ || word == "-d"@ ==> read == refused(
                "Missing value after --duration."@,
            )
            &&& word == "--goal"@ || word == "-g"@ ==> read == refused(
                "Missing value after --goal."@,
            )
            &&& is_plain(word) && args.duration is Some ==> read == goal
            &&& is_plain(word) && args.duration is None && duration_of(word) is Ok ==> read
                == Ok::<ArgsModel, Seq<char>>(
                ArgsModel { duration: Some(duration_of(word)->Ok_0), ..args },
            )
            &&& is_plain(word) && duration_of(word) is Err && !starts_with_digit(word) ==> read
                == goal
            &&& is_plain(word) && args.duration is None && duration_of(word) is Err
                && starts_with_digit(word) ==> read == refused(
                duration_of(word)->Err_0
                    + ". First positional argument must be a valid duration or part of the goal."@,
            )
        }),
{
    reveal_with_fuel(start_args, 3);
    lemma_different_flags();
    let one = seq![word];
    lemma_start_goes_on(separator, words, one, no_args(default_project), default_project);
    assert(one.skip(1) =~= seq![]);
    assert(one[0] == word);
}

proof fn lemma_longer_goal(goal: Seq<Seq<char>>, word: Seq<char>)
    requires
        trim_of(join_of(goal, " "@)).len() > 0,
    ensures
        goal.len() > 0,
        join_of(goal.push(word), " "@) == join_of(goal, " "@) + " "@ + word,
        trim_of(join_of(goal.push(word), " "@)).len() > 0,
{
    let before = join_of(goal, " "@);
    let (i, j) = lemma_trim_bounds(before);
    let longer = goal.push(word);
    assert(longer.drop_last() =~= goal);
    let after = join_of(longer, " "@);
    assert(after == before + " "@ + word);
    if trim_of(after).len() == 0 {
        let (k, l) = lemma_trim_bounds(after);
        assert(after[i] == before[i]);
        assert(is_space(after[i]));
    }
}

/// What a word adds to a command that asks for a new run. An option behind it changes its own part
/// of the run and nothing else, wherever the run time and the goal stand, and any other word joins
/// the goal.
pub proof fn law_options_change_their_part(
    separator: char,
    words: Seq<Seq<char>>,
    default_project: Seq<char>,
    request: RequestModel,
    word: Seq<char>,
)
    requires
        without_goal_option(words),
        slash_of(separator, Some(words), default_project) == Ok::<SlashModel, Seq<char>>(
            SlashModel::Start(request),
        ),
    ensures
        ({
            let read = |next: Seq<Seq<char>>|
                slash_of(separator, Some(words + next), default_project);
            let asks = |request: RequestModel|
                Ok::<SlashModel, Seq<char>>(SlashModel::Start(request));
            let project = RequestModel {
                project: joined(separator, default_project, word),
                ..request
            };
            let goal = RequestModel { goal: request.goal + " "@ + word, ..request };
            &&& !request.resume
            &&& read(seq!["--project"@, word]) == asks(project)
            &&& read(seq!["-p"@, word]) == asks(project)
            &&& read(seq!["--skip-git-repo-check"@]) == asks(
                RequestModel { skip_git_repo_check: true, ..request },
            )
            &&& duration_of(word) matches Ok(secs) ==> {
                let longer = RequestModel { duration: Some(secs), ..request };
                &&& secs > 0 ==> read(seq!["--duration"@, word]) == asks(longer)
                &&& secs > 0 ==> read(seq!["-d"@, word]) == asks(longer)
                &&& secs > 0 && is_plain(word) && request.duration is None ==> read(seq![word])
                    == asks(longer)
                &&& secs == 0 ==> read(seq!["--duration"@, word]) is Err
                &&& secs == 0 && is_plain(word) && request.duration is None ==> read(seq![word])
                    is Err
            }
            &&& duration_of(word) is Err ==> read(seq!["--duration"@, word]) is Err
            &&& is_plain(word) && request.duration is Some ==> read(seq![word]) == asks(goal)
            &&& is_plain(word) && duration_of(word) is Err && !starts_with_digit(word) ==> read(
                seq![word],
            ) == asks(goal)
        }),
{
    lemma_different_flags();
    let args = start_args(separator, words, no_args(default_project), default_project)->Ok_0;
    law_words_of_a_new_run(separator, words, args, default_project, word, seq![]);
    lemma_longer_goal(args.goal, word);
    assert(words.len() > 0);
    assert((words + seq!["--project"@, word])[0] == words[0]);
    assert((words + seq!["-p"@, word])[0] == words[0]);
    assert((words + seq!["--duration"@, word])[0] == words[0]);
    assert((words + seq!["-d"@, word])[0] == words[0]);
    assert((words + seq!["--skip-git-repo-check"@])[0] == words[0]);
    assert((words + seq![word])[0] == words[0]);
}

/// What a single word asks for. Without words there is nothing to do, and where the words cannot
/// be told apart nothing is done; `stop`, in any case, ends a run; and any other word that is no
/// option, no run time and not blank is a goal, for a run in the default project that does not
/// end and does not skip the check.
pub proof fn law_one_word(separator: char, word: Seq<char>, default_project: Seq<char>)
    ensures
        slash_of(separator, None, default_project) is Err,
        slash_of(separator, Some(Seq::<Seq<char>>::empty()), default_project) == Err::<
            SlashModel,
            Seq<char>,
        >(AUTOMODE_USAGE@),
        slash_of(separator, Some(seq![word]), default_project) == Ok::<SlashModel, Seq<char>>(
            SlashModel::Stop,
        ) <==> same_ignoring_case(word, "stop"@),
        same_ignoring_case(word, "resume"@) && !same_ignoring_case(word, "stop"@) ==> slash_of(
            separator,
            Some(seq![word]),
            default_project,
        ) == Ok::<SlashModel, Seq<char>>(
            SlashModel::Resume(
                ResumeModel {
                    project: default_project,
                    duration: None,
                    skip_git_repo_check: false,
                },
            ),
        ),
        !same_ignoring_case(word, "stop"@) && !same_ignoring_case(word, "resume"@) && is_plain(word)
            && duration_of(word) is Err && !starts_with_digit(word) && trim_of(word).len() > 0
            ==> slash_of(separator, Some(seq![word]), default_project) == Ok::<
            SlashModel,
            Seq<char>,
        >(
            SlashModel::Start(
                RequestModel {
                    project: default_project,
                    duration: None,
                    goal: word,
                    skip_git_repo_check: false,
                    resume: false,
                },
            ),
        ),
{
    reveal_with_fuel(resume_args, 2);
    let one = seq![word];
    assert(one.skip(1) =~= seq![]);
    assert(one[0] == word);
    lemma_different_flags();
    lemma_start_one(
        separator,
        seq![],
        no_args(default_project),
        default_project,
        word,
    );
    assert(seq![] + one =~= one);
    let goal = no_args(default_project).goal.push(word);
    assert(goal =~= one);
    assert(join_of(one, " "@) == word);
}

proof fn lemma_resume_goes_on(
    separator: char,
    words: Seq<Seq<char>>,
    more: Seq<Seq<char>>,
    args: ArgsModel,
    default_project: Seq<char>,
)
    requires
        resume_args(separator, words, args, default_project) is Ok,
    ensures
        resume_args(separator, words + more, args, default_project) == resume_args(
            separator,
            more,
            resume_args(separator, words, args, default_project)->Ok_0,
            default_project,
        ),
    decreases words.len(),
{
    let all = words + more;
    if words.len() == 0 {
        assert(all =~= more);
    } else {
        assert(all[0] == words[0]);
        assert(all.skip(1) =~= words.skip(1) + more);
        if words.len() >= 2 {
            assert(all[1] == words[1]);
            assert(all.skip(2) =~= words.skip(2) + more);
        }
        let token = words[0];
        if token == "--project"@ || token == "-p"@ {
            let next = ArgsModel { project: joined(separator, default_project, words[1]), ..args };
            lemma_resume_goes_on(separator, words.skip(2), more, next, default_project);
        } else if token == "--duration"@ || token == "-d"@ {
            let next = ArgsModel { duration: Some(duration_of(words[1])->Ok_0), ..args };
            lemma_resume_goes_on(separator, words.skip(2), more, next, default_project);
        } else if token == "--skip-git-repo-check"@ {
            let next = ArgsModel { skip_git_repo_check: true, ..args };
            lemma_resume_goes_on(separator, words.skip(1), more, next, default_project);
        } else {
            let next = ArgsModel { duration: Some(duration_of(token)->Ok_0), ..args };
            lemma_resume_goes_on(separator, words.skip(1), more, next, default_project);
        }
    }
}

/// What a word adds to a command that asks for a run to be resumed. An option changes its own part
/// and nothing else. Of the other words only one is accepted, and only as the run time.
pub proof fn law_options_of_a_resumed_run(
    separator: char,
    words: Seq<Seq<char>>,
    default_project: Seq<char>,
    request: ResumeModel,
    word: Seq<char>,
)
    requires
        slash_of(separator, Some(words), default_project) == Ok::<SlashModel, Seq<char>>(
            SlashModel::Resume(request),
        ),
    ensures
        ({
            let read = |next: Seq<Seq<char>>|
                slash_of(separator, Some(words + next), default_project);
            let asks = |request: ResumeModel|
                Ok::<SlashModel, Seq<char>>(SlashModel::Resume(request));
            let project = ResumeModel {
                project: joined(separator, default_project, word),
                ..request
            };
            let other = is_plain(word) || word == "--goal"@ || word == "-g"@;
            &&& read(seq!["--project"@, word]) == asks(project)
            &&& read(seq!["-p"@, word]) == asks(project)
            &&& read(seq!["--skip-git-repo-check"@]) == asks(
                ResumeModel { skip_git_repo_check: true, ..request },
            )
            &&& duration_of(word) matches Ok(secs) ==> {
                let longer = ResumeModel { duration: Some(secs), ..request };
                &&& secs > 0 ==> read(seq!["--duration"@, word]) == asks(longer)
                &&& secs > 0 ==> read(seq!["-d"@, word]) == asks(longer)
                &&& secs > 0 && other && request.duration is None ==> read(seq![word]) == asks(
                    longer,
                )
                &&& secs == 0 ==> read(seq!["--duration"@, word]) is Err
            }
            &&& duration_of(word) is Err ==> read(seq!["--duration"@, word]) is Err
            &&& other && request.duration is Some ==> read(seq![word]) == Err::<
                SlashModel,
                Seq<char>,
            >("Unexpected /automode resume argument: "@ + word)
            &&& other && request.duration is None && duration_of(word) is Err ==> read(seq![word])
                == Err::<SlashModel, Seq<char>>(
                duration_of(word)->Err_0
                    + ". Resume accepts only an optional duration and flags."@,
            )
        }),
{
    lemma_different_flags();
    let rest = words.skip(1);
    let none = no_args(default_project);
    assert(words.len() > 0);
    lemma_resume_pair(separator, words, default_project, "--project"@, word);
    lemma_resume_pair(separator, words, default_project, "-p"@, word);
    lemma_resume_pair(separator, words, default_project, "--duration"@, word);
    lemma_resume_pair(separator, words, default_project, "-d"@, word);
    lemma_resume_one(separator, words, default_project, "--skip-git-repo-check"@);
    lemma_resume_one(separator, words, default_project, word);
}

proof fn lemma_resume_pair(
    separator: char,
    words: Seq<Seq<char>>,
    default_project: Seq<char>,
    flag: Seq<char>,
    word: Seq<char>,
)
    requires
        slash_of(separator, Some(words), default_project) matches Ok(SlashModel::Resume(_)),
    ensures
        ({
            let args = resume_args(
                separator,
                words.skip(1),
                no_args(default_project),
                default_project,
            )->Ok_0;
            let all = words + seq![flag, word];
            let next = resume_args(separator, seq![flag, word], args, default_project);
            &&& words.len() > 0
            &&& slash_of(separator, Some(words), default_project)
                == crate::session::command::resume_of(args)
            &&& slash_of(separator, Some(all), default_project) == (match next {
                Ok(args) => crate::session::command::resume_of(args),
                Err(message) => Err(message),
            })
            &&& flag == "--project"@ || flag == "-p"@ ==> next == Ok::<ArgsModel, Seq<char>>(
                ArgsModel { project: joined(separator, default_project, word), ..args },
            )
            &&& flag == "--duration"@ || flag == "-d"@ ==> next == (match duration_of(word) {
                Ok(secs) => Ok::<ArgsModel, Seq<char>>(ArgsModel { duration: Some(secs), ..args }),
                Err(message) => Err::<ArgsModel, Seq<char>>(message),
            })
        }),
{
    reveal_with_fuel(resume_args, 3);
    lemma_different_flags();
    let pair = seq![flag, word];
    let all = words + pair;
    assert(words.len() > 0);
    assert(all[0] == words[0]);
    assert(all.skip(1) =~= words.skip(1) + pair);
    assert(resume_args(separator, words.skip(1), no_args(default_project), default_project) is Ok);
    lemma_resume_goes_on(
        separator,
        words.skip(1),
        pair,
        no_args(default_project),
        default_project,
    );
    assert(pair.skip(2) =~= seq![]);
    assert(pair[0] == flag && pair[1] == word);
}

proof fn lemma_resume_one(
    separator: char,
    words: Seq<Seq<char>>,
    default_project: Seq<char>,
    word: Seq<char>,
)
    requires
        slash_of(separator, Some(words), default_project) matches Ok(SlashModel::Resume(_)),
    ensures
        ({
            let args = resume_args(
                separator,
                words.skip(1),
                no_args(default_project),
                default_project,
            )->Ok_0;
            let all = words + seq![word];
            let next = resume_args(separator, seq![word], args, default_project);
            let other = is_plain(word) || word == "--goal"@ || word == "-g"@;
            &&& words.len() > 0
            &&& slash_of(separator, Some(words), default_project)
                == crate::session::command::resume_of(args)
            &&& slash_of(separator, Some(all), default_project) == (match next {
                Ok(args) => crate::session::command::resume_of(args),
                Err(message) => Err(message),
            })
            &&& word == "--skip-git-repo-check"@ ==> next == Ok::<ArgsModel, Seq<char>>(
                ArgsModel { skip_git_repo_check: true, ..args },
            )
            &&& other && args.duration is None && duration_of(word) is Ok ==> next == Ok::<
                ArgsModel,
                Seq<char>,
            >(ArgsModel { duration: Some(duration_of(word)->Ok_0), ..args })
            &&& other && args.duration is Some ==> next == refused(
                "Unexpected /automode resume argument: "@ + word,
            )
            &&& other && args.duration is None && duration_of(word) is Err ==> next == refused(
                duration_of(word)->Err_0
                    + ". Resume accepts only an optional duration and flags."@,
            )
        }),
{
    reveal_with_fuel(resume_args, 3);
    lemma_different_flags();
    let one = seq![word];
    let all = words + one;
    assert(words.len() > 0);
    assert(all[0] == words[0]);
    assert(all.skip(1) =~= words.skip(1) + one);
    assert(resume_args(separator, words.skip(1), no_args(default_project), default_project) is Ok);
    if words.len() == 1 {
        assert(!same_ignoring_case(words[0], "stop"@));
    }
    lemma_resume_goes_on(
        separator,
        words.skip(1),
        one,
        no_args(default_project),
        default_project,
    );
    assert(one.skip(1) =~= seq![]);
    assert(one[0] == word);
}

/// Adding an option to the command that asks for a new run changes the run in that one respect:
/// the project, the check that is skipped, or the run time. The goal and everything else stays.
pub proof fn law_asking_with_an_option(
    rules: PathRules,
    words: Vec<String>,
    more: Vec<String>,
    default_project: &str,
    value: Seq<char>,
    first: Result<AutomodeSlashArgs, String>,
    second: Result<AutomodeSlashArgs, String>,
)
    requires
        call_ensures(parse_automode_words, (rules, Some(words), default_project), first),
        call_ensures(parse_automode_words, (rules, Some(more), default_project), second),
        without_goal_option(texts(words@)),
        first matches Ok(AutomodeSlashArgs::Command(AutomodeSlashCommand::Start(_))),
    ensures
        ({
            let before = slash_result(first)->Ok_0->Start_0;
            let asks = |request: RequestModel|
                slash_result(second) == Ok::<SlashModel, Seq<char>>(SlashModel::Start(request));
            let added = |extra: Seq<Seq<char>>| texts(more@) == texts(words@) + extra;
            &&& added(seq!["--project"@, value]) || added(seq!["-p"@, value]) ==> asks(
                RequestModel { project: joined(rules@, default_project@, value), ..before },
            )
            &&& added(seq!["--skip-git-repo-check"@]) ==> asks(
                RequestModel { skip_git_repo_check: true, ..before },
            )
            &&& (added(seq!["--duration"@, value]) || added(seq!["-d"@, value])) && duration_of(
                value,
            ) is Ok && duration_of(value)->Ok_0 > 0 ==> asks(
                RequestModel { duration: Some(duration_of(value)->Ok_0), ..before },
            )
            &&& added(seq![value]) && is_plain(value) && (before.duration is Some || (duration_of(
                value,
            ) is Err && !starts_with_digit(value))) ==> asks(
                RequestModel { goal: before.goal + " "@ + value, ..before },
            )
        }),
{
    let request = slash_result(first)->Ok_0->Start_0;
    law_options_change_their_part(rules@, texts(words@), default_project@, request, value);
}

/// The same of what the user types, as long as the words stand for themselves.
pub proof fn law_typing_an_option(
    rules: PathRules,
    raw: &str,
    longer: &str,
    default_project: &str,
    words: Seq<Seq<char>>,
    value: Seq<char>,
    first: Result<AutomodeSlashArgs, String>,
    second: Result<AutomodeSlashArgs, String>,
)
    requires
        call_ensures(parse_automode_slash_args, (rules, raw, default_project), first),
        call_ensures(parse_automode_slash_args, (rules, longer, default_project), second),
        plain_words(words),
        plain_words(words + seq!["--project"@, value]),
        raw@ == join_of(words, " "@),
        longer@ == join_of(words + seq!["--project"@, value], " "@),
        without_goal_option(words),
        slash_result(first) matches Ok(SlashModel::Start(_)),
    ensures
        slash_result(second) == Ok::<SlashModel, Seq<char>>(
            SlashModel::Start(
                RequestModel {
                    project: joined(rules@, default_project@, value),
                    ..slash_result(first)->Ok_0->Start_0
                },
            ),
        ),
{
    let request = slash_result(first)->Ok_0->Start_0;
    law_options_change_their_part(rules@, words, default_project@, request, value);
}

/// What arguments ask for: a run with that project, that run time and that check, whose goal is the
/// words of the goal with a space between each two. It is refused if the goal is blank, or if it is
/// to last no time at all.
pub proof fn law_what_arguments_ask_for(args: ArgsModel)
    ensures
        ({
            let goal = join_of(args.goal, " "@);
            let none = args.duration is Some && args.duration->0 == 0;
            &&& start_of(args) is Ok <==> !none && trim_of(goal).len() > 0
            &&& start_of(args) is Ok ==> start_of(args)->Ok_0 == SlashModel::Start(
                RequestModel {
                    project: args.project,
                    duration: args.duration,
                    goal,
                    skip_git_repo_check: args.skip_git_repo_check,
                    resume: false,
                },
            )
            &&& resume_of(args) is Ok <==> !none
            &&& resume_of(args) is Ok ==> resume_of(args)->Ok_0 == SlashModel::Resume(
                ResumeModel {
                    project: args.project,
                    duration: args.duration,
                    skip_git_repo_check: args.skip_git_repo_check,
                },
            )
            &&& none ==> start_of(args)->Err_0 == "Duration must be greater than zero."@
            &&& !none && trim_of(goal).len() == 0 ==> start_of(args)->Err_0
                == "Automode goal must not be empty."@
        }),
{
}

/// The first word tells what a command is about: to resume a run, or else to start one, with all
/// of its words. A single word may also be the wish to stop.
pub proof fn law_the_first_word(
    separator: char,
    words: Seq<Seq<char>>,
    default_project: Seq<char>,
)
    requires
        words.len() > 0,
        words.len() > 1 || !same_ignoring_case(words[0], "stop"@),
    ensures
        ({
            let nothing = ArgsModel {
                project: default_project,
                duration: None,
                goal: seq![],
                skip_git_repo_check: false,
            };
            let read = slash_of(separator, Some(words), default_project);
            if same_ignoring_case(words[0], "resume"@) {
                match resume_args(separator, words.skip(1), nothing, default_project) {
                    Ok(args) => read == resume_of(args),
                    Err(message) => read == Err::<SlashModel, Seq<char>>(message),
                }
            } else {
                match start_args(separator, words, nothing, default_project) {
                    Ok(args) => read == start_of(args),
                    Err(message) => read == Err::<SlashModel, Seq<char>>(message),
                }
            }
        }),
{
}

/// The command that is shown for a run, typed again, asks for that run, as long as its words stand
/// for themselves.
pub proof fn law_typing_what_is_shown(
    rules: PathRules,
    request: AutomodeStartRequest,
    goal: Seq<Seq<char>>,
    shown: String,
    raw: &str,
    default_project: &str,
    read: Result<AutomodeSlashArgs, String>,
)
    requires
        call_ensures(format_automode_command, (&request,), shown),
        call_ensures(parse_automode_slash_args, (rules, raw, default_project), read),
        can_be_asked_for(rules@, request@, goal),
        plain_words(command_words(request@, goal)),
        shown@ == "/automode "@ + raw@,
    ensures
        slash_result(read) == Ok::<SlashModel, Seq<char>>(asked_for(request@)),
{
    law_shown_command_is_read_back(rules@, request@, goal, default_project@);
    let words = command_words(request@, goal);
    let head = "/automode "@;
    assert((head + raw@).skip(head.len() as int) =~= raw@);
    assert((head + join_of(words, " "@)).skip(head.len() as int) =~= join_of(words, " "@));
    assert(raw@ == join_of(words, " "@));
}

} // verus!
