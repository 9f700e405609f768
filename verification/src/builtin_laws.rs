//! What each builtin does: what it asks of the host, what it prints, and what it
//! changes.

use vstd::prelude::*;
use vstd::utf8::*;
use crate::builtin;
use crate::builtin::{KnownModel, ResultModel, StepModel};
use crate::builtin_run;
use crate::builtin_run::{BuiltinStageModel, HostReplyModel};
use crate::capability::GrantModel;
use crate::host_action::{ActionModel, ReplyModel};
use crate::shell_ir::BuiltinModel;
use crate::terminal_session;
use crate::terminal_session::{FactsModel, SessionModel};
use crate::text;
use crate::text_laws;
use crate::text_map;
use crate::text_order;

verus! {

/// A builtin that succeeded and printed something.
pub open spec fn printed(bytes: Seq<u8>) -> ResultModel {
    ResultModel { stdout: bytes, stderr: Seq::empty(), exit_code: 0 }
}

/// A builtin that failed and said why on standard error.
pub open spec fn complained(message: Seq<char>) -> ResultModel {
    ResultModel { stdout: Seq::empty(), stderr: encode_utf8(message.push('\n')), exit_code: 1 }
}

/// Whether a builtin has failed: it printed nothing, and its exit code is 1.
pub open spec fn has_failed(stage: BuiltinStageModel) -> bool {
    stage matches BuiltinStageModel::Ended(result) && result.exit_code == 1 && result.stdout.len()
        == 0
}

proof fn lemma_failure(message: Seq<char>)
    ensures
        builtin::failure(message) == complained(message),
{
    reveal_strlit("\n");
    assert(message + "\n"@ =~= message.push('\n'));
}

proof fn lemma_echo_joined(args: Seq<Seq<char>>)
    ensures
        builtin::echo_text(args) == text_laws::joined(args, ' '),
    decreases args.len(),
{
    if args.len() > 1 {
        lemma_echo_joined(args.drop_last());
    }
}

/// `echo` prints its arguments in order, with one space between every two
/// neighbours and a line break at the end.
pub proof fn echo_prints_its_arguments(
    args: Seq<Seq<char>>,
    session: SessionModel,
    known: KnownModel,
)
    ensures
        builtin::first_step(BuiltinModel::Echo(args), session, known) == StepModel::Finished(
            printed(encode_utf8(text_laws::joined(args, ' ').push('\n'))),
        ),
        builtin_run::started(BuiltinModel::Echo(args), session) == BuiltinStageModel::Ended(
            printed(encode_utf8(text_laws::joined(args, ' ').push('\n'))),
        ),
{
    lemma_echo_joined(args);
}

/// What `echo` prints, without its line break, splits at spaces into the
/// arguments again, however many there are; one more argument is printed behind
/// one more space.
pub proof fn echo_can_be_split_again(args: Seq<Seq<char>>, more: Seq<char>)
    ensures
        args.len() > 0 && text_laws::all_free_of(args, seq![' ']) ==> text::split(
            builtin::echo_text(args),
            seq![' '],
        ) == args,
        args.len() > 0 ==> builtin::echo_text(args.push(more)) == builtin::echo_text(args) + seq![
            ' ',
        ] + more,
        builtin::echo_text(seq![more]) == more,
        builtin::echo_text(Seq::empty()) == Seq::<char>::empty(),
{
    lemma_echo_joined(args);
    let space = seq![' '];
    assert(space.contains(' ')) by {
        assert(space[0] == ' ');
    }
    if args.len() > 0 && text_laws::all_free_of(args, space) {
        text_laws::splitting_undoes_joining(args, ' ', space);
    }
    assert(args.push(more).drop_last() =~= args);
    assert(builtin::echo_text(args).push(' ') =~= builtin::echo_text(args) + space);
}

/// The line of a variable.
pub open spec fn env_line(pair: (Seq<char>, Seq<char>)) -> Seq<char> {
    pair.0.push('=') + pair.1.push('\n')
}

proof fn lemma_env_lines(pairs: Seq<(Seq<char>, Seq<char>)>)
    ensures
        builtin::env_text(pairs) == pairs.map_values(
            |pair: (Seq<char>, Seq<char>)| env_line(pair),
        ).flatten(),
    decreases pairs.len(),
{
    let lines = pairs.map_values(|pair: (Seq<char>, Seq<char>)| env_line(pair));
    if pairs.len() == 0 {
        assert(lines =~= Seq::empty());
        assert(lines.flatten() =~= Seq::empty());
    } else {
        lemma_env_lines(pairs.drop_last());
        let rest = pairs.drop_last().map_values(|pair: (Seq<char>, Seq<char>)| env_line(pair));
        assert(rest =~= lines.drop_last());
        lines.lemma_flatten_and_flatten_alt_are_equivalent();
        rest.lemma_flatten_and_flatten_alt_are_equivalent();
        reveal_strlit("=");
        reveal_strlit("\n");
        let before = builtin::env_text(pairs.drop_last());
        let last = pairs.last();
        assert(lines.last() == env_line(last));
        assert(before + last.0 + "="@ + last.1 + "\n"@ =~= before + env_line(last));
    }
}

/// `env` prints the overlay and nothing else: a line `NAME=value` for each of
/// its variables, in the order of their names.
pub proof fn env_prints_the_overlay(
    session: SessionModel,
    known: KnownModel,
    pairs: Seq<(Seq<char>, Seq<char>)>,
)
    requires
        text_order::increasing(text_map::keys_of(pairs)),
        text_map::map_of(pairs) == session.env,
    ensures
        builtin::first_step(BuiltinModel::Env, session, known) == StepModel::Finished(
            printed(
                encode_utf8(
                    pairs.map_values(
                        |pair: (Seq<char>, Seq<char>)| env_line(pair),
                    ).flatten(),
                ),
            ),
        ),
{
    assert(text_map::is_ordered_form(pairs, session.env));
    text_map::lemma_pairs_unique(pairs, text_map::ordered_pairs(session.env));
    lemma_env_lines(pairs);
}

/// `pwd` prints where the session stands below its workspace root: `.` at the
/// root, and else the names on the way with slashes between them.
pub proof fn pwd_prints_the_working_directory(
    session: SessionModel,
    known: KnownModel,
    names: Seq<Seq<char>>,
)
    requires
        session.spec.grant.trees.len() > 0,
        session.cwd == session.spec.grant.trees[0].root + names,
        forall|i: int| 0 <= i < names.len() ==> text_laws::is_entry_name(#[trigger] names[i]),
    ensures
        names.len() == 0 ==> builtin::first_step(BuiltinModel::Pwd, session, known)
            == StepModel::Finished(printed(encode_utf8(seq!['.', '\n']))),
        names.len() > 0 ==> builtin::first_step(BuiltinModel::Pwd, session, known)
            == StepModel::Finished(
            printed(encode_utf8(text_laws::joined(names, '/').push('\n'))),
        ),
{
    reveal_strlit(".");
    reveal_strlit("\n");
    let root = session.spec.grant.trees[0].root;
    let text = session.cwd_text();
    text_laws::absolute_paths_are_read_as_written(names);
    assert(session.cwd.skip(root.len() as int) =~= names);
    if names.len() == 0 {
        assert(session.cwd =~= root);
        assert("."@ + "\n"@ =~= seq!['.', '\n']);
    } else {
        assert(session.cwd.len() != root.len());
        assert(text + "\n"@ =~= text.push('\n'));
    }
}

/// Whether a path is written as names, one directory after the other.
pub open spec fn spells(path: Seq<char>, names: Seq<Seq<char>>) -> bool {
    &&& names.len() > 0
    &&& path == text_laws::joined(names, '/')
    &&& forall|i: int| 0 <= i < names.len() ==> text_laws::is_entry_name(#[trigger] names[i])
}

/// Whether the host found something inside the grant.
pub open spec fn is_found(facts: FactsModel, grant: GrantModel) -> bool {
    facts.actual is Some && grant.covers(facts.actual->0)
}

proof fn lemma_target(session: SessionModel, path: Seq<char>, names: Seq<Seq<char>>)
    requires
        spells(path, names),
    ensures
        terminal_session::target_from(session.cwd, path) == Ok::<
            Seq<Seq<char>>,
            terminal_session::SessionFault,
        >(session.cwd + names),
{
    text_laws::paths_lead_where_their_names_say(session.cwd, names);
}

/// A builtin that works on something that exists first has it looked up, below
/// the working directory.
pub proof fn builtins_look_up_what_they_are_given(
    session: SessionModel,
    path: Seq<char>,
    other: Seq<char>,
    names: Seq<Seq<char>>,
)
    requires
        spells(path, names),
    ensures
        builtin_run::started(BuiltinModel::Cd(path), session) == BuiltinStageModel::LookUp(
            session.cwd + names,
        ),
        builtin_run::started(BuiltinModel::Ls(path), session) == BuiltinStageModel::LookUp(
            session.cwd + names,
        ),
        builtin_run::started(BuiltinModel::Cat(path), session) == BuiltinStageModel::LookUp(
            session.cwd + names,
        ),
        builtin_run::started(BuiltinModel::Remove(path), session) == BuiltinStageModel::LookUp(
            session.cwd + names,
        ),
        builtin_run::started(BuiltinModel::Copy(path, other), session)
            == BuiltinStageModel::LookUp(session.cwd + names),
        builtin_run::started(BuiltinModel::Move(path, other), session)
            == BuiltinStageModel::LookUp(session.cwd + names),
        builtin_run::started(BuiltinModel::Mkdir(path), session) matches BuiltinStageModel::Locate(
            target,
            _,
        ) && target == session.cwd + names,
{
    lemma_target(session, path, names);
}

/// `cd` goes to a directory that exists in the grant, below the working
/// directory, and prints nothing; else it stays where it is and fails.
pub proof fn cd_goes_to_the_directory(
    session: SessionModel,
    path: Seq<char>,
    names: Seq<Seq<char>>,
    facts: FactsModel,
)
    requires
        spells(path, names),
    ensures
        ({
            let stage = BuiltinStageModel::LookUp(session.cwd + names);
            let reply = HostReplyModel::Facts(facts);
            let after = builtin_run::advanced(stage, BuiltinModel::Cd(path), session, reply);
            let moved = builtin_run::session_advanced(
                stage,
                BuiltinModel::Cd(path),
                session,
                reply,
            );
            if is_found(facts, session.spec.grant) && facts.is_dir {
                &&& after == BuiltinStageModel::Ended(printed(Seq::empty()))
                &&& moved == (SessionModel { cwd: session.cwd + names, ..session })
            } else {
                &&& has_failed(after)
                &&& moved == session
            }
        }),
{
    lemma_target(session, path, names);
}

/// What `ls` and `cat` have read, and how far their budget lets them print it.
pub proof fn listings_and_files_are_read_and_printed(
    session: SessionModel,
    path: Seq<char>,
    names: Seq<Seq<char>>,
    facts: FactsModel,
    bytes: Seq<u8>,
    error: Seq<char>,
    host_path: Option<Seq<char>>,
)
    requires
        spells(path, names),
    ensures
        ({
            let ls = BuiltinModel::Ls(path);
            let cat = BuiltinModel::Cat(path);
            let target = session.cwd + names;
            let budget = session.spec.limits.output_bound();
            let looked = BuiltinStageModel::LookUp(target);
            let told = HostReplyModel::Facts(facts);
            let listed = BuiltinStageModel::Perform(ActionModel::ReadDirectory(target), host_path);
            let read = BuiltinStageModel::Perform(
                ActionModel::ReadFile(target, Some(budget)),
                host_path,
            );
            let got = HostReplyModel::Fs(ReplyModel::Bytes(Ok(bytes)));
            &&& is_found(facts, session.spec.grant) ==> builtin_run::advanced(
                looked,
                ls,
                session,
                told,
            ) == BuiltinStageModel::Perform(ActionModel::ReadDirectory(target), None)
            &&& is_found(facts, session.spec.grant) && !facts.is_dir ==> builtin_run::advanced(
                looked,
                cat,
                session,
                told,
            ) == BuiltinStageModel::Perform(ActionModel::ReadFile(target, Some(budget)), None)
            &&& is_found(facts, session.spec.grant) && facts.is_dir ==> builtin_run::advanced(
                looked,
                cat,
                session,
                told,
            ) == BuiltinStageModel::Ended(complained("cat: is a directory"@))
            &&& bytes.len() <= budget ==> builtin_run::advanced(read, cat, session, got)
                == BuiltinStageModel::Ended(printed(bytes))
            &&& bytes.len() > budget ==> builtin_run::advanced(read, cat, session, got)
                == BuiltinStageModel::Ended(printed(bytes.take(budget as int)))
            &&& builtin_run::advanced(
                read,
                cat,
                session,
                HostReplyModel::Fs(ReplyModel::Bytes(Err(error))),
            ) == BuiltinStageModel::Ended(complained("cat: "@ + error))
            &&& builtin_run::advanced(
                listed,
                ls,
                session,
                HostReplyModel::Fs(ReplyModel::Names(Err(error))),
            ) == BuiltinStageModel::Ended(complained("ls: "@ + error))
        }),
{
    lemma_target(session, path, names);
    lemma_failure("cat: is a directory"@);
    lemma_failure("cat: "@ + error);
    lemma_failure("ls: "@ + error);
}

/// The lines of some names.
pub open spec fn lines_of(names: Seq<Seq<char>>) -> Seq<Seq<u8>> {
    names.map_values(|name: Seq<char>| encode_utf8(name.push('\n')))
}

proof fn lemma_listing(names: Seq<Seq<char>>, budget: nat) -> (k: int)
    ensures
        0 <= k <= names.len(),
        builtin::listing(names, budget) == lines_of(names.take(k)).flatten(),
        lines_of(names.take(k)).flatten().len() <= budget,
        k < names.len() ==> lines_of(names.take(k)).flatten().len() + encode_utf8(
            names[k].push('\n'),
        ).len() > budget,
    decreases names.len(),
{
    reveal_strlit("\n");
    if names.len() == 0 {
        assert(lines_of(names.take(0)) =~= Seq::empty());
        assert(lines_of(names.take(0)).flatten() =~= Seq::empty());
        0
    } else {
        assert(names[0] + "\n"@ =~= names[0].push('\n'));
        let line = encode_utf8(names[0].push('\n'));
        if line.len() > budget {
            assert(lines_of(names.take(0)) =~= Seq::empty());
            assert(lines_of(names.take(0)).flatten() =~= Seq::empty());
            0
        } else {
            let rest = names.skip(1);
            let k = lemma_listing(rest, (budget - line.len()) as nat);
            let lines = lines_of(names.take(k + 1));
            assert(lines.drop_first() =~= lines_of(rest.take(k)));
            assert(lines.first() == line);
            assert(lines.flatten() == line + lines.drop_first().flatten());
            if k < rest.len() {
                assert(rest[k] == names[k + 1]);
            }
            k + 1
        }
    }
}

/// `ls` prints the names of the entries in order, a line each: as many of the
/// first lines as its budget holds, and no part of a line.
pub proof fn ls_prints_sorted_names(
    session: SessionModel,
    path: Seq<char>,
    target: Seq<Seq<char>>,
    names: Seq<Seq<char>>,
    sorted: Seq<Seq<char>>,
    host_path: Option<Seq<char>>,
) -> (k: int)
    requires
        text_order::is_sorted_form(sorted, names),
    ensures
        0 <= k <= sorted.len(),
        builtin_run::advanced(
            BuiltinStageModel::Perform(ActionModel::ReadDirectory(target), host_path),
            BuiltinModel::Ls(path),
            session,
            HostReplyModel::Fs(ReplyModel::Names(Ok(names))),
        ) == BuiltinStageModel::Ended(printed(lines_of(sorted.take(k)).flatten())),
        lines_of(sorted.take(k)).flatten().len() <= session.spec.limits.output_bound(),
        k < sorted.len() ==> lines_of(sorted.take(k)).flatten().len() + encode_utf8(
            sorted[k].push('\n'),
        ).len() > session.spec.limits.output_bound(),
{
    text_order::lemma_sorted_unique(sorted, text_order::sorted(names));
    lemma_listing(sorted, session.spec.limits.output_bound() as nat)
}

/// `mkdir` creates the directory it is given, `rm` removes the directory or the
/// file that it is given, each below the working directory, where the grant lets
/// it, and says so where it does not.
pub proof fn directories_and_files_are_made_and_removed(
    session: SessionModel,
    path: Seq<char>,
    names: Seq<Seq<char>>,
    facts: FactsModel,
    landing: Option<Seq<Seq<char>>>,
    before: FactsModel,
)
    requires
        spells(path, names),
    ensures
        ({
            let target = session.cwd + names;
            let grant = session.spec.grant;
            let made = builtin_run::advanced(
                BuiltinStageModel::Locate(target, before),
                BuiltinModel::Mkdir(path),
                session,
                HostReplyModel::Landing(landing),
            );
            let removed = builtin_run::advanced(
                BuiltinStageModel::LookUp(target),
                BuiltinModel::Remove(path),
                session,
                HostReplyModel::Facts(facts),
            );
            let reachable = landing is Some && grant.covers(landing->0) && grant.covers(target);
            let writable = landing is Some && grant.covers_write(landing->0)
                && grant.covers_write(target);
            &&& reachable && writable ==> made == BuiltinStageModel::Perform(
                ActionModel::CreateDirectory(target),
                None,
            )
            &&& reachable && !writable ==> made == BuiltinStageModel::Ended(
                complained("mkdir: write denied by capability policy"@),
            )
            &&& !reachable ==> has_failed(made)
            &&& is_found(facts, grant) && grant.covers_write(target) && facts.is_dir ==> removed
                == BuiltinStageModel::Perform(ActionModel::RemoveDirectory(target), None)
            &&& is_found(facts, grant) && grant.covers_write(target) && !facts.is_dir ==> removed
                == BuiltinStageModel::Perform(ActionModel::RemoveFile(target), None)
            &&& is_found(facts, grant) && !grant.covers_write(target) ==> removed
                == BuiltinStageModel::Ended(
                complained("rm: delete denied by capability policy"@),
            )
            &&& !is_found(facts, grant) ==> has_failed(removed)
        }),
{
    lemma_target(session, path, names);
    lemma_failure("mkdir: write denied by capability policy"@);
    lemma_failure("rm: delete denied by capability policy"@);
}

/// `cp` copies what the first path names to what the second names, and `mv`
/// renames it so, both below the working directory: the source is looked up,
/// the destination is located, and then the host copies or renames from the one
/// to the other, where the grant lets it.
pub proof fn copies_and_moves_go_from_source_to_destination(
    session: SessionModel,
    from: Seq<char>,
    source: Seq<Seq<char>>,
    to: Seq<char>,
    destination: Seq<Seq<char>>,
    facts: FactsModel,
    landing: Option<Seq<Seq<char>>>,
)
    requires
        spells(from, source),
        spells(to, destination),
        is_found(facts, session.spec.grant),
    ensures
        ({
            let grant = session.spec.grant;
            let here = session.cwd + source;
            let there = session.cwd + destination;
            let looked = BuiltinStageModel::LookUp(here);
            let told = HostReplyModel::Facts(facts);
            let located = BuiltinStageModel::Locate(there, facts);
            let landed = HostReplyModel::Landing(landing);
            let copy = BuiltinModel::Copy(from, to);
            let rename = BuiltinModel::Move(from, to);
            let reachable = landing is Some && grant.covers(landing->0) && grant.covers(there);
            let writable = landing is Some && grant.covers_write(landing->0)
                && grant.covers_write(there);
            &&& builtin_run::advanced(looked, copy, session, told) == located
            &&& builtin_run::advanced(looked, rename, session, told) == located
            &&& reachable && writable ==> builtin_run::advanced(located, copy, session, landed)
                == BuiltinStageModel::Perform(ActionModel::CopyFile(here, there), None)
            &&& reachable && writable && grant.covers_write(here) ==> builtin_run::advanced(
                located,
                rename,
                session,
                landed,
            ) == BuiltinStageModel::Perform(ActionModel::Rename(here, there), None)
            &&& reachable && !writable ==> builtin_run::advanced(located, copy, session, landed)
                == BuiltinStageModel::Ended(
                complained("cp: destination write denied by capability policy"@),
            )
            &&& reachable && (!writable || !grant.covers_write(here)) ==> builtin_run::advanced(
                located,
                rename,
                session,
                landed,
            ) == BuiltinStageModel::Ended(
                complained("mv: operation denied by capability policy"@),
            )
            &&& !reachable ==> {
                &&& has_failed(builtin_run::advanced(located, copy, session, landed))
                &&& has_failed(builtin_run::advanced(located, rename, session, landed))
            }
        }),
{
    lemma_target(session, from, source);
    lemma_target(session, to, destination);
    lemma_failure("cp: destination write denied by capability policy"@);
    lemma_failure("mv: operation denied by capability policy"@);
}

/// What changes the filesystem prints nothing and succeeds once the host has
/// done it, and else fails with the host's reason under the builtin's name.
pub proof fn changes_report_whether_they_were_made(
    session: SessionModel,
    path: Seq<char>,
    other: Seq<char>,
    action: ActionModel,
    host_path: Option<Seq<char>>,
    error: Seq<char>,
)
    ensures
        ({
            let asked = BuiltinStageModel::Perform(action, host_path);
            let done = HostReplyModel::Fs(ReplyModel::Done(Ok(())));
            let failed = HostReplyModel::Fs(ReplyModel::Done(Err(error)));
            let quiet = BuiltinStageModel::Ended(printed(Seq::empty()));
            let mkdir = BuiltinModel::Mkdir(path);
            let rm = BuiltinModel::Remove(path);
            let cp = BuiltinModel::Copy(path, other);
            let mv = BuiltinModel::Move(path, other);
            &&& builtin_run::advanced(asked, mkdir, session, done) == quiet
            &&& builtin_run::advanced(asked, rm, session, done) == quiet
            &&& builtin_run::advanced(asked, cp, session, done) == quiet
            &&& builtin_run::advanced(asked, mv, session, done) == quiet
            &&& builtin_run::advanced(asked, mkdir, session, failed) == BuiltinStageModel::Ended(
                complained("mkdir: "@ + error),
            )
            &&& builtin_run::advanced(asked, rm, session, failed) == BuiltinStageModel::Ended(
                complained("rm: "@ + error),
            )
            &&& builtin_run::advanced(asked, cp, session, failed) == BuiltinStageModel::Ended(
                complained("cp: "@ + error),
            )
            &&& builtin_run::advanced(asked, mv, session, failed) == BuiltinStageModel::Ended(
                complained("mv: "@ + error),
            )
        }),
{
    lemma_failure("mkdir: "@ + error);
    lemma_failure("rm: "@ + error);
    lemma_failure("cp: "@ + error);
    lemma_failure("mv: "@ + error);
}

/// Where a program would stand in each directory of a search path.
pub open spec fn places(directories: Seq<Seq<char>>, name: Seq<char>) -> Seq<Seq<char>> {
    Seq::new(directories.len(), |i: int| directories[i].push('/') + name)
}

/// `which` looks for the program in each directory of the search path, in order:
/// the session's own path where it has one, and else the host's. It prints the
/// first that is a file, and else says that there is none.
pub proof fn which_looks_through_the_search_path(
    session: SessionModel,
    name: Seq<char>,
    directories: Seq<Seq<char>>,
    search: Seq<char>,
    host_path: Option<Seq<char>>,
    found: Option<usize>,
)
    requires
        directories.len() > 0,
        search == text_laws::joined(directories, ':'),
        text_laws::all_free_of(directories, seq![':']),
        forall|i: int|
            0 <= i < directories.len() ==> (#[trigger] directories[i]).len() > 0
                && directories[i].last() != '/',
        name.len() > 0 ==> name[0] != '/',
        if session.env.dom().contains("PATH"@) {
            session.env["PATH"@] == search
        } else {
            host_path == Some(search)
        },
    ensures
        ({
            let which = BuiltinModel::Which(name);
            let known = builtin_run::only_search_path(host_path);
            let asked = BuiltinStageModel::Perform(
                ActionModel::FindFile(places(directories, name)),
                host_path,
            );
            let answer = builtin_run::advanced(
                asked,
                which,
                session,
                HostReplyModel::Fs(ReplyModel::Found(found)),
            );
            &&& builtin::first_step(which, session, known) == StepModel::Perform(
                ActionModel::FindFile(places(directories, name)),
            )
            &&& !session.env.dom().contains("PATH"@) ==> builtin_run::started(which, session)
                == BuiltinStageModel::SearchPath && builtin_run::advanced(
                BuiltinStageModel::SearchPath,
                which,
                session,
                HostReplyModel::SearchPath(host_path),
            ) == asked
            &&& found is Some && found->0 < directories.len() ==> answer
                == BuiltinStageModel::Ended(
                printed(
                    encode_utf8(
                        (directories[found->0 as int].push('/') + name).push('\n'),
                    ),
                ),
            )
            &&& found is None ==> answer == BuiltinStageModel::Ended(
                complained("which: "@ + name + ": not found"@),
            )
        }),
{
    let colon = seq![':'];
    assert(colon.contains(':')) by {
        assert(colon[0] == ':');
    }
    text_laws::splitting_undoes_joining(directories, ':', colon);
    reveal_strlit("/");
    reveal_strlit("\n");
    assert(builtin::candidates(search, name) =~= places(directories, name)) by {
        assert forall|i: int| 0 <= i < directories.len() implies builtin::candidate(
            directories[i],
            name,
        ) == directories[i].push('/') + name by {
            assert(directories[i].len() > 0);
            assert(directories[i] + "/"@ + name =~= directories[i].push('/') + name);
        }
    }
    if found is Some && found->0 < directories.len() {
        let place = directories[found->0 as int].push('/') + name;
        assert(place + "\n"@ =~= place.push('\n'));
    }
    lemma_failure("which: "@ + name + ": not found"@);
}

/// `which` without any search path finds nothing.
pub proof fn which_needs_a_search_path(session: SessionModel, name: Seq<char>)
    requires
        !session.env.dom().contains("PATH"@),
    ensures
        builtin_run::advanced(
            BuiltinStageModel::SearchPath,
            BuiltinModel::Which(name),
            session,
            HostReplyModel::SearchPath(None),
        ) == BuiltinStageModel::Ended(complained("which: "@ + name + ": not found"@)),
{
    lemma_failure("which: "@ + name + ": not found"@);
}

/// `export` sets or removes the variable it names where that is granted, leaves
/// every other one alone and prints nothing; else it changes nothing and fails.
pub proof fn exports_change_the_variable_they_name(
    session: SessionModel,
    name: Seq<char>,
    value: Seq<char>,
    other: Seq<char>,
)
    requires
        other != name,
    ensures
        ({
            let set = BuiltinModel::Export(name, Some(value));
            let unset = BuiltinModel::Export(name, None);
            let after = builtin_run::session_started(set, session);
            let cleared = builtin_run::session_started(unset, session);
            if session.spec.grant.environment.contains(name) {
                &&& builtin_run::started(set, session) == BuiltinStageModel::Ended(
                    printed(Seq::empty()),
                )
                &&& builtin_run::started(unset, session) == BuiltinStageModel::Ended(
                    printed(Seq::empty()),
                )
                &&& after.env.dom().contains(name) && after.env[name] == value
                &&& !cleared.env.dom().contains(name)
                &&& after.env.dom().contains(other) == session.env.dom().contains(other)
                &&& cleared.env.dom().contains(other) == session.env.dom().contains(other)
                &&& session.env.dom().contains(other) ==> after.env[other] == session.env[other]
                    && cleared.env[other] == session.env[other]
                &&& after == (SessionModel { env: after.env, ..session })
                &&& cleared == (SessionModel { env: cleared.env, ..session })
            } else {
                &&& after == session && cleared == session
                &&& has_failed(builtin_run::started(set, session))
                &&& has_failed(builtin_run::started(unset, session))
            }
        }),
{
}

/// No builtin but `cd` and `export` changes the session.
pub proof fn only_cd_and_export_change_the_session(
    builtin: BuiltinModel,
    session: SessionModel,
    stage: BuiltinStageModel,
    reply: HostReplyModel,
)
    requires
        !(builtin is Cd),
        !(builtin is Export),
    ensures
        builtin_run::session_started(builtin, session) == session,
        builtin_run::session_advanced(stage, builtin, session, reply) == session,
{
}

/// A program is looked for below a directory with one slash between them, also
/// where the directory ends in one; a program that is named by an absolute path
/// is looked for there, and an empty directory adds nothing.
pub proof fn programs_are_looked_for_below_a_directory(directory: Seq<char>, name: Seq<char>)
    ensures
        name.len() > 0 && name[0] == '/' ==> builtin::candidate(directory, name) == name,
        name.len() > 0 && name[0] != '/' ==> {
            &&& builtin::candidate(directory.push('/'), name) == directory.push('/') + name
            &&& directory.len() > 0 && directory.last() != '/' ==> builtin::candidate(
                directory,
                name,
            ) == directory.push('/') + name
            &&& builtin::candidate(Seq::empty(), name) == name
        },
{
    reveal_strlit("/");
    assert(directory.push('/').last() == '/');
    assert(directory + "/"@ + name =~= directory.push('/') + name);
}

/// Whether a reply of the host answers what a builtin waits for.
pub open spec fn answers(stage: BuiltinStageModel, reply: HostReplyModel) -> bool {
    match stage {
        BuiltinStageModel::LookUp(_) => reply is Facts,
        BuiltinStageModel::Locate(_, _) => reply is Landing,
        BuiltinStageModel::SearchPath => reply is SearchPath,
        BuiltinStageModel::Perform(_, _) => reply is Fs,
        BuiltinStageModel::Ended(_) => true,
    }
}

/// A builtin that is answered what it did not ask for fails and changes nothing;
/// one that has ended stays as it ended.
pub proof fn builtins_fail_on_other_answers(
    builtin: BuiltinModel,
    session: SessionModel,
    stage: BuiltinStageModel,
    reply: HostReplyModel,
)
    ensures
        !answers(stage, reply) ==> builtin_run::advanced(stage, builtin, session, reply)
            == BuiltinStageModel::Ended(complained("unexpected host reply"@)),
        !answers(stage, reply) ==> builtin_run::session_advanced(stage, builtin, session, reply)
            == session,
        stage is Ended ==> builtin_run::advanced(stage, builtin, session, reply) == stage,
{
    lemma_failure("unexpected host reply"@);
}

/// Whether a reply of the filesystem is of the kind that a builtin asks for.
pub open spec fn is_asked(builtin: BuiltinModel, reply: ReplyModel) -> bool {
    match builtin {
        BuiltinModel::Ls(_) => reply is Names,
        BuiltinModel::Cat(_) => reply is Bytes,
        BuiltinModel::Which(_) => reply is Found,
        BuiltinModel::Mkdir(_)
        | BuiltinModel::Remove(_)
        | BuiltinModel::Copy(_, _)
        | BuiltinModel::Move(_, _) => reply is Done,
        _ => false,
    }
}

/// An operation that is answered by another kind of reply than it asks for counts
/// as failed.
pub proof fn operations_fail_on_other_replies(
    builtin: BuiltinModel,
    session: SessionModel,
    action: ActionModel,
    host_path: Option<Seq<char>>,
    reply: ReplyModel,
)
    requires
        !is_asked(builtin, reply),
    ensures
        builtin_run::advanced(
            BuiltinStageModel::Perform(action, host_path),
            builtin,
            session,
            HostReplyModel::Fs(reply),
        ) == BuiltinStageModel::Ended(complained("unexpected host reply"@)),
{
    lemma_failure("unexpected host reply"@);
}

} // verus!
