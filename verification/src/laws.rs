//! What holds of the library as a whole, proved from the definitions that
//! the contracts of its functions use.

use crate::cargo::dependency_lines;
use crate::errors::CargoPlayError;
use crate::opt::{spec_temp_dirname, Opt};
use crate::paths::{parent_of, relative_to};
use crate::pipeline::{spec_final_code, steps, Action, Event, Run, Stage};
use crate::steps::{
    all_directives, build_args, file_directives, header_directives, is_directive_line,
    is_marker_line, leading_directives, lemma_placeable_is, option_args, release_args, run_args,
    skip_blank, skip_marker, source_plan, spec_cargo_args, toolchain_args,
};
use crate::text::{lemma_lines_concat, lemma_one_line, lines_of};
use vstd::prelude::*;

verus! {

/// The name of the scratch directory depends on the source paths and their
/// order, and on nothing else: two runs on the same paths use the same
/// directory, whatever else they are asked to do and whenever they run.
pub proof fn lemma_same_sources_same_dirname(a: Opt, b: Opt)
    requires
        a.src.deep_view() == b.src.deep_view(),
    ensures
        spec_temp_dirname(a.src.deep_view()) == spec_temp_dirname(b.src.deep_view()),
{
}

/// The run of directive lines at the top of some lines ends at the first
/// line that is no directive line, whatever follows it.
pub proof fn lemma_directives_end_at_other_line(
    head: Seq<Seq<char>>,
    stop: Seq<char>,
    tail: Seq<Seq<char>>,
)
    requires
        !is_directive_line(stop),
    ensures
        leading_directives(head + seq![stop] + tail) == leading_directives(head + seq![stop]),
    decreases head.len(),
{
    let long = head + seq![stop] + tail;
    let short = head + seq![stop];
    if head.len() == 0 {
        assert(long[0] == stop);
        assert(short[0] == stop);
    } else {
        assert(long[0] == head[0]);
        assert(short[0] == head[0]);
        assert(long.skip(1) =~= head.skip(1) + seq![stop] + tail);
        assert(short.skip(1) =~= head.skip(1) + seq![stop]);
        lemma_directives_end_at_other_line(head.skip(1), stop, tail);
    }
}

/// Passing over empty lines does not look beyond the first line that is
/// neither empty nor a directive line.
pub proof fn lemma_blank_lines_end_at_other_line(
    head: Seq<Seq<char>>,
    stop: Seq<char>,
    tail: Seq<Seq<char>>,
)
    requires
        !is_directive_line(stop),
        stop.len() > 0,
    ensures
        leading_directives(skip_blank(head + seq![stop] + tail)) == leading_directives(
            skip_blank(head + seq![stop]),
        ),
    decreases head.len(),
{
    let long = head + seq![stop] + tail;
    let short = head + seq![stop];
    if head.len() == 0 {
        assert(long[0] == stop);
        assert(short[0] == stop);
        lemma_directives_end_at_other_line(head, stop, tail);
    } else {
        assert(long[0] == head[0]);
        assert(short[0] == head[0]);
        if head[0].len() == 0 {
            assert(long.skip(1) =~= head.skip(1) + seq![stop] + tail);
            assert(short.skip(1) =~= head.skip(1) + seq![stop]);
            lemma_blank_lines_end_at_other_line(head.skip(1), stop, tail);
        } else {
            lemma_directives_end_at_other_line(head, stop, tail);
        }
    }
}

/// The header of some lines ends at the first line that is not empty, no
/// marker and no directive line. What stands below that line changes nothing.
pub proof fn lemma_header_ends_at_code(
    head: Seq<Seq<char>>,
    stop: Seq<char>,
    tail: Seq<Seq<char>>,
)
    requires
        !is_directive_line(stop),
        !is_marker_line(stop),
        stop.len() > 0,
    ensures
        header_directives(head + seq![stop] + tail) == header_directives(head + seq![stop]),
{
    let long = head + seq![stop] + tail;
    let short = head + seq![stop];
    if head.len() > 0 && is_marker_line(head[0]) {
        assert(long[0] == head[0]);
        assert(short[0] == head[0]);
        assert(skip_marker(long) =~= head.skip(1) + seq![stop] + tail);
        assert(skip_marker(short) =~= head.skip(1) + seq![stop]);
        lemma_blank_lines_end_at_other_line(head.skip(1), stop, tail);
    } else {
        if head.len() == 0 {
            assert(long[0] == stop);
            assert(short[0] == stop);
        } else {
            assert(long[0] == head[0]);
            assert(short[0] == head[0]);
        }
        lemma_blank_lines_end_at_other_line(head, stop, tail);
    }
}

/// A directive below the first line of code is not found. Let a file begin
/// with the whole lines `head`, go on with a line of code `code` (not empty,
/// no marker and no directive line) and end with `tail`: its directives are
/// those of the file without `tail`.
pub proof fn lemma_directive_below_code_is_not_found(
    head: Seq<char>,
    code: Seq<char>,
    tail: Seq<char>,
)
    requires
        head.len() == 0 || head.last() == '\n',
        code.len() > 0,
        forall|k: int| 0 <= k < code.len() ==> code[k] != '\n',
        code.last() != '\r',
        !is_directive_line(code),
        !is_marker_line(code),
    ensures
        file_directives(head + code.push('\n') + tail) == file_directives(head + code.push('\n')),
{
    let line = code.push('\n');
    assert((head + line).last() == '\n');
    lemma_lines_concat(head + line, tail);
    lemma_lines_concat(head, line);
    lemma_one_line(code);
    lemma_header_ends_at_code(lines_of(head), code, lines_of(tail));
}

/// The directives of several files are those of the first files followed by
/// those of the last files: files are taken in order, each by itself, and
/// nothing is merged.
pub proof fn lemma_directives_concatenate(first: Seq<Seq<char>>, last: Seq<Seq<char>>)
    ensures
        all_directives(first + last) == all_directives(first) + all_directives(last),
    decreases last.len(),
{
    if last.len() == 0 {
        assert(first + last =~= first);
        assert(all_directives(first) + all_directives(last) =~= all_directives(first));
    } else {
        let all = first + last;
        assert(all.drop_last() =~= first + last.drop_last());
        assert(all.last() == last.last());
        lemma_directives_concatenate(first, last.drop_last());
        assert(all_directives(all) =~= all_directives(first) + (all_directives(last.drop_last())
            + file_directives(last.last())));
    }
}

/// The dependencies of a manifest are written in their order, each on its
/// own: the lines of some directives followed by the lines of others are the
/// lines of them all, whether or not a directive occurs twice.
pub proof fn lemma_dependency_lines_concatenate(first: Seq<Seq<char>>, last: Seq<Seq<char>>)
    ensures
        dependency_lines(first + last) == dependency_lines(first) + dependency_lines(last),
    decreases last.len(),
{
    if last.len() == 0 {
        assert(first + last =~= first);
        assert(dependency_lines(first) + dependency_lines(last) =~= dependency_lines(first));
    } else {
        let all = first + last;
        assert(all.drop_last() =~= first + last.drop_last());
        assert(all.last() == last.last());
        lemma_dependency_lines_concatenate(first, last.drop_last());
        assert(dependency_lines(all) =~= dependency_lines(first) + (dependency_lines(
            last.drop_last(),
        ) + last.last() + "\n"@));
    }
}

/// A source file that cannot be reached from the directory of the entry
/// point is the one that the plan names, if every file before it can be
/// reached; and exactly the files before it are placed.
pub proof fn lemma_unreachable_source_is_named(
    temp: Seq<char>,
    sources: Seq<Seq<char>>,
    base: Seq<char>,
    i: int,
)
    requires
        1 <= i < sources.len(),
        parent_of(sources[0]) == Some(base),
        forall|k: int| 1 <= k < i ==> relative_to(#[trigger] sources[k], base) is Some,
        relative_to(sources[i], base) is None,
    ensures
        source_plan(temp, sources).unplaced == Some(sources[i]),
        source_plan(temp, sources).copies.len() == i,
{
    let rest = sources.skip(1);
    assert forall|k: int| 0 <= k < i - 1 implies relative_to(#[trigger] rest[k], base) is Some by {
        assert(rest[k] == sources[k + 1]);
    }
    assert(rest[i - 1] == sources[i]);
    lemma_placeable_is(rest, base, i - 1);
}

/// Where every further source file can be reached from the directory of the
/// entry point, every source file is placed and none is named.
pub proof fn lemma_reachable_sources_are_placed(
    temp: Seq<char>,
    sources: Seq<Seq<char>>,
    base: Seq<char>,
)
    requires
        sources.len() > 0,
        parent_of(sources[0]) == Some(base),
        forall|k: int| 1 <= k < sources.len() ==> relative_to(#[trigger] sources[k], base) is Some,
    ensures
        source_plan(temp, sources).unplaced is None,
        source_plan(temp, sources).copies.len() == sources.len(),
{
    let rest = sources.skip(1);
    assert forall|k: int| 0 <= k < rest.len() implies relative_to(
        #[trigger] rest[k],
        base,
    ) is Some by {
        assert(rest[k] == sources[k + 1]);
    }
    lemma_placeable_is(rest, base, rest.len() as int);
}

/// The arguments of the program reach the build tool as they are: they are
/// the last arguments, in their order, and the separator `--` stands right
/// before them.
pub proof fn lemma_program_args_pass_through(
    toolchain: Option<Seq<char>>,
    project: Seq<char>,
    release: bool,
    cargo_option: Option<Seq<char>>,
    program_args: Seq<Seq<char>>,
)
    ensures
        ({
            let args = spec_cargo_args(toolchain, project, release, cargo_option, program_args);
            let own = build_args(toolchain, project, release, cargo_option);
            &&& args.len() == own.len() + 1 + program_args.len()
            &&& args.take(own.len() as int) == own
            &&& args[own.len() as int] == "--"@
            &&& args.skip(own.len() as int + 1) == program_args
        }),
{
    let args = spec_cargo_args(toolchain, project, release, cargo_option, program_args);
    let own = build_args(toolchain, project, release, cargo_option);
    assert(args.take(own.len() as int) =~= own);
    assert(args.skip(own.len() as int + 1) =~= program_args);
}

/// An optimised build is asked for with `--release` as the last argument
/// before the separator. Without that wish nothing stands between the
/// project and the separator but the words of the further options.
pub proof fn lemma_release_flag(
    toolchain: Option<Seq<char>>,
    project: Seq<char>,
    release: bool,
    cargo_option: Option<Seq<char>>,
)
    ensures
        release ==> build_args(toolchain, project, release, cargo_option).last() == "--release"@,
        !release ==> build_args(toolchain, project, release, cargo_option) == toolchain_args(
            toolchain,
        ) + run_args(project) + option_args(cargo_option),
{
    let head = toolchain_args(toolchain) + run_args(project) + option_args(cargo_option);
    if release {
        assert(release_args(release).last() == "--release"@);
    } else {
        assert(head + release_args(release) =~= head);
    }
}

/// A run that is to start clean removes the scratch directory as soon as the
/// sources are read, before anything is created or written in it.
pub proof fn lemma_clean_run_purges_first(
    before: Run,
    contents: Vec<String>,
    after: Run,
    action: Action,
)
    requires
        before.stage == Stage::Reading,
        contents@.len() == before.opt.src@.len(),
        before.opt.clean,
        steps(before, Event::SourcesRead(contents), after, action),
    ensures
        after.stage == Stage::Purging,
        action matches Action::RemoveScratch(path) && path@ == before.scratch@,
{
}

/// A run that is not to start clean removes nothing: from the sources it
/// goes straight on to create the scratch directory.
pub proof fn lemma_other_run_keeps_scratch(
    before: Run,
    contents: Vec<String>,
    after: Run,
    action: Action,
)
    requires
        before.stage == Stage::Reading,
        contents@.len() == before.opt.src@.len(),
        !before.opt.clean,
        steps(before, Event::SourcesRead(contents), after, action),
    ensures
        after.stage == Stage::Creating,
        action matches Action::CreateScratch(path) && path@ == before.scratch@,
{
}

/// Removing the old scratch directory never fails a run: whatever comes of
/// it, the run goes on to create the directory.
pub proof fn lemma_purging_never_fails(before: Run, event: Event, after: Run, action: Action)
    requires
        before.stage == Stage::Purging,
        steps(before, event, after, action),
    ensures
        after.stage == Stage::Creating,
        action matches Action::CreateScratch(path) && path@ == before.scratch@,
{
}

/// The manifest is written only once the scratch directory is there: the
/// step that asks for it is the one that hears of the directory, created or
/// found.
pub proof fn lemma_manifest_needs_scratch(before: Run, event: Event, after: Run, action: Action)
    requires
        steps(before, event, after, action),
        action is WriteManifest,
    ensures
        before.stage == Stage::Creating,
        event is Completed || event is Existed,
{
}

/// A scratch directory that is there already is as good as one that was
/// created: the run goes on in the same way.
pub proof fn lemma_existing_scratch_is_no_failure(before: Run, after: Run, action: Action)
    requires
        before.stage == Stage::Creating,
    ensures
        steps(before, Event::Existed, after, action) <==> steps(
            before,
            Event::Completed,
            after,
            action,
        ),
{
}

/// A failed action ends the run at once, with that failure, at every stage
/// but `Purging`; nothing is tried again.
pub proof fn lemma_failure_is_final(
    before: Run,
    e: CargoPlayError,
    after: Run,
    action: Action,
    event: Event,
    later: Run,
    next: Action,
)
    requires
        before.stage != Stage::Purging,
        before.stage != Stage::Done,
        before.stage != Stage::Failed,
        steps(before, Event::Failed(e), after, action),
        steps(after, event, later, next),
    ensures
        after.stage == Stage::Failed,
        action == Action::Fail(e),
        later == after,
        next == Action::Halt,
{
}

/// The build tool is started only once the sources are placed, and the
/// export only once the destination is found free.
pub proof fn lemma_process_needs_scaffold(before: Run, event: Event, after: Run, action: Action)
    requires
        steps(before, event, after, action),
    ensures
        action is Build ==> before.stage == Stage::Placing && event is Completed
            && before.unplaced is None,
        action is Export ==> before.stage == Stage::Probing && event == Event::Probed(false),
{
}

/// An export to a destination where something exists fails the run, and no
/// copy is asked for.
pub proof fn lemma_existing_destination_is_kept(before: Run, after: Run, action: Action)
    requires
        before.stage == Stage::Probing,
        steps(before, Event::Probed(true), after, action),
    ensures
        after.stage == Stage::Failed,
        action is Fail,
        before.opt.save matches Some(to) ==> (action matches Action::Fail(
            CargoPlayError::PathExistError(path),
        ) && path@ == to@),
{
}

/// The exit status of the build tool becomes that of the run, whatever it
/// is.
pub proof fn lemma_exit_status_is_mirrored(before: Run, code: i32, after: Run, action: Action)
    requires
        before.stage == Stage::Building,
        steps(before, Event::Exited(Some(code)), after, action),
    ensures
        after.stage == Stage::Done,
        action == Action::Exit(code),
{
    assert(spec_final_code(Some(code)) == code);
}

/// A run ends with the exit status 0 only where the process that it started
/// did: no failure of the run, and none of the program, is passed off as
/// success.
pub proof fn lemma_success_is_earned(before: Run, event: Event, after: Run, action: Action)
    requires
        steps(before, event, after, action),
        action == Action::Exit(0),
    ensures
        before.stage == Stage::Building || before.stage == Stage::Exporting,
        event == Event::Exited(Some(0)),
        after.stage == Stage::Done,
{
}

/// The options and the scratch directory of a run never change.
pub proof fn lemma_step_keeps_options(before: Run, event: Event, after: Run, action: Action)
    requires
        steps(before, event, after, action),
    ensures
        after.opt == before.opt,
        after.scratch == before.scratch,
{
}

} // verus!
