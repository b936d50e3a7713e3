//! The steps of one run, as far as they are decisions: which header lines
//! are directives, where the scratch project lives, where each source file is
//! placed, and how the build tool and the exporter are invoked.

use crate::errors::CargoPlayError;
use crate::paths::{diff, join, joined, parent, parent_of, relative_to};
use crate::text::{
    chars_of, lemma_lines_from_unfold, line_bounds, lines_from, lines_of, push_text, push_texts,
    skip_white_space, string_of, trim_start, words, words_of,
};
use vstd::prelude::*;

verus! {

/// What an interpreter marker line starts with.
pub open spec fn marker_prefix() -> Seq<char> {
    seq!['#', '!']
}

/// What a directive line starts with.
pub open spec fn directive_prefix() -> Seq<char> {
    seq!['/', '/', '#']
}

/// Whether `line` is an interpreter marker.
pub open spec fn is_marker_line(line: Seq<char>) -> bool {
    marker_prefix().is_prefix_of(line)
}

/// Whether `line` is a directive line, whatever follows the prefix.
pub open spec fn is_directive_line(line: Seq<char>) -> bool {
    directive_prefix().is_prefix_of(line)
}

/// What a directive line says: the line without its prefix and without the
/// white space that follows the prefix.
pub open spec fn directive_text(line: Seq<char>) -> Seq<char> {
    trim_start(line.skip(3))
}

/// `lines` without a marker line at the very top.
pub open spec fn skip_marker(lines: Seq<Seq<char>>) -> Seq<Seq<char>> {
    if lines.len() > 0 && is_marker_line(lines[0]) {
        lines.skip(1)
    } else {
        lines
    }
}

/// `lines` without the empty lines at the top.
pub open spec fn skip_blank(lines: Seq<Seq<char>>) -> Seq<Seq<char>>
    decreases lines.len(),
{
    if lines.len() > 0 && lines[0].len() == 0 {
        skip_blank(lines.skip(1))
    } else {
        lines
    }
}

/// The directives of the unbroken run of directive lines at the top of
/// `lines`. A directive line that says nothing contributes nothing, but does
/// not end the run.
pub open spec fn leading_directives(lines: Seq<Seq<char>>) -> Seq<Seq<char>>
    decreases lines.len(),
{
    if lines.len() > 0 && is_directive_line(lines[0]) {
        let text = directive_text(lines[0]);
        let rest = leading_directives(lines.skip(1));
        if text.len() > 0 {
            seq![text] + rest
        } else {
            rest
        }
    } else {
        Seq::empty()
    }
}

/// The directives in the header of a file made of `lines`: after an optional
/// marker line and any empty lines that follow it, the directive lines up to
/// the first line that is none.
pub open spec fn header_directives(lines: Seq<Seq<char>>) -> Seq<Seq<char>> {
    leading_directives(skip_blank(skip_marker(lines)))
}

/// The directives in the header of one file.
pub open spec fn file_directives(text: Seq<char>) -> Seq<Seq<char>> {
    header_directives(lines_of(text))
}

/// The directives of several files, file after file.
pub open spec fn all_directives(files: Seq<Seq<char>>) -> Seq<Seq<char>>
    decreases files.len(),
{
    if files.len() == 0 {
        Seq::empty()
    } else {
        all_directives(files.drop_last()) + file_directives(files.last())
    }
}

/// Whether `chars[from..to]` starts with `#!`.
fn starts_with_marker(chars: &Vec<char>, from: usize, to: usize) -> (r: bool)
    requires
        from <= to <= chars.len(),
    ensures
        r == is_marker_line(chars@.subrange(from as int, to as int)),
{
    let ghost line = chars@.subrange(from as int, to as int);
    if to - from < 2 {
        return false;
    }
    let r = chars[from] == '#' && chars[from + 1] == '!';
    proof {
        assert(line[0] == chars@[from as int]);
        assert(line[1] == chars@[from + 1]);
        if r {
            assert(line.subrange(0, 2) =~= marker_prefix());
        } else {
            assert(line.subrange(0, 2)[0] == line[0]);
            assert(line.subrange(0, 2)[1] == line[1]);
        }
    }
    r
}

/// Whether `chars[from..to]` starts with `//#`.
fn starts_with_directive(chars: &Vec<char>, from: usize, to: usize) -> (r: bool)
    requires
        from <= to <= chars.len(),
    ensures
        r == is_directive_line(chars@.subrange(from as int, to as int)),
{
    let ghost line = chars@.subrange(from as int, to as int);
    if to - from < 3 {
        return false;
    }
    let r = chars[from] == '/' && chars[from + 1] == '/' && chars[from + 2] == '#';
    proof {
        assert(line[0] == chars@[from as int]);
        assert(line[1] == chars@[from + 1]);
        assert(line[2] == chars@[from + 2]);
        if r {
            assert(line.subrange(0, 3) =~= directive_prefix());
        } else {
            assert(line.subrange(0, 3)[0] == line[0]);
            assert(line.subrange(0, 3)[1] == line[1]);
            assert(line.subrange(0, 3)[2] == line[2]);
        }
    }
    r
}

/// The directives in the header of one file, in the order of their lines.
///
/// An interpreter marker (`#!`) on the first line and the empty lines after
/// it are passed over. Then every line that starts with `//#` gives one
/// directive, the rest of the line without leading white space, unless
/// nothing is left of it. The first line that does not start with `//#` ends
/// the header: nothing below it is looked at.
pub fn file_headers(text: &str) -> (headers: Vec<String>)
    ensures
        headers.deep_view() == file_directives(text@),
{
    let chars = chars_of(text);
    let n = chars.len();
    let mut headers: Vec<String> = Vec::new();
    let mut at: usize = 0;
    if at < n {
        let (end, next) = line_bounds(&chars, at);
        proof {
            lemma_lines_from_unfold(chars@, at as int);
        }
        if starts_with_marker(&chars, at, end) {
            at = next;
        }
    }
    assert(skip_marker(lines_of(chars@)) == lines_from(chars@, at as int));
    let mut blank = true;
    while blank && at < n
        invariant
            n == chars.len(),
            at <= n,
            skip_blank(skip_marker(lines_of(chars@))) == skip_blank(lines_from(chars@, at as int)),
            !blank ==> at < n && lines_from(chars@, at as int)[0].len() > 0,
        decreases n - at + if blank { 1int } else { 0int },
    {
        let (end, next) = line_bounds(&chars, at);
        proof {
            lemma_lines_from_unfold(chars@, at as int);
        }
        if end == at {
            at = next;
        } else {
            blank = false;
        }
    }
    proof {
        if at < n {
            lemma_lines_from_unfold(chars@, at as int);
        }
    }
    assert(skip_blank(skip_marker(lines_of(chars@))) == lines_from(chars@, at as int));
    assert(headers.deep_view() =~= Seq::<Seq<char>>::empty());
    while at < n
        invariant
            n == chars.len(),
            at <= n,
            chars@ == text@,
            file_directives(chars@) == headers.deep_view() + leading_directives(
                lines_from(chars@, at as int),
            ),
        decreases n - at,
    {
        let (end, next) = line_bounds(&chars, at);
        proof {
            lemma_lines_from_unfold(chars@, at as int);
        }
        if !starts_with_directive(&chars, at, end) {
            assert(file_directives(chars@) =~= headers.deep_view());
            return headers;
        }
        let start = skip_white_space(&chars, at + 3, end);
        let ghost line = chars@.subrange(at as int, end as int);
        assert(line.skip(3) =~= chars@.subrange(at + 3, end as int));
        if start < end {
            let directive = string_of(&chars, start, end);
            let ghost before = headers.deep_view();
            push_text(&mut headers, directive);
            assert(before.push(directive@) + leading_directives(lines_from(chars@, next as int))
                =~= before + (seq![directive@] + leading_directives(
                lines_from(chars@, next as int),
            )));
        }
        at = next;
    }
    assert(file_directives(chars@) =~= headers.deep_view());
    headers
}

/// The directives of all `files`, in the order of the files and, within a
/// file, of its lines. Nothing is merged or dropped: a directive that occurs
/// twice is returned twice.
pub fn extract_headers(files: &[String]) -> (headers: Vec<String>)
    ensures
        headers.deep_view() == all_directives(files.deep_view()),
{
    let mut headers: Vec<String> = Vec::new();
    let mut i: usize = 0;
    assert(headers.deep_view() =~= Seq::<Seq<char>>::empty());
    assert(files.deep_view().take(0) =~= Seq::<Seq<char>>::empty());
    while i < files.len()
        invariant
            i <= files.len(),
            headers.deep_view() == all_directives(files.deep_view().take(i as int)),
        decreases files.len() - i,
    {
        let mut found = file_headers(files[i].as_str());
        let ghost before = headers.deep_view();
        let ghost added = found.deep_view();
        headers.append(&mut found);
        proof {
            let upto = files.deep_view().take(i + 1);
            assert(upto.drop_last() =~= files.deep_view().take(i as int));
            assert(upto.last() == files[i as int]@);
            assert(headers.deep_view() =~= before + added);
        }
        i += 1;
    }
    assert(files.deep_view().take(i as int) =~= files.deep_view());
    headers
}

/// The scratch directory called `name` below `root`, the directory for
/// temporary files. The caller says which directory that is; nothing here
/// looks at the environment.
pub fn temp_dir(root: &str, name: &str) -> (path: String)
    ensures
        path@ == joined(root@, name@),
{
    join(root, name)
}

/// One copy of a source file into the scratch project.
#[derive(Clone, Debug, PartialEq, Eq)]
pub struct Placement {
    /// The file to copy.
    pub from: String,
    /// Where its copy goes.
    pub to: String,
    /// The directory to create first, with the directories above it, if it
    /// is missing. Failing to create it is no failure of the copy.
    pub folder: Option<String>,
}

/// What a [`Placement`] says, as text.
pub ghost struct PlacementView {
    pub from: Seq<char>,
    pub to: Seq<char>,
    pub folder: Option<Seq<char>>,
}

impl View for Placement {
    type V = PlacementView;

    open spec fn view(&self) -> PlacementView {
        PlacementView { from: self.from@, to: self.to@, folder: self.folder.deep_view() }
    }
}

/// Where the sources of one run go.
#[derive(Clone, Debug, PartialEq, Eq)]
pub struct SourcePlan {
    /// The directory of the scratch project that holds its sources. It is
    /// created first, with the directories above it.
    pub folder: String,
    /// The copies to make, in this order. The first failure ends the run;
    /// what was copied before it stays.
    pub copies: Vec<Placement>,
    /// The first source file for which there is no place. Once the copies
    /// are made the run fails on it, and the files after it are not looked
    /// at.
    pub unplaced: Option<String>,
}

/// What a [`SourcePlan`] says, as text.
pub ghost struct SourcePlanView {
    pub folder: Seq<char>,
    pub copies: Seq<PlacementView>,
    pub unplaced: Option<Seq<char>>,
}

impl View for SourcePlan {
    type V = SourcePlanView;

    open spec fn view(&self) -> SourcePlanView {
        SourcePlanView {
            folder: self.folder@,
            copies: self.copies@.map_values(|c: Placement| c@),
            unplaced: self.unplaced.deep_view(),
        }
    }
}

/// The directory of the scratch project `temp` that holds its sources.
pub open spec fn source_folder(temp: Seq<char>) -> Seq<char> {
    joined(temp, "src"@)
}

/// Where the entry point goes, whatever it was called.
pub open spec fn entry_placement(folder: Seq<char>, file: Seq<char>) -> PlacementView {
    PlacementView { from: file, to: joined(folder, "main.rs"@), folder: None }
}

/// Where a further source file goes, given the relative path that leads to
/// it from the directory of the entry point: along the same path from
/// `folder`.
pub open spec fn secondary_placement(
    folder: Seq<char>,
    file: Seq<char>,
    relative: Seq<char>,
) -> PlacementView {
    let to = joined(folder, relative);
    PlacementView { from: file, to, folder: parent_of(to) }
}

/// How many of `files`, from the first on, have a relative path from `base`.
pub open spec fn placeable(files: Seq<Seq<char>>, base: Seq<char>) -> nat
    decreases files.len(),
{
    if files.len() > 0 && relative_to(files[0], base) is Some {
        1 + placeable(files.skip(1), base)
    } else {
        0
    }
}

/// The placements of the further source files `files`, up to the first that
/// has no relative path from `base`.
pub open spec fn secondary_placements(
    folder: Seq<char>,
    files: Seq<Seq<char>>,
    base: Seq<char>,
) -> Seq<PlacementView> {
    Seq::new(
        placeable(files, base),
        |i: int| secondary_placement(folder, files[i], relative_to(files[i], base)->0),
    )
}

/// The first of `files` that has no relative path from `base`.
pub open spec fn first_unplaced(files: Seq<Seq<char>>, base: Seq<char>) -> Option<Seq<char>> {
    if placeable(files, base) < files.len() {
        Some(files[placeable(files, base) as int])
    } else {
        None
    }
}

/// Where the source files `sources` go in the scratch project `temp`.
///
/// The first file is the entry point. Each further file keeps the place that
/// it has relative to the directory of the entry point. Where the entry point
/// has no directory, only the entry point is placed.
pub open spec fn source_plan(temp: Seq<char>, sources: Seq<Seq<char>>) -> SourcePlanView {
    let folder = source_folder(temp);
    if sources.len() == 0 {
        SourcePlanView { folder, copies: Seq::empty(), unplaced: None }
    } else {
        let entry = entry_placement(folder, sources[0]);
        match parent_of(sources[0]) {
            None => SourcePlanView { folder, copies: seq![entry], unplaced: None },
            Some(base) => SourcePlanView {
                folder,
                copies: seq![entry] + secondary_placements(folder, sources.skip(1), base),
                unplaced: first_unplaced(sources.skip(1), base),
            },
        }
    }
}

/// The count stops at the first file without a relative path, and not before.
pub proof fn lemma_placeable_is(files: Seq<Seq<char>>, base: Seq<char>, n: int)
    requires
        0 <= n <= files.len(),
        forall|i: int| 0 <= i < n ==> relative_to(#[trigger] files[i], base) is Some,
        n < files.len() ==> relative_to(files[n], base) is None,
    ensures
        placeable(files, base) == n,
    decreases files.len(),
{
    if n > 0 {
        let rest = files.skip(1);
        assert(relative_to(files[0], base) is Some);
        assert forall|i: int| 0 <= i < n - 1 implies relative_to(
            #[trigger] rest[i],
            base,
        ) is Some by {
            assert(rest[i] == files[i + 1]);
        }
        if n - 1 < rest.len() {
            assert(rest[n - 1] == files[n]);
        }
        lemma_placeable_is(rest, base, n - 1);
    }
}

/// The place of one further source file `file`, given what the search for a
/// relative path from the directory of the entry point came back with.
/// Without such a path the file has no place, and the failure names it.
pub fn place_secondary(folder: &str, file: &str, relative: Option<String>) -> (r: Result<
    Placement,
    CargoPlayError,
>)
    ensures
        match relative {
            Some(relative) => r matches Ok(placement) && placement@ == secondary_placement(
                folder@,
                file@,
                relative@,
            ),
            None => r matches Err(CargoPlayError::DiffPathError(path)) && path@ == file@,
        },
{
    match relative {
        Some(relative) => {
            let to = join(folder, relative.as_str());
            let above = parent(to.as_str());
            Ok(Placement { from: file.to_owned(), to, folder: above })
        },
        None => Err(CargoPlayError::DiffPathError(file.to_owned())),
    }
}

/// Plans where the source files go in the scratch project `temp`. The first
/// of `sources` is the entry point.
///
/// Nothing is copied here. The caller creates `folder`, makes the copies in
/// order and, where `unplaced` names a file, fails on it afterwards, as
/// [`SourcePlan::outcome`] says.
pub fn plan_sources(temp: &str, sources: &[String]) -> (plan: SourcePlan)
    ensures
        plan@ == source_plan(temp@, sources.deep_view()),
{
    let folder = join(temp, "src");
    let mut copies: Vec<Placement> = Vec::new();
    let ghost files = sources.deep_view();
    if sources.len() == 0 {
        let plan = SourcePlan { folder, copies, unplaced: None };
        assert(plan@.copies =~= Seq::<PlacementView>::empty());
        return plan;
    }
    let first = sources[0].as_str();
    let entry = join(folder.as_str(), "main.rs");
    copies.push(Placement { from: first.to_owned(), to: entry, folder: None });
    let base = match parent(first) {
        Some(base) => base,
        None => {
            let plan = SourcePlan { folder, copies, unplaced: None };
            assert(plan@.copies =~= seq![entry_placement(folder@, files[0])]);
            return plan;
        },
    };
    let ghost rest = files.skip(1);
    let mut i: usize = 1;
    while i < sources.len()
        invariant
            1 <= i <= sources.len(),
            files == sources.deep_view(),
            rest == files.skip(1),
            folder@ == source_folder(temp@),
            parent_of(files[0]) == Some(base@),
            copies@.len() == i,
            copies@[0]@ == entry_placement(folder@, files[0]),
            forall|k: int| 0 <= k < i - 1 ==> relative_to(#[trigger] rest[k], base@) is Some,
            forall|k: int|
                0 <= k < i - 1 ==> (#[trigger] copies@[k + 1])@ == secondary_placement(
                    folder@,
                    rest[k],
                    relative_to(rest[k], base@)->0,
                ),
        decreases sources.len() - i,
    {
        let file = sources[i].as_str();
        assert(rest[i - 1] == file@);
        match place_secondary(folder.as_str(), file, diff(file, base.as_str())) {
            Ok(placement) => {
                copies.push(placement);
            },
            Err(_) => {
                proof {
                    lemma_placeable_is(rest, base@, i - 1);
                }
                let plan = SourcePlan { folder, copies, unplaced: Some(file.to_owned()) };
                assert(plan@.copies =~= source_plan(temp@, files).copies);
                return plan;
            },
        }
        i += 1;
    }
    proof {
        lemma_placeable_is(rest, base@, i - 1);
    }
    let plan = SourcePlan { folder, copies, unplaced: None };
    assert(plan@.copies =~= source_plan(temp@, files).copies);
    plan
}

impl SourcePlan {
    /// How placing the sources ends once every copy of the plan is made: in
    /// failure exactly if a file has no place, and the failure names the
    /// file.
    pub fn outcome(&self) -> (r: Result<(), CargoPlayError>)
        ensures
            match self.unplaced {
                Some(file) => r matches Err(CargoPlayError::DiffPathError(path)) && path@
                    == file@,
                None => r is Ok,
            },
    {
        match &self.unplaced {
            Some(file) => Err(CargoPlayError::DiffPathError(file.clone())),
            None => Ok(()),
        }
    }
}

/// The argument that selects a toolchain, if one is asked for.
pub open spec fn toolchain_args(toolchain: Option<Seq<char>>) -> Seq<Seq<char>> {
    match toolchain {
        Some(name) => seq!["+"@ + name],
        None => Seq::empty(),
    }
}

/// The arguments that tell the build tool to run the project `project`.
pub open spec fn run_args(project: Seq<char>) -> Seq<Seq<char>> {
    seq!["run"@, "--manifest-path"@, joined(project, "Cargo.toml"@)]
}

/// The further options for the build tool: the words of the option text as
/// they stand. Quotes and backslashes in it mean nothing.
pub open spec fn option_args(cargo_option: Option<Seq<char>>) -> Seq<Seq<char>> {
    match cargo_option {
        Some(text) => words_of(text),
        None => Seq::empty(),
    }
}

/// The argument that asks for an optimised build, if one is asked for.
pub open spec fn release_args(release: bool) -> Seq<Seq<char>> {
    if release {
        seq!["--release"@]
    } else {
        Seq::empty()
    }
}

/// The arguments that are meant for the build tool itself.
pub open spec fn build_args(
    toolchain: Option<Seq<char>>,
    project: Seq<char>,
    release: bool,
    cargo_option: Option<Seq<char>>,
) -> Seq<Seq<char>> {
    toolchain_args(toolchain) + run_args(project) + option_args(cargo_option) + release_args(
        release,
    )
}

/// All arguments of the build tool: its own, the separator `--`, and then
/// the arguments of the program.
pub open spec fn spec_cargo_args(
    toolchain: Option<Seq<char>>,
    project: Seq<char>,
    release: bool,
    cargo_option: Option<Seq<char>>,
    program_args: Seq<Seq<char>>,
) -> Seq<Seq<char>> {
    build_args(toolchain, project, release, cargo_option) + seq!["--"@] + program_args
}

/// The arguments with which the build tool is started for the scratch
/// project `project`: the toolchain with a `+` before it, if one is asked
/// for; `run --manifest-path` and the manifest of the project; the words of
/// the further options; `--release` for an optimised build; `--`; and the
/// arguments of the program.
pub fn cargo_args(
    toolchain: &Option<String>,
    project: &str,
    release: bool,
    cargo_option: &Option<String>,
    program_args: &[String],
) -> (args: Vec<String>)
    ensures
        args.deep_view() == spec_cargo_args(
            toolchain.deep_view(),
            project@,
            release,
            cargo_option.deep_view(),
            program_args.deep_view(),
        ),
{
    let mut args: Vec<String> = Vec::new();
    assert(args.deep_view() =~= Seq::<Seq<char>>::empty());
    match toolchain {
        Some(name) => {
            push_text(&mut args, String::from_str("+").concat(name.as_str()));
        },
        None => {},
    }
    assert(args.deep_view() =~= toolchain_args(toolchain.deep_view()));
    push_text(&mut args, String::from_str("run"));
    push_text(&mut args, String::from_str("--manifest-path"));
    push_text(&mut args, join(project, "Cargo.toml"));
    assert(args.deep_view() =~= toolchain_args(toolchain.deep_view()) + run_args(project@));
    match cargo_option {
        Some(text) => {
            let found = words(text.as_str());
            push_texts(&mut args, found.as_slice());
        },
        None => {},
    }
    assert(args.deep_view() =~= toolchain_args(toolchain.deep_view()) + run_args(project@)
        + option_args(cargo_option.deep_view()));
    if release {
        push_text(&mut args, String::from_str("--release"));
    }
    assert(args.deep_view() =~= build_args(
        toolchain.deep_view(),
        project@,
        release,
        cargo_option.deep_view(),
    ));
    push_text(&mut args, String::from_str("--"));
    push_texts(&mut args, program_args);
    assert(args.deep_view() =~= spec_cargo_args(
        toolchain.deep_view(),
        project@,
        release,
        cargo_option.deep_view(),
        program_args.deep_view(),
    ));
    args
}

/// The arguments of the copy command that exports the scratch project
/// `from` to `to`.
pub open spec fn spec_export_args(from: Seq<char>, to: Seq<char>) -> Seq<Seq<char>> {
    seq!["-R"@, from, to]
}

/// Decides an export of the scratch project `from` to `to`. The caller says
/// whether anything exists at `to`.
///
/// An existing destination is never written to: the export is refused, and
/// the failure names the destination. Otherwise the result holds the
/// arguments of the copy command.
pub fn export_args(from: &str, to: &str, to_exists: bool) -> (r: Result<
    Vec<String>,
    CargoPlayError,
>)
    ensures
        if to_exists {
            r matches Err(CargoPlayError::PathExistError(path)) && path@ == to@
        } else {
            r matches Ok(args) && args.deep_view() == spec_export_args(from@, to@)
        },
{
    if to_exists {
        return Err(CargoPlayError::PathExistError(to.to_owned()));
    }
    let mut args: Vec<String> = Vec::new();
    assert(args.deep_view() =~= Seq::<Seq<char>>::empty());
    push_text(&mut args, String::from_str("-R"));
    push_text(&mut args, from.to_owned());
    push_text(&mut args, to.to_owned());
    assert(args.deep_view() =~= spec_export_args(from@, to@));
    Ok(args)
}

} // verus!
