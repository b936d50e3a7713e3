//! One run, step by step.
//!
//! The library decides and the caller acts: [`Run::step`] takes what came of
//! the last action and answers with the next one. Reading files, creating
//! directories, copying and starting the build tool are the caller's part.

use crate::cargo::{cargo_toml, first_rejected, manifest_text, ManifestView};
use crate::errors::CargoPlayError;
use crate::opt::{spec_package_name, spec_temp_dirname, Opt};
use crate::paths::{join, joined};
use crate::steps::{
    all_directives, cargo_args, export_args, extract_headers, plan_sources, source_plan,
    spec_cargo_args, spec_export_args, temp_dir, SourcePlan,
};
use crate::text::push_texts;
use vstd::prelude::*;

verus! {

/// How far a run has come.
#[derive(Clone, Copy, Debug, PartialEq, Eq, Structural)]
pub enum Stage {
    /// Nothing has happened yet.
    Idle,
    /// The sources are being read.
    Reading,
    /// The scratch directory of an earlier run is being removed.
    Purging,
    /// The scratch directory is being created.
    Creating,
    /// The manifest is being written.
    Writing,
    /// The sources are being copied.
    Placing,
    /// The build tool is running.
    Building,
    /// The destination of an export is being looked at.
    Probing,
    /// The scratch project is being exported.
    Exporting,
    /// The run is over: the build tool, or the export, has come to an end.
    Done,
    /// The run is over: it failed before the build tool, or the export, was
    /// started.
    Failed,
}

/// What came of the last action.
#[derive(Clone, Debug, PartialEq, Eq)]
pub enum Event {
    /// Nothing yet: the run begins.
    Started,
    /// The sources were read. Holds what each holds, in their order: as
    /// many texts as there are sources.
    SourcesRead(Vec<String>),
    /// The action was carried out.
    Completed,
    /// The directory to create was there already.
    Existed,
    /// The destination of an export was looked at. Holds whether anything
    /// exists there.
    Probed(bool),
    /// The process that was started has ended. Holds its exit status, if it
    /// has one.
    Exited(Option<i32>),
    /// The action failed.
    Failed(CargoPlayError),
}

/// What the caller is to do next.
#[derive(Clone, Debug, PartialEq, Eq)]
pub enum Action {
    /// Read these files and answer with [`Event::SourcesRead`].
    ReadSources(Vec<String>),
    /// Remove this directory and all in it. Whatever comes of it, the run
    /// goes on.
    RemoveScratch(String),
    /// Create this directory; answer with [`Event::Existed`] if it is there
    /// already.
    CreateScratch(String),
    /// Write the text (second) to the file (first).
    WriteManifest(String, String),
    /// Create the folder of the plan and make its copies, in order.
    PlaceSources(SourcePlan),
    /// Start the build tool with these arguments, let it use the standard
    /// streams of this process, wait for it and answer with
    /// [`Event::Exited`].
    Build(Vec<String>),
    /// Look whether anything exists at this path and answer with
    /// [`Event::Probed`].
    Probe(String),
    /// Start the copy command with these arguments, wait for it and answer
    /// with [`Event::Exited`].
    Export(Vec<String>),
    /// End with this exit status.
    Exit(i32),
    /// Report this failure and end with its exit status.
    Fail(CargoPlayError),
    /// Nothing: the run is over.
    Halt,
}

/// The exit status of the run, given that of the process it started: the same
/// status, whatever it is. A process that ended without one counts as failed.
pub open spec fn spec_final_code(status: Option<i32>) -> i32 {
    match status {
        Some(code) => code,
        None => 1,
    }
}

/// One run.
#[derive(Clone, Debug, PartialEq, Eq)]
pub struct Run {
    /// What the run is asked to do.
    pub opt: Opt,
    /// The scratch directory.
    pub scratch: String,
    /// How far the run has come.
    pub stage: Stage,
    /// The directives found in the sources, once these are read.
    pub directives: Vec<String>,
    /// The first source without a place in the scratch project, once the
    /// places are planned.
    pub unplaced: Option<String>,
}

/// The step from `Reading`, once the sources are read: the directives are
/// taken from them, and the scratch directory is removed first if the run is
/// to start clean, and created otherwise.
pub open spec fn steps_from_reading(
    before: Run,
    contents: Seq<Seq<char>>,
    after: Run,
    action: Action,
) -> bool {
    &&& after.directives.deep_view() == all_directives(contents)
    &&& after.unplaced == before.unplaced
    &&& if before.opt.clean {
        &&& after.stage == Stage::Purging
        &&& action matches Action::RemoveScratch(path)
        &&& path@ == before.scratch@
    } else {
        &&& after.stage == Stage::Creating
        &&& action matches Action::CreateScratch(path)
        &&& path@ == before.scratch@
    }
}

/// The step from `Creating`, once the scratch directory is there: the
/// manifest is assembled. A directive that no manifest takes fails the run;
/// otherwise the manifest is to be written into the scratch directory.
pub open spec fn steps_from_creating(before: Run, after: Run, action: Action) -> bool {
    &&& after.directives == before.directives
    &&& after.unplaced == before.unplaced
    &&& match first_rejected(before.directives.deep_view()) {
        Some(i) => {
            &&& after.stage == Stage::Failed
            &&& action matches Action::Fail(CargoPlayError::ParseError(text, _))
            &&& text@ == before.directives[i]@
        },
        None => {
            &&& after.stage == Stage::Writing
            &&& action matches Action::WriteManifest(path, text)
            &&& path@ == joined(before.scratch@, "Cargo.toml"@)
            &&& text@ == manifest_text(
                ManifestView {
                    name: spec_package_name(before.opt.src.deep_view()),
                    edition: before.opt.edition,
                    dependencies: before.directives.deep_view(),
                },
            )
        },
    }
}

/// The step from `Writing`, once the manifest is written: the sources are to
/// be placed.
pub open spec fn steps_from_writing(before: Run, after: Run, action: Action) -> bool {
    let plan = source_plan(before.scratch@, before.opt.src.deep_view());
    &&& after.directives == before.directives
    &&& after.unplaced.deep_view() == plan.unplaced
    &&& after.stage == Stage::Placing
    &&& action matches Action::PlaceSources(planned)
    &&& planned@ == plan
}

/// The step from `Placing`, once the copies are made: a source without a
/// place fails the run. Otherwise the scratch project is exported, if that is
/// asked for, and built and run if not.
pub open spec fn steps_from_placing(before: Run, after: Run, action: Action) -> bool {
    &&& after.directives == before.directives
    &&& after.unplaced == before.unplaced
    &&& match before.unplaced {
        Some(file) => {
            &&& after.stage == Stage::Failed
            &&& action matches Action::Fail(CargoPlayError::DiffPathError(path))
            &&& path@ == file@
        },
        None => match before.opt.save {
            Some(to) => {
                &&& after.stage == Stage::Probing
                &&& action matches Action::Probe(path)
                &&& path@ == to@
            },
            None => {
                &&& after.stage == Stage::Building
                &&& action matches Action::Build(args)
                &&& args.deep_view() == spec_cargo_args(
                    before.opt.toolchain.deep_view(),
                    before.scratch@,
                    before.opt.release,
                    before.opt.cargo_option.deep_view(),
                    before.opt.args.deep_view(),
                )
            },
        },
    }
}

/// The step from `Probing`, once the destination is looked at: an existing
/// destination fails the run, and nothing is copied. Otherwise the scratch
/// project is to be copied there.
pub open spec fn steps_from_probing(before: Run, exists: bool, after: Run, action: Action) -> bool {
    &&& after.directives == before.directives
    &&& after.unplaced == before.unplaced
    &&& match before.opt.save {
        Some(to) => if exists {
            &&& after.stage == Stage::Failed
            &&& action matches Action::Fail(CargoPlayError::PathExistError(path))
            &&& path@ == to@
        } else {
            &&& after.stage == Stage::Exporting
            &&& action matches Action::Export(args)
            &&& args.deep_view() == spec_export_args(before.scratch@, to@)
        },
        None => after.stage == Stage::Failed && action == Action::Fail(CargoPlayError::StageError),
    }
}

/// What one step does: how the run `before`, told of `event`, becomes the run
/// `after` and asks for `action`.
///
/// A run that is over stays as it is. A failed action fails the run, with one
/// exception: whatever comes of removing the old scratch directory, the run
/// goes on to create it. Every other event is taken at its stage only; out of
/// place it fails the run.
pub open spec fn steps(before: Run, event: Event, after: Run, action: Action) -> bool {
    &&& after.opt == before.opt
    &&& after.scratch == before.scratch
    &&& match before.stage {
        Stage::Done | Stage::Failed => {
            &&& after == before
            &&& action == Action::Halt
        },
        Stage::Purging => {
            &&& after.directives == before.directives
            &&& after.unplaced == before.unplaced
            &&& after.stage == Stage::Creating
            &&& action matches Action::CreateScratch(path)
            &&& path@ == before.scratch@
        },
        stage => match event {
            Event::Failed(e) => {
                &&& after.directives == before.directives
                &&& after.unplaced == before.unplaced
                &&& after.stage == Stage::Failed
                &&& action == Action::Fail(e)
            },
            Event::Started if stage == Stage::Idle => {
                &&& after.directives == before.directives
                &&& after.unplaced == before.unplaced
                &&& after.stage == Stage::Reading
                &&& action matches Action::ReadSources(files)
                &&& files.deep_view() == before.opt.src.deep_view()
            },
            Event::SourcesRead(contents) if stage == Stage::Reading && contents@.len()
                == before.opt.src@.len() => steps_from_reading(
                before,
                contents.deep_view(),
                after,
                action,
            ),
            Event::Completed if stage == Stage::Creating => steps_from_creating(
                before,
                after,
                action,
            ),
            Event::Existed if stage == Stage::Creating => steps_from_creating(
                before,
                after,
                action,
            ),
            Event::Completed if stage == Stage::Writing => steps_from_writing(
                before,
                after,
                action,
            ),
            Event::Completed if stage == Stage::Placing => steps_from_placing(
                before,
                after,
                action,
            ),
            Event::Probed(exists) if stage == Stage::Probing => steps_from_probing(
                before,
                exists,
                after,
                action,
            ),
            Event::Exited(status) if stage == Stage::Building || stage == Stage::Exporting => {
                &&& after.directives == before.directives
                &&& after.unplaced == before.unplaced
                &&& after.stage == Stage::Done
                &&& action == Action::Exit(spec_final_code(status))
            },
            _ => {
                &&& after.directives == before.directives
                &&& after.unplaced == before.unplaced
                &&& after.stage == Stage::Failed
                &&& action == Action::Fail(CargoPlayError::StageError)
            },
        },
    }
}

impl Run {
    /// A run of `opt` that keeps its scratch directory below `root`, the
    /// directory for temporary files.
    pub fn new(opt: Opt, root: &str) -> (run: Run)
        ensures
            run.opt == opt,
            run.scratch@ == joined(root@, spec_temp_dirname(opt.src.deep_view())),
            run.stage == Stage::Idle,
            run.directives@.len() == 0,
            run.unplaced is None,
    {
        let name = opt.temp_dirname();
        let scratch = temp_dir(root, name.as_str());
        Run { opt, scratch, stage: Stage::Idle, directives: Vec::new(), unplaced: None }
    }

    /// Takes what came of the last action and answers with the next one, as
    /// [`steps`] says.
    pub fn step(&mut self, event: Event) -> (action: Action)
        ensures
            steps(*old(self), event, *final(self), action),
    {
        match self.stage {
            Stage::Done | Stage::Failed => {
                return Action::Halt;
            },
            Stage::Purging => {
                self.stage = Stage::Creating;
                return Action::CreateScratch(self.scratch.clone());
            },
            _ => {},
        }
        match event {
            Event::Failed(e) => {
                self.stage = Stage::Failed;
                Action::Fail(e)
            },
            Event::Started => {
                if self.stage != Stage::Idle {
                    return self.out_of_place();
                }
                let mut files: Vec<String> = Vec::new();
                assert(files.deep_view() =~= Seq::<Seq<char>>::empty());
                let sources = self.opt.src.as_slice();
                assert(sources.deep_view() =~= self.opt.src.deep_view());
                push_texts(&mut files, sources);
                self.stage = Stage::Reading;
                Action::ReadSources(files)
            },
            Event::SourcesRead(contents) => {
                if self.stage != Stage::Reading || contents.len() != self.opt.src.len() {
                    return self.out_of_place();
                }
                let read = contents.as_slice();
                assert(read.deep_view() =~= contents.deep_view());
                self.directives = extract_headers(read);
                if self.opt.clean {
                    self.stage = Stage::Purging;
                    Action::RemoveScratch(self.scratch.clone())
                } else {
                    self.stage = Stage::Creating;
                    Action::CreateScratch(self.scratch.clone())
                }
            },
            Event::Completed => {
                match self.stage {
                    Stage::Creating => self.assemble(),
                    Stage::Writing => {
                        let sources = self.opt.src.as_slice();
                        assert(sources.deep_view() =~= self.opt.src.deep_view());
                        let plan = plan_sources(self.scratch.as_str(), sources);
                        self.unplaced = plan.unplaced.clone();
                        self.stage = Stage::Placing;
                        Action::PlaceSources(plan)
                    },
                    Stage::Placing => self.launch(),
                    _ => self.out_of_place(),
                }
            },
            Event::Existed => {
                if self.stage != Stage::Creating {
                    return self.out_of_place();
                }
                self.assemble()
            },
            Event::Probed(exists) => {
                if self.stage != Stage::Probing {
                    return self.out_of_place();
                }
                let to = match &self.opt.save {
                    Some(to) => to,
                    None => {
                        return self.out_of_place();
                    },
                };
                match export_args(self.scratch.as_str(), to.as_str(), exists) {
                    Ok(args) => {
                        self.stage = Stage::Exporting;
                        Action::Export(args)
                    },
                    Err(e) => {
                        self.stage = Stage::Failed;
                        Action::Fail(e)
                    },
                }
            },
            Event::Exited(status) => {
                if self.stage != Stage::Building && self.stage != Stage::Exporting {
                    return self.out_of_place();
                }
                self.stage = Stage::Done;
                match status {
                    Some(code) => Action::Exit(code),
                    None => Action::Exit(1),
                }
            },
        }
    }

    /// Fails the run on an event that is out of place.
    fn out_of_place(&mut self) -> (action: Action)
        ensures
            final(self).opt == old(self).opt,
            final(self).scratch == old(self).scratch,
            final(self).directives == old(self).directives,
            final(self).unplaced == old(self).unplaced,
            final(self).stage == Stage::Failed,
            action == Action::Fail(CargoPlayError::StageError),
    {
        self.stage = Stage::Failed;
        Action::Fail(CargoPlayError::StageError)
    }

    /// Assembles the manifest, now that the scratch directory is there.
    fn assemble(&mut self) -> (action: Action)
        requires
            old(self).stage == Stage::Creating,
        ensures
            final(self).opt == old(self).opt,
            final(self).scratch == old(self).scratch,
            steps_from_creating(*old(self), *final(self), action),
    {
        let name = self.opt.package_name();
        let mut directives: Vec<String> = Vec::new();
        assert(directives.deep_view() =~= Seq::<Seq<char>>::empty());
        let found = self.directives.as_slice();
        assert(found.deep_view() =~= self.directives.deep_view());
        push_texts(&mut directives, found);
        proof {
            match first_rejected(directives.deep_view()) {
                Some(i) => {
                    crate::cargo::lemma_first_rejected(directives.deep_view());
                    assert(directives.deep_view()[i] == directives[i]@);
                    assert(self.directives.deep_view()[i] == self.directives[i]@);
                },
                None => {},
            }
        }
        match cargo_toml(name, directives, self.opt.edition) {
            Ok(text) => {
                self.stage = Stage::Writing;
                Action::WriteManifest(join(self.scratch.as_str(), "Cargo.toml"), text)
            },
            Err(e) => {
                self.stage = Stage::Failed;
                Action::Fail(e)
            },
        }
    }

    /// Goes on to the build or to the export, now that the sources are
    /// copied.
    fn launch(&mut self) -> (action: Action)
        requires
            old(self).stage == Stage::Placing,
        ensures
            final(self).opt == old(self).opt,
            final(self).scratch == old(self).scratch,
            steps_from_placing(*old(self), *final(self), action),
    {
        match &self.unplaced {
            Some(file) => {
                let e = CargoPlayError::DiffPathError(file.clone());
                self.stage = Stage::Failed;
                return Action::Fail(e);
            },
            None => {},
        }
        match &self.opt.save {
            Some(to) => {
                let to = to.clone();
                self.stage = Stage::Probing;
                Action::Probe(to)
            },
            None => {
                let program_args = self.opt.args.as_slice();
                assert(program_args.deep_view() =~= self.opt.args.deep_view());
                let args = cargo_args(
                    &self.opt.toolchain,
                    self.scratch.as_str(),
                    self.opt.release,
                    &self.opt.cargo_option,
                    program_args,
                );
                self.stage = Stage::Building;
                Action::Build(args)
            },
        }
    }
}

} // verus!
