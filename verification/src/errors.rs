//! What can go wrong in a run.

use vstd::prelude::*;

verus! {

/// A failure of one run. Every failure ends the run; nothing is retried.
///
/// A build that ran and exited with a nonzero status is not among them: that
/// status is handed on as it is.
#[derive(Clone, Debug, PartialEq, Eq)]
pub enum CargoPlayError {
    /// Reading a source file, writing the manifest or copying a file failed.
    /// Holds the operating system's message.
    IOError(String),
    /// A directive is not well-formed manifest data. Holds the directive and
    /// the parser's message.
    ParseError(String, String),
    /// The name of the scratch project cannot be the name of a package.
    /// Holds the name.
    NameError(String),
    /// The edition is none of the accepted ones. Holds the rejected text.
    EditionError(String),
    /// A source file cannot be reached by a relative path from the directory
    /// of the entry point. Holds the path of that file.
    DiffPathError(String),
    /// The destination of an export exists already. Holds the destination.
    PathExistError(String),
    /// The build tool could not be started. Holds the operating system's
    /// message.
    LaunchError(String),
    /// The run was told of something that cannot have happened at the stage
    /// it is in.
    StageError,
}

impl CargoPlayError {
    /// What introduces the message of each kind of failure.
    pub open spec fn spec_label(self) -> Seq<char> {
        match self {
            CargoPlayError::IOError(_) => "I/O error: "@,
            CargoPlayError::ParseError(_, _) => "malformed directive: "@,
            CargoPlayError::NameError(_) => "not a package name: "@,
            CargoPlayError::EditionError(_) => "unknown edition: "@,
            CargoPlayError::DiffPathError(_) => "no relative path to: "@,
            CargoPlayError::PathExistError(_) => "path already exists: "@,
            CargoPlayError::LaunchError(_) => "cannot start the build tool: "@,
            CargoPlayError::StageError => "unexpected event"@,
        }
    }

    /// What a failure is about: the path, the text or the message it holds.
    pub open spec fn spec_subject(self) -> Seq<char> {
        match self {
            CargoPlayError::IOError(message) => message@,
            CargoPlayError::ParseError(directive, message) => directive@ + " ("@ + message@ + ")"@,
            CargoPlayError::NameError(name) => name@,
            CargoPlayError::EditionError(text) => text@,
            CargoPlayError::DiffPathError(path) => path@,
            CargoPlayError::PathExistError(path) => path@,
            CargoPlayError::LaunchError(message) => message@,
            CargoPlayError::StageError => Seq::empty(),
        }
    }

    /// The failure in words, fit to be shown to the user.
    pub open spec fn spec_message(self) -> Seq<char> {
        self.spec_label() + self.spec_subject()
    }

    /// The failure in words, fit to be shown to the user.
    pub fn message(&self) -> (text: String)
        ensures
            text@ == self.spec_message(),
    {
        match self {
            CargoPlayError::IOError(message) => {
                String::from_str("I/O error: ").concat(message.as_str())
            },
            CargoPlayError::ParseError(directive, message) => {
                let text = String::from_str("malformed directive: ").concat(directive.as_str());
                let text = text.concat(" (").concat(message.as_str()).concat(")");
                assert(text@ =~= self.spec_message());
                text
            },
            CargoPlayError::NameError(name) => {
                String::from_str("not a package name: ").concat(name.as_str())
            },
            CargoPlayError::EditionError(edition) => {
                String::from_str("unknown edition: ").concat(edition.as_str())
            },
            CargoPlayError::DiffPathError(path) => {
                String::from_str("no relative path to: ").concat(path.as_str())
            },
            CargoPlayError::PathExistError(path) => {
                String::from_str("path already exists: ").concat(path.as_str())
            },
            CargoPlayError::LaunchError(message) => {
                String::from_str("cannot start the build tool: ").concat(message.as_str())
            },
            CargoPlayError::StageError => {
                let text = String::from_str("unexpected event");
                assert(text@ =~= self.spec_message());
                text
            },
        }
    }

    /// The exit status that stands for each kind of failure. All of them lie
    /// between 64 and 78, apart from the statuses that programs commonly end
    /// with, so that a failure of the run is not taken for one of the program
    /// that was to be run.
    pub open spec fn spec_exit_code(self) -> i32 {
        match self {
            CargoPlayError::IOError(_) => 74,
            CargoPlayError::ParseError(_, _) => 78,
            CargoPlayError::NameError(_) => 78,
            CargoPlayError::EditionError(_) => 64,
            CargoPlayError::DiffPathError(_) => 66,
            CargoPlayError::PathExistError(_) => 73,
            CargoPlayError::LaunchError(_) => 71,
            CargoPlayError::StageError => 70,
        }
    }

    /// The exit status that stands for this failure.
    pub fn exit_code(&self) -> (code: i32)
        ensures
            code == self.spec_exit_code(),
            64 <= code <= 78,
    {
        match self {
            CargoPlayError::IOError(_) => 74,
            CargoPlayError::ParseError(_, _) => 78,
            CargoPlayError::NameError(_) => 78,
            CargoPlayError::EditionError(_) => 64,
            CargoPlayError::DiffPathError(_) => 66,
            CargoPlayError::PathExistError(_) => 73,
            CargoPlayError::LaunchError(_) => 71,
            CargoPlayError::StageError => 70,
        }
    }
}

} // verus!
