//! Executing one operation.
//!
//! The executor decides; it touches neither the file system nor a process.
//! Its caller looks at the disk, performs the action it is handed, and comes
//! back with a report. The reports so far are the whole state of a run, so
//! every call can be read on its own.

use vstd::prelude::*;
use crate::path::{FilePath, PathModel, clone_strings, render_path, texts};
use crate::operation::{OperationModel, OperationSchema};
use crate::roots::{Root, Roots, RootsModel, unresolve_path_repo, unresolve_path_target};
use crate::seqs::{first_index, lemma_first_index_is, lemma_first_index_none};

verus! {

/// What stands at the path that an operation requires.
#[derive(Clone, Copy, Debug, PartialEq, Eq, Structural)]
pub enum Found {
    /// Nothing.
    Nothing,
    /// A file, or anything else that is not a directory.
    File,
    /// A directory.
    Directory,
}

/// How an action ended.
#[derive(Clone, Copy, Debug, PartialEq, Eq, Structural)]
pub enum Report {
    /// It did what it should: the copy was made, the process left with
    /// status zero.
    Done,
    /// It did not.
    Failed,
    /// A file that it needs could not be opened or read.
    Unreadable,
}

/// The mathematical value of [`Action`].
pub enum ActionModel {
    /// Create the directory and every missing directory above it.
    CreateDirectories { path: PathModel },
    /// Copy the bytes of the file `from` to `to`.
    CopyFile { from: PathModel, to: PathModel },
    /// Copy the directory `from` with all that it holds to `to`.
    CopyTree { from: PathModel, to: PathModel },
    /// Open `to` for appending, creating it if need be, and write the bytes
    /// of `from` to its end.
    AppendFile { from: PathModel, to: PathModel },
    /// Hand `line` to the command interpreter as one command line.
    RunShell { line: Seq<char> },
    /// Run `file` with `args`.
    RunProgram { file: PathModel, args: Seq<Seq<char>> },
}

/// One thing for the caller to do on the machine.
#[derive(Debug, PartialEq, Eq)]
pub enum Action {
    /// Create the directory and every missing directory above it.
    CreateDirectories { path: FilePath },
    /// Copy the bytes of the file `from` to `to`.
    CopyFile { from: FilePath, to: FilePath },
    /// Copy the directory `from` with all that it holds to `to`.
    CopyTree { from: FilePath, to: FilePath },
    /// Open `to` for appending, creating it if need be, and write the bytes
    /// of `from` to its end.
    AppendFile { from: FilePath, to: FilePath },
    /// Hand `line` to the command interpreter as one command line.
    RunShell { line: String },
    /// Run `file` with `args`.
    RunProgram { file: FilePath, args: Vec<String> },
}

impl View for Action {
    type V = ActionModel;

    open spec fn view(&self) -> ActionModel {
        match self {
            Action::CreateDirectories { path } => ActionModel::CreateDirectories { path: path@ },
            Action::CopyFile { from, to } => ActionModel::CopyFile { from: from@, to: to@ },
            Action::CopyTree { from, to } => ActionModel::CopyTree { from: from@, to: to@ },
            Action::AppendFile { from, to } => ActionModel::AppendFile { from: from@, to: to@ },
            Action::RunShell { line } => ActionModel::RunShell { line: line@ },
            Action::RunProgram { file, args } => ActionModel::RunProgram {
                file: file@,
                args: texts(args@),
            },
        }
    }
}

/// The mathematical value of [`Step`].
pub enum StepModel {
    /// Perform the action and report how it ended.
    Perform(ActionModel),
    /// The operation is over, with this result.
    Finish(bool),
    /// The run cannot go on: the caller ends it as a whole.
    Abort,
}

/// What the executor asks of its caller.
#[derive(Debug, PartialEq, Eq)]
pub enum Step {
    /// Perform the action and report how it ended.
    Perform(Action),
    /// The operation is over, with this result.
    Finish(bool),
    /// The run cannot go on: the caller ends it as a whole.
    Abort,
}

impl View for Step {
    type V = StepModel;

    open spec fn view(&self) -> StepModel {
        match self {
            Step::Perform(action) => StepModel::Perform(action@),
            Step::Finish(ok) => StepModel::Finish(*ok),
            Step::Abort => StepModel::Abort,
        }
    }
}

/// The actions that carry out a viable operation, in order. A copy first
/// makes sure of the directory that the destination lies in, then copies a
/// directory as a tree and anything else as a file.
pub open spec fn plan(op: OperationModel, found: Found) -> Seq<ActionModel> {
    match op {
        OperationModel::CopyFile { from, to } => {
            let copy = if found == Found::Directory {
                ActionModel::CopyTree { from, to }
            } else {
                ActionModel::CopyFile { from, to }
            };
            match to.parent() {
                Some(dir) => seq![ActionModel::CreateDirectories { path: dir }, copy],
                None => seq![copy],
            }
        },
        OperationModel::AppendToFile { from, to } => seq![ActionModel::AppendFile { from, to }],
        OperationModel::ShellString { cmd, effects } => seq![ActionModel::RunShell { line: cmd }],
        OperationModel::ShellFile { cmd, effects } => seq![
            ActionModel::RunProgram { file: cmd.file, args: cmd.args },
        ],
    }
}

/// The index of the first report that is not [`Report::Done`].
pub open spec fn first_failure(reports: Seq<Report>) -> Option<int> {
    first_index(reports, |report: Report| report != Report::Done)
}

/// What the executor asks for when `found` stands at the required path of
/// `op` and the actions performed so far ended as `reports` say.
///
/// An operation that is not viable is over at once, as a failure, with no
/// action asked for. Otherwise the actions of the plan are asked for one
/// after another; the first that does not end well ends the operation as a
/// failure, and all of them done is a success. The one exception is an append
/// that could not open or read a file: it ends the whole run.
pub open spec fn execution(op: OperationModel, found: Found, reports: Seq<Report>) -> StepModel {
    let actions = plan(op, found);
    if !op.is_viable(found != Found::Nothing) {
        StepModel::Finish(false)
    } else {
        match first_failure(reports) {
            Some(i) => if i < actions.len() && actions[i] is AppendFile && reports[i]
                == Report::Unreadable {
                StepModel::Abort
            } else {
                StepModel::Finish(false)
            },
            None => if reports.len() < actions.len() {
                StepModel::Perform(actions[reports.len() as int])
            } else {
                StepModel::Finish(true)
            },
        }
    }
}

/// The index of the first report that is not [`Report::Done`].
pub fn find_failure(reports: &Vec<Report>) -> (index: Option<usize>)
    ensures
        index.is_some() == first_failure(reports@).is_some(),
        index matches Some(i) ==> first_failure(reports@) == Some(i as int) && i < reports.len(),
{
    let ghost failed = |report: Report| report != Report::Done;
    let mut i: usize = 0;
    while i < reports.len()
        invariant
            i <= reports.len(),
            failed == |report: Report| report != Report::Done,
            forall|j: int| 0 <= j < i ==> !failed(#[trigger] reports@[j]),
        decreases reports.len() - i,
    {
        if reports[i] != Report::Done {
            proof {
                lemma_first_index_is(reports@, failed, i as int);
            }
            return Some(i);
        }
        i += 1;
    }
    proof {
        lemma_first_index_none(reports@, failed);
    }
    None
}

/// An operation that is about to be executed. Its paths are concrete: the
/// executor resolves nothing.
#[derive(Debug, PartialEq, Eq)]
pub struct OperationInstance<'a> {
    schema: &'a OperationSchema,
}

impl<'a> View for OperationInstance<'a> {
    type V = OperationModel;

    closed spec fn view(&self) -> OperationModel {
        self.schema@
    }
}

impl<'a> OperationInstance<'a> {
    /// The instance of `schema`.
    pub fn from(schema: &'a OperationSchema) -> (instance: OperationInstance<'a>)
        ensures
            instance@ == schema@,
    {
        OperationInstance { schema }
    }

    /// The operation.
    pub fn schema(&self) -> (schema: &'a OperationSchema)
        ensures
            schema@ == self@,
    {
        self.schema
    }

    /// The line that names the operation while it runs, with paths below a
    /// root shown in their portable form.
    pub fn to_string(&self, roots: &Roots) -> (text: String)
        ensures
            text@ == progress_line(self@, roots@),
    {
        match self.schema {
            OperationSchema::CopyFile { from, to } => {
                let mut text = String::from_str("copying ");
                text.append(unresolve_path_repo(roots, from).render().as_str());
                text.append(" to ");
                text.append(unresolve_path_target(roots, to).render().as_str());
                text
            },
            OperationSchema::AppendToFile { from, to } => {
                let mut text = String::from_str("appending ");
                text.append(unresolve_path_repo(roots, from).render().as_str());
                text.append(" to ");
                text.append(unresolve_path_target(roots, to).render().as_str());
                text
            },
            OperationSchema::ShellString { cmd, effects } => String::from_str(
                "executing shell command",
            ),
            OperationSchema::ShellFile { cmd, effects } => {
                let mut text = String::from_str("executing file: ");
                text.append(cmd.to_string().as_str());
                text
            },
        }
    }

    /// The next step of executing the operation, where `found` is what
    /// stands at its required path and `reports` tells how the actions that
    /// were performed so far ended, in order.
    pub fn execute(&self, found: Found, reports: &Vec<Report>) -> (step: Step)
        ensures
            step@ == execution(self@, found, reports@),
            !self@.is_viable(found != Found::Nothing) ==> step@ == StepModel::Finish(false),
    {
        if !self.schema.is_viable(found != Found::Nothing) {
            return Step::Finish(false);
        }
        let failure = find_failure(reports);
        let done = reports.len();
        match self.schema {
            OperationSchema::CopyFile { from, to } => {
                let dir = to.parent();
                let first: usize = if dir.is_some() {
                    1
                } else {
                    0
                };
                if failure.is_some() {
                    Step::Finish(false)
                } else if done < first {
                    Step::Perform(Action::CreateDirectories { path: dir.unwrap() })
                } else if done == first {
                    if found == Found::Directory {
                        Step::Perform(Action::CopyTree { from: from.clone(), to: to.clone() })
                    } else {
                        Step::Perform(Action::CopyFile { from: from.clone(), to: to.clone() })
                    }
                } else {
                    Step::Finish(true)
                }
            },
            OperationSchema::AppendToFile { from, to } => {
                match failure {
                    Some(i) => {
                        if i == 0 && reports[0] == Report::Unreadable {
                            Step::Abort
                        } else {
                            Step::Finish(false)
                        }
                    },
                    None => {
                        if done == 0 {
                            Step::Perform(
                                Action::AppendFile { from: from.clone(), to: to.clone() },
                            )
                        } else {
                            Step::Finish(true)
                        }
                    },
                }
            },
            OperationSchema::ShellString { cmd, effects } => {
                if failure.is_some() {
                    Step::Finish(false)
                } else if done == 0 {
                    Step::Perform(Action::RunShell { line: cmd.clone() })
                } else {
                    Step::Finish(true)
                }
            },
            OperationSchema::ShellFile { cmd, effects } => {
                if failure.is_some() {
                    Step::Finish(false)
                } else if done == 0 {
                    Step::Perform(
                        Action::RunProgram {
                            file: cmd.file().clone(),
                            args: clone_strings(cmd.args()),
                        },
                    )
                } else {
                    Step::Finish(true)
                }
            },
        }
    }
}

/// The line that names an operation while it runs.
pub open spec fn progress_line(op: OperationModel, roots: RootsModel) -> Seq<char> {
    match op {
        OperationModel::CopyFile { from, to } => "copying "@ + render_path(
            roots.unresolve_for(Root::Repo, from),
        ) + " to "@ + render_path(roots.unresolve_for(Root::Target, to)),
        OperationModel::AppendToFile { from, to } => "appending "@ + render_path(
            roots.unresolve_for(Root::Repo, from),
        ) + " to "@ + render_path(roots.unresolve_for(Root::Target, to)),
        OperationModel::ShellString { cmd, effects } => "executing shell command"@,
        OperationModel::ShellFile { cmd, effects } => "executing file: "@ + cmd.text(),
    }
}

} // verus!
