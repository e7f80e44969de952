use dotflex::executor::{find_failure, Action, Found, OperationInstance, Report, Step};
use dotflex::operation::{OperationSchema, ShellInvocation};
use dotflex::path::FilePath;
use dotflex::roots::Roots;

fn p(text: &str) -> FilePath {
    FilePath::parse(text)
}

fn copy(from: &str, to: &str) -> OperationSchema {
    OperationSchema::CopyFile { from: p(from), to: p(to) }
}

#[test]
fn an_operation_that_is_not_viable_fails_without_any_action() {
    let op = copy("/repo/a", "/home/u/a");
    let instance = OperationInstance::from(&op);
    assert_eq!(instance.execute(Found::Nothing, &vec![]), Step::Finish(false));
    let append = OperationSchema::AppendToFile { from: p("/repo/a"), to: p("/home/u/a") };
    assert_eq!(OperationInstance::from(&append).execute(Found::Nothing, &vec![]), Step::Finish(false));
    let script = OperationSchema::ShellFile {
        cmd: ShellInvocation::from(&p("/repo/setup"), &[]),
        effects: None,
    };
    assert_eq!(OperationInstance::from(&script).execute(Found::Nothing, &vec![]), Step::Finish(false));
}

#[test]
fn a_copy_makes_the_directory_and_then_copies_the_file() {
    let op = copy("/repo/a", "/home/u/dir/a");
    let instance = OperationInstance::from(&op);
    assert_eq!(
        instance.execute(Found::File, &vec![]),
        Step::Perform(Action::CreateDirectories { path: p("/home/u/dir") })
    );
    assert_eq!(
        instance.execute(Found::File, &vec![Report::Done]),
        Step::Perform(Action::CopyFile { from: p("/repo/a"), to: p("/home/u/dir/a") })
    );
    assert_eq!(instance.execute(Found::File, &vec![Report::Done, Report::Done]), Step::Finish(true));
}

#[test]
fn a_copy_of_a_directory_copies_the_tree() {
    let op = copy("/repo/dir", "/home/u/dir");
    let instance = OperationInstance::from(&op);
    assert_eq!(
        instance.execute(Found::Directory, &vec![Report::Done]),
        Step::Perform(Action::CopyTree { from: p("/repo/dir"), to: p("/home/u/dir") })
    );
}

#[test]
fn a_copy_to_a_path_without_parent_copies_at_once() {
    let op = copy("/repo/a", "/");
    let instance = OperationInstance::from(&op);
    assert_eq!(
        instance.execute(Found::File, &vec![]),
        Step::Perform(Action::CopyFile { from: p("/repo/a"), to: p("/") })
    );
    assert_eq!(instance.execute(Found::File, &vec![Report::Done]), Step::Finish(true));
}

#[test]
fn a_failed_action_ends_the_operation() {
    let op = copy("/repo/a", "/home/u/dir/a");
    let instance = OperationInstance::from(&op);
    assert_eq!(instance.execute(Found::File, &vec![Report::Failed]), Step::Finish(false));
    assert_eq!(instance.execute(Found::File, &vec![Report::Unreadable]), Step::Finish(false));
    assert_eq!(
        instance.execute(Found::File, &vec![Report::Done, Report::Failed]),
        Step::Finish(false)
    );
}

#[test]
fn an_append_that_cannot_read_ends_the_run() {
    let op = OperationSchema::AppendToFile { from: p("/repo/a"), to: p("/home/u/a") };
    let instance = OperationInstance::from(&op);
    assert_eq!(
        instance.execute(Found::File, &vec![]),
        Step::Perform(Action::AppendFile { from: p("/repo/a"), to: p("/home/u/a") })
    );
    assert_eq!(instance.execute(Found::File, &vec![Report::Unreadable]), Step::Abort);
    assert_eq!(instance.execute(Found::File, &vec![Report::Failed]), Step::Finish(false));
    assert_eq!(instance.execute(Found::File, &vec![Report::Done]), Step::Finish(true));
}

#[test]
fn a_command_line_needs_nothing_on_disk() {
    let op = OperationSchema::ShellString { cmd: "echo hi".to_string(), effects: None };
    let instance = OperationInstance::from(&op);
    assert_eq!(
        instance.execute(Found::Nothing, &vec![]),
        Step::Perform(Action::RunShell { line: "echo hi".to_string() })
    );
    assert_eq!(instance.execute(Found::Nothing, &vec![Report::Done]), Step::Finish(true));
    assert_eq!(instance.execute(Found::Nothing, &vec![Report::Failed]), Step::Finish(false));
}

#[test]
fn an_invocation_runs_its_program_with_its_arguments() {
    let op = OperationSchema::ShellFile {
        cmd: ShellInvocation::from(&p("/repo/setup"), &["--fast", "now"]),
        effects: None,
    };
    let instance = OperationInstance::from(&op);
    assert_eq!(
        instance.execute(Found::File, &vec![]),
        Step::Perform(Action::RunProgram {
            file: p("/repo/setup"),
            args: vec!["--fast".to_string(), "now".to_string()],
        })
    );
    assert_eq!(instance.execute(Found::File, &vec![Report::Done]), Step::Finish(true));
    assert_eq!(instance.schema(), &op);
}

#[test]
fn the_first_failure_is_found() {
    assert_eq!(find_failure(&vec![]), None);
    assert_eq!(find_failure(&vec![Report::Done, Report::Done]), None);
    assert_eq!(find_failure(&vec![Report::Done, Report::Failed, Report::Unreadable]), Some(1));
    assert_eq!(find_failure(&vec![Report::Unreadable]), Some(0));
}

#[test]
fn progress_lines_show_portable_paths() {
    let r = Roots::new(p("/home/u/.dotflex"), p("/home/u")).unwrap();
    let op = copy("/home/u/.dotflex/REPO/features/zsh/.zshrc", "/home/u/.zshrc");
    assert_eq!(OperationInstance::from(&op).to_string(&r), "copying features/zsh/.zshrc to .zshrc");
    let append = OperationSchema::AppendToFile { from: p("/home/u/.dotflex/REPO/x"), to: p("/home/u/y") };
    assert_eq!(OperationInstance::from(&append).to_string(&r), "appending x to y");
    let shell = OperationSchema::ShellString { cmd: "echo hi".to_string(), effects: None };
    assert_eq!(OperationInstance::from(&shell).to_string(&r), "executing shell command");
    let script = OperationSchema::ShellFile {
        cmd: ShellInvocation::from(&p("/repo/setup"), &["-x"]),
        effects: None,
    };
    assert_eq!(OperationInstance::from(&script).to_string(&r), "executing file: /repo/setup -x");
}
