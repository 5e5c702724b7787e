use batch_runner::command::Command;
use batch_runner::command::ProgramError;
use batch_runner::command::Shell;
use batch_runner::scheduler::Scheduler;

fn strings(v: &[&str]) -> Vec<String> {
    v.iter().map(|s| s.to_string()).collect()
}

#[test]
fn shell_selector_bash() {
    assert_eq!(Shell::from("bash"), Some(Shell::Bash));
}

#[test]
fn shell_selector_none() {
    assert_eq!(Shell::from("none"), Some(Shell::Direct));
}

#[test]
fn shell_selector_invalid_is_config_error() {
    assert_eq!(Shell::from("zsh"), None);
    assert_eq!(Shell::from(""), None);
}

#[test]
fn direct_mode_splits_on_whitespace() {
    let cmd = Command::from("echo A", &Shell::Direct).unwrap();
    assert_eq!(cmd.program, "echo");
    assert_eq!(cmd.args, vec!["A".to_string()]);
}

#[test]
fn direct_mode_collapses_runs_and_trims() {
    let cmd = Command::from("  ls \t -l \n /tmp  ", &Shell::Direct).unwrap();
    assert_eq!(cmd.program, "ls");
    assert_eq!(cmd.args, strings(&["-l", "/tmp"]));
}

#[test]
fn direct_mode_single_token_has_no_args() {
    let cmd = Command::from("true", &Shell::Direct).unwrap();
    assert_eq!(cmd.program, "true");
    assert!(cmd.args.is_empty());
}

#[test]
fn direct_mode_empty_fails() {
    assert!(matches!(
        Command::from("", &Shell::Direct),
        Err(ProgramError::EmptyCommand)
    ));
}

#[test]
fn direct_mode_whitespace_only_fails() {
    assert!(matches!(
        Command::from(" \t \n ", &Shell::Direct),
        Err(ProgramError::EmptyCommand)
    ));
}

#[test]
fn bash_mode_passes_string_verbatim() {
    let raw = "echo  A | grep A";
    let cmd = Command::from(raw, &Shell::Bash).unwrap();
    assert_eq!(cmd.program, "bash");
    assert_eq!(cmd.args, strings(&["-c", raw]));
}

#[test]
fn bash_mode_accepts_empty_string() {
    let cmd = Command::from("", &Shell::Bash).unwrap();
    assert_eq!(cmd.program, "bash");
    assert_eq!(cmd.args, strings(&["-c", ""]));
}

#[test]
fn display_joins_program_and_args() {
    let cmd = Command::from("echo A B", &Shell::Direct).unwrap();
    assert_eq!(cmd.display(), "echo A B");
}

#[test]
fn display_without_args_keeps_separator() {
    let cmd = Command::from("ls", &Shell::Direct).unwrap();
    assert_eq!(cmd.display(), "ls ");
}

#[test]
fn message_for_empty_command() {
    assert_eq!(
        ProgramError::EmptyCommand.message(),
        "Cannot run empty command"
    );
}

#[test]
fn message_for_spawn_error() {
    let cmd = Command::from("nope -x", &Shell::Direct).unwrap();
    let err = ProgramError::SpawnError(cmd, "os error 2".to_string());
    assert_eq!(err.message(), "Error running \"nope -x\": os error 2");
}

#[test]
fn direct_mode_splits_on_unicode_whitespace() {
    let cmd = Command::from("du\u{3000}-h\u{a0}.", &Shell::Direct).unwrap();
    assert_eq!(cmd.program, "du");
    assert_eq!(cmd.args, strings(&["-h", "."]));
}

#[test]
fn bash_mode_batch_never_aborts_on_blank_commands() {
    // Under Shell mode even a blank command builds; it is handed to the
    // interpreter verbatim instead of failing the batch.
    let mut s: Scheduler<u32> = Scheduler::new(strings(&["", "   "]), Shell::Bash, 1);
    let c1 = s.next_command().unwrap();
    assert_eq!(c1.args, strings(&["-c", ""]));
    s.add_child(1);
    s.take_oldest();
    s.record_exit(true);
    let c2 = s.next_command().unwrap();
    assert_eq!(c2.args, strings(&["-c", "   "]));
    s.add_child(2);
    s.take_oldest();
    s.record_exit(true);
    assert!(s.done());
    assert_eq!(s.exit_code(), 0);
}

#[test]
fn two_commands_spawn_concurrently_and_retire_in_spawn_order() {
    // Commands ["echo A", "echo B"], Direct mode, window of 2: both spawn
    // before anything is waited on, and retirement follows spawn order.
    let mut s: Scheduler<u32> = Scheduler::new(strings(&["echo A", "echo B"]), Shell::Direct, 2);
    assert!(s.can_spawn());
    let c1 = s.next_command().unwrap();
    assert_eq!(c1.program, "echo");
    assert_eq!(c1.args, strings(&["A"]));
    s.add_child(1);
    assert!(s.can_spawn());
    let c2 = s.next_command().unwrap();
    assert_eq!(c2.args, strings(&["B"]));
    s.add_child(2);
    assert_eq!(s.running.len(), 2);
    assert!(!s.can_spawn());
    assert_eq!(s.take_oldest(), 1);
    s.record_exit(true);
    assert_eq!(s.take_oldest(), 2);
    s.record_exit(true);
    assert!(s.done());
    assert_eq!(s.ok_count, 2);
    assert_eq!(s.err_count, 0);
    assert_eq!(s.exit_code(), 0);
}

#[test]
fn window_of_one_is_strictly_sequential() {
    // Commands ["false", "true"], window of 1: the second command cannot be
    // dispatched until the first has been retired; one failed exit and one
    // successful exit still make an aggregate success.
    let mut s: Scheduler<u32> = Scheduler::new(strings(&["false", "true"]), Shell::Direct, 1);
    assert!(s.can_spawn());
    let c1 = s.next_command().unwrap();
    assert_eq!(c1.program, "false");
    s.add_child(1);
    assert!(!s.can_spawn());
    assert_eq!(s.take_oldest(), 1);
    s.record_exit(false);
    assert!(s.can_spawn());
    let c2 = s.next_command().unwrap();
    assert_eq!(c2.program, "true");
    s.add_child(2);
    assert_eq!(s.take_oldest(), 2);
    s.record_exit(true);
    assert!(s.done());
    assert_eq!(s.ok_count, 1);
    assert_eq!(s.err_count, 1);
    assert_eq!(s.exit_code(), 0);
}

#[test]
fn all_failures_make_an_aggregate_failure() {
    // Commands ["false", "false"]: every attempted command fails, so the
    // batch fails, whatever the window size.
    for max_parallel in 1..4usize {
        let mut s: Scheduler<u32> =
            Scheduler::new(strings(&["false", "false"]), Shell::Direct, max_parallel);
        let mut next_handle: u32 = 1;
        loop {
            if s.can_spawn() {
                s.next_command().unwrap();
                s.add_child(next_handle);
                next_handle += 1;
                continue;
            }
            if s.done() {
                break;
            }
            s.take_oldest();
            s.record_exit(false);
        }
        assert_eq!(s.ok_count, 0);
        assert_eq!(s.err_count, 2);
        assert_eq!(s.exit_code(), 1);
    }
}

#[test]
fn empty_batch_is_a_vacuous_success() {
    let s: Scheduler<u32> = Scheduler::new(Vec::new(), Shell::Direct, 4);
    assert!(s.done());
    assert_eq!(s.ok_count, 0);
    assert_eq!(s.err_count, 0);
    assert_eq!(s.exit_code(), 0);
}

#[test]
fn spawn_failure_is_recoverable() {
    // A command whose spawn fails is tallied as a failure and the batch
    // goes on; a later success still makes the batch succeed.
    let mut s: Scheduler<u32> =
        Scheduler::new(strings(&["no-such-program", "true"]), Shell::Direct, 4);
    s.next_command().unwrap();
    s.spawn_failed();
    assert_eq!(s.err_count, 1);
    s.next_command().unwrap();
    s.add_child(1);
    assert_eq!(s.take_oldest(), 1);
    s.record_exit(true);
    assert!(s.done());
    assert_eq!(s.ok_count, 1);
    assert_eq!(s.exit_code(), 0);
}

#[test]
fn malformed_command_aborts_after_earlier_spawns() {
    // ["echo A", "   ", "echo B"] under Direct mode with a window of 1: the
    // first command is spawned and drained, the malformed second one fails
    // the build, and the third is never reached (the driver stops).
    let mut s: Scheduler<u32> =
        Scheduler::new(strings(&["echo A", "   ", "echo B"]), Shell::Direct, 1);
    s.next_command().unwrap();
    s.add_child(1);
    assert_eq!(s.take_oldest(), 1);
    s.record_exit(true);
    assert!(s.can_spawn());
    let r = s.next_command();
    assert!(matches!(r, Err(ProgramError::EmptyCommand)));
    // The batch is aborted here; exactly one command was attempted.
    assert_eq!(s.ok_count + s.err_count, 1);
}

#[test]
fn window_never_exceeds_the_ceiling() {
    // Six commands through a window of 2: the running set stays at or
    // below 2 at every step.
    let cmds = strings(&["a", "b", "c", "d", "e", "f"]);
    let mut s: Scheduler<u32> = Scheduler::new(cmds, Shell::Direct, 2);
    let mut next_handle: u32 = 1;
    let mut retired: Vec<u32> = Vec::new();
    loop {
        assert!(s.running.len() <= 2);
        if s.can_spawn() {
            s.next_command().unwrap();
            s.add_child(next_handle);
            next_handle += 1;
            continue;
        }
        if s.done() {
            break;
        }
        let h = s.take_oldest();
        retired.push(h);
        s.record_exit(true);
    }
    // Retirement in spawn order.
    assert_eq!(retired, vec![1, 2, 3, 4, 5, 6]);
    assert_eq!(s.ok_count, 6);
    assert_eq!(s.exit_code(), 0);
}
