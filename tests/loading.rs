use logger_plugin::loader::{
    dialect_of, evaluation_command, evaluation_overdue, find_config_file, payload_from_outcome, Dialect, EvalOutcome,
    LoadError, PLAIN_SCRIPT_HEAD, PLAIN_SCRIPT_TAIL, TYPED_SCRIPT_HEAD, TYPED_SCRIPT_TAIL,
};

#[test]
fn first_existing_candidate_wins() {
    assert_eq!(find_config_file(true, true), Ok("logger.config.js".to_string()));
    assert_eq!(find_config_file(true, false), Ok("logger.config.js".to_string()));
    assert_eq!(find_config_file(false, true), Ok("logger.config.ts".to_string()));
}

#[test]
fn no_candidate_is_discovery_failure() {
    assert_eq!(find_config_file(false, false), Err(LoadError::DiscoveryFailed));
}

#[test]
fn dialect_follows_extension() {
    assert_eq!(dialect_of("logger.config.ts"), Dialect::Typed);
    assert_eq!(dialect_of("dir/a.ts"), Dialect::Typed);
    assert_eq!(dialect_of("logger.config.js"), Dialect::Plain);
    assert_eq!(dialect_of("dir/.ts"), Dialect::Plain);
    assert_eq!(dialect_of(".ts"), Dialect::Plain);
    assert_eq!(dialect_of("a.tsx"), Dialect::Plain);
    assert_eq!(dialect_of(""), Dialect::Plain);
}

#[test]
fn typed_module_runs_through_tsx() {
    let cmd = evaluation_command("logger.config.ts");
    assert_eq!(cmd.program, "npx");
    assert_eq!(cmd.args.len(), 3);
    assert_eq!(cmd.args[0], "tsx");
    assert_eq!(cmd.args[1], "-e");
    assert_eq!(cmd.args[2], format!("{}logger.config.ts{}", TYPED_SCRIPT_HEAD, TYPED_SCRIPT_TAIL));
    assert!(cmd.args[2].contains("import config from 'logger.config.ts'"));
}

#[test]
fn plain_module_runs_through_node() {
    let cmd = evaluation_command("logger.config.js");
    assert_eq!(cmd.program, "node");
    assert_eq!(cmd.args.len(), 2);
    assert_eq!(cmd.args[0], "-e");
    assert_eq!(cmd.args[1], format!("{}logger.config.js{}", PLAIN_SCRIPT_HEAD, PLAIN_SCRIPT_TAIL));
    assert!(cmd.args[1].contains("const configPath = 'logger.config.js'"));
    assert!(cmd.args[1].contains("module.default || module"));
}

#[test]
fn launch_failure_is_reported() {
    assert_eq!(payload_from_outcome(EvalOutcome::LaunchFailed), Err(LoadError::ProcessLaunchFailed));
}

#[test]
fn nonzero_exit_carries_stderr() {
    let outcome = EvalOutcome::Exited {
        success: false,
        stdout: b"{}".to_vec(),
        stderr: b"SyntaxError: bad config".to_vec(),
    };
    assert_eq!(
        payload_from_outcome(outcome),
        Err(LoadError::EvaluationFailed("SyntaxError: bad config".to_string()))
    );
}

#[test]
fn nonzero_exit_with_invalid_stderr_is_lossy() {
    let outcome = EvalOutcome::Exited { success: false, stdout: Vec::new(), stderr: vec![b'x', 0xff] };
    assert_eq!(
        payload_from_outcome(outcome),
        Err(LoadError::EvaluationFailed("x\u{fffd}".to_string()))
    );
}

#[test]
fn invalid_stdout_is_not_utf8() {
    let outcome = EvalOutcome::Exited { success: true, stdout: vec![0x7b, 0xc3, 0x28, 0x7d], stderr: Vec::new() };
    assert_eq!(payload_from_outcome(outcome), Err(LoadError::OutputNotUtf8));
}

#[test]
fn stdout_is_trimmed() {
    let outcome = EvalOutcome::Exited {
        success: true,
        stdout: b"  {\"rules\":{}}\n".to_vec(),
        stderr: b"warning".to_vec(),
    };
    assert_eq!(payload_from_outcome(outcome), Ok("{\"rules\":{}}".to_string()));
}

#[test]
fn unicode_white_space_is_trimmed() {
    let outcome = EvalOutcome::Exited {
        success: true,
        stdout: "\u{3000}\t{} \u{a0}".as_bytes().to_vec(),
        stderr: Vec::new(),
    };
    assert_eq!(payload_from_outcome(outcome), Ok("{}".to_string()));
}

#[test]
fn timeout_is_reported() {
    assert_eq!(payload_from_outcome(EvalOutcome::TimedOut), Err(LoadError::Timeout));
}

#[test]
fn path_is_escaped_in_script() {
    let cmd = evaluation_command("it's\\dir/a.js");
    assert_eq!(cmd.program, "node");
    assert_eq!(cmd.args[1], format!("{}it\\'s\\\\dir/a.js{}", PLAIN_SCRIPT_HEAD, PLAIN_SCRIPT_TAIL));
}

#[test]
fn line_breaks_are_escaped_in_script() {
    let cmd = evaluation_command("a\nb\r.ts");
    assert_eq!(cmd.args[2], format!("{}a\\nb\\r.ts{}", TYPED_SCRIPT_HEAD, TYPED_SCRIPT_TAIL));
}

#[test]
fn failed_import_exits_nonzero() {
    let cmd = evaluation_command("logger.config.js");
    assert!(cmd.args[1].contains("process.exit(1)"));
    assert!(!cmd.args[1].contains(".catch(console.error)"));
}

#[test]
fn trailing_separator_is_ignored() {
    assert_eq!(dialect_of("dir/a.ts/"), Dialect::Typed);
    assert_eq!(dialect_of("a.ts//"), Dialect::Typed);
    assert_eq!(dialect_of("dir/.ts/"), Dialect::Plain);
    assert_eq!(dialect_of("/"), Dialect::Plain);
}

#[test]
fn trailing_dot_segment_is_ignored() {
    assert_eq!(dialect_of("a.ts/."), Dialect::Typed);
    assert_eq!(dialect_of("a.ts/./"), Dialect::Typed);
    assert_eq!(dialect_of("x/a.ts//."), Dialect::Typed);
    assert_eq!(dialect_of("a.js/."), Dialect::Plain);
    assert_eq!(dialect_of("a.ts/.."), Dialect::Plain);
    assert_eq!(dialect_of("/."), Dialect::Plain);
    assert_eq!(dialect_of("."), Dialect::Plain);
    let cmd = evaluation_command("a.ts/.");
    assert_eq!(cmd.program, "npx");
}

#[test]
fn overdue_only_at_limit() {
    assert!(!evaluation_overdue(0));
    assert!(!evaluation_overdue(59999));
    assert!(evaluation_overdue(60000));
    assert!(evaluation_overdue(u64::MAX));
}
