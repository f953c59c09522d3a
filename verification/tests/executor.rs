use drbot::executor::{Command, CommandProcessor, ExecStep, ExecutionResult, FileOutcome, FileStep, ParameterValue, ProcessorConfig};
use drbot::nlcmd::{AppCommand, CommandExecutor, CommandType, FileCommand, SystemCommand};

#[test]
fn test_command_creation() {
    let cmd = Command::new("open chrome", CommandType::Application(AppCommand::Open("chrome".to_string())))
        .with_confidence(950);
    assert_eq!(cmd.confidence_permille, 950);
}

#[test]
fn test_command_parameters() {
    let cmd = Command::new("test", CommandType::Custom("test".to_string()))
        .with_parameter("name", ParameterValue::String("value".to_string()));
    assert_eq!(cmd.get_string_param("name"), Some("value"));
}

#[test]
fn test_execution_result() {
    let success = ExecutionResult::success("Done");
    assert!(success.success);
    assert_eq!(success.message, "Done");
    let failure = ExecutionResult::failure("Error");
    assert!(!failure.success);
    assert_eq!(failure.error, Some("Error".to_string()));
}

fn finished_error(step: ExecStep) -> Option<String> {
    match step {
        ExecStep::Finished(r) => r.error,
        _ => None,
    }
}

#[test]
fn confirmation_comes_first() {
    let e = CommandExecutor::new();
    let cmd = Command::new("delete x", CommandType::File(FileCommand::Delete("x".to_string()))).requires_confirmation();
    assert!(matches!(e.plan(&cmd, false), ExecStep::ConfirmationRequired));
}

#[test]
fn plans_off_macos() {
    let e = CommandExecutor::new();
    let shot = Command::new("s", CommandType::System(SystemCommand::Screenshot));
    assert_eq!(finished_error(e.plan(&shot, false)), Some("Screenshots not supported on this platform".to_string()));
    let sleep = Command::new("s", CommandType::System(SystemCommand::Sleep));
    assert_eq!(finished_error(e.plan(&sleep, true)), Some("System command Sleep not implemented".to_string()));
    let blank = Command::new("c", CommandType::File(FileCommand::Create("  ".to_string())));
    assert_eq!(finished_error(e.plan(&blank, false)), Some("Missing path".to_string()));
    let custom = Command::new("c", CommandType::Custom("dance".to_string()));
    assert_eq!(finished_error(e.plan(&custom, false)), Some("Custom command 'dance' not supported".to_string()));
    let min = Command::new("m", CommandType::Application(AppCommand::Minimize));
    assert_eq!(finished_error(e.plan(&min, true)), Some("App command Minimize not implemented".to_string()));
}

#[test]
fn plans_on_macos() {
    let e = CommandExecutor::new();
    let close = Command::new("c", CommandType::Application(AppCommand::Close("Mail".to_string())));
    match e.plan(&close, true) {
        ExecStep::Run { program, args, wait, ok, err_prefix } => {
            assert_eq!(program, "osascript");
            assert_eq!(args, vec!["-e".to_string(), "tell application \"Mail\" to quit".to_string()]);
            assert!(wait);
            assert_eq!(ok, "Closed Mail");
            assert_eq!(err_prefix, Some("Failed to close Mail: ".to_string()));
        }
        _ => panic!("expected a run"),
    }
    let dir = Command::new("c", CommandType::File(FileCommand::Create("a/b/".to_string())));
    match e.plan(&dir, true) {
        ExecStep::File(FileStep::Create { path, dir }) => {
            assert_eq!(path, "a/b/");
            assert!(dir);
        }
        _ => panic!("expected a file step"),
    }
}

#[test]
fn outcome_texts() {
    let mv = FileStep::Move { from: "a".to_string(), to: "b/c".to_string() };
    let r = CommandExecutor::file_result(&mv, FileOutcome::Done);
    assert!(r.success);
    assert_eq!(r.message, "Moved a -> b/c");
    let r = CommandExecutor::file_result(&mv, FileOutcome::ParentFailed("denied".to_string()));
    assert_eq!(r.error, Some("Failed to create destination directory: denied".to_string()));
    let ls = FileStep::List { path: "x".to_string() };
    let r = CommandExecutor::file_result(&ls, FileOutcome::NotADirectory);
    assert_eq!(r.error, Some("Not a directory: x".to_string()));
    let r = CommandExecutor::run_result("Opened X", &Some("Failed to open X: ".to_string()), Err("nope".to_string()));
    assert_eq!(r.error, Some("Failed to open X: nope".to_string()));
    let r = CommandExecutor::run_result("Audio muted", &None, Err("nope".to_string()));
    assert!(r.success);
}

#[test]
fn test_parse_command() {
    let processor = CommandProcessor::new();
    let cmd = processor.parse("open safari");
    assert!(cmd.is_some());
    let cmd = cmd.unwrap();
    assert!(cmd.confidence_permille > 500);
    assert_eq!(cmd.command_type, CommandType::Application(AppCommand::Open("safari".to_string())));
}

#[test]
fn test_empty_input() {
    let processor = CommandProcessor::new();
    assert!(processor.parse("").is_none());
    assert!(processor.parse("   ").is_none());
}

#[test]
fn dangerous_commands_need_confirmation() {
    let processor = CommandProcessor::new();
    let cmd = processor.parse("shutdown the computer");
    if let Some(c) = cmd {
        if c.command_type == CommandType::System(SystemCommand::Shutdown) {
            assert!(c.requires_confirmation);
        }
    }
    let lenient = CommandProcessor::with_config(ProcessorConfig { min_confidence_percent: 101, confirm_dangerous: true });
    assert!(lenient.parse("open safari").is_none());
}
