use terrawrap::errors::TerraError;
use terrawrap::run::finish_execution;
use terrawrap::run::OutputCollector;
use terrawrap::run::TerraExecutor;

#[test]
fn test_invalid_path() {
    let path = "/invalid/path/to/terraform";
    let result = TerraExecutor::new(path.to_string());
    assert!(result.is_err());
    match result {
        Err(TerraError::InvalidPath(pb)) => {
            assert_eq!(pb.as_str(), path);
        }
        _ => panic!("Expected InvalidPath error, got {:?}", result),
    }
}

#[test]
fn test_execute_command_empty_args() {
    let executor = TerraExecutor::new(".".to_string()).unwrap();
    let args: Vec<String> = vec![];
    let result = executor.validate_args(&args);
    assert!(result.is_err());
    match result {
        Err(TerraError::InvalidArgs) => {}
        _ => panic!("Expected InvalidArgs error, got {:?}", result),
    }
}

#[test]
fn non_empty_args_pass_validation() {
    let executor = TerraExecutor::new(".".to_string()).unwrap();
    assert_eq!(Ok(()), executor.validate_args(&vec!["plan".to_string()]));
    assert_eq!(".", executor.terra_path().as_str());
}

#[test]
fn collector_merges_lines_in_arrival_order() {
    let mut collector = OutputCollector::new();
    collector.push_line("first");
    collector.push_line("second");
    collector.push_line("third");
    assert_eq!("first\nsecond\nthird\n", collector.into_output());
}

#[test]
fn empty_collection_merges_to_nothing() {
    let collector = OutputCollector::new();
    assert_eq!("", collector.into_output());
}

#[test]
fn successful_exit_returns_merged_output() {
    let mut collector = OutputCollector::new();
    collector.push_line("Hello, world!");
    let result = finish_execution(collector.into_output(), true);
    assert_eq!(Ok("Hello, world!\n".to_string()), result);
}

#[test]
fn failing_exit_carries_merged_output() {
    let mut collector = OutputCollector::new();
    collector.push_line("error: unknown flag");
    let result = finish_execution(collector.into_output(), false);
    match result {
        Err(TerraError::CommandFailed(err_msg)) => {
            assert!(!err_msg.is_empty());
            assert!(err_msg.contains("error: unknown flag"));
        }
        _ => panic!("Expected CommandFailed error, got {:?}", result),
    }
}

#[test]
fn error_messages_name_their_context() {
    assert_eq!(
        "Invalid Terraform path: /x/y",
        TerraError::InvalidPath("/x/y".to_string()).message()
    );
    assert_eq!("No arguments provided", TerraError::InvalidArgs.message());
    assert_eq!(
        "Unsupported architecture: riscv",
        TerraError::UnsupportedArchitecture("riscv".to_string()).message()
    );
    assert_eq!(
        "No Terraform version found in any files",
        TerraError::NoVersionFound.message()
    );
}
