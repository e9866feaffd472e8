use terrawrap::errors::TerraError;
use terrawrap::version::extract_constraint;
use terrawrap::version::find_required_version;
use terrawrap::version::resolve_constraints;
use terrawrap::version::terraform_required;
use terrawrap::version::ConfigFile;

#[test]
fn test_terraform_required() {
    assert_eq!(Some("1.2.0".to_string()), terraform_required(">= 1.2"));
    assert_eq!(Some("1.2.3".to_string()), terraform_required("~> 1.2.3"));
    assert_eq!(Some("1.2.4".to_string()), terraform_required("<= 1.2.4"));
    assert_eq!(None, terraform_required("no version here"));
}

#[test]
fn single_component_is_padded_twice() {
    assert_eq!(Some("1.0.0".to_string()), terraform_required("1"));
    assert_eq!(Some("7.0.0".to_string()), terraform_required("= 7"));
}

#[test]
fn three_components_pass_unchanged() {
    assert_eq!(Some("10.20.30".to_string()), terraform_required("!= 10.20.30"));
}

#[test]
fn empty_constraint_has_no_version() {
    assert_eq!(None, terraform_required(""));
}

#[test]
fn extra_components_are_cut_at_three() {
    assert_eq!(Some("1.2.3".to_string()), terraform_required("1.2.3.4"));
}

#[test]
fn resolver_takes_first_usable_constraint() {
    let constraints = vec![
        None,
        Some("no digits".to_string()),
        Some(">= 1.2".to_string()),
        Some("9.9.9".to_string()),
    ];
    assert_eq!(Ok("1.2.0".to_string()), resolve_constraints(&constraints));
}

#[test]
fn resolver_with_no_constraints_fails() {
    let constraints: Vec<Option<String>> = vec![];
    assert_eq!(
        Err(TerraError::NoVersionFound),
        resolve_constraints(&constraints)
    );
    let all_unusable = vec![None, Some("none here".to_string())];
    assert_eq!(
        Err(TerraError::NoVersionFound),
        resolve_constraints(&all_unusable)
    );
}

#[test]
fn extract_constraint_reads_terraform_block() {
    let content = "terraform {\n  required_version = \">= 1.2\"\n}\n";
    assert_eq!(Ok(Some(">= 1.2".to_string())), extract_constraint(content));
}

#[test]
fn extract_constraint_without_block_finds_nothing() {
    let content = "variable \"x\" {\n  default = 3\n}\n";
    assert_eq!(Ok(None), extract_constraint(content));
}

#[test]
fn extract_constraint_rejects_invalid_hcl() {
    assert_eq!(
        Err(TerraError::ConfigParseError),
        extract_constraint("terraform {")
    );
}

#[test]
fn second_scanned_file_declares_the_version() {
    let files = vec![
        ConfigFile {
            name: "main.tf".to_string(),
            content: "variable \"x\" {\n  default = 1\n}\n".to_string(),
        },
        ConfigFile {
            name: "versions.tf".to_string(),
            content: "terraform {\n  required_version = \">= 1.2\"\n}\n".to_string(),
        },
    ];
    assert_eq!(Ok("1.2.0".to_string()), find_required_version(&files));
}

#[test]
fn directory_without_config_files_fails() {
    let files: Vec<ConfigFile> = vec![];
    assert_eq!(Err(TerraError::NoVersionFound), find_required_version(&files));
    let only_other_extensions = vec![ConfigFile {
        name: "readme.md".to_string(),
        content: "terraform {\n  required_version = \"1.2.3\"\n}\n".to_string(),
    }];
    assert_eq!(
        Err(TerraError::NoVersionFound),
        find_required_version(&only_other_extensions)
    );
}

#[test]
fn unparsed_file_is_skipped() {
    let files = vec![
        ConfigFile {
            name: "bad.tf".to_string(),
            content: "terraform {".to_string(),
        },
        ConfigFile {
            name: "good.hcl".to_string(),
            content: "terraform {\n  required_version = \"~> 0.14\"\n}\n".to_string(),
        },
    ];
    assert_eq!(Ok("0.14.0".to_string()), find_required_version(&files));
}
