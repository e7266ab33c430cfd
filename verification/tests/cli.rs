use plugged::cli::{CliArgs, CliErrorKind};

#[test]
fn parse_defaults() {
    match CliArgs::try_parse_from(&vec!["plugged".to_string()]) {
        Ok(_args) => {}
        Err(err) => panic!("args should parse: {:?}", err),
    }
}

#[test]
fn help_flag_is_available() {
    match CliArgs::try_parse_from(&vec!["plugged".to_string(), "--help".to_string()]) {
        Ok(_) => panic!("--help should not parse into args"),
        Err(err) => assert_eq!(err.kind, CliErrorKind::DisplayHelp),
    }
}

#[test]
fn version_flag_is_reported() {
    match CliArgs::try_parse_from(&vec!["plugged".to_string(), "--version".to_string()]) {
        Ok(_) => panic!("--version should not parse into args"),
        Err(err) => assert_eq!(err.kind, CliErrorKind::DisplayVersion),
    }
}

#[test]
fn unknown_argument_is_rejected() {
    match CliArgs::try_parse_from(&vec!["plugged".to_string(), "--loud".to_string()]) {
        Ok(_) => panic!("an unknown flag should not parse into args"),
        Err(err) => assert_eq!(err.kind, CliErrorKind::UnknownArgument),
    }
}
