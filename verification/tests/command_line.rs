use p2pchain::clargs::{parse_args, ArgAction};

fn args(v: &[&str]) -> Vec<String> {
    v.iter().map(|s| s.to_string()).collect()
}

#[test]
fn args_port() {
    assert_eq!(
        parse_args(&args(&["node", "-p", "8080"])),
        vec![ArgAction::SetPort { port: 8080, privileged: false }]
    );
    assert_eq!(
        parse_args(&args(&["node", "--port", "80"])),
        vec![ArgAction::SetPort { port: 80, privileged: true }]
    );
    assert_eq!(
        parse_args(&args(&["node", "--port", "1024"])),
        vec![ArgAction::SetPort { port: 1024, privileged: false }]
    );
}

#[test]
fn args_bad_and_missing_port() {
    assert_eq!(parse_args(&args(&["node", "-p", "x"])), vec![ArgAction::InvalidPort]);
    assert_eq!(parse_args(&args(&["node", "-p", "70000"])), vec![ArgAction::InvalidPort]);
    assert_eq!(parse_args(&args(&["node", "-p"])), vec![ArgAction::PortNotProvided]);
    assert_eq!(
        parse_args(&args(&["node", "-p", "9000", "-p"])),
        vec![ArgAction::SetPort { port: 9000, privileged: false }, ArgAction::PortNotProvided]
    );
}

#[test]
fn args_help_stops() {
    assert_eq!(parse_args(&args(&["node", "-h", "-p", "1"])), vec![ArgAction::ShowUsage]);
    assert_eq!(
        parse_args(&args(&["node", "-p", "5", "--h"])),
        vec![ArgAction::SetPort { port: 5, privileged: true }, ArgAction::ShowUsage]
    );
    assert_eq!(parse_args(&args(&["node", "--help", "-p", "1"])), vec![ArgAction::ShowUsage]);
    assert_eq!(parse_args(&args(&["node", "--HELP"])), vec![]);
}

#[test]
fn args_other_words_ignored() {
    assert_eq!(parse_args(&args(&["node", "foo", "bar"])), vec![]);
    assert_eq!(parse_args(&args(&["node"])), vec![]);
    assert_eq!(parse_args(&args(&[])), vec![]);
    // the value after -p is looked at again as an argument of its own
    assert_eq!(
        parse_args(&args(&["node", "-p", "-p", "7"])),
        vec![ArgAction::InvalidPort, ArgAction::SetPort { port: 7, privileged: true }]
    );
}
