use ipatool::admin_cli::{parse_reset_request, stdin_password, PasswordSource, ResetRequest};

fn args(list: &[&str]) -> Vec<String> {
    list.iter().map(|s| s.to_string()).collect()
}

fn run(r: ResetRequest) -> (String, Option<String>) {
    match r {
        ResetRequest::Run { username, password: PasswordSource::Given(p) } => (username, Some(p)),
        ResetRequest::Run { username, password: PasswordSource::Stdin } => (username, None),
        other => panic!("not a run: {:?}", other),
    }
}

fn invalid(r: ResetRequest) -> (String, bool) {
    match r {
        ResetRequest::Invalid { message, show_usage } => (message, show_usage),
        other => panic!("not refused: {:?}", other),
    }
}

#[test]
fn reset_command_arguments() {
    assert!(matches!(parse_reset_request(&args(&["server"])), ResetRequest::NotReset));
    assert!(matches!(parse_reset_request(&args(&["server", "serve"])), ResetRequest::NotReset));
    assert_eq!(run(parse_reset_request(&args(&["s", "reset-admin-password", "--password", "pw"]))), ("admin".to_string(), Some("pw".to_string())));
    assert_eq!(
        run(parse_reset_request(&args(&["s", "reset-admin-password", "--username", " root ", "--password-stdin"]))),
        ("root".to_string(), None)
    );
    assert!(matches!(parse_reset_request(&args(&["s", "reset-admin-password", "--bogus", "-h"])), ResetRequest::Invalid { .. }));
    assert!(matches!(parse_reset_request(&args(&["s", "reset-admin-password", "-h", "--bogus"])), ResetRequest::Help));
    assert_eq!(invalid(parse_reset_request(&args(&["s", "reset-admin-password", "--bogus"]))), ("unknown argument: --bogus".to_string(), true));
    assert_eq!(invalid(parse_reset_request(&args(&["s", "reset-admin-password", "--username"]))), ("missing value for --username".to_string(), true));
    assert_eq!(invalid(parse_reset_request(&args(&["s", "reset-admin-password", "--password"]))), ("missing value for --password".to_string(), true));
    assert_eq!(
        invalid(parse_reset_request(&args(&["s", "reset-admin-password", "--username", "  ", "--password", "x"]))),
        ("username must not be empty".to_string(), false)
    );
    assert_eq!(
        invalid(parse_reset_request(&args(&["s", "reset-admin-password", "--password", "x", "--password-stdin"]))),
        ("use either --password or --password-stdin, not both".to_string(), false)
    );
    assert_eq!(invalid(parse_reset_request(&args(&["s", "reset-admin-password"]))), ("password must not be empty".to_string(), true));
    assert_eq!(
        run(parse_reset_request(&args(&["s", "reset-admin-password", "--password", "a", "--password", "b"]))),
        ("admin".to_string(), Some("b".to_string()))
    );
}

#[test]
fn stdin_passwords() {
    assert_eq!(stdin_password("secret\r\n\n"), Ok("secret".to_string()));
    assert_eq!(stdin_password(" a b \n"), Ok(" a b ".to_string()));
    assert_eq!(stdin_password("\r\n"), Err("password must not be empty".to_string()));
}
