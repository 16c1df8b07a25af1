use copilot_money_cli::auth::{
    auth_status_rows, default_secrets_file, entered_token, first_path, helper_token,
    login_helper_args, session_refresh_args,
};
use copilot_money_cli::cli::AuthLoginMode;
use copilot_money_cli::config::TokenError;

fn strs(v: &[&str]) -> Vec<String> {
    v.iter().map(|s| s.to_string()).collect()
}

#[test]
fn status_rows() {
    let rows = auth_status_rows(false, None);
    assert_eq!((rows[0].key.as_str(), rows[0].value.as_str()), ("token_configured", "false"));
    assert_eq!((rows[1].key.as_str(), rows[1].value.as_str()), ("token_valid", "unknown"));
    let rows = auth_status_rows(true, Some(false));
    assert_eq!(rows[0].value, "true");
    assert_eq!(rows[1].value, "false");
}

#[test]
fn tokens_from_helper_and_user() {
    assert_eq!(helper_token("tok\n"), Some("tok".to_string()));
    assert_eq!(helper_token(" \n"), None);
    assert_eq!(entered_token("  t "), Ok("t".to_string()));
    assert_eq!(entered_token(""), Err(TokenError::EmptyToken));
    assert_eq!(first_path(None, Some("/b"), "/c"), "/b");
    assert_eq!(first_path(Some("/a"), Some("/b"), "/c"), "/a");
    assert_eq!(first_path(None, None, "/c"), "/c");
    assert_eq!(default_secrets_file("/home/u"), "/home/u/.codex/secrets/copilot_money");
}

#[test]
fn login_arguments_by_mode() {
    assert_eq!(
        login_helper_args("h.py", 180, Some("/s"), AuthLoginMode::Interactive, None, None, "/d"),
        strs(&["h.py", "--timeout-seconds", "180", "--user-data-dir", "/s", "--mode", "interactive", "--headful"])
    );
    assert_eq!(
        login_helper_args("h.py", 5, None, AuthLoginMode::EmailLink, Some("a@b"), Some("/sec"), "/d"),
        strs(&["h.py", "--timeout-seconds", "5", "--mode", "email-link", "--email", "a@b", "--secrets-file", "/sec"])
    );
    assert_eq!(
        login_helper_args("h.py", 0, None, AuthLoginMode::Credentials, None, None, "/d"),
        strs(&["h.py", "--timeout-seconds", "0", "--mode", "credentials", "--secrets-file", "/d"])
    );
    assert_eq!(
        session_refresh_args("h.py", "/s", 180),
        strs(&["h.py", "--mode", "session", "--user-data-dir", "/s", "--timeout-seconds", "180"])
    );
}
