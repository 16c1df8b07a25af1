use copilot_money_cli::config::{
    is_executable_file, join, load_token, python_executable, search_candidates, session_path,
    token_file_contents, token_helper_candidates, token_helper_command, token_path,
    venv_python_path, TokenError, TokenHelperCommand,
};

#[test]
fn paths_under_home() {
    assert_eq!(token_path("/home/u"), "/home/u/.config/copilot-money-cli/token");
    assert_eq!(session_path("/home/u/"), "/home/u/.config/copilot-money-cli/playwright-session");
    assert_eq!(token_path(""), ".config/copilot-money-cli/token");
}

#[test]
fn join_follows_path_push() {
    assert_eq!(join("a", "b"), "a/b");
    assert_eq!(join("a/", "b"), "a/b");
    assert_eq!(join("", "b"), "b");
    assert_eq!(join("a", "/abs"), "/abs");
    assert_eq!(join("a", ""), "a/");
}

#[test]
fn token_file_round_trip() {
    assert_eq!(token_file_contents("abc"), "abc\n");
    assert_eq!(load_token(&token_file_contents("abc")), Ok("abc".to_string()));
    assert_eq!(load_token(&token_file_contents("  abc \t")), Ok("abc".to_string()));
    assert_eq!(load_token(&token_file_contents("   ")), Err(TokenError::EmptyTokenFile));
    assert_eq!(load_token(""), Err(TokenError::EmptyTokenFile));
}

#[test]
fn python_and_helper_locations() {
    assert_eq!(venv_python_path("/src"), "/src/.venv/bin/python");
    assert_eq!(python_executable("/src/.venv/bin/python", true), "/src/.venv/bin/python");
    assert_eq!(python_executable("/src/.venv/bin/python", false), "python3");
    assert_eq!(token_helper_candidates("/src", None), vec!["/src/tools/get_token.py".to_string()]);
    assert_eq!(
        token_helper_candidates("/src", Some("/usr/bin")),
        vec![
            "/src/tools/get_token.py".to_string(),
            "/usr/bin/libexec/copilot-money-cli/get_token.py".to_string(),
            "/usr/bin/../libexec/copilot-money-cli/get_token.py".to_string(),
        ]
    );
}

#[test]
fn token_helper_command_prefers_uv() {
    assert_eq!(
        token_helper_command("/h/get_token.py", true),
        TokenHelperCommand {
            program: "uv".to_string(),
            args: vec!["run", "--with", "playwright", "python", "/h/get_token.py"]
                .into_iter()
                .map(String::from)
                .collect(),
        }
    );
    assert_eq!(
        token_helper_command("/h/get_token.py", false),
        TokenHelperCommand { program: "python3".to_string(), args: vec!["/h/get_token.py".to_string()] }
    );
}

#[test]
fn search_path_candidates_and_executables() {
    assert_eq!(search_candidates("/bin:/usr/bin", "uv"), vec!["/bin/uv".to_string(), "/usr/bin/uv".to_string()]);
    assert_eq!(search_candidates("", "uv"), vec!["uv".to_string()]);
    assert_eq!(search_candidates("/a::/b/", "uv"), vec!["/a/uv".to_string(), "uv".to_string(), "/b/uv".to_string()]);
    assert!(is_executable_file(true, Some(0o755)));
    assert!(is_executable_file(true, Some(0o100)));
    assert!(!is_executable_file(true, Some(0o644)));
    assert!(!is_executable_file(false, Some(0o755)));
    assert!(!is_executable_file(true, None));
}
