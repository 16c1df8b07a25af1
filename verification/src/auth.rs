//! The `auth` commands: the status report, the arguments of the browser
//! helper that obtains or refreshes a token, and the tokens it returns or the
//! user types.

use vstd::prelude::*;
use crate::cli::AuthLoginMode;
use crate::config::{join, join_path, views, TokenError};
use crate::render::KeyValueRow;
use crate::text::{decimal, trim, trim_str, u64_to_decimal};

verus! {

/// The spelling of a boolean (`bool::to_string`).
pub open spec fn bool_text(b: bool) -> Seq<char> {
    if b { "true"@ } else { "false"@ }
}

/// The spelling of a boolean.
pub fn bool_to_string(b: bool) -> (r: String)
    ensures
        r@ == bool_text(b),
{
    if b { "true".to_owned() } else { "false".to_owned() }
}

/// A key/value row.
pub fn row(key: &str, value: String) -> (r: KeyValueRow)
    ensures
        r.key@ == key@,
        r.value == value,
{
    KeyValueRow { key: key.to_owned(), value }
}

/// The views of key/value rows.
pub open spec fn row_views(rows: Seq<KeyValueRow>) -> Seq<(Seq<char>, Seq<char>)> {
    rows.map_values(|r: KeyValueRow| (r.key@, r.value@))
}

/// The `auth status` report: whether a token is configured, and whether it
/// is valid (`unknown` when there is no token to try).
pub fn auth_status_rows(configured: bool, valid: Option<bool>) -> (r: Vec<KeyValueRow>)
    ensures
        row_views(r@) == seq![
            ("token_configured"@, bool_text(configured)),
            ("token_valid"@, match valid {
                Some(v) => bool_text(v),
                None => "unknown"@,
            }),
        ],
{
    let mut rows: Vec<KeyValueRow> = Vec::new();
    rows.push(row("token_configured", bool_to_string(configured)));
    let v = match valid {
        Some(b) => bool_to_string(b),
        None => "unknown".to_owned(),
    };
    rows.push(row("token_valid", v));
    assert(row_views(rows@) =~= seq![
        ("token_configured"@, bool_text(configured)),
        ("token_valid"@, match valid {
            Some(v) => bool_text(v),
            None => "unknown"@,
        }),
    ]);
    rows
}

/// The token printed by the helper: its output trimmed, when not empty.
pub fn helper_token(stdout: &str) -> (r: Option<String>)
    ensures
        trim(stdout@).len() == 0 <==> r is None,
        r matches Some(t) ==> t@ == trim(stdout@),
{
    let t = trim_str(stdout);
    if t.as_str().is_empty() {
        None
    } else {
        Some(t)
    }
}

/// The token typed or passed by the user: trimmed, and it must not be empty.
pub fn entered_token(input: &str) -> (r: Result<String, TokenError>)
    ensures
        trim(input@).len() == 0 ==> r == Err::<String, TokenError>(TokenError::EmptyToken),
        trim(input@).len() > 0 ==> (r matches Ok(t) && t@ == trim(input@)),
{
    let t = trim_str(input);
    if t.as_str().is_empty() {
        Err(TokenError::EmptyToken)
    } else {
        Ok(t)
    }
}

/// The first of the given paths, else the default.
pub fn first_path(first: Option<&str>, second: Option<&str>, default: &str) -> (r: String)
    ensures
        r@ == (match first {
            Some(p) => p@,
            None => match second {
                Some(q) => q@,
                None => default@,
            },
        }),
{
    match first {
        Some(p) => p.to_owned(),
        None => match second {
            Some(q) => q.to_owned(),
            None => default.to_owned(),
        },
    }
}

/// The default secrets file for credential logins:
/// `$HOME/.codex/secrets/copilot_money`.
pub fn default_secrets_file(home: &str) -> (r: String)
    ensures
        r@ == join_path(join_path(join_path(home@, ".codex"@), "secrets"@), "copilot_money"@),
{
    let a = join(home, ".codex");
    let b = join(a.as_str(), "secrets");
    join(b.as_str(), "copilot_money")
}

/// The arguments of the helper for `auth login`: the script and the timeout;
/// the session directory unless the session is not kept; then the mode:
/// interactive logins show the browser, email-link logins pass the email
/// and secrets file when given, credential logins pass the secrets file or
/// the default one.
pub open spec fn spec_login_args(
    helper: Seq<char>,
    timeout_seconds: u64,
    session_dir: Option<Seq<char>>,
    mode: AuthLoginMode,
    email: Option<Seq<char>>,
    secrets_file: Option<Seq<char>>,
    default_secrets: Seq<char>,
) -> Seq<Seq<char>> {
    let base = seq![helper, "--timeout-seconds"@, decimal(timeout_seconds as nat)];
    let with_session = match session_dir {
        Some(d) => base + seq!["--user-data-dir"@, d],
        None => base,
    };
    match mode {
        AuthLoginMode::Interactive => with_session + seq!["--mode"@, "interactive"@, "--headful"@],
        AuthLoginMode::EmailLink => {
            let m = with_session + seq!["--mode"@, "email-link"@];
            let e = match email {
                Some(x) => m + seq!["--email"@, x],
                None => m,
            };
            match secrets_file {
                Some(p) => e + seq!["--secrets-file"@, p],
                None => e,
            }
        },
        AuthLoginMode::Credentials => with_session + seq![
            "--mode"@,
            "credentials"@,
            "--secrets-file"@,
            match secrets_file {
                Some(p) => p,
                None => default_secrets,
            },
        ],
    }
}

/// The view of an optional string.
pub open spec fn opt_str(s: Option<&str>) -> Option<Seq<char>> {
    match s {
        Some(v) => Some(v@),
        None => None,
    }
}

/// Appends owned copies of two strings.
fn push_two(v: &mut Vec<String>, a: &str, b: &str)
    ensures
        views(final(v)@) == views(old(v)@) + seq![a@, b@],
{
    let ghost before = views(v@);
    v.push(a.to_owned());
    v.push(b.to_owned());
    assert(views(v@) =~= before + seq![a@, b@]);
}

/// The arguments of the helper for `auth login`.
pub fn login_helper_args(
    helper: &str,
    timeout_seconds: u64,
    session_dir: Option<&str>,
    mode: AuthLoginMode,
    email: Option<&str>,
    secrets_file: Option<&str>,
    default_secrets: &str,
) -> (r: Vec<String>)
    ensures
        views(r@) == spec_login_args(
            helper@,
            timeout_seconds,
            opt_str(session_dir),
            mode,
            opt_str(email),
            opt_str(secrets_file),
            default_secrets@,
        ),
{
    let mut args: Vec<String> = Vec::new();
    args.push(helper.to_owned());
    let t = u64_to_decimal(timeout_seconds);
    push_two(&mut args, "--timeout-seconds", t.as_str());
    assert(views(args@) =~= seq![helper@, "--timeout-seconds"@, decimal(timeout_seconds as nat)]);
    if let Some(d) = session_dir {
        push_two(&mut args, "--user-data-dir", d);
    }
    match mode {
        AuthLoginMode::Interactive => {
            push_two(&mut args, "--mode", "interactive");
            let ghost before = views(args@);
            args.push("--headful".to_owned());
            assert(views(args@) =~= before + seq!["--headful"@]);
        },
        AuthLoginMode::EmailLink => {
            push_two(&mut args, "--mode", "email-link");
            if let Some(e) = email {
                push_two(&mut args, "--email", e);
            }
            if let Some(p) = secrets_file {
                push_two(&mut args, "--secrets-file", p);
            }
        },
        AuthLoginMode::Credentials => {
            push_two(&mut args, "--mode", "credentials");
            let p = match secrets_file {
                Some(p) => p,
                None => default_secrets,
            };
            push_two(&mut args, "--secrets-file", p);
        },
    }
    args
}

/// The arguments of the helper that refreshes the token through a saved
/// browser session: the script, `--mode session`, the session directory and
/// the timeout.
pub fn session_refresh_args(helper: &str, session_dir: &str, timeout_seconds: u64) -> (r: Vec<String>)
    ensures
        views(r@) == seq![
            helper@,
            "--mode"@,
            "session"@,
            "--user-data-dir"@,
            session_dir@,
            "--timeout-seconds"@,
            decimal(timeout_seconds as nat),
        ],
{
    let mut args: Vec<String> = Vec::new();
    args.push(helper.to_owned());
    push_two(&mut args, "--mode", "session");
    push_two(&mut args, "--user-data-dir", session_dir);
    let t = u64_to_decimal(timeout_seconds);
    push_two(&mut args, "--timeout-seconds", t.as_str());
    assert(views(args@) =~= seq![
        helper@,
        "--mode"@,
        "session"@,
        "--user-data-dir"@,
        session_dir@,
        "--timeout-seconds"@,
        decimal(timeout_seconds as nat),
    ]);
    args
}

} // verus!
