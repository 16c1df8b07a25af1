//! Files and programs the command line relies on: where the token and the
//! browser session are kept, the token file's format, and how the Python
//! token helper is found and run.

use vstd::prelude::*;
use crate::text::{
    chars_of, concat_str, push_char, split, split_chars, string_of, trim,
    trim_str,
};

verus! {

// ---------------------------------------------------------------------------
// Paths
// ---------------------------------------------------------------------------

/// `part` appended to the path `base` as `PathBuf::push` does on Unix: an
/// absolute `part` replaces `base`; otherwise a `/` is put between them
/// unless `base` is empty or already ends with one.
pub open spec fn join_path(base: Seq<char>, part: Seq<char>) -> Seq<char> {
    if part.len() > 0 && part[0] == '/' {
        part
    } else if base.len() == 0 || base.last() == '/' {
        base + part
    } else {
        base + seq!['/'] + part
    }
}

/// Appends `part` to the path `base`.
pub fn join(base: &str, part: &str) -> (r: String)
    ensures
        r@ == join_path(base@, part@),
{
    let b = chars_of(base);
    let p = chars_of(part);
    if p.len() > 0 && p[0] == '/' {
        return part.to_owned();
    }
    if b.len() == 0 || b[b.len() - 1] == '/' {
        return concat_str(base, part);
    }
    let mut out = base.to_owned();
    push_char(&mut out, '/');
    out.append(part);
    out
}

/// The directory of the command line's own files under the home directory.
pub open spec fn config_dir(home: Seq<char>) -> Seq<char> {
    join_path(join_path(home, ".config"@), "copilot-money-cli"@)
}

/// Where the access token is kept: `$HOME/.config/copilot-money-cli/token`.
pub fn token_path(home: &str) -> (r: String)
    ensures
        r@ == join_path(config_dir(home@), "token"@),
{
    let a = join(home, ".config");
    let b = join(a.as_str(), "copilot-money-cli");
    join(b.as_str(), "token")
}

/// Where the persistent browser session is kept:
/// `$HOME/.config/copilot-money-cli/playwright-session`.
pub fn session_path(home: &str) -> (r: String)
    ensures
        r@ == join_path(config_dir(home@), "playwright-session"@),
{
    let a = join(home, ".config");
    let b = join(a.as_str(), "copilot-money-cli");
    join(b.as_str(), "playwright-session")
}

// ---------------------------------------------------------------------------
// The token file
// ---------------------------------------------------------------------------

/// Why a token cannot be used.
#[derive(Debug, Clone, Copy, PartialEq, Eq, Structural)]
pub enum TokenError {
    /// The token file holds nothing but white space.
    EmptyTokenFile,
    /// The token given holds nothing but white space.
    EmptyToken,
}

/// The token held by a token file: its trimmed contents, which must not be
/// empty.
pub open spec fn spec_load_token(contents: Seq<char>) -> Option<Seq<char>> {
    if trim(contents).len() == 0 {
        None
    } else {
        Some(trim(contents))
    }
}

/// The token held by a token file with contents `contents`.
pub fn load_token(contents: &str) -> (r: Result<String, TokenError>)
    ensures
        r matches Ok(t) ==> spec_load_token(contents@) == Some(t@),
        r matches Err(e) ==> spec_load_token(contents@) is None && e == TokenError::EmptyTokenFile,
{
    let t = trim_str(contents);
    if t.as_str().is_empty() {
        Err(TokenError::EmptyTokenFile)
    } else {
        Ok(t)
    }
}

/// The contents written to the token file for `token`: the token and a line
/// break.
pub open spec fn spec_token_file_contents(token: Seq<char>) -> Seq<char> {
    token.push('\n')
}

/// The contents written to the token file for `token`.
pub fn token_file_contents(token: &str) -> (r: String)
    ensures
        r@ == spec_token_file_contents(token@),
{
    let mut out = token.to_owned();
    push_char(&mut out, '\n');
    out
}

// ---------------------------------------------------------------------------
// The Python helper
// ---------------------------------------------------------------------------

/// The Python interpreter of the checkout's virtual environment:
/// `<manifest_dir>/.venv/bin/python`.
pub fn venv_python_path(manifest_dir: &str) -> (r: String)
    ensures
        r@ == join_path(join_path(join_path(manifest_dir@, ".venv"@), "bin"@), "python"@),
{
    let a = join(manifest_dir, ".venv");
    let b = join(a.as_str(), "bin");
    join(b.as_str(), "python")
}

/// The Python interpreter to run: the virtual environment's when it exists,
/// else `python3` from the search path.
pub fn python_executable(venv_python: &str, venv_python_exists: bool) -> (r: String)
    ensures
        venv_python_exists ==> r@ == venv_python@,
        !venv_python_exists ==> r@ == "python3"@,
{
    if venv_python_exists {
        venv_python.to_owned()
    } else {
        "python3".to_owned()
    }
}

/// The places where the token helper script may be, in order of preference:
/// the source checkout's `tools/get_token.py`, then, next to the program,
/// `libexec/copilot-money-cli/get_token.py` and
/// `../libexec/copilot-money-cli/get_token.py`.
pub open spec fn spec_token_helper_candidates(manifest_dir: Seq<char>, exe_dir: Option<Seq<char>>) -> Seq<Seq<char>> {
    let checkout = seq![join_path(manifest_dir, "tools/get_token.py"@)];
    match exe_dir {
        None => checkout,
        Some(dir) => checkout + seq![
            join_path(dir, "libexec/copilot-money-cli/get_token.py"@),
            join_path(dir, "../libexec/copilot-money-cli/get_token.py"@),
        ],
    }
}

/// The places where the token helper script may be, in order of preference.
pub fn token_helper_candidates(manifest_dir: &str, exe_dir: Option<&str>) -> (r: Vec<String>)
    ensures
        r@.map_values(|s: String| s@) == spec_token_helper_candidates(
            manifest_dir@,
            match exe_dir {
                None => None,
                Some(d) => Some(d@),
            },
        ),
{
    let mut out: Vec<String> = Vec::new();
    out.push(join(manifest_dir, "tools/get_token.py"));
    match exe_dir {
        None => {},
        Some(dir) => {
            out.push(join(dir, "libexec/copilot-money-cli/get_token.py"));
            out.push(join(dir, "../libexec/copilot-money-cli/get_token.py"));
        },
    }
    let ghost v = out@.map_values(|s: String| s@);
    let ghost e = match exe_dir {
        None => None,
        Some(d) => Some(d@),
    };
    assert(v =~= spec_token_helper_candidates(manifest_dir@, e));
    out
}

/// A program and its arguments that run the token helper.
#[derive(Debug, Clone, PartialEq, Eq)]
pub struct TokenHelperCommand {
    /// Program to execute for the helper invocation.
    pub program: String,
    /// Arguments passed to the helper program.
    pub args: Vec<String>,
}

/// The view of a list of strings.
pub open spec fn views(v: Seq<String>) -> Seq<Seq<char>> {
    v.map_values(|s: String| s@)
}

/// The command that runs the helper script `helper`: through `uv run --with
/// playwright python` when `uv` is on the search path, else with `python3`.
pub fn token_helper_command(helper: &str, uv_available: bool) -> (r: TokenHelperCommand)
    ensures
        uv_available ==> r.program@ == "uv"@ && views(r.args@) == seq![
            "run"@,
            "--with"@,
            "playwright"@,
            "python"@,
            helper@,
        ],
        !uv_available ==> r.program@ == "python3"@ && views(r.args@) == seq![helper@],
{
    if uv_available {
        let mut args: Vec<String> = Vec::new();
        args.push("run".to_owned());
        args.push("--with".to_owned());
        args.push("playwright".to_owned());
        args.push("python".to_owned());
        args.push(helper.to_owned());
        assert(views(args@) =~= seq!["run"@, "--with"@, "playwright"@, "python"@, helper@]);
        return TokenHelperCommand { program: "uv".to_owned(), args };
    }
    let mut args: Vec<String> = Vec::new();
    args.push(helper.to_owned());
    assert(views(args@) =~= seq![helper@]);
    TokenHelperCommand { program: "python3".to_owned(), args }
}

/// The files where a program named `name` would be found along the search
/// path `path_env`: each `:`-separated directory joined with `name` (an empty
/// directory stands for the current one).
pub open spec fn spec_search_candidates(path_env: Seq<char>, name: Seq<char>) -> Seq<Seq<char>> {
    split(path_env, ':').map_values(|dir: Seq<char>| join_path(dir, name))
}

/// The files where a program named `name` would be found along `path_env`.
pub fn search_candidates(path_env: &str, name: &str) -> (r: Vec<String>)
    ensures
        views(r@) == spec_search_candidates(path_env@, name@),
{
    let cs = chars_of(path_env);
    let dirs = split_chars(cs.as_slice(), ':');
    let ghost want = spec_search_candidates(path_env@, name@);
    let mut out: Vec<String> = Vec::new();
    let n = dirs.len();
    for i in 0..n
        invariant
            n == dirs@.len(),
            n == split(path_env@, ':').len(),
            forall|k: int| 0 <= k < n ==> #[trigger] dirs@[k]@ == split(path_env@, ':')[k],
            want == spec_search_candidates(path_env@, name@),
            out@.len() == i,
            forall|k: int| 0 <= k < i ==> #[trigger] out@[k]@ == want[k],
    {
        let dir = string_of(dirs[i].as_slice());
        out.push(join(dir.as_str(), name));
    }
    assert(views(out@) =~= want);
    out
}

/// Whether a file is executable: it is a regular file and some execute bit
/// of its permission mode is set (a file whose metadata cannot be read is not).
pub fn is_executable_file(is_file: bool, mode: Option<u32>) -> (r: bool)
    ensures
        r == (is_file && (mode matches Some(m) && m & 0o111u32 != 0)),
{
    is_file && match mode {
        Some(m) => m & 0o111u32 != 0,
        None => false,
    }
}

} // verus!
