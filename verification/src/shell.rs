//! What `spawn` decides before it touches the operating system: the
//! terminal geometry handed to the pty, and the login-shell command
//! the child process runs.

use vstd::prelude::*;

verus! {

use vstd::string::StringExecFns;

/// A terminal geometry, as the pty is opened or resized with it.
#[derive(Clone, Copy, PartialEq, Eq, Structural, Debug)]
pub struct PtyGeometry {
    /// Rows of the terminal.
    pub rows: u16,
    /// Columns of the terminal.
    pub cols: u16,
    /// Pixel width; this manager always passes zero.
    pub pixel_width: u16,
    /// Pixel height; this manager always passes zero.
    pub pixel_height: u16,
}

/// The geometry for a requested column and row count: the pixel
/// dimensions are always zero.
pub fn geometry(cols: u16, rows: u16) -> (g: PtyGeometry)
    ensures
        g == (PtyGeometry { rows, cols, pixel_width: 0, pixel_height: 0 }),
{
    PtyGeometry { rows, cols, pixel_width: 0, pixel_height: 0 }
}

/// The command a session's child process runs: program, arguments,
/// extra environment, and working directory.
pub struct ShellCommand {
    /// The shell executable.
    pub program: String,
    /// Its arguments.
    pub args: Vec<String>,
    /// Environment variables set for the child.
    pub env: Vec<(String, String)>,
    /// The child's working directory; `None` leaves the default.
    pub cwd: Option<String>,
}

/// Relies on `dirs::home_dir`: the invoking user's home directory, if
/// the platform reports one, rendered as a plain string.  The result
/// depends on the environment, so nothing is assumed of it.
#[verifier::external_body]
fn home_dir_string() -> (r: Option<String>) {
    dirs::home_dir().map(|p| p.to_string_lossy().into_owned())
}

/// Builds the login-shell command of a new session: the given shell
/// (the user's default, as the host looked it up) or `/bin/zsh` in
/// its absence, run as a login shell with `TERM` set for a 256-color
/// terminal, in the requested working directory; with no directory
/// requested, the user's home directory — if one is known — takes
/// its place.
pub fn build_shell_command(shell: Option<String>, cwd: Option<String>) -> (c: ShellCommand)
    ensures
        shell matches Some(s) ==> c.program@ == s@,
        shell is None ==> c.program@ == "/bin/zsh"@,
        c.args@.len() == 1 && c.args@[0]@ == "-l"@,
        c.env@.len() == 1 && c.env@[0].0@ == "TERM"@ && c.env@[0].1@ == "xterm-256color"@,
        cwd matches Some(d) ==> (c.cwd matches Some(p) && p@ == d@),
{
    let program = match shell {
        Some(s) => s,
        None => String::from_str("/bin/zsh"),
    };
    let mut args: Vec<String> = Vec::new();
    args.push(String::from_str("-l"));
    let mut env: Vec<(String, String)> = Vec::new();
    env.push((String::from_str("TERM"), String::from_str("xterm-256color")));
    let cwd = match cwd {
        Some(d) => Some(d),
        None => home_dir_string(),
    };
    ShellCommand { program, args, env, cwd }
}

} // verus!
