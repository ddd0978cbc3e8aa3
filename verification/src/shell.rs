//! Picking a command interpreter from a snapshot of the environment.
//!
//! The heuristics are pure functions of the values handed in (the operating
//! system name and the relevant environment variables), so they can be
//! checked without consulting the process environment.

use vstd::prelude::*;

use crate::text::{
    contains_ci, contains_ci_sub, count_char, count_char_in, str_eq, tail_after, tail_after_sep,
};

verus! {

/// How to ask an interpreter to run a one-line script: a display name, the
/// executable to spawn, and the flag that introduces the script text.
pub struct Shell {
    pub name: String,
    pub cmd: String,
    pub arg: String,
}

impl Shell {
    /// Build a descriptor from the three parts.
    pub fn new(name: &str, cmd: &str, arg: &str) -> (r: Self)
        ensures
            r.name@ == name@,
            r.cmd@ == cmd@,
            r.arg@ == arg@,
    {
        Shell { name: name.to_owned(), cmd: cmd.to_owned(), arg: arg.to_owned() }
    }
}

/// Shells that are trusted to accept `-c <script>`; anything else degrades
/// to plain `sh`.
pub open spec fn known_shell(name: Seq<char>) -> bool {
    ||| name == "bash"@
    ||| name == "zsh"@
    ||| name == "fish"@
    ||| name == "pwsh"@
}

/// The view of an optional string slice.
pub open spec fn opt_view(o: Option<&str>) -> Option<Seq<char>> {
    match o {
        Some(s) => Some(s@),
        None => None,
    }
}

/// The descriptor (name, executable, flag) that the resolver picks for a
/// given operating system name, `SHELL` value, and `PSModulePath` value.
pub open spec fn shell_choice(
    os: Seq<char>,
    shell_var: Option<Seq<char>>,
    ps_module_path: Option<Seq<char>>,
) -> (Seq<char>, Seq<char>, Seq<char>) {
    if os == "windows"@ {
        match ps_module_path {
            Some(v) => if count_char(v, ';') >= 2 {
                if contains_ci(v, "powershell\\7\\"@) {
                    ("pwsh"@, "pwsh.exe"@, "-c"@)
                } else {
                    ("powershell"@, "powershell.exe"@, "-Command"@)
                }
            } else {
                ("cmd"@, "cmd.exe"@, "/C"@)
            },
            None => ("cmd"@, "cmd.exe"@, "/C"@),
        }
    } else {
        let sv = match shell_var {
            Some(v) => v,
            None => "/bin/sh"@,
        };
        let short = tail_after(sv, '/');
        if known_shell(short) {
            (short, short, "-c"@)
        } else {
            ("sh"@, "sh"@, "-c"@)
        }
    }
}

/// Pick the interpreter for the given environment snapshot: `os` is the
/// operating system name, `shell_var` the value of `SHELL`, and
/// `ps_module_path` the value of `PSModulePath`.
///
/// On Windows, `PSModulePath` with at least three `;`-separated segments
/// signals PowerShell; its lower-cased text containing `powershell\7\`
/// refines that to PowerShell 7. Elsewhere the last path segment of `SHELL`
/// (default `/bin/sh`) is used when it is a known shell, else plain `sh`.
pub fn resolve_shell(os: &str, shell_var: Option<&str>, ps_module_path: Option<&str>) -> (r: Shell)
    ensures
        r.name@ == shell_choice(os@, opt_view(shell_var), opt_view(ps_module_path)).0,
        r.cmd@ == shell_choice(os@, opt_view(shell_var), opt_view(ps_module_path)).1,
        r.arg@ == shell_choice(os@, opt_view(shell_var), opt_view(ps_module_path)).2,
{
    if str_eq(os, "windows") {
        match ps_module_path {
            Some(v) => {
                if count_char_in(v, ';') >= 2 {
                    if contains_ci_sub(v, "powershell\\7\\") {
                        Shell::new("pwsh", "pwsh.exe", "-c")
                    } else {
                        Shell::new("powershell", "powershell.exe", "-Command")
                    }
                } else {
                    Shell::new("cmd", "cmd.exe", "/C")
                }
            },
            None => Shell::new("cmd", "cmd.exe", "/C"),
        }
    } else {
        let sv: &str = match shell_var {
            Some(v) => v,
            None => "/bin/sh",
        };
        let short = tail_after_sep(sv, '/');
        if str_eq(short, "bash") || str_eq(short, "zsh") || str_eq(short, "fish") || str_eq(
            short,
            "pwsh",
        ) {
            Shell::new(short, short, "-c")
        } else {
            Shell::new("sh", "sh", "-c")
        }
    }
}

}
