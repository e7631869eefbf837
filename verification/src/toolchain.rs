//! Deciding whether and how the manager's install subcommand must run.

use vstd::prelude::*;
use vstd::string::StrSliceExecFns;
use vstd::string::StringExecFns;

verus! {

/// View of an optional string slice.
pub open spec fn opt_str_view(o: Option<&str>) -> Option<Seq<char>> {
    match o {
        None => None,
        Some(s) => Some(s@),
    }
}

/// View of a vector of strings as a sequence of character sequences.
pub open spec fn strs_view(v: Seq<String>) -> Seq<Seq<char>> {
    v.map_values(|s: String| s@)
}

/// `s` with a single leading `+` sigil removed, if one is present.
pub open spec fn strip_plus(s: Seq<char>) -> Seq<char> {
    if s.len() > 0 && s[0] == '+' {
        s.subrange(1, s.len() as int)
    } else {
        s
    }
}

/// The command line that asks the toolchain's build tool for its version:
/// it succeeds exactly when the toolchain is already usable.
pub open spec fn probe_args(toolchain: Seq<char>) -> Seq<Seq<char>> {
    seq!["rustup"@, "run"@, toolchain, "cargo"@, "--version"@]
}

/// The command line that installs a toolchain.  `--no-self-update` is always
/// passed, because some continuous-integration environments cannot
/// self-update the manager binary.
pub open spec fn install_args(toolchain: Seq<char>, target: Option<Seq<char>>) -> Seq<Seq<char>> {
    let base = seq!["rustup"@, "toolchain"@, "add"@, toolchain, "--no-self-update"@];
    match target {
        None => base,
        Some(t) => base + seq!["--target"@, t],
    }
}

/// An install invocation the caller must run: its full argument list, and
/// whether its output should stream live to the console (installation can be
/// slow) instead of being captured and discarded.
pub struct InstallCommand {
    pub args: Vec<String>,
    pub stream_output: bool,
}

/// `toolchain` with a single leading `+` sigil removed.
fn normalize_toolchain<'a>(toolchain: &'a str) -> (r: &'a str)
    ensures
        r@ == strip_plus(toolchain@),
{
    let n = toolchain.unicode_len();
    if n > 0 && toolchain.get_char(0) == '+' {
        toolchain.substring_char(1, n)
    } else {
        toolchain
    }
}

/// The command line that probes whether `toolchain` (after sigil stripping)
/// already has a usable build tool.
pub fn toolchain_probe_args(toolchain: &str) -> (r: Vec<String>)
    ensures
        strs_view(r@) == probe_args(strip_plus(toolchain@)),
{
    let tc = normalize_toolchain(toolchain);
    let mut args: Vec<String> = Vec::new();
    args.push(String::from_str("rustup"));
    args.push(String::from_str("run"));
    args.push(String::from_str(tc));
    args.push(String::from_str("cargo"));
    args.push(String::from_str("--version"));
    proof {
        assert(strs_view(args@) =~= probe_args(strip_plus(toolchain@)));
    }
    args
}

/// Decides whether the manager's install subcommand must be invoked for
/// `toolchain`, and with which arguments.
///
/// `probe_ok` reports whether the toolchain's build tool already responds
/// (the outcome of running `toolchain_probe_args`); it is only consulted
/// when no `target` is requested.  Without a target, an already-usable
/// toolchain needs no install invocation at all; with a target the install
/// always runs, since target-specific components may be missing even when
/// the base toolchain is present.
pub fn install_toolchain(
    toolchain: &str,
    target: Option<&str>,
    print_output: bool,
    probe_ok: bool,
) -> (r: Option<InstallCommand>)
    ensures
        (r is None) <==> (target is None && probe_ok),
        r matches Some(c) ==> strs_view(c.args@) == install_args(
            strip_plus(toolchain@),
            opt_str_view(target),
        ) && c.stream_output == print_output,
{
    let tc = normalize_toolchain(toolchain);
    if target.is_none() && probe_ok {
        return None;
    }
    let mut args: Vec<String> = Vec::new();
    args.push(String::from_str("rustup"));
    args.push(String::from_str("toolchain"));
    args.push(String::from_str("add"));
    args.push(String::from_str(tc));
    args.push(String::from_str("--no-self-update"));
    match target {
        None => {
            proof {
                assert(strs_view(args@) =~= install_args(strip_plus(toolchain@), None));
            }
        },
        Some(t) => {
            args.push(String::from_str("--target"));
            args.push(String::from_str(t));
            proof {
                assert(strs_view(args@) =~= install_args(strip_plus(toolchain@), Some(t@)));
            }
        },
    }
    Some(InstallCommand { args, stream_output: print_output })
}

} // verus!
