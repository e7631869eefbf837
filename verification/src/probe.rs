//! Reading the toolchain manager's own version out of its version report.

use vstd::prelude::*;
use vstd::string::StrSliceExecFns;

use crate::error::Error;
use crate::text::find_char;
use crate::text::find_char_in;
use crate::text::str_eq;
use crate::version::spec_parse_version;
use crate::version::Version;

verus! {

/// The minor version the manager's version report denotes, or the failure
/// reading it.
///
/// The report is expected to be the word `rustup`, a space, and a version
/// with all three components (further text, set off by another space, is
/// ignored).  The version must have major component 1 and an explicit patch
/// component.
pub open spec fn probe_minor_model(s: Seq<char>) -> Result<u32, Error> {
    let i = find_char(s, ' ');
    if i == s.len() {
        Err(Error::ProbeOutput)
    } else if s.subrange(0, i) != "rustup"@ {
        Err(Error::ProbeOutput)
    } else {
        let rest = s.subrange(i + 1, s.len() as int);
        let version_text = rest.subrange(0, find_char(rest, ' '));
        match spec_parse_version(version_text) {
            None => Err(Error::VersionParse),
            Some(v) => if v.major != 1 || v.patch is None {
                Err(Error::ProbeOutput)
            } else {
                Ok(v.minor)
            },
        }
    }
}

/// Reads the manager's minor version from the output of its version
/// subcommand.
pub fn minor_version(output: &str) -> (r: Result<u32, Error>)
    ensures
        r == probe_minor_model(output@),
{
    let n = output.unicode_len();
    let i = find_char_in(output, ' ');
    if i == n {
        return Err(Error::ProbeOutput);
    }
    let token = output.substring_char(0, i);
    if !str_eq(token, "rustup") {
        return Err(Error::ProbeOutput);
    }
    let rest = output.substring_char(i + 1, n);
    let j = find_char_in(rest, ' ');
    let version_text = rest.substring_char(0, j);
    let v = match Version::parse(version_text) {
        Ok(v) => v,
        Err(_) => {
            return Err(Error::VersionParse);
        },
    };
    if v.major != 1 || v.patch.is_none() {
        return Err(Error::ProbeOutput);
    }
    Ok(v.minor)
}

/// The manager's minor version as far as it could be determined: `version`
/// is `0` whenever the probe failed in any way, and callers must then skip
/// every version-gated decision rather than treat it as a real version.
pub struct Rustup {
    pub version: u32,
}

impl Rustup {
    /// Builds the probe result from the output of the manager's version
    /// subcommand, or from `None` when running it failed altogether.  Every
    /// failure degrades to the sentinel `0`.
    pub fn new(probe_output: Option<&str>) -> (r: Self)
        ensures
            r.version == match probe_output {
                None => 0u32,
                Some(s) => match probe_minor_model(s@) {
                    Ok(v) => v,
                    Err(_) => 0u32,
                },
            },
    {
        let version = match probe_output {
            None => 0,
            Some(s) => match minor_version(s) {
                Ok(v) => v,
                Err(_) => 0,
            },
        };
        Rustup { version }
    }
}

} // verus!
