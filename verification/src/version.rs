//! A semantic-version-like value `major.minor[.patch]` and its parser.

use vstd::prelude::*;
use vstd::string::StrSliceExecFns;

use crate::error::Error;
use crate::text::find_char;
use crate::text::find_char_in;
use crate::text::parse_u32;
use crate::text::u32_digits;
use crate::text::digits_val;

verus! {

/// A parsed version: `major.minor`, with an optional `patch` component
/// (absent means "any patch").
#[derive(Clone, Copy, Debug, PartialEq, Eq)]
pub struct Version {
    pub major: u32,
    pub minor: u32,
    pub patch: Option<u32>,
}

/// The version denoted by `s`, if `s` is of the shape
/// `numeral '.' numeral ['.' numeral]` with every numeral fitting in `u32`.
///
/// The text is cut at the first two dots; a third dot can only appear inside
/// the patch component, where it makes the numeral malformed.
pub open spec fn spec_parse_version(s: Seq<char>) -> Option<Version> {
    let i = find_char(s, '.');
    if i == s.len() {
        None
    } else {
        let major_text = s.subrange(0, i);
        let rest = s.subrange(i + 1, s.len() as int);
        let j = find_char(rest, '.');
        let minor_text = rest.subrange(0, j);
        if !u32_digits(major_text) || !u32_digits(minor_text) {
            None
        } else if j == rest.len() {
            Some(
                Version {
                    major: digits_val(major_text) as u32,
                    minor: digits_val(minor_text) as u32,
                    patch: None,
                },
            )
        } else {
            let patch_text = rest.subrange(j + 1, rest.len() as int);
            if u32_digits(patch_text) {
                Some(
                    Version {
                        major: digits_val(major_text) as u32,
                        minor: digits_val(minor_text) as u32,
                        patch: Some(digits_val(patch_text) as u32),
                    },
                )
            } else {
                None
            }
        }
    }
}

impl Version {
    /// Reads a dotted version string.  Succeeds exactly on the texts that
    /// `spec_parse_version` accepts, and returns the version it denotes.
    pub fn parse(s: &str) -> (r: Result<Version, Error>)
        ensures
            match r {
                Ok(v) => spec_parse_version(s@) == Some(v),
                Err(e) => spec_parse_version(s@) is None && e == Error::VersionParse,
            },
    {
        let n = s.unicode_len();
        let i = find_char_in(s, '.');
        if i == n {
            return Err(Error::VersionParse);
        }
        let major_text = s.substring_char(0, i);
        let rest = s.substring_char(i + 1, n);
        let m = rest.unicode_len();
        let j = find_char_in(rest, '.');
        let minor_text = rest.substring_char(0, j);
        let major = match parse_u32(major_text) {
            Some(v) => v,
            None => {
                return Err(Error::VersionParse);
            },
        };
        let minor = match parse_u32(minor_text) {
            Some(v) => v,
            None => {
                return Err(Error::VersionParse);
            },
        };
        if j == m {
            Ok(Version { major, minor, patch: None })
        } else {
            let patch_text = rest.substring_char(j + 1, m);
            match parse_u32(patch_text) {
                Some(p) => Ok(Version { major, minor, patch: Some(p) }),
                None => Err(Error::VersionParse),
            }
        }
    }
}

} // verus!
