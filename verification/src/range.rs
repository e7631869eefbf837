//! Expanding a version-range expression such as `1.31..1.50` into the
//! ordered list of minor-release toolchain names it denotes.

use vstd::prelude::*;
use vstd::arithmetic::div_mod::lemma_fundamental_div_mod_converse;
use vstd::string::StrSliceExecFns;
use vstd::string::StringExecFns;

use crate::error::Error;
use crate::text::all_digits;
use crate::text::decimal_digits;
use crate::text::digits_val;
use crate::text::find_dotdot;
use crate::text::find_dotdot_in;
use crate::text::append_decimal;
use crate::text::parse_u32;
use crate::toolchain::opt_str_view;
use crate::toolchain::strs_view;
use crate::version::spec_parse_version;
use crate::version::Version;

verus! {

/// The toolchain name `1.<minor>`.
pub open spec fn toolchain_name_seq(minor: int) -> Seq<char> {
    "1."@ + decimal_digits(minor as nat)
}

/// The toolchain names of the stepped range from `start` to `end`
/// inclusive: element `k` names minor version `start + k * step`.
pub open spec fn range_names(start: int, end: int, step: int) -> Seq<Seq<char>> {
    Seq::new((((end - start) / step) + 1) as nat, |k: int| toolchain_name_seq(start + k * step))
}

/// Whether `s` is a decimal numeral denoting a value that fits in `u8`.
pub open spec fn u8_digits(s: Seq<char>) -> bool {
    s.len() > 0 && all_digits(s) && digits_val(s) <= u8::MAX as int
}

/// The step an optional step text denotes: `1` when absent, its numeric
/// value when it is a numeral fitting in `u8`, and `None` (a parse failure)
/// otherwise.
pub open spec fn step_model(step: Option<Seq<char>>) -> Option<u8> {
    match step {
        None => Some(1u8),
        Some(t) => if u8_digits(t) {
            Some(digits_val(t) as u8)
        } else {
            None
        },
    }
}

/// One step of the fold that looks for a consensus minimum supported
/// version among the workspace members: a member declaring nothing, or the
/// value already accumulated, is skipped; the first declared value is
/// adopted; a differing second value is an ambiguity failure.
pub open spec fn consensus_from(
    rvs: Seq<Option<Seq<char>>>,
    acc: Option<Seq<char>>,
) -> Result<Option<Seq<char>>, Error>
    decreases rvs.len(),
{
    if rvs.len() == 0 {
        Ok(acc)
    } else if rvs[0] is None || rvs[0] == acc {
        consensus_from(rvs.drop_first(), acc)
    } else if acc is None {
        consensus_from(rvs.drop_first(), rvs[0])
    } else {
        Err(Error::AmbiguousRustVersion)
    }
}

/// The consensus minimum supported version of the workspace: `Ok(None)`
/// when no member declares one, `Ok(Some(v))` when every declaring member
/// agrees on `v`, and an ambiguity failure otherwise.
pub open spec fn consensus(rvs: Seq<Option<Seq<char>>>) -> Result<Option<Seq<char>>, Error> {
    consensus_from(rvs, None)
}

/// View of the per-member minimum-version declarations.
pub open spec fn rvs_view(v: Seq<Option<String>>) -> Seq<Option<Seq<char>>> {
    v.map_values(
        |o: Option<String>|
            match o {
                None => None,
                Some(s) => Some(s@),
            },
    )
}

/// Whether the range's upper bound is left open, so that it must be
/// resolved through the current stable toolchain: the separator is absent,
/// or nothing follows it.
pub open spec fn range_needs_stable(s: Seq<char>) -> bool {
    find_dotdot(s) == s.len() || find_dotdot(s) + 2 == s.len()
}

/// The effective stable minor version handed to the expansion; it is only
/// consulted when the range's upper bound is open.
pub open spec fn stable_input(stable_minor: Option<u32>) -> u32 {
    match stable_minor {
        None => 0u32,
        Some(v) => v,
    }
}

/// What expanding a range expression yields: the list of toolchain names,
/// or the first failure, in the order the checks run — start resolution
/// and parsing, the start's major-version check, end resolution and its
/// checks, step parsing, the zero-step check, and finally emptiness.
pub open spec fn expand_model(
    range: Seq<char>,
    step: Option<Seq<char>>,
    rvs: Seq<Option<Seq<char>>>,
    stable: u32,
) -> Result<Seq<Seq<char>>, Error> {
    let i = find_dotdot(range);
    let start_text = range.subrange(0, i);
    let start_res: Result<Version, Error> = if start_text.len() == 0 {
        match consensus(rvs) {
            Err(e) => Err(e),
            Ok(None) => Err(Error::NoRustVersion),
            Ok(Some(t)) => match spec_parse_version(t) {
                None => Err(Error::VersionParse),
                Some(v) => Ok(v),
            },
        }
    } else {
        match spec_parse_version(start_text) {
            None => Err(Error::VersionParse),
            Some(v) => Ok(v),
        }
    };
    match start_res {
        Err(e) => Err(e),
        Ok(start) => if start.major != 1 {
            Err(Error::MajorNotOne)
        } else {
            let end_res: Result<u32, Error> = if range_needs_stable(range) {
                Ok(stable)
            } else {
                match spec_parse_version(range.subrange(i + 2, range.len() as int)) {
                    None => Err(Error::VersionParse),
                    Some(v) => if v.major != 1 {
                        Err(Error::MajorNotOne)
                    } else {
                        Ok(v.minor)
                    },
                }
            };
            match end_res {
                Err(e) => Err(e),
                Ok(end) => match step_model(step) {
                    None => Err(Error::StepParse),
                    Some(st) => if st == 0 {
                        Err(Error::StepZero)
                    } else if start.minor > end {
                        Err(Error::EmptyRange)
                    } else {
                        Ok(range_names(start.minor as int, end as int, st as int))
                    },
                },
            }
        },
    }
}

/// The toolchain name `1.<minor>` as a string.
pub fn toolchain_name(minor: u32) -> (r: String)
    ensures
        r@ == toolchain_name_seq(minor as int),
{
    let mut s = String::from_str("1.");
    append_decimal(&mut s, minor);
    s
}

/// Whether expanding `range` needs the current stable toolchain's minor
/// version to resolve its upper bound.
pub fn needs_stable(range: &str) -> (r: bool)
    ensures
        r == range_needs_stable(range@),
{
    let n = range.unicode_len();
    let i = find_dotdot_in(range);
    i == n || n - i == 2
}

/// View of the accumulator of the consensus fold.
spec fn acc_view(o: Option<String>) -> Option<Seq<char>> {
    match o {
        None => None,
        Some(s) => Some(s@),
    }
}

/// The consensus minimum supported version among the members'
/// declarations, `Ok(None)` when nobody declares one, or the ambiguity
/// failure.
fn resolve_consensus(rust_versions: &Vec<Option<String>>) -> (r: Result<Option<String>, Error>)
    ensures
        match r {
            Ok(acc) => consensus(rvs_view(rust_versions@)) == Ok::<Option<Seq<char>>, Error>(
                acc_view(acc),
            ),
            Err(e) => consensus(rvs_view(rust_versions@)) == Err::<Option<Seq<char>>, Error>(e),
        },
{
    let ghost full = rvs_view(rust_versions@);
    let n = rust_versions.len();
    let mut acc: Option<String> = None;
    let mut idx: usize = 0;
    proof {
        assert(full.subrange(0, n as int) =~= full);
    }
    while idx < n
        invariant
            n == rust_versions@.len(),
            idx <= n,
            full == rvs_view(rust_versions@),
            consensus(full) == consensus_from(full.subrange(idx as int, n as int), acc_view(acc)),
        decreases n - idx,
    {
        let ghost rest = full.subrange(idx as int, n as int);
        proof {
            assert(rest[0] == full[idx as int]);
            assert(full[idx as int] == acc_view(rust_versions@[idx as int]));
            assert(rest.drop_first() =~= full.subrange(idx as int + 1, n as int));
        }
        let same = match (&rust_versions[idx], &acc) {
            (None, _) => true,
            (Some(a), Some(b)) => crate::text::str_eq(a.as_str(), b.as_str()),
            (Some(_), None) => false,
        };
        if same {
            // skip: nothing declared, or it repeats the accumulated value
            proof {
                assert(rest[0] is None || rest[0] == acc_view(acc));
            }
        } else if acc.is_none() {
            acc = match &rust_versions[idx] {
                Some(a) => Some(a.clone()),
                None => None,
            };
            proof {
                assert(acc_view(acc) == rest[0]);
            }
        } else {
            proof {
                assert(!(rest[0] is None) && rest[0] != acc_view(acc) && !(acc_view(acc) is None));
                assert(consensus_from(rest, acc_view(acc)) == Err::<Option<Seq<char>>, Error>(
                    Error::AmbiguousRustVersion,
                ));
            }
            return Err(Error::AmbiguousRustVersion);
        }
        idx += 1;
    }
    proof {
        assert(full.subrange(n as int, n as int) =~= Seq::<Option<Seq<char>>>::empty());
    }
    Ok(acc)
}

/// Expands a version-range expression into the ordered list of toolchain
/// names it denotes.
///
/// `range` is `"<start>..<end>"`, either side possibly empty; an absent
/// separator means an absent end.  An empty start falls back to the
/// consensus minimum supported version declared by the workspace members
/// (`rust_versions`, one entry per member).  An absent or empty end is
/// resolved by `stable_minor`, the minor version of the current stable
/// toolchain's build tool, which the caller must have determined whenever
/// `needs_stable(range)` holds.  `step` selects every `step`-th minor
/// release, starting at the start bound.
pub fn version_range(
    range: &str,
    step: Option<&str>,
    rust_versions: &Vec<Option<String>>,
    stable_minor: Option<u32>,
) -> (r: Result<Vec<String>, Error>)
    requires
        range_needs_stable(range@) ==> stable_minor is Some,
    ensures
        ({
            let m = expand_model(
                range@,
                opt_str_view(step),
                rvs_view(rust_versions@),
                stable_input(stable_minor),
            );
            match r {
                Ok(v) => m == Ok::<Seq<Seq<char>>, Error>(strs_view(v@)),
                Err(e) => m == Err::<Seq<Seq<char>>, Error>(e),
            }
        }),
{
    let n = range.unicode_len();
    let i = find_dotdot_in(range);
    let start_text = range.substring_char(0, i);

    let start = if start_text.unicode_len() == 0 {
        match resolve_consensus(rust_versions) {
            Err(e) => {
                return Err(e);
            },
            Ok(None) => {
                return Err(Error::NoRustVersion);
            },
            Ok(Some(t)) => match Version::parse(t.as_str()) {
                Err(e) => {
                    return Err(e);
                },
                Ok(v) => v,
            },
        }
    } else {
        match Version::parse(start_text) {
            Err(e) => {
                return Err(e);
            },
            Ok(v) => v,
        }
    };
    if start.major != 1 {
        return Err(Error::MajorNotOne);
    }

    let end: u32 = if i == n || n - i == 2 {
        match stable_minor {
            Some(v) => v,
            None => {
                // the precondition rules this out: an open upper bound comes
                // with a resolved stable minor version
                proof {
                    assert(false);
                }
                0
            },
        }
    } else {
        proof {
            crate::text::lemma_find_dotdot_bounds(range@);
        }
        let end_text = range.substring_char(i + 2, n);
        match Version::parse(end_text) {
            Err(e) => {
                return Err(e);
            },
            Ok(v) => {
                if v.major != 1 {
                    return Err(Error::MajorNotOne);
                }
                v.minor
            },
        }
    };

    let st: u8 = match step {
        None => 1,
        Some(t) => match parse_u32(t) {
            Some(v) => {
                if v > 255 {
                    return Err(Error::StepParse);
                }
                v as u8
            },
            None => {
                return Err(Error::StepParse);
            },
        },
    };
    if st == 0 {
        return Err(Error::StepZero);
    }
    if start.minor > end {
        return Err(Error::EmptyRange);
    }

    let ghost s0 = start.minor as int;
    let ghost d = st as int;
    let end64: u64 = end as u64;
    let step64: u64 = st as u64;
    let mut names: Vec<String> = Vec::new();
    let mut m: u64 = start.minor as u64;
    proof {
        assert(names@.len() * d == 0) by (nonlinear_arith)
            requires names@.len() == 0;
    }
    while m <= end64
        invariant
            1 <= step64 <= 255,
            step64 == d,
            end64 == end,
            s0 == start.minor as int,
            start.minor <= end,
            m as int == s0 + names@.len() * d,
            m <= end64 + step64,
            names@.len() > 0 ==> m as int - d <= end as int,
            forall|k: int|
                0 <= k < names@.len() ==> (#[trigger] names@[k])@ == toolchain_name_seq(s0 + k * d),
        decreases end64 + step64 - m,
    {
        let ghost len0 = names@.len() as int;
        names.push(toolchain_name(m as u32));
        proof {
            assert((len0 + 1) * d == len0 * d + d) by (nonlinear_arith);
        }
        m = m + step64;
    }
    proof {
        let len = names@.len() as int;
        let e = end as int;
        assert(len > 0);
        assert(len * d == (len - 1) * d + d) by (nonlinear_arith);
        lemma_fundamental_div_mod_converse(e - s0, d, len - 1, e - s0 - (len - 1) * d);
        assert(range_names(s0, e, d).len() == len);
        assert forall|k: int| 0 <= k < len implies strs_view(names@)[k] == range_names(s0, e, d)[k]
        by {
            assert(strs_view(names@)[k] == names@[k]@);
        }
        assert(strs_view(names@) =~= range_names(s0, e, d));
    }
    Ok(names)
}

} // verus!
