//! The guarantees the range expansion and the workspace-consensus fold give
//! their callers, stated and proved once over the models that the executable
//! functions' contracts use.

use vstd::prelude::*;
use vstd::arithmetic::div_mod::lemma_div_pos_is_pos;

use crate::error::Error;
use crate::range::consensus;
use crate::range::consensus_from;
use crate::range::expand_model;
use crate::range::range_names;
use crate::range::range_needs_stable;
use crate::range::step_model;
use crate::range::toolchain_name_seq;
use crate::text::find_dotdot;
use crate::version::spec_parse_version;
use crate::version::Version;

verus! {

/// A range with both bounds written out, both with major version 1 and with
/// the start not above the end, expands to exactly
/// `(end.minor - start.minor) / step + 1` toolchain names, the first naming
/// the start's minor version and the `k`-th naming minor
/// `start.minor + k * step`, so the denoted minors strictly increase.
pub proof fn lemma_expand_spans_range(
    range: Seq<char>,
    step: Option<Seq<char>>,
    rvs: Seq<Option<Seq<char>>>,
    stable: u32,
    vs: Version,
    ve: Version,
    st: u8,
)
    requires
        range.subrange(0, find_dotdot(range)).len() > 0,
        spec_parse_version(range.subrange(0, find_dotdot(range))) == Some(vs),
        !range_needs_stable(range),
        spec_parse_version(range.subrange(find_dotdot(range) + 2, range.len() as int)) == Some(
            ve,
        ),
        vs.major == 1,
        ve.major == 1,
        vs.minor <= ve.minor,
        step_model(step) == Some(st),
        st >= 1,
    ensures
        ({
            let names = range_names(vs.minor as int, ve.minor as int, st as int);
            &&& expand_model(range, step, rvs, stable) == Ok::<Seq<Seq<char>>, Error>(names)
            &&& names.len() == (ve.minor - vs.minor) / (st as int) + 1
            &&& names[0] == toolchain_name_seq(vs.minor as int)
            &&& forall|k: int|
                0 <= k < names.len() ==> names[k] == toolchain_name_seq(
                    vs.minor + k * (st as int),
                )
            &&& forall|k1: int, k2: int|
                0 <= k1 < k2 < names.len() ==> vs.minor + #[trigger] (k1 * (st as int)) < vs.minor
                    + #[trigger] (k2 * (st as int))
        }),
{
    let names = range_names(vs.minor as int, ve.minor as int, st as int);
    lemma_div_pos_is_pos(ve.minor - vs.minor, st as int);
    assert(names.len() == (ve.minor - vs.minor) / (st as int) + 1);
    assert(names[0] == toolchain_name_seq(vs.minor + 0 * (st as int)));
    assert forall|k1: int, k2: int|
        0 <= k1 < k2 < names.len() implies vs.minor + #[trigger] (k1 * (st as int)) < vs.minor
        + #[trigger] (k2 * (st as int)) by {
        assert(k1 * (st as int) < k2 * (st as int)) by (nonlinear_arith)
            requires
                k1 < k2,
                st >= 1,
        ;
    }
}

/// Expansion never succeeds when the step text parses to zero, whatever the
/// rest of the input looks like.
pub proof fn lemma_expand_zero_step(
    range: Seq<char>,
    step_text: Seq<char>,
    rvs: Seq<Option<Seq<char>>>,
    stable: u32,
)
    requires
        step_model(Some(step_text)) == Some(0u8),
    ensures
        expand_model(range, Some(step_text), rvs, stable) is Err,
{
}

/// A written-out start bound whose major version is not 1 makes expansion
/// fail with exactly the major-version error.
pub proof fn lemma_expand_start_major(
    range: Seq<char>,
    step: Option<Seq<char>>,
    rvs: Seq<Option<Seq<char>>>,
    stable: u32,
    v: Version,
)
    requires
        range.subrange(0, find_dotdot(range)).len() > 0,
        spec_parse_version(range.subrange(0, find_dotdot(range))) == Some(v),
        v.major != 1,
    ensures
        expand_model(range, step, rvs, stable) == Err::<Seq<Seq<char>>, Error>(Error::MajorNotOne),
{
}

/// A written-out end bound whose major version is not 1 never lets
/// expansion succeed.
pub proof fn lemma_expand_end_major(
    range: Seq<char>,
    step: Option<Seq<char>>,
    rvs: Seq<Option<Seq<char>>>,
    stable: u32,
    v: Version,
)
    requires
        !range_needs_stable(range),
        spec_parse_version(range.subrange(find_dotdot(range) + 2, range.len() as int)) == Some(v),
        v.major != 1,
    ensures
        expand_model(range, step, rvs, stable) is Err,
{
}

/// A range whose upper bound is open expands, when everything else is in
/// order, to the names from the start's minor up to exactly the supplied
/// stable minor version: the end is resolved by the stable toolchain.
pub proof fn lemma_expand_open_end(
    range: Seq<char>,
    step: Option<Seq<char>>,
    rvs: Seq<Option<Seq<char>>>,
    stable: u32,
    vs: Version,
    st: u8,
)
    requires
        range.subrange(0, find_dotdot(range)).len() > 0,
        spec_parse_version(range.subrange(0, find_dotdot(range))) == Some(vs),
        range_needs_stable(range),
        vs.major == 1,
        vs.minor <= stable,
        step_model(step) == Some(st),
        st >= 1,
    ensures
        expand_model(range, step, rvs, stable) == Ok::<Seq<Seq<char>>, Error>(
            range_names(vs.minor as int, stable as int, st as int),
        ),
{
}

/// An empty start bound hands start resolution to the workspace: when the
/// members' declarations conflict, expansion fails with exactly the
/// ambiguity error.
pub proof fn lemma_expand_ambiguous_workspace(
    range: Seq<char>,
    step: Option<Seq<char>>,
    rvs: Seq<Option<Seq<char>>>,
    stable: u32,
)
    requires
        range.subrange(0, find_dotdot(range)).len() == 0,
        consensus(rvs) == Err::<Option<Seq<char>>, Error>(Error::AmbiguousRustVersion),
    ensures
        expand_model(range, step, rvs, stable) == Err::<Seq<Seq<char>>, Error>(
            Error::AmbiguousRustVersion,
        ),
{
}

/// Whatever a successful consensus fold returns covers every declared
/// value: each member that declares a minimum version declares exactly the
/// returned one.
pub proof fn lemma_consensus_ok(
    rvs: Seq<Option<Seq<char>>>,
    acc: Option<Seq<char>>,
    r: Option<Seq<char>>,
)
    requires
        consensus_from(rvs, acc) == Ok::<Option<Seq<char>>, Error>(r),
    ensures
        acc is Some ==> r == acc,
        forall|i: int| 0 <= i < rvs.len() && (#[trigger] rvs[i]) is Some ==> r == rvs[i],
    decreases rvs.len(),
{
    if rvs.len() == 0 {
    } else if rvs[0] is None || rvs[0] == acc {
        lemma_consensus_ok(rvs.drop_first(), acc, r);
        assert forall|i: int| 0 <= i < rvs.len() && (#[trigger] rvs[i]) is Some implies r == rvs[i]
        by {
            if i == 0 {
                assert(rvs[0] == acc);
            } else {
                assert(rvs.drop_first()[i - 1] == rvs[i]);
            }
        }
    } else if acc is None {
        lemma_consensus_ok(rvs.drop_first(), rvs[0], r);
        assert forall|i: int| 0 <= i < rvs.len() && (#[trigger] rvs[i]) is Some implies r == rvs[i]
        by {
            if i > 0 {
                assert(rvs.drop_first()[i - 1] == rvs[i]);
            }
        }
    } else {
    }
}

/// Helper for the agreement law, generalized over the fold's accumulator.
proof fn lemma_consensus_from_agree(rvs: Seq<Option<Seq<char>>>, acc: Option<Seq<char>>, v: Seq<
    char,
>)
    requires
        forall|i: int| 0 <= i < rvs.len() ==> (#[trigger] rvs[i]) is None || rvs[i] == Some(v),
        acc is None || acc == Some(v),
        acc == Some(v) || exists|i: int| 0 <= i < rvs.len() && (#[trigger] rvs[i]) == Some(v),
    ensures
        consensus_from(rvs, acc) == Ok::<Option<Seq<char>>, Error>(Some(v)),
    decreases rvs.len(),
{
    if rvs.len() == 0 {
        assert(acc == Some(v));
    } else {
        assert forall|i: int|
            0 <= i < rvs.drop_first().len() implies (#[trigger] rvs.drop_first()[i]) is None
            || rvs.drop_first()[i] == Some(v) by {
            assert(rvs.drop_first()[i] == rvs[i + 1]);
        }
        if rvs[0] is None || rvs[0] == acc {
            if acc != Some(v) {
                let w = choose|i: int| 0 <= i < rvs.len() && (#[trigger] rvs[i]) == Some(v);
                assert(w != 0);
                assert(rvs.drop_first()[w - 1] == Some(v));
            }
            lemma_consensus_from_agree(rvs.drop_first(), acc, v);
        } else {
            assert(rvs[0] == Some(v));
            lemma_consensus_from_agree(rvs.drop_first(), rvs[0], v);
        }
    }
}

/// When every member that declares a minimum version agrees on `v`, and at
/// least one declares it, the consensus is `v`.
pub proof fn lemma_consensus_agree(rvs: Seq<Option<Seq<char>>>, v: Seq<char>)
    requires
        forall|i: int| 0 <= i < rvs.len() ==> (#[trigger] rvs[i]) is None || rvs[i] == Some(v),
        exists|i: int| 0 <= i < rvs.len() && (#[trigger] rvs[i]) == Some(v),
    ensures
        consensus(rvs) == Ok::<Option<Seq<char>>, Error>(Some(v)),
{
    lemma_consensus_from_agree(rvs, None, v);
}

/// Two members declaring different minimum versions make the consensus
/// fail: there is no automatic lower bound for such a workspace.
pub proof fn lemma_consensus_conflict(rvs: Seq<Option<Seq<char>>>, i: int, j: int)
    requires
        0 <= i < rvs.len(),
        0 <= j < rvs.len(),
        rvs[i] is Some,
        rvs[j] is Some,
        rvs[i] != rvs[j],
    ensures
        consensus(rvs) is Err,
{
    match consensus(rvs) {
        Ok(r) => {
            lemma_consensus_ok(rvs, None, r);
            assert(r == rvs[i]);
            assert(r == rvs[j]);
            assert(false);
        },
        Err(_) => {},
    }
}

} // verus!
