//! The tax snapshot an invoice stores: which compliance version, which
//! profile and which resolved rates produced it, so a reprint months later
//! shows the rules that were in force, not the current ones.

use vstd::prelude::*;
use crate::error::{DbError, DbResult, InvalidInput};
use crate::model::{ComplianceVersion, TaxProfile, TaxRule};
use crate::text::str_eq;
use super::domain::{Line, ResolvedRate};
use super::resolve::{
    lemma_version_best_unique, rates_refusal, rates_resolvable, rates_resolved, resolve_compliance_version,
    version_refusal,
    resolve_rates, version_best, version_resolvable, UtcInstant,
};

verus! {

/// One profile's resolved ruleset as it stood at `resolved_at`.
#[derive(Debug, Clone)]
pub struct TaxSnapshot {
    pub compliance_version_id: String,
    pub compliance_version_label: String,
    pub tax_profile_id: String,
    pub tax_profile_code: String,
    pub pricing_mode: String,
    pub rates: Vec<ResolvedRate>,
    pub resolved_at: UtcInstant,
}

/// `s` records `version`, `profile`, `rates` and `resolved_at`.
pub open spec fn snapshot_of(
    s: TaxSnapshot,
    version: ComplianceVersion,
    profile: TaxProfile,
    rates: Seq<ResolvedRate>,
    resolved_at: UtcInstant,
) -> bool {
    &&& s.compliance_version_id == version.id
    &&& s.compliance_version_label == version.label
    &&& s.tax_profile_id == profile.id
    &&& s.tax_profile_code == profile.code
    &&& s.pricing_mode == profile.pricing_mode
    &&& s.rates@ == rates
    &&& s.resolved_at == resolved_at
}

/// Assembles the snapshot for one profile/version/rate-set resolution.
pub fn build_tax_snapshot(
    version: &ComplianceVersion,
    profile: &TaxProfile,
    rates: Vec<ResolvedRate>,
    resolved_at: UtcInstant,
) -> (s: TaxSnapshot)
    ensures
        snapshot_of(s, *version, *profile, rates@, resolved_at),
        s.compliance_version_id@ == version.id@ && s.compliance_version_label@ == version.label@,
        s.tax_profile_id@ == profile.id@ && s.tax_profile_code@ == profile.code@,
        s.pricing_mode@ == profile.pricing_mode@,
        s.rates@ == rates@ && s.resolved_at == resolved_at,
{
    TaxSnapshot {
        compliance_version_id: version.id.clone(),
        compliance_version_label: version.label.clone(),
        tax_profile_id: profile.id.clone(),
        tax_profile_code: profile.code.clone(),
        pricing_mode: profile.pricing_mode.clone(),
        rates,
        resolved_at,
    }
}

/// The last profile row carrying `id` (a later row with the same id
/// replaces an earlier one), if any.
pub open spec fn last_profile_with_id(ps: Seq<TaxProfile>, id: Seq<char>, i: int) -> bool {
    &&& 0 <= i < ps.len()
    &&& ps[i].id@ == id
    &&& forall|j: int| i < j < ps.len() ==> (#[trigger] ps[j].id)@ != id
}

/// Some profile row carries `id`.
pub open spec fn profile_present(ps: Seq<TaxProfile>, id: Seq<char>) -> bool {
    exists|i: int| 0 <= i < ps.len() && (#[trigger] ps[i].id)@ == id
}

/// The index of the last profile row carrying `id`, if any.
fn find_last_profile(profiles: &[TaxProfile], id: &str) -> (r: Option<usize>)
    ensures
        match r {
            Some(i) => last_profile_with_id(profiles@, id@, i as int),
            None => !profile_present(profiles@, id@),
        },
{
    let n = profiles.len();
    let mut found: Option<usize> = None;
    let mut i: usize = 0;
    while i < n
        invariant
            i <= n,
            n == profiles@.len(),
            match found {
                Some(f) => f < i && profiles@[f as int].id@ == id@ && forall|j: int|
                    f < j < i ==> (#[trigger] profiles@[j].id)@ != id@,
                None => forall|j: int| 0 <= j < i ==> (#[trigger] profiles@[j].id)@ != id@,
            },
        decreases n - i,
    {
        if str_eq(profiles[i].id.as_str(), id) {
            found = Some(i);
        }
        i += 1;
    }
    found
}

/// Whether a snapshot for `id` is already in `out`.
fn has_snapshot(out: &Vec<TaxSnapshot>, id: &str) -> (r: bool)
    ensures
        r == exists|k: int| 0 <= k < out@.len() && (#[trigger] out@[k].tax_profile_id)@ == id@,
{
    let n = out.len();
    let mut k: usize = 0;
    while k < n
        invariant
            k <= n,
            n == out@.len(),
            forall|j: int| 0 <= j < k ==> (#[trigger] out@[j].tax_profile_id)@ != id@,
        decreases n - k,
    {
        if str_eq(out[k].tax_profile_id.as_str(), id) {
            return true;
        }
        k += 1;
    }
    false
}

/// Every snapshot in `out` records the last profile row with its id,
/// `version`, and that profile's rates as resolved at `at`.
pub open spec fn snapshots_resolved(
    out: Seq<TaxSnapshot>,
    profiles: Seq<TaxProfile>,
    rules: Seq<TaxRule>,
    version: ComplianceVersion,
    at: UtcInstant,
) -> bool {
    forall|k: int|
        #![trigger out[k]]
        0 <= k < out.len() ==> exists|p: int|
            #![trigger profiles[p]]
            last_profile_with_id(profiles, out[k].tax_profile_id@, p) && snapshot_of(
                out[k],
                version,
                profiles[p],
                out[k].rates@,
                at,
            ) && rates_resolved(rules, profiles[p].id@, version.id@, at, out[k].rates@)
}

/// No two snapshots in `out` share a profile id.
pub open spec fn ids_distinct(out: Seq<TaxSnapshot>) -> bool {
    forall|k1: int, k2: int|
        0 <= k1 < k2 < out.len() ==> (#[trigger] out[k1].tax_profile_id)@ != (
        #[trigger] out[k2].tax_profile_id)@
}

/// Some snapshot in `out` is for profile `id`.
pub open spec fn has_snapshot_for(out: Seq<TaxSnapshot>, id: Seq<char>) -> bool {
    exists|k: int| 0 <= k < out.len() && (#[trigger] out[k].tax_profile_id)@ == id
}

/// Some line among the first `upto` uses profile `id`.
pub open spec fn used_by_lines(lines: Seq<Line>, id: Seq<char>, upto: int) -> bool {
    exists|j: int| 0 <= j < upto && (#[trigger] lines[j].tax_profile_id)@ == id
}

/// Every line among the first `upto` has a snapshot in `out`.
pub open spec fn lines_covered(
    out: Seq<TaxSnapshot>,
    profiles: Seq<TaxProfile>,
    lines: Seq<Line>,
    upto: int,
) -> bool {
    forall|j: int|
        #![trigger lines[j]]
        0 <= j < upto ==> has_snapshot_for(out, lines[j].tax_profile_id@)
}

/// Every snapshot in `out` is for a profile used by one of the first
/// `upto` lines.
pub open spec fn drawn_from_lines(out: Seq<TaxSnapshot>, lines: Seq<Line>, upto: int) -> bool {
    forall|k: int| #![trigger out[k]] 0 <= k < out.len() ==> used_by_lines(lines, out[k].tax_profile_id@, upto)
}

/// Every profile used by the first `upto` lines is known and its rates
/// resolve against version `cvid`.
pub open spec fn line_rates_resolvable(
    lines: Seq<Line>,
    profiles: Seq<TaxProfile>,
    rules: Seq<TaxRule>,
    cvid: Seq<char>,
    at: UtcInstant,
    upto: int,
) -> bool {
    forall|j: int|
        #![trigger lines[j]]
        0 <= j < upto ==> profile_present(profiles, lines[j].tax_profile_id@) && rates_resolvable(
            rules,
            lines[j].tax_profile_id@,
            cvid,
            at,
        )
}

/// Line `j` is the first line whose profile is unknown or whose rates do
/// not resolve against version `cvid`.
pub open spec fn first_refused_line(
    lines: Seq<Line>,
    profiles: Seq<TaxProfile>,
    rules: Seq<TaxRule>,
    cvid: Seq<char>,
    at: UtcInstant,
    j: int,
) -> bool {
    &&& 0 <= j < lines.len()
    &&& !(profile_present(profiles, lines[j].tax_profile_id@) && rates_resolvable(
        rules,
        lines[j].tax_profile_id@,
        cvid,
        at,
    ))
    &&& line_rates_resolvable(lines, profiles, rules, cvid, at, j)
}

/// The refusal line `j` gives: its unknown profile id, named, or the
/// refusal of its profile's rates.
pub open spec fn line_refusal(
    lines: Seq<Line>,
    profiles: Seq<TaxProfile>,
    rules: Seq<TaxRule>,
    cvid: Seq<char>,
    at: UtcInstant,
    j: int,
    e: DbError,
) -> bool {
    if !profile_present(profiles, lines[j].tax_profile_id@) {
        e matches DbError::InvalidInput(InvalidInput::UnknownTaxProfile { tax_profile_id: s })
            && s@ == lines[j].tax_profile_id@
    } else {
        rates_refusal(rules, lines[j].tax_profile_id@, cvid, at, e)
    }
}

/// One snapshot per distinct `tax_profile_id` used across `lines` (the
/// last profile row with that id). The call succeeds exactly when the
/// outlet's compliance version resolves, every profile a line references
/// is known, and its rates resolve; otherwise the error names what failed
/// first: the version, or the first line whose profile is unknown (by id)
/// or whose rates do not resolve.
pub fn build_tax_snapshots(
    versions: &[ComplianceVersion],
    profiles: &[TaxProfile],
    rules: &[TaxRule],
    outlet_id: &str,
    lines: &[Line],
    at: UtcInstant,
) -> (r: DbResult<Vec<TaxSnapshot>>)
    ensures
        r is Ok <==> version_resolvable(versions@, outlet_id@, at) && forall|b: int|
            #![trigger versions@[b]]
            version_best(versions@, outlet_id@, at, versions@.len() as int, b) ==> line_rates_resolvable(
                lines@,
                profiles@,
                rules@,
                versions@[b].id@,
                at,
                lines@.len() as int,
            ),
        r matches Ok(out) ==> {
            &&& exists|b: int|
                #![trigger versions@[b]]
                version_best(versions@, outlet_id@, at, versions@.len() as int, b)
                    && snapshots_resolved(out@, profiles@, rules@, versions@[b], at)
            &&& ids_distinct(out@)
            &&& lines_covered(out@, profiles@, lines@, lines@.len() as int)
            &&& drawn_from_lines(out@, lines@, lines@.len() as int)
        },
        r matches Err(e) ==> if !version_resolvable(versions@, outlet_id@, at) {
            version_refusal(versions@, outlet_id@, at, e)
        } else {
            exists|b: int, j: int|
                #![trigger versions@[b], lines@[j]]
                version_best(versions@, outlet_id@, at, versions@.len() as int, b)
                    && first_refused_line(lines@, profiles@, rules@, versions@[b].id@, at, j)
                    && line_refusal(lines@, profiles@, rules@, versions@[b].id@, at, j, e)
        },
{
    let version = match resolve_compliance_version(versions, outlet_id, at) {
        Ok(v) => v,
        Err(e) => return Err(e),
    };
    let ghost b = choose|b: int|
        version_best(versions@, outlet_id@, at, versions@.len() as int, b) && version
            == versions@[b];
    proof {
        assert forall|b2: int| version_best(versions@, outlet_id@, at, versions@.len() as int, b2) implies b2 == b by {
            lemma_version_best_unique(versions@, outlet_id@, at, versions@.len() as int, b, b2);
        }
    }
    let n = lines.len();
    let mut out: Vec<TaxSnapshot> = Vec::new();
    let mut i: usize = 0;
    while i < n
        invariant
            i <= n,
            n == lines@.len(),
            version_resolvable(versions@, outlet_id@, at),
            version_best(versions@, outlet_id@, at, versions@.len() as int, b),
            version == versions@[b],
            snapshots_resolved(out@, profiles@, rules@, version, at),
            ids_distinct(out@),
            lines_covered(out@, profiles@, lines@, i as int),
            drawn_from_lines(out@, lines@, i as int),
            line_rates_resolvable(lines@, profiles@, rules@, version.id@, at, i as int),
            forall|k: int|
                #![trigger out@[k]]
                0 <= k < out@.len() ==> rates_resolvable(rules@, out@[k].tax_profile_id@, version.id@, at),
        decreases n - i,
    {
        let line = &lines[i];
        let ghost old_out = out@;
        let ghost id = lines@[i as int].tax_profile_id@;
        if has_snapshot(&out, line.tax_profile_id.as_str()) {
            proof {
                let k = choose|k: int| 0 <= k < out@.len() && (#[trigger] out@[k].tax_profile_id)@ == id;
                assert(rates_resolvable(rules@, out@[k].tax_profile_id@, version.id@, at));
                let pp = choose|pp: int|
                    #![trigger profiles@[pp]]
                    last_profile_with_id(profiles@, out@[k].tax_profile_id@, pp) && snapshot_of(
                        out@[k],
                        version,
                        profiles@[pp],
                        out@[k].rates@,
                        at,
                    ) && rates_resolved(rules@, profiles@[pp].id@, version.id@, at, out@[k].rates@);
                assert(profiles@[pp].id@ == id);
                assert(profile_present(profiles@, id));
                assert(has_snapshot_for(out@, id));
                lemma_prefix_step(out@, profiles@, rules@, lines@, version.id@, at, i as int);
            }
            i += 1;
            continue;
        }
        let p = match find_last_profile(profiles, line.tax_profile_id.as_str()) {
            Some(p) => p,
            None => {
                proof {
                    assert(!line_rates_resolvable(lines@, profiles@, rules@, versions@[b].id@, at, lines@.len() as int));
                    assert(first_refused_line(lines@, profiles@, rules@, versions@[b].id@, at, i as int));
                    assert(version_resolvable(versions@, outlet_id@, at));
                }
                let e = DbError::InvalidInput(
                    InvalidInput::UnknownTaxProfile { tax_profile_id: line.tax_profile_id.as_str().to_owned() },
                );
                proof {
                    assert(line_refusal(lines@, profiles@, rules@, versions@[b].id@, at, i as int, e));
                }
                return Err(e);
            },
        };
        let profile = &profiles[p];
        let rates = match resolve_rates(rules, profile.id.as_str(), version.id.as_str(), at) {
            Ok(rates) => rates,
            Err(e) => {
                proof {
                    assert(profile_present(profiles@, id));
                    assert(!line_rates_resolvable(lines@, profiles@, rules@, versions@[b].id@, at, lines@.len() as int));
                    assert(first_refused_line(lines@, profiles@, rules@, versions@[b].id@, at, i as int));
                    assert(version_resolvable(versions@, outlet_id@, at));
                    assert(rates_refusal(rules@, lines@[i as int].tax_profile_id@, versions@[b].id@, at, e));
                    assert(line_refusal(lines@, profiles@, rules@, versions@[b].id@, at, i as int, e));
                }
                return Err(e);
            },
        };
        let snap = build_tax_snapshot(&version, profile, rates, at);
        out.push(snap);
        proof {
            lemma_push_step(old_out, out@, profiles@, rules@, lines@, version, at, i as int, p as int);
        }
        i += 1;
    }
    proof {
        assert(version_best(versions@, outlet_id@, at, versions@.len() as int, b) && versions@[b]
            == version);
    }
    Ok(out)
}

/// Skipping line `i` (its profile already has a snapshot) keeps the
/// prefix facts.
proof fn lemma_prefix_step(
    out: Seq<TaxSnapshot>,
    profiles: Seq<TaxProfile>,
    rules: Seq<TaxRule>,
    lines: Seq<Line>,
    cvid: Seq<char>,
    at: UtcInstant,
    i: int,
)
    requires
        0 <= i < lines.len(),
        lines_covered(out, profiles, lines, i),
        drawn_from_lines(out, lines, i),
        line_rates_resolvable(lines, profiles, rules, cvid, at, i),
        has_snapshot_for(out, lines[i].tax_profile_id@),
        profile_present(profiles, lines[i].tax_profile_id@),
        rates_resolvable(rules, lines[i].tax_profile_id@, cvid, at),
    ensures
        lines_covered(out, profiles, lines, i + 1),
        drawn_from_lines(out, lines, i + 1),
        line_rates_resolvable(lines, profiles, rules, cvid, at, i + 1),
{
    assert forall|k: int| #![trigger out[k]] 0 <= k < out.len() implies used_by_lines(lines, out[k].tax_profile_id@, i + 1) by {
        let j = choose|j: int| 0 <= j < i && (#[trigger] lines[j].tax_profile_id)@ == out[k].tax_profile_id@;
        assert(0 <= j < i + 1);
    }
}

/// Pushing the snapshot for line `i` (profile row `p`) keeps the loop's
/// facts.
proof fn lemma_push_step(
    old_out: Seq<TaxSnapshot>,
    out: Seq<TaxSnapshot>,
    profiles: Seq<TaxProfile>,
    rules: Seq<TaxRule>,
    lines: Seq<Line>,
    version: ComplianceVersion,
    at: UtcInstant,
    i: int,
    p: int,
)
    requires
        0 <= i < lines.len(),
        out.len() == old_out.len() + 1,
        forall|k: int| 0 <= k < old_out.len() ==> out[k] == old_out[k],
        snapshots_resolved(old_out, profiles, rules, version, at),
        ids_distinct(old_out),
        lines_covered(old_out, profiles, lines, i),
        drawn_from_lines(old_out, lines, i),
        line_rates_resolvable(lines, profiles, rules, version.id@, at, i),
        forall|k: int|
            #![trigger old_out[k]]
            0 <= k < old_out.len() ==> rates_resolvable(rules, old_out[k].tax_profile_id@, version.id@, at),
        !has_snapshot_for(old_out, lines[i].tax_profile_id@),
        last_profile_with_id(profiles, lines[i].tax_profile_id@, p),
        snapshot_of(out[old_out.len() as int], version, profiles[p], out[old_out.len() as int].rates@, at),
        rates_resolved(rules, profiles[p].id@, version.id@, at, out[old_out.len() as int].rates@),
        rates_resolvable(rules, profiles[p].id@, version.id@, at),
    ensures
        snapshots_resolved(out, profiles, rules, version, at),
        ids_distinct(out),
        lines_covered(out, profiles, lines, i + 1),
        drawn_from_lines(out, lines, i + 1),
        line_rates_resolvable(lines, profiles, rules, version.id@, at, i + 1),
        forall|k: int|
            #![trigger out[k]]
            0 <= k < out.len() ==> rates_resolvable(rules, out[k].tax_profile_id@, version.id@, at),
{
    let last = old_out.len() as int;
    let id = lines[i].tax_profile_id@;
    assert(out[last].tax_profile_id@ == id);
    assert forall|k: int|
        #![trigger out[k]]
        0 <= k < out.len() implies exists|pp: int|
            #![trigger profiles[pp]]
            last_profile_with_id(profiles, out[k].tax_profile_id@, pp) && snapshot_of(
                out[k],
                version,
                profiles[pp],
                out[k].rates@,
                at,
            ) && rates_resolved(rules, profiles[pp].id@, version.id@, at, out[k].rates@) by {
        if k < last {
            assert(out[k] == old_out[k]);
        } else {
            assert(last_profile_with_id(profiles, out[k].tax_profile_id@, p));
        }
    }
    assert forall|k1: int, k2: int|
        0 <= k1 < k2 < out.len() implies (#[trigger] out[k1].tax_profile_id)@ != (
        #[trigger] out[k2].tax_profile_id)@ by {
        assert(out[k1] == old_out[k1]);
        if k2 < last {
            assert(out[k2] == old_out[k2]);
        }
    }
    assert(profiles[p].id@ == lines[i].tax_profile_id@);
    assert(profile_present(profiles, lines[i].tax_profile_id@));
    assert forall|j: int|
        #![trigger lines[j]]
        0 <= j < i + 1 implies has_snapshot_for(
            out,
            lines[j].tax_profile_id@,
        ) by {
        if j < i {
            let k0 = choose|k: int| 0 <= k < old_out.len() && (#[trigger] old_out[k].tax_profile_id)@
                == lines[j].tax_profile_id@;
            assert(out[k0] == old_out[k0]);
        } else {
            assert(out[last].tax_profile_id@ == lines[j].tax_profile_id@);
        }
    }
    assert forall|k: int| #![trigger out[k]] 0 <= k < out.len() implies used_by_lines(lines, out[k].tax_profile_id@, i + 1) by {
        if k < last {
            assert(out[k] == old_out[k]);
            let j = choose|j: int| 0 <= j < i && (#[trigger] lines[j].tax_profile_id)@ == old_out[k].tax_profile_id@;
            assert(0 <= j < i + 1);
        } else {
            assert(lines[i].tax_profile_id@ == out[k].tax_profile_id@);
        }
    }
    assert forall|k: int|
        #![trigger out[k]]
        0 <= k < out.len() implies rates_resolvable(rules, out[k].tax_profile_id@, version.id@, at) by {
        if k < last {
            assert(out[k] == old_out[k]);
        }
    }
}

} // verus!
