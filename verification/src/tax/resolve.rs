//! Effective-dated resolution of the compliance version, the tax profile
//! and the tax rates in force for an outlet at an instant. Resolution at a
//! past instant returns what was true then, not what is true now. These
//! functions take rows already loaded and never touch the database.

use vstd::prelude::*;
use crate::error::{DbError, DbResult, InvalidInput};
use crate::model::{ComplianceVersion, TaxProfile, TaxRule};
use crate::text::str_eq;
use super::domain::{component_at, component_index, component_name, component_order_at, ResolvedRate, TaxComponent};

verus! {

/// An instant on the UTC time line: whole seconds since the Unix epoch and
/// the nanoseconds into that second (a leap second carries 1e9 or more).
#[derive(Debug, Clone, Copy, PartialEq, Eq, Structural)]
pub struct UtcInstant {
    pub secs: i64,
    pub nanos: u32,
}

/// `a` is strictly earlier than `b`.
pub open spec fn before(a: UtcInstant, b: UtcInstant) -> bool {
    a.secs < b.secs || (a.secs == b.secs && a.nanos < b.nanos)
}

/// Whether `a` is strictly earlier than `b`.
pub fn is_before(a: UtcInstant, b: UtcInstant) -> (r: bool)
    ensures
        r == before(a, b),
{
    a.secs < b.secs || (a.secs == b.secs && a.nanos < b.nanos)
}

/// The instant an RFC 3339 timestamp denotes, as seconds since the epoch
/// and nanoseconds into the second, or `None` when `s` is not RFC 3339.
pub uninterp spec fn rfc3339_instant(s: Seq<char>) -> Option<(i64, u32)>;

/// `chrono::DateTime::parse_from_rfc3339`, read back as the UTC
/// `timestamp()` and `timestamp_subsec_nanos()` of the parsed instant.
/// Trusted: the result is a function of the text alone, named
/// `rfc3339_instant`; which texts parse, and to what, is left to that name.
#[verifier::external_body]
fn parse_rfc3339(s: &str) -> (r: Option<(i64, u32)>)
    ensures
        r == rfc3339_instant(s@),
{
    match chrono::DateTime::parse_from_rfc3339(s) {
        Ok(dt) => Some((dt.timestamp(), dt.timestamp_subsec_nanos())),
        Err(_) => None,
    }
}

/// The instant `s` denotes, if it parses.
pub open spec fn instant_of(s: Seq<char>) -> Option<UtcInstant> {
    match rfc3339_instant(s) {
        Some(p) => Some(UtcInstant { secs: p.0, nanos: p.1 }),
        None => None,
    }
}

/// Parses a stored ISO 8601 UTC timestamp into an instant.
pub fn parse_utc(s: &str) -> (r: DbResult<UtcInstant>)
    ensures
        match r {
            Ok(t) => instant_of(s@) == Some(t),
            Err(e) => {
                &&& instant_of(s@) is None
                &&& e matches DbError::InvalidInput(InvalidInput::InvalidTimestamp(t))
                &&& t@ == s@
            },
        },
{
    match parse_rfc3339(s) {
        Some((secs, nanos)) => Ok(UtcInstant { secs, nanos }),
        None => Err(DbError::InvalidInput(InvalidInput::InvalidTimestamp(s.to_owned()))),
    }
}

// ------------------------------------------------ compliance version ----

/// Version `i` belongs to `outlet`.
pub open spec fn version_of_outlet(vs: Seq<ComplianceVersion>, outlet: Seq<char>, i: int) -> bool {
    vs[i].outlet_id@ == outlet
}

/// The effective-from instant of version `i` (meaningful when it parses).
pub open spec fn version_from(vs: Seq<ComplianceVersion>, i: int) -> UtcInstant {
    instant_of(vs[i].effective_from@).unwrap()
}

/// Version `i` is the outlet's and already effective at `at`.
pub open spec fn version_eligible(
    vs: Seq<ComplianceVersion>,
    outlet: Seq<char>,
    at: UtcInstant,
    i: int,
) -> bool {
    &&& version_of_outlet(vs, outlet, i)
    &&& instant_of(vs[i].effective_from@) is Some
    &&& !before(at, version_from(vs, i))
}

/// Every version of the outlet among the first `k` has a parseable
/// effective-from.
pub open spec fn versions_parse(vs: Seq<ComplianceVersion>, outlet: Seq<char>, k: int) -> bool {
    forall|i: int|
        0 <= i < k && version_of_outlet(vs, outlet, i) ==> #[trigger] instant_of(vs[i].effective_from@) is Some
}

/// `b` is the resolved version among the first `k`: eligible, with the
/// latest effective-from among the eligible ones, and the first such.
pub open spec fn version_best(
    vs: Seq<ComplianceVersion>,
    outlet: Seq<char>,
    at: UtcInstant,
    k: int,
    b: int,
) -> bool {
    &&& 0 <= b < k
    &&& version_eligible(vs, outlet, at, b)
    &&& forall|i: int|
        0 <= i < k && #[trigger] version_eligible(vs, outlet, at, i) ==> !before(
            version_from(vs, b),
            version_from(vs, i),
        )
    &&& forall|i: int|
        0 <= i < b && #[trigger] version_eligible(vs, outlet, at, i) ==> before(
            version_from(vs, i),
            version_from(vs, b),
        )
}

/// A compliance version resolves for `outlet` at `at`: every outlet
/// version parses and one of them is already effective.
pub open spec fn version_resolvable(vs: Seq<ComplianceVersion>, outlet: Seq<char>, at: UtcInstant) -> bool {
    &&& versions_parse(vs, outlet, vs.len() as int)
    &&& exists|b: int| version_best(vs, outlet, at, vs.len() as int, b)
}

/// At most one version is the resolved one.
pub proof fn lemma_version_best_unique(
    vs: Seq<ComplianceVersion>,
    outlet: Seq<char>,
    at: UtcInstant,
    k: int,
    b1: int,
    b2: int,
)
    requires
        version_best(vs, outlet, at, k, b1),
        version_best(vs, outlet, at, k, b2),
    ensures
        b1 == b2,
{
    if b1 < b2 {
        assert(version_eligible(vs, outlet, at, b1));
        assert(before(version_from(vs, b1), version_from(vs, b2)));
    } else if b2 < b1 {
        assert(version_eligible(vs, outlet, at, b2));
        assert(before(version_from(vs, b2), version_from(vs, b1)));
    }
}

/// A field-for-field copy of a compliance version.
pub fn copy_compliance_version(v: &ComplianceVersion) -> (r: ComplianceVersion)
    ensures
        r == *v,
{
    ComplianceVersion {
        id: v.id.clone(),
        outlet_id: v.outlet_id.clone(),
        label: v.label.clone(),
        effective_from: v.effective_from.clone(),
        notes: match &v.notes {
            Some(s) => Some(s.clone()),
            None => None,
        },
        config_version: v.config_version,
    }
}

/// Only the outlet's own versions that are already in force count: an
/// eligible version names the requested outlet and has an `effective_from`
/// that parses and is not after the instant (the boundary is inclusive);
/// conversely every such version is eligible.
pub proof fn lemma_eligible_version_is_the_outlets_in_force(
    vs: Seq<ComplianceVersion>,
    outlet: Seq<char>,
    at: UtcInstant,
    i: int,
)
    ensures
        version_eligible(vs, outlet, at, i) <==> (vs[i].outlet_id@ == outlet && (instant_of(
            vs[i].effective_from@,
        ) matches Some(f) && !(at.secs < f.secs || (at.secs == f.secs && at.nanos < f.nanos)))),
{
}

/// The refusals version resolution gives, each with the rows behind it:
/// the first outlet version whose `effective_from` does not parse, or no
/// outlet version in force at `at`.
pub open spec fn version_refusal(
    versions: Seq<ComplianceVersion>,
    outlet_id: Seq<char>,
    at: UtcInstant,
    e: DbError,
) -> bool {
    match e {
        DbError::InvalidInput(InvalidInput::InvalidTimestamp(s)) => exists|i: int|
            0 <= i < versions.len() && versions_parse(versions, outlet_id, i)
                && version_of_outlet(versions, outlet_id, i) && #[trigger] instant_of(
                versions[i].effective_from@,
            ) is None && s@ == versions[i].effective_from@,
        DbError::InvalidInput(InvalidInput::NoComplianceVersion { outlet_id: o }) => {
            &&& o@ == outlet_id
            &&& versions_parse(versions, outlet_id, versions.len() as int)
            &&& forall|i: int|
                0 <= i < versions.len() ==> !#[trigger] version_eligible(versions, outlet_id, at, i)
        },
        _ => false,
    }
}

/// The compliance version effective for `outlet_id` at `at`: the one with
/// the latest `effective_from` that is not after `at` (the boundary is
/// inclusive), the earliest-listed on a tie. An outlet version whose
/// `effective_from` does not parse is an error.
pub fn resolve_compliance_version(
    versions: &[ComplianceVersion],
    outlet_id: &str,
    at: UtcInstant,
) -> (r: DbResult<ComplianceVersion>)
    ensures
        r is Ok <==> version_resolvable(versions@, outlet_id@, at),
        match r {
            Ok(v) => versions_parse(versions@, outlet_id@, versions@.len() as int) && exists|b: int|
                version_best(versions@, outlet_id@, at, versions@.len() as int, b) && v
                    == versions@[b],
            Err(e) => version_refusal(versions@, outlet_id@, at, e),
        },
        r matches Ok(v) ==> v.outlet_id@ == outlet_id@ && (instant_of(v.effective_from@) matches Some(f)
            && !before(at, f)),
{
    let n = versions.len();
    let ghost vs = versions@;
    let mut best: Option<(usize, UtcInstant)> = None;
    let mut i: usize = 0;
    while i < n
        invariant
            i <= n,
            n == vs.len(),
            vs == versions@,
            versions_parse(vs, outlet_id@, i as int),
            match best {
                None => forall|j: int| 0 <= j < i ==> !#[trigger] version_eligible(vs, outlet_id@, at, j),
                Some((b, t)) => version_best(vs, outlet_id@, at, i as int, b as int) && t
                    == version_from(vs, b as int),
            },
        decreases n - i,
    {
        let v = &versions[i];
        if !str_eq(v.outlet_id.as_str(), outlet_id) {
            proof {
                assert(!version_eligible(vs, outlet_id@, at, i as int));
            }
            i += 1;
            continue;
        }
        let effective_from = match parse_utc(v.effective_from.as_str()) {
            Ok(t) => t,
            Err(e) => {
                proof {
                    assert(version_of_outlet(vs, outlet_id@, i as int));
                }
                return Err(e);
            },
        };
        if is_before(at, effective_from) {
            proof {
                assert(!version_eligible(vs, outlet_id@, at, i as int));
            }
            i += 1;
            continue;
        }
        let is_better = match best {
            None => true,
            Some((_, best_from)) => is_before(best_from, effective_from),
        };
        if is_better {
            best = Some((i, effective_from));
        }
        i += 1;
    }
    match best {
        Some((b, _)) => Ok(copy_compliance_version(&versions[b])),
        None => Err(
            DbError::InvalidInput(InvalidInput::NoComplianceVersion { outlet_id: outlet_id.to_owned() }),
        ),
    }
}

// ------------------------------------------------------- tax profile ----

/// Profile `i` is the pinned one: that id, at this outlet, and active.
pub open spec fn profile_is_pinned(ps: Seq<TaxProfile>, outlet: Seq<char>, pin: Seq<char>, i: int) -> bool {
    ps[i].id@ == pin && ps[i].outlet_id@ == outlet && ps[i].is_active
}

/// Profile `i` is the outlet's active default.
pub open spec fn profile_is_default(ps: Seq<TaxProfile>, outlet: Seq<char>, i: int) -> bool {
    ps[i].outlet_id@ == outlet && ps[i].is_default && ps[i].is_active
}

/// Profile resolution only ever picks a row of the requested outlet that
/// is active: a pinned match carries the pinned id, and a default match is
/// the outlet's own default; conversely every such row qualifies. A row of
/// another outlet, an inactive row and (for the default) a non-default row
/// never qualify.
pub proof fn lemma_profile_choice_is_the_outlets(ps: Seq<TaxProfile>, outlet: Seq<char>, pin: Seq<char>, i: int)
    requires
        0 <= i < ps.len(),
    ensures
        profile_is_default(ps, outlet, i) <==> (ps[i].outlet_id@ == outlet && ps[i].is_default
            && ps[i].is_active),
        profile_is_pinned(ps, outlet, pin, i) <==> (ps[i].id@ == pin && ps[i].outlet_id@ == outlet
            && ps[i].is_active),
        ps[i].outlet_id@ != outlet ==> !profile_is_default(ps, outlet, i) && !profile_is_pinned(ps, outlet, pin, i),
{
}

/// A field-for-field copy of a tax profile.
pub fn copy_tax_profile(p: &TaxProfile) -> (r: TaxProfile)
    ensures
        r == *p,
{
    TaxProfile {
        id: p.id.clone(),
        outlet_id: p.outlet_id.clone(),
        code: p.code.clone(),
        name: p.name.clone(),
        pricing_mode: p.pricing_mode.clone(),
        is_default: p.is_default,
        is_active: p.is_active,
        config_version: p.config_version,
    }
}

/// The tax profile that applies at `outlet_id`: the item's own pinned
/// profile when it names one (which must then be an active profile of that
/// outlet, never silently replaced by the default), else the outlet's
/// active default. The first matching row wins.
pub fn resolve_tax_profile(
    profiles: &[TaxProfile],
    outlet_id: &str,
    item_tax_profile_id: Option<&str>,
    _at: UtcInstant,
) -> (r: DbResult<TaxProfile>)
    ensures
        match item_tax_profile_id {
            Some(pin) => match r {
                Ok(p) => exists|i: int|
                    0 <= i < profiles@.len() && profile_is_pinned(profiles@, outlet_id@, pin@, i)
                        && (forall|j: int|
                        0 <= j < i ==> !#[trigger] profile_is_pinned(profiles@, outlet_id@, pin@, j))
                        && p == profiles@[i],
                Err(DbError::InvalidInput(
                    InvalidInput::PinnedTaxProfileNotActive { tax_profile_id, outlet_id: o },
                )) => {
                    &&& tax_profile_id@ == pin@
                    &&& o@ == outlet_id@
                    &&& forall|i: int|
                        0 <= i < profiles@.len() ==> !#[trigger] profile_is_pinned(
                            profiles@,
                            outlet_id@,
                            pin@,
                            i,
                        )
                },
                Err(_) => false,
            },
            None => match r {
                Ok(p) => exists|i: int|
                    0 <= i < profiles@.len() && profile_is_default(profiles@, outlet_id@, i) && (
                    forall|j: int| 0 <= j < i ==> !#[trigger] profile_is_default(profiles@, outlet_id@, j))
                        && p == profiles@[i],
                Err(DbError::InvalidInput(InvalidInput::NoActiveDefaultTaxProfile { outlet_id: o })) => {
                    &&& o@ == outlet_id@
                    &&& forall|i: int|
                        0 <= i < profiles@.len() ==> !#[trigger] profile_is_default(
                            profiles@,
                            outlet_id@,
                            i,
                        )
                },
                Err(_) => false,
            },
        },
        r matches Ok(p) ==> p.outlet_id@ == outlet_id@ && p.is_active && match item_tax_profile_id {
            Some(pin) => p.id@ == pin@,
            None => p.is_default,
        },
{
    proof {
        assert forall|i: int| 0 <= i < profiles@.len() implies #[trigger] profile_is_default(profiles@, outlet_id@, i)
            ==> profiles@[i].outlet_id@ == outlet_id@ && profiles@[i].is_default && profiles@[i].is_active by {
            lemma_profile_choice_is_the_outlets(profiles@, outlet_id@, outlet_id@, i);
        }
    }
    let n = profiles.len();
    if let Some(pinned) = item_tax_profile_id {
        let mut i: usize = 0;
        while i < n
            invariant
                i <= n,
                n == profiles@.len(),
                item_tax_profile_id == Some(pinned),
                forall|j: int| 0 <= j < i ==> !#[trigger] profile_is_pinned(profiles@, outlet_id@, pinned@, j),
            decreases n - i,
        {
            let p = &profiles[i];
            if str_eq(p.id.as_str(), pinned) && str_eq(p.outlet_id.as_str(), outlet_id) && p.is_active {
                let res = copy_tax_profile(p);
                proof {
                    assert(profile_is_pinned(profiles@, outlet_id@, pinned@, i as int));
                    let w = i as int;
                    assert(0 <= w < profiles@.len() && profile_is_pinned(profiles@, outlet_id@, pinned@, w)
                        && (forall|j: int| 0 <= j < w ==> !#[trigger] profile_is_pinned(profiles@, outlet_id@, pinned@, j))
                        && res == profiles@[w]);
                    assert(exists|k: int| 0 <= k < profiles@.len() && profile_is_pinned(profiles@, outlet_id@, pinned@, k)
                        && (forall|j: int| 0 <= j < k ==> !#[trigger] profile_is_pinned(profiles@, outlet_id@, pinned@, j))
                        && res == profiles@[k]);
                }
                return Ok(res);
            }
            i += 1;
        }
        return Err(
            DbError::InvalidInput(
                InvalidInput::PinnedTaxProfileNotActive {
                    tax_profile_id: pinned.to_owned(),
                    outlet_id: outlet_id.to_owned(),
                },
            ),
        );
    }
    let mut i: usize = 0;
    while i < n
        invariant
            i <= n,
            n == profiles@.len(),
            item_tax_profile_id is None,
            forall|j: int| 0 <= j < i ==> !#[trigger] profile_is_default(profiles@, outlet_id@, j),
        decreases n - i,
    {
        let p = &profiles[i];
        if str_eq(p.outlet_id.as_str(), outlet_id) && p.is_default && p.is_active {
            let res = copy_tax_profile(p);
            proof {
                assert(profile_is_default(profiles@, outlet_id@, i as int));
                let w = i as int;
                assert(0 <= w < profiles@.len() && profile_is_default(profiles@, outlet_id@, w)
                    && (forall|j: int| 0 <= j < w ==> !#[trigger] profile_is_default(profiles@, outlet_id@, j))
                    && res == profiles@[w]);
                assert(exists|k: int| 0 <= k < profiles@.len() && profile_is_default(profiles@, outlet_id@, k)
                    && (forall|j: int| 0 <= j < k ==> !#[trigger] profile_is_default(profiles@, outlet_id@, j))
                    && res == profiles@[k]);
            }
            return Ok(res);
        }
        i += 1;
    }
    Err(DbError::InvalidInput(InvalidInput::NoActiveDefaultTaxProfile { outlet_id: outlet_id.to_owned() }))
}

// ------------------------------------------------------------- rates ----

/// What a rule contributes when rates are resolved at an instant.
pub enum RuleStatus {
    /// Another profile or compliance version.
    NotForPair,
    /// Its `effective_from` does not parse.
    BadFrom,
    /// Not yet in force (`effective_from` after the instant).
    NotYet,
    /// Its `effective_to` does not parse.
    BadTo,
    /// No longer in force (`effective_to` at or before the instant).
    Expired,
    /// Its component is not one of the four.
    BadComponent,
    /// In force for its component.
    Live,
}

/// The component a stored spelling names, if any.
pub open spec fn component_named(s: Seq<char>) -> Option<TaxComponent> {
    if s == "CGST"@ {
        Some(TaxComponent::Cgst)
    } else if s == "SGST"@ {
        Some(TaxComponent::Sgst)
    } else if s == "IGST"@ {
        Some(TaxComponent::Igst)
    } else if s == "CESS"@ {
        Some(TaxComponent::Cess)
    } else {
        None
    }
}

/// How rule `r` is treated when resolving `(pid, cvid)` at `at`, checked
/// in the order the resolution checks it.
pub open spec fn rule_status(r: TaxRule, pid: Seq<char>, cvid: Seq<char>, at: UtcInstant) -> RuleStatus {
    if r.tax_profile_id@ != pid || r.compliance_version_id@ != cvid {
        RuleStatus::NotForPair
    } else if instant_of(r.effective_from@) is None {
        RuleStatus::BadFrom
    } else if before(at, instant_of(r.effective_from@).unwrap()) {
        RuleStatus::NotYet
    } else if r.effective_to is Some && instant_of(r.effective_to.unwrap()@) is None {
        RuleStatus::BadTo
    } else if r.effective_to is Some && !before(at, instant_of(r.effective_to.unwrap()@).unwrap()) {
        RuleStatus::Expired
    } else if component_named(r.component@) is None {
        RuleStatus::BadComponent
    } else {
        RuleStatus::Live
    }
}

/// A rule counts as in force for a profile/version pair at an instant
/// exactly when it names that profile and that version, its component is
/// one of CGST, SGST, IGST or CESS, its `effective_from` is at or before
/// the instant and its `effective_to`, if any, is after it.
pub proof fn lemma_live_rule_is_the_pairs_in_force(r: TaxRule, pid: Seq<char>, cvid: Seq<char>, at: UtcInstant)
    ensures
        rule_status(r, pid, cvid, at) is Live <==> {
            &&& r.tax_profile_id@ == pid
            &&& r.compliance_version_id@ == cvid
            &&& instant_of(r.effective_from@) matches Some(f) && !(at.secs < f.secs || (at.secs == f.secs
                && at.nanos < f.nanos))
            &&& match r.effective_to {
                Some(t) => instant_of(t@) matches Some(e) && (at.secs < e.secs || (at.secs == e.secs
                    && at.nanos < e.nanos)),
                None => true,
            }
            &&& (r.component@ == "CGST"@ || r.component@ == "SGST"@ || r.component@ == "IGST"@
                || r.component@ == "CESS"@)
        },
{
}

/// The four stored spellings name the four components.
pub proof fn lemma_component_spellings()
    ensures
        component_named("CGST"@) == Some(TaxComponent::Cgst),
        component_named("SGST"@) == Some(TaxComponent::Sgst),
        component_named("IGST"@) == Some(TaxComponent::Igst),
        component_named("CESS"@) == Some(TaxComponent::Cess),
{
    lemma_component_parse("CGST"@, TaxComponent::Cgst);
    lemma_component_parse("SGST"@, TaxComponent::Sgst);
    lemma_component_parse("IGST"@, TaxComponent::Igst);
    lemma_component_parse("CESS"@, TaxComponent::Cess);
}

/// A status that refuses the whole resolution.
pub open spec fn status_is_error(s: RuleStatus) -> bool {
    s is BadFrom || s is BadTo || s is BadComponent
}

/// Rule `i` is in force for component `c`.
pub open spec fn rule_live_for(
    rules: Seq<TaxRule>,
    pid: Seq<char>,
    cvid: Seq<char>,
    at: UtcInstant,
    c: TaxComponent,
    i: int,
) -> bool {
    rule_status(rules[i], pid, cvid, at) is Live && component_named(rules[i].component@) == Some(c)
}

/// The effective-from instant of rule `i`.
pub open spec fn rule_from(rules: Seq<TaxRule>, i: int) -> UtcInstant {
    instant_of(rules[i].effective_from@).unwrap()
}

/// `b` is the rule that sets component `c` among the first `k`: in force,
/// with the latest `effective_from`, the first such.
pub open spec fn rule_best(
    rules: Seq<TaxRule>,
    pid: Seq<char>,
    cvid: Seq<char>,
    at: UtcInstant,
    c: TaxComponent,
    k: int,
    b: int,
) -> bool {
    &&& 0 <= b < k
    &&& rule_live_for(rules, pid, cvid, at, c, b)
    &&& forall|i: int|
        0 <= i < k && #[trigger] rule_live_for(rules, pid, cvid, at, c, i) ==> !before(
            rule_from(rules, b),
            rule_from(rules, i),
        )
    &&& forall|i: int|
        0 <= i < b && #[trigger] rule_live_for(rules, pid, cvid, at, c, i) ==> before(
            rule_from(rules, i),
            rule_from(rules, b),
        )
}

/// `out` is the resolved rate list: one entry per component that has a
/// rule in force, in the fixed component order, each carrying the rate of
/// that component's resolved rule.
pub open spec fn rates_resolved(
    rules: Seq<TaxRule>,
    pid: Seq<char>,
    cvid: Seq<char>,
    at: UtcInstant,
    out: Seq<ResolvedRate>,
) -> bool {
    let n = rules.len() as int;
    &&& forall|j: int, k: int|
        0 <= j < k < out.len() ==> component_index(out[j].component) < component_index(
            out[k].component,
        )
    &&& forall|j: int|
        #![trigger out[j]]
        0 <= j < out.len() ==> exists|b: int|
            #![trigger rules[b]]
            rule_best(rules, pid, cvid, at, out[j].component, n, b) && out[j].rate_bps
                == rules[b].rate_bps
    &&& forall|c: TaxComponent, i: int|
        0 <= i < n && #[trigger] rule_live_for(rules, pid, cvid, at, c, i) ==> exists|j: int|
            0 <= j < out.len() && #[trigger] out[j].component == c
}

/// The rates of a profile/version pair resolve at `at`: no rule for the
/// pair refuses the resolution, and the pair has at least one rule.
pub open spec fn rates_resolvable(rules: Seq<TaxRule>, pid: Seq<char>, cvid: Seq<char>, at: UtcInstant) -> bool {
    &&& forall|j: int| 0 <= j < rules.len() ==> !status_is_error(#[trigger] rule_status(rules[j], pid, cvid, at))
    &&& exists|j: int| 0 <= j < rules.len() && !(#[trigger] rule_status(rules[j], pid, cvid, at) is NotForPair)
}

/// The index of the resolution's first refusing rule is `i`.
pub open spec fn first_error_at(
    rules: Seq<TaxRule>,
    pid: Seq<char>,
    cvid: Seq<char>,
    at: UtcInstant,
    i: int,
) -> bool {
    &&& 0 <= i < rules.len()
    &&& status_is_error(rule_status(rules[i], pid, cvid, at))
    &&& forall|j: int| 0 <= j < i ==> !status_is_error(#[trigger] rule_status(rules[j], pid, cvid, at))
}

/// The slot (0..4) of a component in the fixed order.
pub fn component_slot(c: TaxComponent) -> (i: usize)
    ensures
        i == component_index(c),
        component_at(i as int) == c,
{
    match c {
        TaxComponent::Cgst => 0,
        TaxComponent::Sgst => 1,
        TaxComponent::Igst => 2,
        TaxComponent::Cess => 3,
    }
}

proof fn lemma_component_parse(s: Seq<char>, c: TaxComponent)
    requires
        component_name(c) == s,
    ensures
        component_named(s) == Some(c),
{
    reveal_strlit("CGST");
    reveal_strlit("SGST");
    reveal_strlit("IGST");
    reveal_strlit("CESS");
    assert("CGST"@[0] != "SGST"@[0]);
    assert("CGST"@[0] != "IGST"@[0]);
    assert("CGST"@[1] != "CESS"@[1]);
    assert("SGST"@[0] != "IGST"@[0]);
    assert("SGST"@[0] != "CESS"@[0]);
    assert("IGST"@[0] != "CESS"@[0]);
}

/// The refusals rate resolution gives, each with the rows behind it: no
/// rule at all for the pair, or the first rule of the pair whose instant
/// or component does not parse.
pub open spec fn rates_refusal(rs: Seq<TaxRule>, pid: Seq<char>, cvid: Seq<char>, at: UtcInstant, e: DbError) -> bool {
    match e {
        DbError::InvalidInput(InvalidInput::NoTaxRules { tax_profile_id, compliance_version_id: v }) => {
            &&& tax_profile_id@ == pid
            &&& v@ == cvid
            &&& forall|j: int| 0 <= j < rs.len() ==> #[trigger] rule_status(rs[j], pid, cvid, at) is NotForPair
        },
        DbError::InvalidInput(InvalidInput::InvalidTimestamp(s)) => exists|i: int|
            first_error_at(rs, pid, cvid, at, i) && ((rule_status(rs[i], pid, cvid, at) is BadFrom
                && s@ == rs[i].effective_from@) || (rule_status(rs[i], pid, cvid, at) is BadTo
                && s@ == rs[i].effective_to.unwrap()@)),
        DbError::InvalidInput(InvalidInput::UnknownTaxComponent(s)) => exists|i: int|
            first_error_at(rs, pid, cvid, at, i) && rule_status(rs[i], pid, cvid, at) is BadComponent
                && s@ == rs[i].component@,
        _ => false,
    }
}

/// One rate per component effective for `profile_id` under
/// `compliance_version_id` at `at`: for each component, the rule with the
/// latest `effective_from` not after `at` whose `effective_to` is absent or
/// after `at` (`effective_from == at` is in force, `effective_to == at` is
/// not). A profile/version pair with no rules at all is an error; a pair
/// whose rules are all out of force gives an empty list.
pub fn resolve_rates(
    rules: &[TaxRule],
    profile_id: &str,
    compliance_version_id: &str,
    at: UtcInstant,
) -> (r: DbResult<Vec<ResolvedRate>>)
    ensures
        r is Ok <==> rates_resolvable(rules@, profile_id@, compliance_version_id@, at),
        ({
            let rs = rules@;
            let pid = profile_id@;
            let cvid = compliance_version_id@;
            match r {
                Ok(out) => {
                    &&& forall|j: int| 0 <= j < rs.len() ==> !status_is_error(#[trigger] rule_status(rs[j], pid, cvid, at))
                    &&& exists|j: int| 0 <= j < rs.len() && !(#[trigger] rule_status(rs[j], pid, cvid, at) is NotForPair)
                    &&& rates_resolved(rs, pid, cvid, at, out@)
                },
                Err(e) => rates_refusal(rs, pid, cvid, at, e),
            }
        }),
{
    let n = rules.len();
    let ghost rs = rules@;
    let ghost pid = profile_id@;
    let ghost cvid = compliance_version_id@;
    let mut latest: Vec<Option<(usize, UtcInstant)>> = vec![None, None, None, None];
    let mut any_for_pair = false;
    let mut i: usize = 0;
    while i < n
        invariant
            i <= n,
            n == rs.len(),
            rs == rules@,
            pid == profile_id@,
            cvid == compliance_version_id@,
            latest@.len() == 4,
            forall|j: int| 0 <= j < i ==> !status_is_error(#[trigger] rule_status(rs[j], pid, cvid, at)),
            any_for_pair == exists|j: int| 0 <= j < i && !(#[trigger] rule_status(rs[j], pid, cvid, at) is NotForPair),
            forall|c: int|
                0 <= c < 4 ==> match #[trigger] latest@[c] {
                    None => forall|j: int| 0 <= j < i ==> !#[trigger] rule_live_for(rs, pid, cvid, at, component_at(c), j),
                    Some((b, t)) => rule_best(rs, pid, cvid, at, component_at(c), i as int, b as int)
                        && t == rule_from(rs, b as int),
                },
        decreases n - i,
    {
        let rule = &rules[i];
        let ghost st = rule_status(rs[i as int], pid, cvid, at);
        if !str_eq(rule.tax_profile_id.as_str(), profile_id) || !str_eq(
            rule.compliance_version_id.as_str(),
            compliance_version_id,
        ) {
            proof {
                assert(st is NotForPair);
                assert forall|c: int| 0 <= c < 4 implies !rule_live_for(rs, pid, cvid, at, component_at(c), i as int) by {}
            }
            i += 1;
            continue;
        }
        any_for_pair = true;
        let effective_from = match parse_utc(rule.effective_from.as_str()) {
            Ok(t) => t,
            Err(e) => {
                proof {
                    assert(first_error_at(rs, pid, cvid, at, i as int));
                }
                return Err(e);
            },
        };
        if is_before(at, effective_from) {
            proof {
                assert(st is NotYet);
                assert forall|c: int| 0 <= c < 4 implies !rule_live_for(rs, pid, cvid, at, component_at(c), i as int) by {}
            }
            i += 1;
            continue;
        }
        if let Some(to) = &rule.effective_to {
            let effective_to = match parse_utc(to.as_str()) {
                Ok(t) => t,
                Err(e) => {
                    proof {
                        assert(first_error_at(rs, pid, cvid, at, i as int));
                    }
                    return Err(e);
                },
            };
            if !is_before(at, effective_to) {
                proof {
                    assert(st is Expired);
                    assert forall|c: int| 0 <= c < 4 implies !rule_live_for(rs, pid, cvid, at, component_at(c), i as int) by {}
                }
                i += 1;
                continue;
            }
        }
        let component = match TaxComponent::parse(rule.component.as_str()) {
            Ok(c) => c,
            Err(e) => {
                proof {
                    assert(component_named(rs[i as int].component@) is None);
                    assert(first_error_at(rs, pid, cvid, at, i as int));
                }
                return Err(e);
            },
        };
        proof {
            lemma_component_parse(rs[i as int].component@, component);
            assert(st is Live);
        }
        let slot = component_slot(component);
        let is_better = match latest[slot] {
            None => true,
            Some((_, cur_from)) => is_before(cur_from, effective_from),
        };
        if is_better {
            latest.set(slot, Some((i, effective_from)));
        }
        proof {
            assert forall|c: int|
                0 <= c < 4 implies match #[trigger] latest@[c] {
                None => forall|j: int| 0 <= j < i + 1 ==> !#[trigger] rule_live_for(rs, pid, cvid, at, component_at(c), j),
                Some((b, t)) => rule_best(rs, pid, cvid, at, component_at(c), i as int + 1, b as int)
                    && t == rule_from(rs, b as int),
            } by {
                if c != slot as int {
                    assert(!rule_live_for(rs, pid, cvid, at, component_at(c), i as int));
                }
            }
        }
        i += 1;
    }
    if !any_for_pair {
        return Err(
            DbError::InvalidInput(
                InvalidInput::NoTaxRules {
                    tax_profile_id: profile_id.to_owned(),
                    compliance_version_id: compliance_version_id.to_owned(),
                },
            ),
        );
    }
    let mut out: Vec<ResolvedRate> = Vec::new();
    let ghost mut bs: Seq<int> = Seq::empty();
    let mut c: usize = 0;
    while c < 4
        invariant
            c <= 4,
            n == rs.len(),
            rs == rules@,
            latest@.len() == 4,
            forall|d: int|
                0 <= d < 4 ==> match #[trigger] latest@[d] {
                    None => forall|j: int| 0 <= j < n ==> !#[trigger] rule_live_for(rs, pid, cvid, at, component_at(d), j),
                    Some((b, t)) => rule_best(rs, pid, cvid, at, component_at(d), n as int, b as int)
                        && t == rule_from(rs, b as int),
                },
            forall|j: int| 0 <= j < out@.len() ==> component_index(#[trigger] out@[j].component) < c,
            forall|j: int, k: int|
                0 <= j < k < out@.len() ==> component_index(out@[j].component) < component_index(
                    out@[k].component,
                ),
            bs.len() == out@.len(),
            forall|j: int|
                0 <= j < out@.len() ==> rule_best(rs, pid, cvid, at, out@[j].component, n as int, #[trigger] bs[j])
                    && out@[j].rate_bps == rs[bs[j]].rate_bps,
            forall|d: int, i: int|
                0 <= d < c && 0 <= i < n && #[trigger] rule_live_for(rs, pid, cvid, at, component_at(d), i) ==> exists|j: int|
                    0 <= j < out@.len() && #[trigger] out@[j].component == component_at(d),
        decreases 4 - c,
    {
        let component = component_order_at(c);
        let ghost old_out = out@;
        if let Some((b, _)) = latest[c] {
            out.push(ResolvedRate { component, rate_bps: rules[b].rate_bps });
            proof {
                let j = out@.len() - 1;
                bs = bs.push(b as int);
                assert(out@[j].component == component_at(c as int));
                assert forall|t: int| 0 <= t < out@.len() implies rule_best(rs, pid, cvid, at, out@[t].component, n as int, #[trigger] bs[t])
                    && out@[t].rate_bps == rs[bs[t]].rate_bps by {
                    if t < j {
                        assert(out@[t] == old_out[t]);
                    }
                }
            }
        }
        proof {
            assert forall|d: int, i: int|
                0 <= d < c + 1 && 0 <= i < n && #[trigger] rule_live_for(rs, pid, cvid, at, component_at(d), i) implies exists|j: int|
                    0 <= j < out@.len() && #[trigger] out@[j].component == component_at(d) by {
                if d < c {
                    let j0 = choose|j: int| 0 <= j < old_out.len() && #[trigger] old_out[j].component == component_at(d);
                    assert(out@[j0] == old_out[j0]);
                } else {
                    let j = out@.len() - 1;
                    assert(out@[j].component == component_at(d));
                }
            }
        }
        c += 1;
    }
    proof {
        assert forall|j: int| #![trigger out@[j]] 0 <= j < out@.len() implies exists|b: int|
            #![trigger rs[b]]
            rule_best(rs, pid, cvid, at, out@[j].component, rs.len() as int, b) && out@[j].rate_bps
                == rs[b].rate_bps by {
            let b = bs[j];
            assert(rule_best(rs, pid, cvid, at, out@[j].component, rs.len() as int, b));
            assert(out@[j].rate_bps == rs[b].rate_bps);
        }
        assert forall|cc: TaxComponent, i: int|
            0 <= i < n && #[trigger] rule_live_for(rs, pid, cvid, at, cc, i) implies exists|j: int|
                0 <= j < out@.len() && #[trigger] out@[j].component == cc by {
            let d = component_index(cc);
            assert(component_at(d) == cc);
            assert(rule_live_for(rs, pid, cvid, at, component_at(d), i));
        }
    }
    proof {
        assert(rates_resolved(rs, pid, cvid, at, out@));
    }
    Ok(out)
}

} // verus!
