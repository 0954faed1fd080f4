//! The evidence engine: indicator rules, the aggregator, the confidence
//! scorer and the report assembler. Everything here is a pure function
//! of one [`Facts`] bundle and one [`RuleConfig`]; the exec functions
//! are pinned field-for-field to the spec functions, so two calls on
//! equal inputs give equal reports.

use vstd::prelude::*;

use crate::facts::DisplayFact;
use crate::facts::DisplayFactView;
use crate::facts::Facts;
use crate::facts::displays_view;
use crate::facts::FactsView;
use crate::facts::RuleConfig;
use crate::facts::RuleConfigView;
use crate::facts::opt_str_view;
use crate::facts::spec_empty_facts;
use crate::facts::strs_view;
use crate::text::spec_contains;
use crate::text::spec_lower;
use crate::text::str_contains;
use crate::text::str_contains_ci;
use crate::text::str_starts_with;
use crate::text::spec_starts_with;

verus! {

/// How strongly one indicator points at refurbishment.
#[derive(Clone, Copy, PartialEq, Eq, Structural, Debug)]
pub enum Severity {
    /// Informational: consistent with refurbishment but weak on its own.
    Info,
    /// A meaningful anomaly.
    Warning,
    /// A strong anomaly.
    Critical,
}

/// The engine's self-assessed certainty in its verdict.
#[derive(Clone, Copy, PartialEq, Eq, Structural, Debug)]
pub enum Confidence {
    Low,
    Medium,
    High,
}

/// What one rule found when it fired: a name, a machine-readable description
/// code (not prose, to stay locale-neutral) and a severity.
#[derive(Clone, PartialEq, Debug)]
pub struct RefurbishmentIndicator {
    pub name: String,
    pub detected: bool,
    pub description: String,
    pub severity: Severity,
}

/// The mathematical value of a [`RefurbishmentIndicator`].
pub ghost struct IndicatorView {
    pub name: Seq<char>,
    pub detected: bool,
    pub description: Seq<char>,
    pub severity: Severity,
}

impl View for RefurbishmentIndicator {
    type V = IndicatorView;

    open spec fn view(&self) -> IndicatorView {
        IndicatorView {
            name: self.name@,
            detected: self.detected,
            description: self.description@,
            severity: self.severity,
        }
    }
}

/// The views of a vector of indicators.
pub open spec fn inds_view(v: Seq<RefurbishmentIndicator>) -> Seq<IndicatorView> {
    v.map_values(|i: RefurbishmentIndicator| i@)
}

/// The view of an optional indicator.
pub open spec fn opt_ind_view(o: Option<RefurbishmentIndicator>) -> Option<IndicatorView> {
    match o {
        Some(i) => Some(i@),
        None => None,
    }
}

/// Dates and flags copied or derived one-for-one from the facts; these
/// are context for the reader, not scored evidence.
#[derive(Clone, PartialEq, Debug)]
pub struct RefurbishmentDetails {
    pub serial_manufacture_date: Option<String>,
    pub os_install_date: Option<String>,
    pub battery_manufacture_date: Option<String>,
    pub storage_first_use_date: Option<String>,
    pub date_mismatch: bool,
    pub refurb_program: Option<String>,
}

/// The mathematical value of a [`RefurbishmentDetails`].
pub ghost struct DetailsView {
    pub serial_manufacture_date: Option<Seq<char>>,
    pub os_install_date: Option<Seq<char>>,
    pub battery_manufacture_date: Option<Seq<char>>,
    pub storage_first_use_date: Option<Seq<char>>,
    pub date_mismatch: bool,
    pub refurb_program: Option<Seq<char>>,
}

impl View for RefurbishmentDetails {
    type V = DetailsView;

    open spec fn view(&self) -> DetailsView {
        DetailsView {
            serial_manufacture_date: opt_str_view(self.serial_manufacture_date),
            os_install_date: opt_str_view(self.os_install_date),
            battery_manufacture_date: opt_str_view(self.battery_manufacture_date),
            storage_first_use_date: opt_str_view(self.storage_first_use_date),
            date_mismatch: self.date_mismatch,
            refurb_program: opt_str_view(self.refurb_program),
        }
    }
}

/// The final report: the verdict, its confidence, every indicator that
/// fired, the parts detected as swapped, and the date details.
#[derive(Clone, PartialEq, Debug)]
pub struct RefurbishmentCheck {
    pub is_refurbished: bool,
    pub confidence: Confidence,
    pub indicators: Vec<RefurbishmentIndicator>,
    pub replaced_parts: Vec<String>,
    pub details: RefurbishmentDetails,
}

/// The mathematical value of a [`RefurbishmentCheck`].
pub ghost struct CheckView {
    pub is_refurbished: bool,
    pub confidence: Confidence,
    pub indicators: Seq<IndicatorView>,
    pub replaced_parts: Seq<Seq<char>>,
    pub details: DetailsView,
}

impl View for RefurbishmentCheck {
    type V = CheckView;

    open spec fn view(&self) -> CheckView {
        CheckView {
            is_refurbished: self.is_refurbished,
            confidence: self.confidence,
            indicators: inds_view(self.indicators@),
            replaced_parts: strs_view(self.replaced_parts@),
            details: self.details@,
        }
    }
}

/// Some pattern of `pats` occurs in `s`.
pub open spec fn spec_contains_any(s: Seq<char>, pats: Seq<Seq<char>>) -> bool {
    exists|k: int| 0 <= k < pats.len() && spec_contains(s, pats[k])
}

/// Some pattern of `pats` occurs in `s`, ignoring ASCII case.
pub open spec fn spec_contains_any_ci(s: Seq<char>, pats: Seq<Seq<char>>) -> bool {
    exists|k: int| 0 <= k < pats.len() && spec_contains(spec_lower(s), spec_lower(pats[k]))
}

/// An optional element as a sequence of zero or one elements.
pub open spec fn opt_to_seq<T>(o: Option<T>) -> Seq<T> {
    match o {
        Some(x) => seq![x],
        None => Seq::empty(),
    }
}

/// Serial-pattern rule: a serial of at least four characters bearing
/// the configured refurbishment-program prefix is an informational
/// indicator. An empty prefix means the platform has no such program
/// and disables the rule.
pub open spec fn spec_serial_indicator(cfg: RuleConfigView, f: FactsView) -> Option<
    IndicatorView,
> {
    match f.serial {
        Some(s) => if cfg.refurb_serial_prefix.len() > 0 && s.len() >= 4 && spec_starts_with(
            s,
            cfg.refurb_serial_prefix,
        ) {
            Some(IndicatorView {
                name: "serial_refurb"@,
                detected: true,
                description: "serial_matches_refurb_program"@,
                severity: Severity::Info,
            })
        } else {
            None
        },
        None => None,
    }
}

/// Firmware-flag rule: a refurbishment or renewal marker anywhere in
/// the firmware dump (ASCII-case-insensitive) is an informational
/// indicator, named per platform after the registry it was found in.
pub open spec fn spec_firmware_indicator(cfg: RuleConfigView, f: FactsView) -> Option<
    IndicatorView,
> {
    match f.firmware_text {
        Some(t) => if spec_contains_any_ci(t, cfg.firmware_markers) {
            Some(IndicatorView {
                name: cfg.firmware_indicator_name,
                detected: true,
                description: "firmware_refurb_marker"@,
                severity: Severity::Info,
            })
        } else {
            None
        },
        None => None,
    }
}

/// The description code of the enrollment indicator, by which of the
/// two enrollment flags are set.
pub open spec fn spec_enrollment_description(dep: bool, mdm: bool) -> Seq<char> {
    if dep && mdm {
        "enrollment_both"@
    } else if dep {
        "enrollment_program_only"@
    } else {
        "enrollment_management_only"@
    }
}

/// Enterprise-enrollment rule: prior device-enrollment-program or
/// device-management enrollment is a warning, with a description code
/// distinguishing which flags were set.
pub open spec fn spec_enrollment_indicator(f: FactsView) -> Option<IndicatorView> {
    match f.enrollment {
        Some(e) => if e.dep_enrolled || e.mdm_enrolled {
            Some(IndicatorView {
                name: "enterprise_managed"@,
                detected: true,
                description: spec_enrollment_description(e.dep_enrolled, e.mdm_enrolled),
                severity: Severity::Warning,
            })
        } else {
            None
        },
        None => None,
    }
}

/// Battery-anomaly rule (toggled per platform): a cycle count strictly
/// below the configured threshold is an informational indicator.
pub open spec fn spec_battery_indicator(cfg: RuleConfigView, f: FactsView) -> Option<
    IndicatorView,
> {
    match f.battery_cycle_count {
        Some(c) => if cfg.battery_rule_enabled && c < cfg.battery_cycle_threshold {
            Some(IndicatorView {
                name: "low_battery_cycles"@,
                detected: true,
                description: "battery_cycle_count_low"@,
                severity: Severity::Info,
            })
        } else {
            None
        },
        None => None,
    }
}

/// Battery-health rule (toggled per platform): a full-charge capacity
/// implausibly close to the design capacity — strictly above the
/// configured percentage of it — is an informational indicator. Both
/// readings must be present and the design capacity positive.
pub open spec fn spec_battery_health_indicator(cfg: RuleConfigView, f: FactsView) -> Option<
    IndicatorView,
> {
    match (f.battery_design_capacity, f.battery_full_charge_capacity) {
        (Some(design), Some(full)) => if cfg.battery_health_rule_enabled && design > 0 && full
            * 100 > design * cfg.battery_health_threshold_percent {
            Some(IndicatorView {
                name: "high_battery_health"@,
                detected: true,
                description: "battery_health_ratio_high"@,
                severity: Severity::Info,
            })
        } else {
            None
        },
        _ => None,
    }
}

/// The storage descriptor names a third-party part: present, internal,
/// non-empty model, matching neither the first-party set nor an exempt
/// marker.
pub open spec fn spec_storage_offends(cfg: RuleConfigView, f: FactsView) -> bool {
    match f.storage {
        Some(st) => st.internal && st.model.len() > 0 && !spec_contains_any(
            st.model,
            cfg.first_party_storage_models,
        ) && !spec_contains_any(st.model, cfg.storage_exempt_markers),
        None => false,
    }
}

/// Component-originality rule, storage: a third-party internal storage
/// model is a warning and marks the storage subsystem replaced.
pub open spec fn spec_storage_indicator(cfg: RuleConfigView, f: FactsView) -> Option<
    IndicatorView,
> {
    if spec_storage_offends(cfg, f) {
        Some(IndicatorView {
            name: "third_party_storage"@,
            detected: true,
            description: "storage_model_not_first_party"@,
            severity: Severity::Warning,
        })
    } else {
        None
    }
}

/// One display descriptor names a third-party part: internally
/// connected with a vendor outside the first-party set.
pub open spec fn spec_display_offends(cfg: RuleConfigView, d: DisplayFactView) -> bool {
    d.internal && !spec_contains_any(d.vendor, cfg.first_party_display_vendors)
}

/// The indicator emitted for one offending display.
pub open spec fn spec_display_indicator() -> IndicatorView {
    IndicatorView {
        name: "third_party_display"@,
        detected: true,
        description: "display_vendor_not_first_party"@,
        severity: Severity::Warning,
    }
}

/// Component-originality rule, displays: one warning indicator per
/// offending display, in display order.
pub open spec fn spec_display_indicators(cfg: RuleConfigView, ds: Seq<DisplayFactView>) -> Seq<
    IndicatorView,
>
    decreases ds.len(),
{
    if ds.len() == 0 {
        Seq::empty()
    } else {
        spec_display_indicators(cfg, ds.drop_last()) + if spec_display_offends(cfg, ds.last()) {
            seq![spec_display_indicator()]
        } else {
            Seq::empty()
        }
    }
}

/// One `display` replaced-part record per offending display.
pub open spec fn spec_display_parts(cfg: RuleConfigView, ds: Seq<DisplayFactView>) -> Seq<
    Seq<char>,
>
    decreases ds.len(),
{
    if ds.len() == 0 {
        Seq::empty()
    } else {
        spec_display_parts(cfg, ds.drop_last()) + if spec_display_offends(cfg, ds.last()) {
            seq!["display"@]
        } else {
            Seq::empty()
        }
    }
}

/// Every indicator of every rule, in the fixed rule order.
pub open spec fn spec_indicators(cfg: RuleConfigView, f: FactsView) -> Seq<IndicatorView> {
    opt_to_seq(spec_serial_indicator(cfg, f)) + opt_to_seq(spec_firmware_indicator(cfg, f))
        + opt_to_seq(spec_enrollment_indicator(f)) + opt_to_seq(spec_battery_indicator(cfg, f))
        + opt_to_seq(spec_battery_health_indicator(cfg, f)) + opt_to_seq(
        spec_storage_indicator(cfg, f),
    ) + spec_display_indicators(cfg, f.displays)
}

/// Every replaced-part record, storage first, then one per offending
/// display.
pub open spec fn spec_replaced_parts(cfg: RuleConfigView, f: FactsView) -> Seq<Seq<char>> {
    (if spec_storage_offends(cfg, f) {
        seq!["storage"@]
    } else {
        Seq::empty()
    }) + spec_display_parts(cfg, f.displays)
}

/// The standalone refurbished side-signal raised by the serial and
/// firmware rules, independent of severity tallies.
pub open spec fn spec_provisional_refurbished(cfg: RuleConfigView, f: FactsView) -> bool {
    spec_serial_indicator(cfg, f) is Some || spec_firmware_indicator(cfg, f) is Some
}

/// The detail block: date-bearing facts copied one-for-one, the
/// presence-based date-mismatch flag, and the named refurbishment
/// program when the serial rule fired.
pub open spec fn spec_details(cfg: RuleConfigView, f: FactsView) -> DetailsView {
    DetailsView {
        serial_manufacture_date: match f.serial {
            Some(s) => if s.len() >= 4 {
                Some(s.take(4))
            } else {
                None
            },
            None => None,
        },
        os_install_date: f.os_install_date,
        battery_manufacture_date: f.battery_manufacture_date,
        storage_first_use_date: f.storage_first_use_date,
        date_mismatch: f.battery_manufacture_date is Some && f.os_install_date is Some,
        refurb_program: if spec_serial_indicator(cfg, f) is Some {
            Some(cfg.refurb_program_name)
        } else {
            None
        },
    }
}

/// How many indicators have the given severity.
pub open spec fn spec_count_severity(inds: Seq<IndicatorView>, sev: Severity) -> int
    decreases inds.len(),
{
    if inds.len() == 0 {
        0
    } else {
        spec_count_severity(inds.drop_last(), sev) + if inds.last().severity == sev {
            1int
        } else {
            0int
        }
    }
}

/// The confidence policy: `High` iff a critical indicator fired or at
/// least two warnings did; otherwise `Medium` iff a warning fired or at
/// least two indicators of any severity did; otherwise `Low`.
pub open spec fn spec_confidence(inds: Seq<IndicatorView>) -> Confidence {
    if spec_count_severity(inds, Severity::Critical) > 0 || spec_count_severity(
        inds,
        Severity::Warning,
    ) >= 2 {
        Confidence::High
    } else if spec_count_severity(inds, Severity::Warning) >= 1 || inds.len() >= 2 {
        Confidence::Medium
    } else {
        Confidence::Low
    }
}

/// The final judgment: refurbished iff a program-level rule raised the
/// side-signal, or a part was recorded replaced, or any warning fired.
pub open spec fn spec_is_refurbished(cfg: RuleConfigView, f: FactsView) -> bool {
    spec_provisional_refurbished(cfg, f) || spec_replaced_parts(cfg, f).len() > 0
        || spec_count_severity(spec_indicators(cfg, f), Severity::Warning) > 0
}

/// The whole report as a function of the configuration and the facts.
pub open spec fn spec_assemble(cfg: RuleConfigView, f: FactsView) -> CheckView {
    CheckView {
        is_refurbished: spec_is_refurbished(cfg, f),
        confidence: spec_confidence(spec_indicators(cfg, f)),
        indicators: spec_indicators(cfg, f),
        replaced_parts: spec_replaced_parts(cfg, f),
        details: spec_details(cfg, f),
    }
}

/// Law: assembly is pure. Two configurations and two fact bundles with
/// equal values yield field-equal reports; together with `assemble`'s
/// postcondition this makes repeated assembly idempotent.
pub proof fn lemma_assemble_pure(cfg1: RuleConfig, facts1: Facts, cfg2: RuleConfig, facts2: Facts)
    requires
        cfg1@ == cfg2@,
        facts1@ == facts2@,
    ensures
        spec_assemble(cfg1@, facts1@) == spec_assemble(cfg2@, facts2@),
{
}

/// Law: confidence is `High` exactly when a critical indicator fired
/// or at least two warnings did.
pub proof fn lemma_confidence_high_iff(inds: Seq<IndicatorView>)
    ensures
        spec_confidence(inds) == Confidence::High <==> (spec_count_severity(
            inds,
            Severity::Critical,
        ) > 0 || spec_count_severity(inds, Severity::Warning) >= 2),
{
}

/// Law: with every fact absent the report is empty — not refurbished,
/// low confidence, no indicators and no replaced parts.
pub proof fn lemma_empty_facts_empty_report(cfg: RuleConfigView)
    ensures
        !spec_assemble(cfg, spec_empty_facts()).is_refurbished,
        spec_assemble(cfg, spec_empty_facts()).confidence == Confidence::Low,
        spec_assemble(cfg, spec_empty_facts()).indicators.len() == 0,
        spec_assemble(cfg, spec_empty_facts()).replaced_parts.len() == 0,
{
    let f = spec_empty_facts();
    assert(spec_indicators(cfg, f) =~= Seq::<IndicatorView>::empty());
    assert(spec_replaced_parts(cfg, f) =~= Seq::<Seq<char>>::empty());
}

/// Law: whenever a replaced part is recorded, the verdict is
/// refurbished, regardless of the severities that fired.
pub proof fn lemma_replaced_part_implies_refurbished(cfg: RuleConfigView, f: FactsView)
    ensures
        spec_assemble(cfg, f).replaced_parts.len() > 0 ==> spec_assemble(cfg, f).is_refurbished,
{
}

/// Law: the verdict decomposes into exactly three independent signal
/// families — the program side-signal, the replaced-part records, and
/// the warning tally.
pub proof fn lemma_verdict_decomposition(cfg: RuleConfigView, f: FactsView)
    ensures
        spec_assemble(cfg, f).is_refurbished <==> (spec_provisional_refurbished(cfg, f)
            || spec_replaced_parts(cfg, f).len() > 0 || spec_count_severity(
            spec_indicators(cfg, f),
            Severity::Warning,
        ) > 0),
{
}

/// Law: confidence is never `High` — indeed never above `Low` — when
/// no indicator fired.
pub proof fn lemma_no_indicators_low(inds: Seq<IndicatorView>)
    requires
        inds.len() == 0,
    ensures
        spec_confidence(inds) == Confidence::Low,
{
}

/// Tests whether any pattern of `pats` occurs in `s`.
fn contains_any(s: &str, pats: &Vec<String>) -> (r: bool)
    ensures
        r == spec_contains_any(s@, strs_view(pats@)),
{
    let mut k: usize = 0;
    while k < pats.len()
        invariant
            0 <= k <= pats@.len(),
            forall|j: int| 0 <= j < k ==> !spec_contains(s@, #[trigger] strs_view(pats@)[j]),
        decreases pats@.len() - k,
    {
        assert(strs_view(pats@)[k as int] == pats@[k as int]@);
        if str_contains(s, pats[k].as_str()) {
            return true;
        }
        k += 1;
    }
    false
}

/// Tests whether any pattern of `pats` occurs in `s`, ignoring ASCII case.
fn contains_any_ci(s: &str, pats: &Vec<String>) -> (r: bool)
    ensures
        r == spec_contains_any_ci(s@, strs_view(pats@)),
{
    let mut k: usize = 0;
    while k < pats.len()
        invariant
            0 <= k <= pats@.len(),
            forall|j: int| 0 <= j < k ==> !spec_contains(
                spec_lower(s@),
                spec_lower(#[trigger] strs_view(pats@)[j]),
            ),
        decreases pats@.len() - k,
    {
        assert(strs_view(pats@)[k as int] == pats@[k as int]@);
        if str_contains_ci(s, pats[k].as_str()) {
            return true;
        }
        k += 1;
    }
    false
}

/// Serial-pattern rule; see [`spec_serial_indicator`].
pub fn serial_rule(cfg: &RuleConfig, facts: &Facts) -> (r: Option<RefurbishmentIndicator>)
    ensures
        opt_ind_view(r) == spec_serial_indicator(cfg@, facts@),
{
    match &facts.serial {
        None => None,
        Some(s) => {
            if cfg.refurb_serial_prefix.as_str().unicode_len() > 0 && s.as_str().unicode_len() >= 4
                && str_starts_with(s.as_str(), cfg.refurb_serial_prefix.as_str()) {
                Some(RefurbishmentIndicator {
                    name: String::from_str("serial_refurb"),
                    detected: true,
                    description: String::from_str("serial_matches_refurb_program"),
                    severity: Severity::Info,
                })
            } else {
                None
            }
        },
    }
}

/// Firmware-flag rule; see [`spec_firmware_indicator`].
pub fn firmware_rule(cfg: &RuleConfig, facts: &Facts) -> (r: Option<RefurbishmentIndicator>)
    ensures
        opt_ind_view(r) == spec_firmware_indicator(cfg@, facts@),
{
    match &facts.firmware_text {
        None => None,
        Some(t) => {
            if contains_any_ci(t.as_str(), &cfg.firmware_markers) {
                Some(RefurbishmentIndicator {
                    name: cfg.firmware_indicator_name.clone(),
                    detected: true,
                    description: String::from_str("firmware_refurb_marker"),
                    severity: Severity::Info,
                })
            } else {
                None
            }
        },
    }
}

/// Enterprise-enrollment rule; see [`spec_enrollment_indicator`].
pub fn enrollment_rule(facts: &Facts) -> (r: Option<RefurbishmentIndicator>)
    ensures
        opt_ind_view(r) == spec_enrollment_indicator(facts@),
{
    match facts.enrollment {
        None => None,
        Some(e) => {
            if e.dep_enrolled || e.mdm_enrolled {
                let description = if e.dep_enrolled && e.mdm_enrolled {
                    String::from_str("enrollment_both")
                } else if e.dep_enrolled {
                    String::from_str("enrollment_program_only")
                } else {
                    String::from_str("enrollment_management_only")
                };
                Some(RefurbishmentIndicator {
                    name: String::from_str("enterprise_managed"),
                    detected: true,
                    description,
                    severity: Severity::Warning,
                })
            } else {
                None
            }
        },
    }
}

/// Battery-anomaly rule; see [`spec_battery_indicator`].
pub fn battery_rule(cfg: &RuleConfig, facts: &Facts) -> (r: Option<RefurbishmentIndicator>)
    ensures
        opt_ind_view(r) == spec_battery_indicator(cfg@, facts@),
{
    match facts.battery_cycle_count {
        None => None,
        Some(c) => {
            if cfg.battery_rule_enabled && c < cfg.battery_cycle_threshold {
                Some(RefurbishmentIndicator {
                    name: String::from_str("low_battery_cycles"),
                    detected: true,
                    description: String::from_str("battery_cycle_count_low"),
                    severity: Severity::Info,
                })
            } else {
                None
            }
        },
    }
}

/// Battery-health rule; see [`spec_battery_health_indicator`].
pub fn battery_health_rule(cfg: &RuleConfig, facts: &Facts) -> (r: Option<RefurbishmentIndicator>)
    ensures
        opt_ind_view(r) == spec_battery_health_indicator(cfg@, facts@),
{
    match (facts.battery_design_capacity, facts.battery_full_charge_capacity) {
        (Some(design), Some(full)) => {
            let d: u128 = design as u128;
            let t: u128 = cfg.battery_health_threshold_percent as u128;
            proof {
                assert(d * t <= 0xffff_ffff_ffff_ffff_u128 * 0xffff_ffff_u128) by (nonlinear_arith)
                    requires
                        d <= 0xffff_ffff_ffff_ffff_u128,
                        t <= 0xffff_ffff_u128,
                ;
            }
            let ratio_high = (full as u128) * 100 > d * t;
            if cfg.battery_health_rule_enabled && design > 0 && ratio_high {
                Some(RefurbishmentIndicator {
                    name: String::from_str("high_battery_health"),
                    detected: true,
                    description: String::from_str("battery_health_ratio_high"),
                    severity: Severity::Info,
                })
            } else {
                None
            }
        },
        _ => None,
    }
}

/// Component-originality rule for storage; see [`spec_storage_indicator`].
pub fn storage_rule(cfg: &RuleConfig, facts: &Facts) -> (r: Option<RefurbishmentIndicator>)
    ensures
        opt_ind_view(r) == spec_storage_indicator(cfg@, facts@),
        r is Some <==> spec_storage_offends(cfg@, facts@),
{
    match &facts.storage {
        None => None,
        Some(st) => {
            if st.internal && st.model.as_str().unicode_len() > 0 && !contains_any(
                st.model.as_str(),
                &cfg.first_party_storage_models,
            ) && !contains_any(st.model.as_str(), &cfg.storage_exempt_markers) {
                Some(RefurbishmentIndicator {
                    name: String::from_str("third_party_storage"),
                    detected: true,
                    description: String::from_str("storage_model_not_first_party"),
                    severity: Severity::Warning,
                })
            } else {
                None
            }
        },
    }
}

/// Component-originality rule for displays: one indicator and one
/// `display` part record per offending display, in display order.
pub fn display_rule(cfg: &RuleConfig, displays: &Vec<DisplayFact>) -> (r: (
    Vec<RefurbishmentIndicator>,
    Vec<String>,
))
    ensures
        inds_view(r.0@) == spec_display_indicators(cfg@, displays_view(displays@)),
        strs_view(r.1@) == spec_display_parts(cfg@, displays_view(displays@)),
{
    let ghost dv = displays_view(displays@);
    let mut inds: Vec<RefurbishmentIndicator> = Vec::new();
    let mut parts: Vec<String> = Vec::new();
    proof {
        assert(inds_view(inds@) =~= spec_display_indicators(cfg@, dv.take(0)));
        assert(strs_view(parts@) =~= spec_display_parts(cfg@, dv.take(0)));
    }
    let mut i: usize = 0;
    while i < displays.len()
        invariant
            0 <= i <= displays@.len(),
            dv == displays_view(displays@),
            inds_view(inds@) == spec_display_indicators(cfg@, dv.take(i as int)),
            strs_view(parts@) == spec_display_parts(cfg@, dv.take(i as int)),
        decreases displays@.len() - i,
    {
        let d = &displays[i];
        proof {
            assert(dv[i as int] == displays@[i as int]@);
            assert(dv.take(i + 1).drop_last() =~= dv.take(i as int));
            assert(dv.take(i + 1).last() == dv[i as int]);
        }
        if d.internal && !contains_any(d.vendor.as_str(), &cfg.first_party_display_vendors) {
            let ind = RefurbishmentIndicator {
                name: String::from_str("third_party_display"),
                detected: true,
                description: String::from_str("display_vendor_not_first_party"),
                severity: Severity::Warning,
            };
            proof {
                assert(spec_display_offends(cfg@, dv[i as int]));
            }
            let ghost old_inds = inds@;
            let ghost old_parts = parts@;
            inds.push(ind);
            parts.push(String::from_str("display"));
            proof {
                assert(inds_view(inds@) =~= inds_view(old_inds) + seq![spec_display_indicator()]);
                assert(strs_view(parts@) =~= strs_view(old_parts) + seq!["display"@]);
            }
        } else {
            proof {
                assert(!spec_display_offends(cfg@, dv[i as int]));
                assert(inds_view(inds@) + Seq::<IndicatorView>::empty() =~= inds_view(inds@));
                assert(strs_view(parts@) + Seq::<Seq<char>>::empty() =~= strs_view(parts@));
            }
        }
        i += 1;
    }
    proof {
        assert(dv.take(displays@.len() as int) =~= dv);
    }
    (inds, parts)
}

/// Appends an optional indicator.
fn push_opt_indicator(v: &mut Vec<RefurbishmentIndicator>, o: Option<RefurbishmentIndicator>)
    ensures
        inds_view(final(v)@) == inds_view(old(v)@) + opt_to_seq(opt_ind_view(o)),
{
    match o {
        Some(x) => {
            let ghost old_v = v@;
            let ghost xv = x@;
            v.push(x);
            proof {
                assert(inds_view(v@) =~= inds_view(old_v) + seq![xv]);
            }
        },
        None => {
            proof {
                assert(inds_view(v@) + Seq::<IndicatorView>::empty() =~= inds_view(v@));
            }
        },
    }
}

/// Clones an optional string fact.
fn clone_opt_string(o: &Option<String>) -> (r: Option<String>)
    ensures
        opt_str_view(r) == opt_str_view(*o),
{
    match o {
        Some(s) => Some(s.clone()),
        None => None,
    }
}

/// The evidence aggregator: runs every rule against the same facts,
/// concatenating indicators and replaced-part records in the fixed rule
/// order, and derives the date details; also returns the standalone
/// refurbished side-signal of the serial and firmware rules. A missing
/// fact never fails a rule; it only withholds that rule's indicator.
pub fn evaluate(cfg: &RuleConfig, facts: &Facts) -> (r: (
    Vec<RefurbishmentIndicator>,
    Vec<String>,
    RefurbishmentDetails,
    bool,
))
    ensures
        inds_view(r.0@) == spec_indicators(cfg@, facts@),
        strs_view(r.1@) == spec_replaced_parts(cfg@, facts@),
        r.2@ == spec_details(cfg@, facts@),
        r.3 == spec_provisional_refurbished(cfg@, facts@),
{
    let serial_ind = serial_rule(cfg, facts);
    let firmware_ind = firmware_rule(cfg, facts);
    let provisional = serial_ind.is_some() || firmware_ind.is_some();
    let serial_fired = serial_ind.is_some();

    let mut indicators: Vec<RefurbishmentIndicator> = Vec::new();
    proof {
        assert(inds_view(indicators@) =~= Seq::<IndicatorView>::empty());
    }
    push_opt_indicator(&mut indicators, serial_ind);
    proof {
        assert(Seq::<IndicatorView>::empty() + opt_to_seq(spec_serial_indicator(cfg@, facts@))
            =~= opt_to_seq(spec_serial_indicator(cfg@, facts@)));
    }
    push_opt_indicator(&mut indicators, firmware_ind);
    push_opt_indicator(&mut indicators, enrollment_rule(facts));
    push_opt_indicator(&mut indicators, battery_rule(cfg, facts));
    push_opt_indicator(&mut indicators, battery_health_rule(cfg, facts));
    let storage_ind = storage_rule(cfg, facts);
    let storage_fired = storage_ind.is_some();
    push_opt_indicator(&mut indicators, storage_ind);
    let (mut disp_inds, mut disp_parts) = display_rule(cfg, &facts.displays);
    let ghost before_disp = indicators@;
    indicators.append(&mut disp_inds);
    proof {
        assert(inds_view(indicators@) =~= inds_view(before_disp) + spec_display_indicators(
            cfg@,
            facts@.displays,
        ));
        assert(inds_view(indicators@) =~= spec_indicators(cfg@, facts@));
    }

    let mut replaced_parts: Vec<String> = Vec::new();
    if storage_fired {
        replaced_parts.push(String::from_str("storage"));
    }
    let ghost before_disp_parts = replaced_parts@;
    proof {
        if storage_fired {
            assert(strs_view(before_disp_parts) =~= seq!["storage"@]);
        } else {
            assert(strs_view(before_disp_parts) =~= Seq::<Seq<char>>::empty());
        }
    }
    replaced_parts.append(&mut disp_parts);
    proof {
        assert(strs_view(replaced_parts@) =~= strs_view(before_disp_parts) + spec_display_parts(
            cfg@,
            facts@.displays,
        ));
        assert(strs_view(replaced_parts@) =~= spec_replaced_parts(cfg@, facts@));
    }

    let serial_manufacture_date: Option<String> = match &facts.serial {
        Some(s) => {
            if s.as_str().unicode_len() >= 4 {
                let prefix = s.as_str().substring_char(0, 4);
                assert(prefix@ =~= s@.take(4));
                Some(String::from_str(prefix))
            } else {
                None
            }
        },
        None => None,
    };
    let refurb_program: Option<String> = if serial_fired {
        Some(cfg.refurb_program_name.clone())
    } else {
        None
    };
    let battery_manufacture_date = clone_opt_string(&facts.battery_manufacture_date);
    let os_install_date = clone_opt_string(&facts.os_install_date);
    let date_mismatch = battery_manufacture_date.is_some() && os_install_date.is_some();
    let details = RefurbishmentDetails {
        serial_manufacture_date,
        os_install_date,
        battery_manufacture_date,
        storage_first_use_date: clone_opt_string(&facts.storage_first_use_date),
        date_mismatch,
        refurb_program,
    };

    (indicators, replaced_parts, details, provisional)
}

/// The confidence scorer: a total function from the indicator list
/// (plus the standalone side-signal and the replaced-part records) to
/// the verdict and its confidence tier. No facts at all scores
/// `(false, Low)`.
pub fn score(
    indicators: &Vec<RefurbishmentIndicator>,
    provisional_refurbished: bool,
    replaced_parts: &Vec<String>,
) -> (r: (bool, Confidence))
    ensures
        r.0 == (provisional_refurbished || replaced_parts@.len() > 0 || spec_count_severity(
            inds_view(indicators@),
            Severity::Warning,
        ) > 0),
        r.1 == spec_confidence(inds_view(indicators@)),
{
    let ghost iv = inds_view(indicators@);
    let mut warn: usize = 0;
    let mut crit: usize = 0;
    let mut i: usize = 0;
    while i < indicators.len()
        invariant
            0 <= i <= indicators@.len(),
            iv == inds_view(indicators@),
            warn <= i,
            crit <= i,
            warn == spec_count_severity(iv.take(i as int), Severity::Warning),
            crit == spec_count_severity(iv.take(i as int), Severity::Critical),
        decreases indicators@.len() - i,
    {
        proof {
            assert(iv[i as int] == indicators@[i as int]@);
            assert(iv.take(i + 1).drop_last() =~= iv.take(i as int));
            assert(iv.take(i + 1).last() == iv[i as int]);
        }
        match indicators[i].severity {
            Severity::Warning => { warn += 1; },
            Severity::Critical => { crit += 1; },
            Severity::Info => {},
        }
        i += 1;
    }
    proof {
        assert(iv.take(indicators@.len() as int) =~= iv);
    }
    let confidence = if crit > 0 || warn >= 2 {
        Confidence::High
    } else if warn >= 1 || indicators.len() >= 2 {
        Confidence::Medium
    } else {
        Confidence::Low
    };
    let verdict = provisional_refurbished || replaced_parts.len() > 0 || warn > 0;
    (verdict, confidence)
}

/// The report assembler and sole entry point: runs the aggregator and
/// the scorer and packs the report. Pure and idempotent: the result is
/// a function of the two arguments' values alone.
pub fn assemble(cfg: &RuleConfig, facts: &Facts) -> (r: RefurbishmentCheck)
    ensures
        r@ == spec_assemble(cfg@, facts@),
{
    let (indicators, replaced_parts, details, provisional) = evaluate(cfg, facts);
    let (is_refurbished, confidence) = score(&indicators, provisional, &replaced_parts);
    proof {
        assert(strs_view(replaced_parts@).len() == replaced_parts@.len());
    }
    RefurbishmentCheck { is_refurbished, confidence, indicators, replaced_parts, details }
}

} // verus!
