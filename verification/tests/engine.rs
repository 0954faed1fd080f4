use refurb_check::engine::{assemble, score, Confidence, RefurbishmentIndicator, Severity};
use refurb_check::facts::{DisplayFact, EnrollmentFacts, Facts, RuleConfig, StorageFact};

fn indicator(severity: Severity) -> RefurbishmentIndicator {
    RefurbishmentIndicator {
        name: "test_indicator".to_string(),
        detected: true,
        description: "test_description".to_string(),
        severity,
    }
}

fn storage_test_config() -> RuleConfig {
    RuleConfig {
        refurb_serial_prefix: "F".to_string(),
        refurb_program_name: "Apple Certified Refurbished".to_string(),
        firmware_indicator_name: "ioreg_refurb".to_string(),
        firmware_markers: vec!["refurbished".to_string()],
        first_party_storage_models: vec!["APPLE SSD".to_string(), "Apple SSD".to_string()],
        storage_exempt_markers: vec![],
        first_party_display_vendors: vec!["Apple".to_string(), "APP".to_string()],
        battery_rule_enabled: true,
        battery_cycle_threshold: 50,
        battery_health_rule_enabled: false,
        battery_health_threshold_percent: 0,
    }
}

#[test]
fn assemble_is_idempotent() {
    let facts = Facts {
        serial: Some("FABC1234".to_string()),
        firmware_text: Some("device Refurbished unit".to_string()),
        enrollment: Some(EnrollmentFacts { dep_enrolled: true, mdm_enrolled: false }),
        storage: Some(StorageFact { model: "Generic NVMe SSD".to_string(), internal: true }),
        displays: vec![DisplayFact { vendor: "BOE".to_string(), internal: true }],
        battery_cycle_count: Some(12),
        battery_design_capacity: None,
        battery_full_charge_capacity: None,
        battery_manufacture_date: Some("20230105".to_string()),
        os_install_date: Some("Mar 1 2024".to_string()),
        storage_first_use_date: None,
    };
    let r1 = assemble(&RuleConfig::apple_defaults(), &facts);
    let r2 = assemble(&RuleConfig::apple_defaults(), &facts);
    assert_eq!(r1, r2);
}

#[test]
fn confidence_zero_warnings_is_low() {
    let (refurb, conf) = score(&vec![], false, &vec![]);
    assert!(!refurb);
    assert_eq!(conf, Confidence::Low);
}

#[test]
fn confidence_one_warning_is_medium() {
    let (refurb, conf) = score(&vec![indicator(Severity::Warning)], false, &vec![]);
    assert!(refurb);
    assert_eq!(conf, Confidence::Medium);
}

#[test]
fn confidence_two_warnings_is_high() {
    let inds = vec![indicator(Severity::Warning), indicator(Severity::Warning)];
    let (refurb, conf) = score(&inds, false, &vec![]);
    assert!(refurb);
    assert_eq!(conf, Confidence::High);
}

#[test]
fn confidence_three_warnings_is_high() {
    let inds = vec![
        indicator(Severity::Warning),
        indicator(Severity::Warning),
        indicator(Severity::Warning),
    ];
    let (_, conf) = score(&inds, false, &vec![]);
    assert_eq!(conf, Confidence::High);
}

#[test]
fn confidence_lone_critical_is_high() {
    let (_, conf) = score(&vec![indicator(Severity::Critical)], false, &vec![]);
    assert_eq!(conf, Confidence::High);
}

#[test]
fn confidence_two_infos_is_medium() {
    let inds = vec![indicator(Severity::Info), indicator(Severity::Info)];
    let (refurb, conf) = score(&inds, false, &vec![]);
    assert!(!refurb);
    assert_eq!(conf, Confidence::Medium);
}

#[test]
fn empty_facts_give_empty_report() {
    let report = assemble(&RuleConfig::apple_defaults(), &Facts::empty());
    assert!(!report.is_refurbished);
    assert_eq!(report.confidence, Confidence::Low);
    assert!(report.indicators.is_empty());
    assert!(report.replaced_parts.is_empty());
    assert_eq!(report.details.serial_manufacture_date, None);
    assert_eq!(report.details.refurb_program, None);
    assert!(!report.details.date_mismatch);
}

#[test]
fn third_party_storage_fires_once() {
    let mut facts = Facts::empty();
    facts.storage = Some(StorageFact { model: "Generic NVMe SSD".to_string(), internal: true });
    let report = assemble(&storage_test_config(), &facts);
    assert_eq!(report.indicators.len(), 1);
    assert_eq!(report.indicators[0].name, "third_party_storage");
    assert_eq!(report.indicators[0].severity, Severity::Warning);
    assert_eq!(report.replaced_parts, vec!["storage".to_string()]);
    assert!(report.is_refurbished);
}

#[test]
fn first_party_storage_fires_nothing() {
    let mut facts = Facts::empty();
    facts.storage = Some(StorageFact { model: "APPLE SSD AP2048".to_string(), internal: true });
    let report = assemble(&storage_test_config(), &facts);
    assert!(report.indicators.is_empty());
    assert!(report.replaced_parts.is_empty());
    assert!(!report.is_refurbished);
}

#[test]
fn external_storage_fires_nothing() {
    let mut facts = Facts::empty();
    facts.storage = Some(StorageFact { model: "Generic NVMe SSD".to_string(), internal: false });
    let report = assemble(&storage_test_config(), &facts);
    assert!(report.indicators.is_empty());
    assert!(report.replaced_parts.is_empty());
}

#[test]
fn two_of_three_displays_fire() {
    let mut facts = Facts::empty();
    facts.displays = vec![
        DisplayFact { vendor: "BOE".to_string(), internal: true },
        DisplayFact { vendor: "Apple Inc.".to_string(), internal: true },
        DisplayFact { vendor: "SDC".to_string(), internal: true },
    ];
    let report = assemble(&RuleConfig::apple_defaults(), &facts);
    assert_eq!(report.indicators.len(), 2);
    assert_eq!(report.indicators[0].name, "third_party_display");
    assert_eq!(report.indicators[1].name, "third_party_display");
    assert_eq!(
        report.replaced_parts,
        vec!["display".to_string(), "display".to_string()]
    );
    assert!(report.is_refurbished);
    assert_eq!(report.confidence, Confidence::High);
}

#[test]
fn external_display_does_not_fire() {
    let mut facts = Facts::empty();
    facts.displays = vec![DisplayFact { vendor: "Dell".to_string(), internal: false }];
    let report = assemble(&RuleConfig::apple_defaults(), &facts);
    assert!(report.indicators.is_empty());
}

#[test]
fn enrollment_program_only_description() {
    let mut facts = Facts::empty();
    facts.enrollment = Some(EnrollmentFacts { dep_enrolled: true, mdm_enrolled: false });
    let report = assemble(&RuleConfig::apple_defaults(), &facts);
    assert_eq!(report.indicators.len(), 1);
    assert_eq!(report.indicators[0].name, "enterprise_managed");
    assert_eq!(report.indicators[0].severity, Severity::Warning);
    assert_eq!(report.indicators[0].description, "enrollment_program_only");
    assert!(report.is_refurbished);
}

#[test]
fn enrollment_management_only_description() {
    let mut facts = Facts::empty();
    facts.enrollment = Some(EnrollmentFacts { dep_enrolled: false, mdm_enrolled: true });
    let report = assemble(&RuleConfig::apple_defaults(), &facts);
    assert_eq!(report.indicators.len(), 1);
    assert_eq!(report.indicators[0].description, "enrollment_management_only");
}

#[test]
fn enrollment_both_description() {
    let mut facts = Facts::empty();
    facts.enrollment = Some(EnrollmentFacts { dep_enrolled: true, mdm_enrolled: true });
    let report = assemble(&RuleConfig::apple_defaults(), &facts);
    assert_eq!(report.indicators.len(), 1);
    assert_eq!(report.indicators[0].description, "enrollment_both");
}

#[test]
fn enrollment_neither_fires_nothing() {
    let mut facts = Facts::empty();
    facts.enrollment = Some(EnrollmentFacts { dep_enrolled: false, mdm_enrolled: false });
    let report = assemble(&RuleConfig::apple_defaults(), &facts);
    assert!(report.indicators.is_empty());
}

#[test]
fn replaced_part_alone_forces_verdict() {
    let (refurb, conf) = score(
        &vec![indicator(Severity::Info)],
        false,
        &vec!["storage".to_string()],
    );
    assert!(refurb);
    assert_eq!(conf, Confidence::Low);
}

#[test]
fn serial_prefix_fires_program_details() {
    let mut facts = Facts::empty();
    facts.serial = Some("FABC1234".to_string());
    let report = assemble(&RuleConfig::apple_defaults(), &facts);
    assert_eq!(report.indicators.len(), 1);
    assert_eq!(report.indicators[0].name, "serial_refurb");
    assert_eq!(report.indicators[0].severity, Severity::Info);
    assert!(report.is_refurbished);
    assert_eq!(
        report.details.refurb_program,
        Some("Apple Certified Refurbished".to_string())
    );
    assert_eq!(report.details.serial_manufacture_date, Some("FABC".to_string()));
}

#[test]
fn plain_serial_fires_nothing_but_keeps_date() {
    let mut facts = Facts::empty();
    facts.serial = Some("C02X1234".to_string());
    let report = assemble(&RuleConfig::apple_defaults(), &facts);
    assert!(report.indicators.is_empty());
    assert!(!report.is_refurbished);
    assert_eq!(report.details.serial_manufacture_date, Some("C02X".to_string()));
    assert_eq!(report.details.refurb_program, None);
}

#[test]
fn short_serial_fires_nothing() {
    let mut facts = Facts::empty();
    facts.serial = Some("FAB".to_string());
    let report = assemble(&RuleConfig::apple_defaults(), &facts);
    assert!(report.indicators.is_empty());
    assert_eq!(report.details.serial_manufacture_date, None);
}

#[test]
fn firmware_marker_matches_any_case() {
    let mut facts = Facts::empty();
    facts.firmware_text = Some("IOPlatform REFURBISHED flag".to_string());
    let report = assemble(&RuleConfig::apple_defaults(), &facts);
    assert_eq!(report.indicators.len(), 1);
    assert_eq!(report.indicators[0].name, "ioreg_refurb");
    assert!(report.is_refurbished);

    facts.firmware_text = Some("nothing of note".to_string());
    let report = assemble(&RuleConfig::apple_defaults(), &facts);
    assert!(report.indicators.is_empty());
}

#[test]
fn renewed_marker_fires_on_windows_table() {
    let mut facts = Facts::empty();
    facts.firmware_text = Some("OEM data: Renewed by vendor".to_string());
    let report = assemble(&RuleConfig::windows_defaults(), &facts);
    assert_eq!(report.indicators.len(), 1);
    assert_eq!(report.indicators[0].name, "bios_refurb");
}

#[test]
fn windows_table_disables_serial_rule() {
    let mut facts = Facts::empty();
    facts.serial = Some("FABC1234".to_string());
    let report = assemble(&RuleConfig::windows_defaults(), &facts);
    assert!(report.indicators.is_empty());
    assert!(!report.is_refurbished);
}

#[test]
fn low_cycle_count_fires_when_enabled() {
    let mut facts = Facts::empty();
    facts.battery_cycle_count = Some(12);
    let report = assemble(&RuleConfig::apple_defaults(), &facts);
    assert_eq!(report.indicators.len(), 1);
    assert_eq!(report.indicators[0].name, "low_battery_cycles");
    assert_eq!(report.indicators[0].severity, Severity::Info);
    assert!(!report.is_refurbished);
}

#[test]
fn threshold_cycle_count_does_not_fire() {
    let mut facts = Facts::empty();
    facts.battery_cycle_count = Some(50);
    let report = assemble(&RuleConfig::apple_defaults(), &facts);
    assert!(report.indicators.is_empty());
}

#[test]
fn battery_rule_toggle_disables_it() {
    let mut facts = Facts::empty();
    facts.battery_cycle_count = Some(1);
    let report = assemble(&RuleConfig::windows_defaults(), &facts);
    assert!(report.indicators.is_empty());
}

#[test]
fn date_mismatch_is_presence_based() {
    let mut facts = Facts::empty();
    facts.battery_manufacture_date = Some("20230105".to_string());
    let report = assemble(&RuleConfig::apple_defaults(), &facts);
    assert!(!report.details.date_mismatch);

    facts.os_install_date = Some("Mar 1 2024".to_string());
    let report = assemble(&RuleConfig::apple_defaults(), &facts);
    assert!(report.details.date_mismatch);
    assert_eq!(report.details.battery_manufacture_date, Some("20230105".to_string()));
    assert_eq!(report.details.os_install_date, Some("Mar 1 2024".to_string()));
}

#[test]
fn indicators_keep_rule_order() {
    let facts = Facts {
        serial: Some("FABC1234".to_string()),
        firmware_text: Some("refurbished".to_string()),
        enrollment: Some(EnrollmentFacts { dep_enrolled: true, mdm_enrolled: true }),
        storage: Some(StorageFact { model: "Generic NVMe SSD".to_string(), internal: true }),
        displays: vec![DisplayFact { vendor: "BOE".to_string(), internal: true }],
        battery_cycle_count: Some(3),
        battery_design_capacity: None,
        battery_full_charge_capacity: None,
        battery_manufacture_date: None,
        os_install_date: None,
        storage_first_use_date: None,
    };
    let report = assemble(&RuleConfig::apple_defaults(), &facts);
    let names: Vec<&str> = report.indicators.iter().map(|i| i.name.as_str()).collect();
    assert_eq!(
        names,
        vec![
            "serial_refurb",
            "ioreg_refurb",
            "enterprise_managed",
            "low_battery_cycles",
            "third_party_storage",
            "third_party_display",
        ]
    );
    assert_eq!(
        report.replaced_parts,
        vec!["storage".to_string(), "display".to_string()]
    );
    assert!(report.is_refurbished);
    assert_eq!(report.confidence, Confidence::High);
}

#[test]
fn vendor_tables_hold_expected_entries() {
    let apple = RuleConfig::apple_defaults();
    assert_eq!(apple.refurb_serial_prefix, "F");
    assert_eq!(apple.refurb_program_name, "Apple Certified Refurbished");
    assert_eq!(apple.firmware_markers, vec!["refurbished".to_string()]);
    assert_eq!(
        apple.first_party_storage_models,
        vec!["APPLE SSD".to_string(), "Apple SSD".to_string(), "AP".to_string()]
    );
    assert_eq!(apple.storage_exempt_markers, vec!["Macintosh".to_string()]);
    assert_eq!(
        apple.first_party_display_vendors,
        vec!["Apple".to_string(), "APP".to_string()]
    );
    assert!(apple.battery_rule_enabled);
    assert_eq!(apple.battery_cycle_threshold, 50);
    assert_eq!(apple.firmware_indicator_name, "ioreg_refurb");
    assert!(!apple.battery_health_rule_enabled);

    let windows = RuleConfig::windows_defaults();
    assert_eq!(windows.refurb_serial_prefix, "");
    assert!(!windows.battery_rule_enabled);
    assert_eq!(
        windows.firmware_markers,
        vec!["refurbished".to_string(), "renewed".to_string()]
    );
    assert_eq!(windows.firmware_indicator_name, "bios_refurb");
    assert!(windows.battery_health_rule_enabled);
    assert_eq!(windows.battery_health_threshold_percent, 95);
}

#[test]
fn exempt_marker_spares_storage_rule() {
    let mut facts = Facts::empty();
    facts.storage = Some(StorageFact {
        model: "Macintosh HD".to_string(),
        internal: true,
    });
    let report = assemble(&RuleConfig::apple_defaults(), &facts);
    assert!(report.indicators.is_empty());
    assert!(report.replaced_parts.is_empty());
}

#[test]
fn empty_storage_model_fires_nothing() {
    let mut facts = Facts::empty();
    facts.storage = Some(StorageFact { model: String::new(), internal: true });
    let report = assemble(&RuleConfig::apple_defaults(), &facts);
    assert!(report.indicators.is_empty());
}


#[test]
fn high_battery_health_fires_when_enabled() {
    let mut facts = Facts::empty();
    facts.battery_design_capacity = Some(100);
    facts.battery_full_charge_capacity = Some(96);
    let report = assemble(&RuleConfig::windows_defaults(), &facts);
    assert_eq!(report.indicators.len(), 1);
    assert_eq!(report.indicators[0].name, "high_battery_health");
    assert_eq!(report.indicators[0].severity, Severity::Info);
    assert!(!report.is_refurbished);
}

#[test]
fn battery_health_at_threshold_does_not_fire() {
    let mut facts = Facts::empty();
    facts.battery_design_capacity = Some(100);
    facts.battery_full_charge_capacity = Some(95);
    let report = assemble(&RuleConfig::windows_defaults(), &facts);
    assert!(report.indicators.is_empty());
}

#[test]
fn battery_health_rule_needs_both_readings() {
    let mut facts = Facts::empty();
    facts.battery_full_charge_capacity = Some(96);
    let report = assemble(&RuleConfig::windows_defaults(), &facts);
    assert!(report.indicators.is_empty());

    facts.battery_design_capacity = Some(0);
    let report = assemble(&RuleConfig::windows_defaults(), &facts);
    assert!(report.indicators.is_empty());
}

#[test]
fn battery_health_rule_disabled_on_apple_table() {
    let mut facts = Facts::empty();
    facts.battery_design_capacity = Some(100);
    facts.battery_full_charge_capacity = Some(100);
    let report = assemble(&RuleConfig::apple_defaults(), &facts);
    assert!(report.indicators.is_empty());
}
