//! The fact bundle: one batch of typed, possibly-absent observations
//! about a machine, and the per-platform configuration tables the
//! indicator rules read. Facts are collected by the caller (platform
//! probes); the engine is a pure function of one `Facts` value.

use vstd::prelude::*;

verus! {

/// Prior enterprise-enrollment signals.
#[derive(Clone, Copy, PartialEq, Eq, Structural, Debug)]
pub struct EnrollmentFacts {
    /// The machine was registered in a device-enrollment program.
    pub dep_enrolled: bool,
    /// The machine was enrolled in device management.
    pub mdm_enrolled: bool,
}

/// One storage device descriptor.
#[derive(Clone, PartialEq, Debug)]
pub struct StorageFact {
    /// The device model string reported by the platform.
    pub model: String,
    /// The device sits on an internal bus.
    pub internal: bool,
}

/// The mathematical value of a [`StorageFact`].
pub ghost struct StorageFactView {
    pub model: Seq<char>,
    pub internal: bool,
}

impl View for StorageFact {
    type V = StorageFactView;

    open spec fn view(&self) -> StorageFactView {
        StorageFactView { model: self.model@, internal: self.internal }
    }
}

/// One display descriptor.
#[derive(Clone, PartialEq, Debug)]
pub struct DisplayFact {
    /// The display vendor string reported by the platform.
    pub vendor: String,
    /// The display is connected internally (built in).
    pub internal: bool,
}

/// The mathematical value of a [`DisplayFact`].
pub ghost struct DisplayFactView {
    pub vendor: Seq<char>,
    pub internal: bool,
}

impl View for DisplayFact {
    type V = DisplayFactView;

    open spec fn view(&self) -> DisplayFactView {
        DisplayFactView { vendor: self.vendor@, internal: self.internal }
    }
}

/// The view of an optional string fact.
pub open spec fn opt_str_view(o: Option<String>) -> Option<Seq<char>> {
    match o {
        Some(s) => Some(s@),
        None => None,
    }
}

/// The views of a vector of strings.
pub open spec fn strs_view(v: Seq<String>) -> Seq<Seq<char>> {
    v.map_values(|s: String| s@)
}

/// The views of a vector of display facts.
pub open spec fn displays_view(v: Seq<DisplayFact>) -> Seq<DisplayFactView> {
    v.map_values(|d: DisplayFact| d@)
}

/// One batch of observations. Every field may be absent: a probe that
/// failed or does not exist on the platform contributes `None` (or an
/// empty display list), never an error.
#[derive(Clone, PartialEq, Debug)]
pub struct Facts {
    /// The machine's serial number.
    pub serial: Option<String>,
    /// A raw firmware or device-registry dump, searched for refurbishment markers.
    pub firmware_text: Option<String>,
    /// Enterprise-enrollment flags.
    pub enrollment: Option<EnrollmentFacts>,
    /// The internal storage descriptor.
    pub storage: Option<StorageFact>,
    /// All connected display descriptors.
    pub displays: Vec<DisplayFact>,
    /// The battery's charge-cycle count.
    pub battery_cycle_count: Option<u32>,
    /// The battery's design capacity, as the platform reports it.
    pub battery_design_capacity: Option<u64>,
    /// The battery's full-charge capacity, as the platform reports it.
    pub battery_full_charge_capacity: Option<u64>,
    /// The battery manufacture date string, as reported.
    pub battery_manufacture_date: Option<String>,
    /// The OS installation date string, as reported.
    pub os_install_date: Option<String>,
    /// The storage first-use date string, as reported.
    pub storage_first_use_date: Option<String>,
}

/// The mathematical value of a [`Facts`] bundle.
pub ghost struct FactsView {
    pub serial: Option<Seq<char>>,
    pub firmware_text: Option<Seq<char>>,
    pub enrollment: Option<EnrollmentFacts>,
    pub storage: Option<StorageFactView>,
    pub displays: Seq<DisplayFactView>,
    pub battery_cycle_count: Option<u32>,
    pub battery_design_capacity: Option<u64>,
    pub battery_full_charge_capacity: Option<u64>,
    pub battery_manufacture_date: Option<Seq<char>>,
    pub os_install_date: Option<Seq<char>>,
    pub storage_first_use_date: Option<Seq<char>>,
}

impl View for Facts {
    type V = FactsView;

    open spec fn view(&self) -> FactsView {
        FactsView {
            serial: opt_str_view(self.serial),
            firmware_text: opt_str_view(self.firmware_text),
            enrollment: self.enrollment,
            storage: match self.storage {
                Some(s) => Some(s@),
                None => None,
            },
            displays: displays_view(self.displays@),
            battery_cycle_count: self.battery_cycle_count,
            battery_design_capacity: self.battery_design_capacity,
            battery_full_charge_capacity: self.battery_full_charge_capacity,
            battery_manufacture_date: opt_str_view(self.battery_manufacture_date),
            os_install_date: opt_str_view(self.os_install_date),
            storage_first_use_date: opt_str_view(self.storage_first_use_date),
        }
    }
}

/// The bundle with every fact absent.
pub open spec fn spec_empty_facts() -> FactsView {
    FactsView {
        serial: None,
        firmware_text: None,
        enrollment: None,
        storage: None,
        displays: Seq::empty(),
        battery_cycle_count: None,
        battery_design_capacity: None,
        battery_full_charge_capacity: None,
        battery_manufacture_date: None,
        os_install_date: None,
        storage_first_use_date: None,
    }
}

impl Facts {
    /// A bundle with no observation in it.
    pub fn empty() -> (r: Facts)
        ensures
            r@ == spec_empty_facts(),
    {
        let r = Facts {
            serial: None,
            firmware_text: None,
            enrollment: None,
            storage: None,
            displays: Vec::new(),
            battery_cycle_count: None,
            battery_design_capacity: None,
            battery_full_charge_capacity: None,
            battery_manufacture_date: None,
            os_install_date: None,
            storage_first_use_date: None,
        };
        proof {
            assert(displays_view(r.displays@) =~= Seq::<DisplayFactView>::empty());
        }
        r
    }
}

/// The per-platform tables the rules read: the vendor's refurbishment
/// program markers and first-party component names, the platform's
/// firmware indicator name, and the battery rules' toggles. Kept as
/// data so a platform can be described without touching the rule
/// logic.
#[derive(Clone, PartialEq, Debug)]
pub struct RuleConfig {
    /// Serial numbers with this prefix belong to the vendor's refurbishment program.
    pub refurb_serial_prefix: String,
    /// The program named in the report when the serial prefix matches.
    pub refurb_program_name: String,
    /// The name the firmware indicator carries on this platform (the
    /// registry it was found in differs per platform).
    pub firmware_indicator_name: String,
    /// Markers searched for (ASCII-case-insensitively) in the firmware dump.
    pub firmware_markers: Vec<String>,
    /// Substrings identifying first-party storage models.
    pub first_party_storage_models: Vec<String>,
    /// Substrings exempting a storage model from the rule (virtual volumes).
    pub storage_exempt_markers: Vec<String>,
    /// Substrings identifying first-party display vendors.
    pub first_party_display_vendors: Vec<String>,
    /// Whether the low-cycle battery rule runs on this platform.
    pub battery_rule_enabled: bool,
    /// Cycle counts strictly below this are flagged when the rule runs.
    pub battery_cycle_threshold: u32,
    /// Whether the high-health battery rule runs on this platform.
    pub battery_health_rule_enabled: bool,
    /// Health ratios strictly above this percentage are flagged when
    /// that rule runs.
    pub battery_health_threshold_percent: u32,
}

/// The mathematical value of a [`RuleConfig`].
pub ghost struct RuleConfigView {
    pub refurb_serial_prefix: Seq<char>,
    pub refurb_program_name: Seq<char>,
    pub firmware_indicator_name: Seq<char>,
    pub firmware_markers: Seq<Seq<char>>,
    pub first_party_storage_models: Seq<Seq<char>>,
    pub storage_exempt_markers: Seq<Seq<char>>,
    pub first_party_display_vendors: Seq<Seq<char>>,
    pub battery_rule_enabled: bool,
    pub battery_cycle_threshold: u32,
    pub battery_health_rule_enabled: bool,
    pub battery_health_threshold_percent: u32,
}

/// The vendor table for Apple-built machines: the certified-refurbished
/// serial prefix, the registry markers, the first-party storage and
/// display names, and the low-cycle battery rule switched on.
pub open spec fn spec_apple_config() -> RuleConfigView {
    RuleConfigView {
        refurb_serial_prefix: "F"@,
        refurb_program_name: "Apple Certified Refurbished"@,
        firmware_indicator_name: "ioreg_refurb"@,
        firmware_markers: seq!["refurbished"@],
        first_party_storage_models: seq!["APPLE SSD"@, "Apple SSD"@, "AP"@],
        storage_exempt_markers: seq!["Macintosh"@],
        first_party_display_vendors: seq!["Apple"@, "APP"@],
        battery_rule_enabled: true,
        battery_cycle_threshold: 50,
        battery_health_rule_enabled: false,
        battery_health_threshold_percent: 0,
    }
}

/// The vendor table for Windows machines: no serial program, BIOS and
/// OEM markers for refurbishment and renewal, no first-party component
/// tables, the low-cycle battery rule switched off (cycle counts are
/// not reliably exposed there) and the high-health battery rule
/// switched on instead.
pub open spec fn spec_windows_config() -> RuleConfigView {
    RuleConfigView {
        refurb_serial_prefix: ""@,
        refurb_program_name: ""@,
        firmware_indicator_name: "bios_refurb"@,
        firmware_markers: seq!["refurbished"@, "renewed"@],
        first_party_storage_models: Seq::empty(),
        storage_exempt_markers: Seq::empty(),
        first_party_display_vendors: Seq::empty(),
        battery_rule_enabled: false,
        battery_cycle_threshold: 0,
        battery_health_rule_enabled: true,
        battery_health_threshold_percent: 95,
    }
}

impl RuleConfig {
    /// Builds the Apple table, per [`spec_apple_config`].
    pub fn apple_defaults() -> (r: RuleConfig)
        ensures
            r@ == spec_apple_config(),
    {
        let mut firmware_markers: Vec<String> = Vec::new();
        firmware_markers.push(String::from_str("refurbished"));
        let mut first_party_storage_models: Vec<String> = Vec::new();
        first_party_storage_models.push(String::from_str("APPLE SSD"));
        first_party_storage_models.push(String::from_str("Apple SSD"));
        first_party_storage_models.push(String::from_str("AP"));
        let mut storage_exempt_markers: Vec<String> = Vec::new();
        storage_exempt_markers.push(String::from_str("Macintosh"));
        let mut first_party_display_vendors: Vec<String> = Vec::new();
        first_party_display_vendors.push(String::from_str("Apple"));
        first_party_display_vendors.push(String::from_str("APP"));
        let r = RuleConfig {
            refurb_serial_prefix: String::from_str("F"),
            refurb_program_name: String::from_str("Apple Certified Refurbished"),
            firmware_indicator_name: String::from_str("ioreg_refurb"),
            firmware_markers,
            first_party_storage_models,
            storage_exempt_markers,
            first_party_display_vendors,
            battery_rule_enabled: true,
            battery_cycle_threshold: 50,
            battery_health_rule_enabled: false,
            battery_health_threshold_percent: 0,
        };
        proof {
            assert(strs_view(r.firmware_markers@) =~= seq!["refurbished"@]);
            assert(strs_view(r.first_party_storage_models@) =~= seq![
                "APPLE SSD"@,
                "Apple SSD"@,
                "AP"@,
            ]);
            assert(strs_view(r.storage_exempt_markers@) =~= seq!["Macintosh"@]);
            assert(strs_view(r.first_party_display_vendors@) =~= seq!["Apple"@, "APP"@]);
        }
        r
    }

    /// Builds the Windows table, per [`spec_windows_config`].
    pub fn windows_defaults() -> (r: RuleConfig)
        ensures
            r@ == spec_windows_config(),
    {
        let mut firmware_markers: Vec<String> = Vec::new();
        firmware_markers.push(String::from_str("refurbished"));
        firmware_markers.push(String::from_str("renewed"));
        let r = RuleConfig {
            refurb_serial_prefix: String::from_str(""),
            refurb_program_name: String::from_str(""),
            firmware_indicator_name: String::from_str("bios_refurb"),
            firmware_markers,
            first_party_storage_models: Vec::new(),
            storage_exempt_markers: Vec::new(),
            first_party_display_vendors: Vec::new(),
            battery_rule_enabled: false,
            battery_cycle_threshold: 0,
            battery_health_rule_enabled: true,
            battery_health_threshold_percent: 95,
        };
        proof {
            assert(strs_view(r.firmware_markers@) =~= seq!["refurbished"@, "renewed"@]);
            assert(strs_view(r.first_party_storage_models@) =~= Seq::<Seq<char>>::empty());
            assert(strs_view(r.storage_exempt_markers@) =~= Seq::<Seq<char>>::empty());
            assert(strs_view(r.first_party_display_vendors@) =~= Seq::<Seq<char>>::empty());
        }
        r
    }
}

impl View for RuleConfig {
    type V = RuleConfigView;

    open spec fn view(&self) -> RuleConfigView {
        RuleConfigView {
            refurb_serial_prefix: self.refurb_serial_prefix@,
            refurb_program_name: self.refurb_program_name@,
            firmware_indicator_name: self.firmware_indicator_name@,
            firmware_markers: strs_view(self.firmware_markers@),
            first_party_storage_models: strs_view(self.first_party_storage_models@),
            storage_exempt_markers: strs_view(self.storage_exempt_markers@),
            first_party_display_vendors: strs_view(self.first_party_display_vendors@),
            battery_rule_enabled: self.battery_rule_enabled,
            battery_cycle_threshold: self.battery_cycle_threshold,
            battery_health_rule_enabled: self.battery_health_rule_enabled,
            battery_health_threshold_percent: self.battery_health_threshold_percent,
        }
    }
}

} // verus!
