use refurb_check::probe::{
    battery_capacities_from_profile, display_facts_from_profile,
    enrollment_from_hardware_profile, storage_model_from_profile,
};

#[test]
fn storage_model_is_extracted_from_profile() {
    let text = r#"{"SPStorageDataType":[{"physical_drive":{"device_name":"APPLE SSD AP0512Z"}}]}"#;
    assert_eq!(
        storage_model_from_profile(text),
        Some("APPLE SSD AP0512Z".to_string())
    );
}

#[test]
fn storage_model_absent_on_malformed_documents() {
    assert_eq!(storage_model_from_profile("not json"), None);
    assert_eq!(storage_model_from_profile("{}"), None);
    assert_eq!(storage_model_from_profile(r#"{"SPStorageDataType":[]}"#), None);
    assert_eq!(
        storage_model_from_profile(r#"{"SPStorageDataType":[{"physical_drive":{}}]}"#),
        None
    );
    assert_eq!(
        storage_model_from_profile(
            r#"{"SPStorageDataType":[{"physical_drive":{"device_name":7}}]}"#
        ),
        None
    );
}

#[test]
fn display_facts_carry_vendor_and_connection() {
    let text = r#"{"SPDisplaysDataType":[
        {"spdisplays_vendor":"BOE","spdisplays_connection_type":"spdisplays_Internal"},
        {"spdisplays_vendor":"Apple","spdisplays_connection_type":"spdisplays_Internal"},
        {"spdisplays_vendor":"Dell","spdisplays_connection_type":"DisplayPort"},
        {"spdisplays_resolution":"2560x1600"}
    ]}"#;
    let facts = display_facts_from_profile(text);
    assert_eq!(facts.len(), 3);
    assert_eq!(facts[0].vendor, "BOE");
    assert!(facts[0].internal);
    assert_eq!(facts[1].vendor, "Apple");
    assert!(facts[1].internal);
    assert_eq!(facts[2].vendor, "Dell");
    assert!(!facts[2].internal);
}

#[test]
fn display_facts_tolerate_non_string_vendor() {
    let text = r#"{"SPDisplaysDataType":[{"spdisplays_vendor":12,"spdisplays_connection_type":"Internal"}]}"#;
    let facts = display_facts_from_profile(text);
    assert_eq!(facts.len(), 1);
    assert_eq!(facts[0].vendor, "");
    assert!(facts[0].internal);
}

#[test]
fn display_facts_empty_on_malformed_documents() {
    assert!(display_facts_from_profile("not json").is_empty());
    assert!(display_facts_from_profile("{}").is_empty());
}

#[test]
fn enrollment_reads_provisioning_marker() {
    let managed = r#"{"SPHardwareDataType":[{"provisioning_UDID":"ABCD-1234"}]}"#;
    let e = enrollment_from_hardware_profile(managed).unwrap();
    assert!(e.mdm_enrolled);
    assert!(!e.dep_enrolled);

    let clean = r#"{"SPHardwareDataType":[{"serial_number":"C02ABC"}]}"#;
    let e = enrollment_from_hardware_profile(clean).unwrap();
    assert!(!e.mdm_enrolled);

    assert_eq!(enrollment_from_hardware_profile("not json"), None);
    assert_eq!(enrollment_from_hardware_profile(r#"{"SPHardwareDataType":[]}"#), None);
}


#[test]
fn battery_capacities_need_both_fields() {
    let text = r#"{"EstimatedChargeRemaining":80,"DesignCapacity":57020,"FullChargeCapacity":55800,"BatteryStatus":1}"#;
    assert_eq!(battery_capacities_from_profile(text), Some((57020, 55800)));
    assert_eq!(
        battery_capacities_from_profile(r#"{"DesignCapacity":57020}"#),
        None
    );
    assert_eq!(
        battery_capacities_from_profile(r#"{"DesignCapacity":"x","FullChargeCapacity":55800}"#),
        None
    );
    assert_eq!(battery_capacities_from_profile("not json"), None);
}
