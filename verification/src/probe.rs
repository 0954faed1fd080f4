//! Extractors for the JSON documents that the platform query tools
//! emit: the storage model, the display descriptors, the enrollment
//! signal and the battery capacities. JSON parsing and field lookup
//! are functions of the text alone, so each navigation-only extraction
//! is one trusted call whose result carries a name, and the public
//! function's contract is stated over that name. The display
//! extraction filters entries and tests connection strings — library
//! logic, which stays verified — so it walks the opaque document
//! through per-call wrappers and carries no text-level contract; the
//! engine is verified over every value it could hand back.

use vstd::prelude::*;

use crate::facts::DisplayFact;
use crate::facts::EnrollmentFacts;
use crate::facts::opt_str_view;
use crate::text::str_contains;

verus! {

#[verifier::external_type_specification]
#[verifier::external_body]
pub struct ExJsonValue(serde_json::Value);

/// Relies on `serde_json::from_str::<Value>`: parses text as one JSON
/// document, `None` when the text is not valid JSON.
#[verifier::external_body]
fn json_parse(text: &str) -> Option<serde_json::Value> {
    serde_json::from_str(text).ok()
}

/// Relies on `serde_json::Value::get`: the value under a key of a JSON
/// object, `None` for a missing key or a non-object.
#[verifier::external_body]
fn json_get<'a>(v: &'a serde_json::Value, key: &str) -> Option<&'a serde_json::Value> {
    v.get(key)
}

/// Relies on `serde_json::Value::as_array`: the elements of a JSON
/// array, `None` for any other kind of value.
#[verifier::external_body]
fn json_as_array<'a>(v: &'a serde_json::Value) -> Option<&'a Vec<serde_json::Value>> {
    v.as_array()
}

/// Relies on `serde_json::Value::as_str`: the text of a JSON string,
/// `None` for any other kind of value.
#[verifier::external_body]
fn json_as_str(v: &serde_json::Value) -> Option<String> {
    match v.as_str() {
        Some(s) => Some(s.to_string()),
        None => None,
    }
}

/// The device model a storage-profile document names, or `None` when
/// the document is malformed or the field is missing: a function of
/// the text alone.
pub uninterp spec fn storage_model_of(text: Seq<char>) -> Option<Seq<char>>;

/// Relies on `serde_json::from_str::<Value>`, `Value::get`,
/// `Value::as_array` and `Value::as_str`: the `device_name` of the
/// `physical_drive` of the first entry under `SPStorageDataType`, when
/// each of those is present and well-typed. Pure navigation, so the
/// result depends on the text alone.
#[verifier::external_body]
fn storage_model_raw(text: &str) -> (r: Option<String>)
    ensures
        opt_str_view(r) == storage_model_of(text@),
{
    let doc: serde_json::Value = serde_json::from_str(text).ok()?;
    let entry = doc.get("SPStorageDataType")?.as_array()?.first()?;
    let name = entry.get("physical_drive")?.get("device_name")?.as_str()?;
    Some(name.to_string())
}

/// The device model named by a storage-profile document, per
/// [`storage_model_of`].
pub fn storage_model_from_profile(text: &str) -> (r: Option<String>)
    ensures
        opt_str_view(r) == storage_model_of(text@),
{
    storage_model_raw(text)
}

/// The display facts of a displays-profile document: for each entry
/// under `SPDisplaysDataType` that names a vendor, the vendor string
/// (empty when the vendor field is not text) and whether the
/// connection type names an internal connection.
pub fn display_facts_from_profile(text: &str) -> (r: Vec<DisplayFact>) {
    let mut out: Vec<DisplayFact> = Vec::new();
    let doc = match json_parse(text) {
        None => {
            return out;
        },
        Some(doc) => doc,
    };
    let arr = match json_get(&doc, "SPDisplaysDataType") {
        None => {
            return out;
        },
        Some(entries) => match json_as_array(entries) {
            None => {
                return out;
            },
            Some(arr) => arr,
        },
    };
    let mut i: usize = 0;
    while i < arr.len()
        decreases arr@.len() - i,
    {
        let d = &arr[i];
        match json_get(d, "spdisplays_vendor") {
            None => {},
            Some(vendor_value) => {
                let vendor = match json_as_str(vendor_value) {
                    Some(s) => s,
                    None => String::new(),
                };
                let internal = match json_get(d, "spdisplays_connection_type") {
                    None => false,
                    Some(conn_value) => match json_as_str(conn_value) {
                        None => false,
                        Some(conn) => str_contains(conn.as_str(), "Internal"),
                    },
                };
                out.push(DisplayFact { vendor, internal });
            },
        }
        i += 1;
    }
    out
}

/// Whether a hardware-profile document carries a provisioning
/// identifier in its first entry, or `None` when the document cannot
/// be read: a function of the text alone.
pub uninterp spec fn provisioning_marker_of(text: Seq<char>) -> Option<bool>;

/// Relies on `serde_json::from_str::<Value>`, `Value::get` and
/// `Value::as_array`: whether the first entry under
/// `SPHardwareDataType` holds a `provisioning_UDID` key. Pure
/// navigation, so the result depends on the text alone.
#[verifier::external_body]
fn provisioning_marker_raw(text: &str) -> (r: Option<bool>)
    ensures
        r == provisioning_marker_of(text@),
{
    let doc: serde_json::Value = serde_json::from_str(text).ok()?;
    let entry = doc.get("SPHardwareDataType")?.as_array()?.first()?;
    Some(entry.get("provisioning_UDID").is_some())
}

/// The enrollment fact a provisioning marker stands for: a present
/// marker means prior device-management enrollment.
pub open spec fn spec_enrollment_of(marker: Option<bool>) -> Option<EnrollmentFacts> {
    match marker {
        Some(m) => Some(EnrollmentFacts { dep_enrolled: false, mdm_enrolled: m }),
        None => None,
    }
}

/// The enrollment signal of a hardware-profile document, per
/// [`provisioning_marker_of`] and [`spec_enrollment_of`].
pub fn enrollment_from_hardware_profile(text: &str) -> (r: Option<EnrollmentFacts>)
    ensures
        r == spec_enrollment_of(provisioning_marker_of(text@)),
{
    match provisioning_marker_raw(text) {
        Some(m) => Some(EnrollmentFacts { dep_enrolled: false, mdm_enrolled: m }),
        None => None,
    }
}

/// The design and full-charge capacities a battery-query document
/// names, in that order, or `None` when either is missing: a function
/// of the text alone.
pub uninterp spec fn battery_capacities_of(text: Seq<char>) -> Option<(u64, u64)>;

/// Relies on `serde_json::from_str::<Value>`, `Value::get` and
/// `Value::as_u64`: the `DesignCapacity` and `FullChargeCapacity`
/// numbers of the document, when both are present and unsigned. Pure
/// navigation, so the result depends on the text alone.
#[verifier::external_body]
fn battery_capacities_raw(text: &str) -> (r: Option<(u64, u64)>)
    ensures
        r == battery_capacities_of(text@),
{
    let doc: serde_json::Value = serde_json::from_str(text).ok()?;
    let design = doc.get("DesignCapacity")?.as_u64()?;
    let full = doc.get("FullChargeCapacity")?.as_u64()?;
    Some((design, full))
}

/// The battery capacities of a battery-query document, per
/// [`battery_capacities_of`].
pub fn battery_capacities_from_profile(text: &str) -> (r: Option<(u64, u64)>)
    ensures
        r == battery_capacities_of(text@),
{
    battery_capacities_raw(text)
}

} // verus!
