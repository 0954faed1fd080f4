//! Verified parsers for the text that platform probes hand back:
//! device-registry dumps, BIOS listings and disk-utility reports. Each
//! parser is total — malformed text yields an absent value, never a
//! failure — and pinned to a spec function over the input's characters.

use vstd::prelude::*;

use crate::facts::StorageFact;
use crate::text::parse_i64;
use crate::text::parts_view;
use crate::text::spec_contains;
use crate::text::spec_lines;
use crate::text::spec_parse_i64;
use crate::text::spec_split;
use crate::text::spec_trim;
use crate::text::split_char;
use crate::text::split_lines;
use crate::text::str_contains;
use crate::text::trim;

verus! {

/// The number after the first `=` of a key-value line, as the probes
/// print them: the text between the first and second `=`, trimmed and
/// parsed as a signed decimal.
pub open spec fn spec_extract_number(l: Seq<char>) -> Option<i64> {
    let parts = spec_split(l, '=');
    if parts.len() >= 2 {
        spec_parse_i64(spec_trim(parts[1]))
    } else {
        None
    }
}

/// Extracts the number of a key-value line, per [`spec_extract_number`].
pub fn extract_number(line: &str) -> (r: Option<i64>)
    ensures
        r == spec_extract_number(line@),
{
    let parts = split_char(line, '=');
    if parts.len() >= 2 {
        assert(parts_view(parts@)[1] == parts@[1]@);
        parse_i64(trim(parts[1]))
    } else {
        None
    }
}

/// The serial found in a sequence of registry lines: on the first line
/// mentioning the platform-serial key and holding at least four
/// quote-separated fields, the fourth such field.
pub open spec fn spec_serial_from_lines(ls: Seq<Seq<char>>) -> Option<Seq<char>>
    decreases ls.len(),
{
    if ls.len() == 0 {
        None
    } else {
        let parts = spec_split(ls[0], '"');
        if spec_contains(ls[0], "IOPlatformSerialNumber"@) && parts.len() >= 4 {
            Some(parts[3])
        } else {
            spec_serial_from_lines(ls.skip(1))
        }
    }
}

/// The serial of a device-registry dump, or `Unknown` when none is found.
pub open spec fn spec_serial_from_ioreg(text: Seq<char>) -> Seq<char> {
    match spec_serial_from_lines(spec_lines(text)) {
        Some(s) => s,
        None => "Unknown"@,
    }
}

/// Reads the machine serial out of a device-registry dump (the text of
/// an `ioreg -l` run), per [`spec_serial_from_ioreg`].
pub fn get_serial_number(ioreg_text: &str) -> (r: String)
    ensures
        r@ == spec_serial_from_ioreg(ioreg_text@),
{
    let ls = split_lines(ioreg_text);
    let ghost lsv = parts_view(ls@);
    proof {
        assert(lsv.skip(0) =~= lsv);
    }
    let mut i: usize = 0;
    while i < ls.len()
        invariant
            0 <= i <= ls@.len(),
            lsv == parts_view(ls@),
            lsv == spec_lines(ioreg_text@),
            spec_serial_from_lines(lsv) == spec_serial_from_lines(lsv.skip(i as int)),
        decreases ls@.len() - i,
    {
        let l = ls[i];
        proof {
            assert(lsv[i as int] == l@);
            assert(lsv.skip(i as int)[0] == lsv[i as int]);
            assert(lsv.skip(i as int).skip(1) =~= lsv.skip(i + 1));
        }
        if str_contains(l, "IOPlatformSerialNumber") {
            let parts = split_char(l, '"');
            if parts.len() >= 4 {
                assert(parts_view(parts@)[3] == parts@[3]@);
                return String::from_str(parts[3]);
            }
        }
        i += 1;
    }
    proof {
        assert(lsv.skip(ls@.len() as int).len() == 0);
    }
    String::from_str("Unknown")
}

/// The serial of a BIOS listing: the second line, trimmed — as the
/// Windows `wmic bios get serialnumber` output is shaped — or
/// `Unknown` when the listing is shorter.
pub open spec fn spec_serial_from_bios_listing(text: Seq<char>) -> Seq<char> {
    let ls = spec_lines(text);
    if ls.len() > 1 {
        spec_trim(ls[1])
    } else {
        "Unknown"@
    }
}

/// Reads the machine serial out of a BIOS listing, per
/// [`spec_serial_from_bios_listing`].
pub fn get_serial_number_from_bios_listing(text: &str) -> (r: String)
    ensures
        r@ == spec_serial_from_bios_listing(text@),
{
    let ls = split_lines(text);
    if ls.len() > 1 {
        assert(parts_view(ls@)[1] == ls@[1]@);
        String::from_str(trim(ls[1]))
    } else {
        String::from_str("Unknown")
    }
}

/// The value of the first line naming the SMART status: the text after
/// the first colon, trimmed; `Unknown` if the line has no colon or no
/// line names it.
pub open spec fn spec_smart_from_lines(ls: Seq<Seq<char>>) -> Option<Seq<char>>
    decreases ls.len(),
{
    if ls.len() == 0 {
        None
    } else if spec_contains(ls[0], "SMART Status"@) {
        let parts = spec_split(ls[0], ':');
        if parts.len() >= 2 {
            Some(spec_trim(parts[1]))
        } else {
            Some(spec_trim("Unknown"@))
        }
    } else {
        spec_smart_from_lines(ls.skip(1))
    }
}

/// The SMART status of a disk-utility report, or `Unknown`.
pub open spec fn spec_smart_status(text: Seq<char>) -> Seq<char> {
    match spec_smart_from_lines(spec_lines(text)) {
        Some(s) => s,
        None => "Unknown"@,
    }
}

/// Reads the SMART status out of a disk-utility report, per
/// [`spec_smart_status`].
pub fn parse_smart_status(text: &str) -> (r: String)
    ensures
        r@ == spec_smart_status(text@),
{
    let ls = split_lines(text);
    let ghost lsv = parts_view(ls@);
    proof {
        assert(lsv.skip(0) =~= lsv);
    }
    let mut i: usize = 0;
    while i < ls.len()
        invariant
            0 <= i <= ls@.len(),
            lsv == parts_view(ls@),
            lsv == spec_lines(text@),
            spec_smart_from_lines(lsv) == spec_smart_from_lines(lsv.skip(i as int)),
        decreases ls@.len() - i,
    {
        let l = ls[i];
        proof {
            assert(lsv[i as int] == l@);
            assert(lsv.skip(i as int)[0] == lsv[i as int]);
            assert(lsv.skip(i as int).skip(1) =~= lsv.skip(i + 1));
        }
        if str_contains(l, "SMART Status") {
            let parts = split_char(l, ':');
            if parts.len() >= 2 {
                assert(parts_view(parts@)[1] == parts@[1]@);
                return String::from_str(trim(parts[1]));
            } else {
                return String::from_str(trim("Unknown"));
            }
        }
        i += 1;
    }
    proof {
        assert(lsv.skip(ls@.len() as int).len() == 0);
    }
    String::from_str("Unknown")
}

/// The scan of a disk-utility report for the storage descriptor: any
/// line pairing `Device Location:` with `Internal` marks the device
/// internal, and the last line naming `Device / Media Name:` gives the
/// model (the text after its first colon, trimmed).
pub open spec fn spec_storage_scan(ls: Seq<Seq<char>>) -> (bool, Seq<char>)
    decreases ls.len(),
{
    if ls.len() == 0 {
        (false, Seq::empty())
    } else {
        let prev = spec_storage_scan(ls.drop_last());
        let l = ls.last();
        let internal = prev.0 || (spec_contains(l, "Device Location:"@) && spec_contains(
            l,
            "Internal"@,
        ));
        let model = if spec_contains(l, "Device / Media Name:"@) {
            let parts = spec_split(l, ':');
            if parts.len() >= 2 {
                spec_trim(parts[1])
            } else {
                Seq::empty()
            }
        } else {
            prev.1
        };
        (internal, model)
    }
}

/// The storage descriptor of a disk-utility report.
pub open spec fn spec_storage_descriptor(text: Seq<char>) -> (bool, Seq<char>) {
    spec_storage_scan(spec_lines(text))
}

/// Reads the storage descriptor out of a disk-utility report (the text
/// of a `diskutil info` run), per [`spec_storage_descriptor`].
pub fn parse_storage_descriptor(text: &str) -> (r: StorageFact)
    ensures
        r@.internal == spec_storage_descriptor(text@).0,
        r@.model == spec_storage_descriptor(text@).1,
{
    let ls = split_lines(text);
    let ghost lsv = parts_view(ls@);
    let mut internal = false;
    let mut model = String::new();
    proof {
        assert(lsv.take(0).len() == 0);
    }
    let mut i: usize = 0;
    while i < ls.len()
        invariant
            0 <= i <= ls@.len(),
            lsv == parts_view(ls@),
            lsv == spec_lines(text@),
            internal == spec_storage_scan(lsv.take(i as int)).0,
            model@ == spec_storage_scan(lsv.take(i as int)).1,
        decreases ls@.len() - i,
    {
        let l = ls[i];
        proof {
            assert(lsv[i as int] == l@);
            assert(lsv.take(i + 1).drop_last() =~= lsv.take(i as int));
            assert(lsv.take(i + 1).last() == lsv[i as int]);
        }
        if str_contains(l, "Device Location:") && str_contains(l, "Internal") {
            internal = true;
        }
        if str_contains(l, "Device / Media Name:") {
            let parts = split_char(l, ':');
            if parts.len() >= 2 {
                assert(parts_view(parts@)[1] == parts@[1]@);
                model = String::from_str(trim(parts[1]));
            } else {
                model = String::new();
                assert(model@ =~= Seq::<char>::empty());
            }
        }
        i += 1;
    }
    proof {
        assert(lsv.take(ls@.len() as int) =~= lsv);
    }
    StorageFact { model, internal }
}

/// The scan of a device-registry dump for the battery manufacture
/// date: on each line naming a manufacture-date key and holding an
/// `=`, the text between the first and second `=`, trimmed; the last
/// such line wins.
pub open spec fn spec_battery_date_scan(ls: Seq<Seq<char>>) -> Option<Seq<char>>
    decreases ls.len(),
{
    if ls.len() == 0 {
        None
    } else {
        let prev = spec_battery_date_scan(ls.drop_last());
        let l = ls.last();
        if spec_contains(l, "BatteryManufactureDate"@) || spec_contains(l, "ManufactureDate"@) {
            let parts = spec_split(l, '=');
            if parts.len() >= 2 {
                Some(spec_trim(parts[1]))
            } else {
                prev
            }
        } else {
            prev
        }
    }
}

/// The battery manufacture date of a device-registry dump, if any line
/// carries one.
pub open spec fn spec_battery_manufacture_date(text: Seq<char>) -> Option<Seq<char>> {
    spec_battery_date_scan(spec_lines(text))
}

/// Reads the battery manufacture date out of a device-registry dump,
/// per [`spec_battery_manufacture_date`].
pub fn parse_battery_manufacture_date(text: &str) -> (r: Option<String>)
    ensures
        crate::facts::opt_str_view(r) == spec_battery_manufacture_date(text@),
{
    let ls = split_lines(text);
    let ghost lsv = parts_view(ls@);
    let mut date: Option<String> = None;
    proof {
        assert(lsv.take(0).len() == 0);
    }
    let mut i: usize = 0;
    while i < ls.len()
        invariant
            0 <= i <= ls@.len(),
            lsv == parts_view(ls@),
            lsv == spec_lines(text@),
            crate::facts::opt_str_view(date) == spec_battery_date_scan(lsv.take(i as int)),
        decreases ls@.len() - i,
    {
        let l = ls[i];
        proof {
            assert(lsv[i as int] == l@);
            assert(lsv.take(i + 1).drop_last() =~= lsv.take(i as int));
            assert(lsv.take(i + 1).last() == lsv[i as int]);
        }
        if str_contains(l, "BatteryManufactureDate") || str_contains(l, "ManufactureDate") {
            let parts = split_char(l, '=');
            if parts.len() >= 2 {
                assert(parts_view(parts@)[1] == parts@[1]@);
                date = Some(String::from_str(trim(parts[1])));
            }
        }
        i += 1;
    }
    proof {
        assert(lsv.take(ls@.len() as int) =~= lsv);
    }
    date
}

/// The OS install date as the probes report it: the probe's whole
/// output trimmed, absent when nothing but whitespace came back.
pub open spec fn spec_os_install_date(text: Seq<char>) -> Option<Seq<char>> {
    if spec_trim(text).len() > 0 {
        Some(spec_trim(text))
    } else {
        None
    }
}

/// Normalizes a date probe's output, per [`spec_os_install_date`].
pub fn os_install_date_from_probe(text: &str) -> (r: Option<String>)
    ensures
        crate::facts::opt_str_view(r) == spec_os_install_date(text@),
{
    let t = trim(text);
    if t.unicode_len() > 0 {
        Some(String::from_str(t))
    } else {
        None
    }
}

/// The integer battery readings of a power-registry dump. Capacities
/// keep the units the platform reported (milliamp-hours on most
/// machines, a bare percentage on some); the temperature is the raw
/// reading in hundredths of a degree.
#[derive(Clone, PartialEq, Debug)]
pub struct BatteryReadings {
    pub cycle_count: u32,
    pub design_capacity: u32,
    pub raw_max_capacity: u32,
    pub max_capacity: u32,
    pub current_capacity: u32,
    pub is_charging: bool,
    pub temperature_raw: Option<i64>,
}

/// The mathematical value of a [`BatteryReadings`].
pub ghost struct BatteryReadingsView {
    pub cycle_count: u32,
    pub design_capacity: u32,
    pub raw_max_capacity: u32,
    pub max_capacity: u32,
    pub current_capacity: u32,
    pub is_charging: bool,
    pub temperature_raw: Option<i64>,
}

impl View for BatteryReadings {
    type V = BatteryReadingsView;

    open spec fn view(&self) -> BatteryReadingsView {
        BatteryReadingsView {
            cycle_count: self.cycle_count,
            design_capacity: self.design_capacity,
            raw_max_capacity: self.raw_max_capacity,
            max_capacity: self.max_capacity,
            current_capacity: self.current_capacity,
            is_charging: self.is_charging,
            temperature_raw: self.temperature_raw,
        }
    }
}

/// All readings zero, not charging, no temperature.
pub open spec fn spec_battery_readings_init() -> BatteryReadingsView {
    BatteryReadingsView {
        cycle_count: 0,
        design_capacity: 0,
        raw_max_capacity: 0,
        max_capacity: 0,
        current_capacity: 0,
        is_charging: false,
        temperature_raw: None,
    }
}

/// A parsed value fits an unsigned 32-bit reading; anything outside
/// that range is treated as malformed and leaves the field unchanged.
pub open spec fn spec_fits_u32(v: i64) -> bool {
    0 <= v <= 0xffff_ffff
}

/// One line's effect on the readings: the line is trimmed, matched
/// against each key in turn (keys that merely embed another key are
/// screened out), and the matched field is updated when the line's
/// number parses as a 32-bit reading; a line that matches nothing, or
/// whose number does not parse, changes nothing.
pub open spec fn spec_battery_line(r: BatteryReadingsView, l0: Seq<char>) -> BatteryReadingsView {
    let l = spec_trim(l0);
    if spec_contains(l, "\"CycleCount\""@) && !spec_contains(l, "CycleCountLastQmax"@) {
        match spec_extract_number(l) {
            Some(v) => if spec_fits_u32(v) {
                BatteryReadingsView { cycle_count: v as u32, ..r }
            } else {
                r
            },
            None => r,
        }
    } else if spec_contains(l, "\"DesignCapacity\""@) && !spec_contains(l, "DesignCapacityUI"@) {
        match spec_extract_number(l) {
            Some(v) => if spec_fits_u32(v) {
                BatteryReadingsView { design_capacity: v as u32, ..r }
            } else {
                r
            },
            None => r,
        }
    } else if spec_contains(l, "\"AppleRawMaxCapacity\""@) {
        match spec_extract_number(l) {
            Some(v) => if spec_fits_u32(v) {
                BatteryReadingsView { raw_max_capacity: v as u32, ..r }
            } else {
                r
            },
            None => r,
        }
    } else if spec_contains(l, "\"MaxCapacity\""@) && !spec_contains(l, "MaxCapacityUI"@)
        && !spec_contains(l, "AppleRawMaxCapacity"@) {
        match spec_extract_number(l) {
            Some(v) => if spec_fits_u32(v) {
                BatteryReadingsView { max_capacity: v as u32, ..r }
            } else {
                r
            },
            None => r,
        }
    } else if spec_contains(l, "\"CurrentCapacity\""@) && !spec_contains(l, "CurrentCapacityUI"@) {
        match spec_extract_number(l) {
            Some(v) => if spec_fits_u32(v) {
                BatteryReadingsView { current_capacity: v as u32, ..r }
            } else {
                r
            },
            None => r,
        }
    } else if spec_contains(l, "\"IsCharging\""@) {
        BatteryReadingsView { is_charging: spec_contains(l, "Yes"@), ..r }
    } else if spec_contains(l, "\"Temperature\""@) {
        match spec_extract_number(l) {
            Some(v) => BatteryReadingsView { temperature_raw: Some(v), ..r },
            None => r,
        }
    } else {
        r
    }
}

/// The readings after scanning every line in order.
pub open spec fn spec_battery_scan(ls: Seq<Seq<char>>) -> BatteryReadingsView
    decreases ls.len(),
{
    if ls.len() == 0 {
        spec_battery_readings_init()
    } else {
        spec_battery_line(spec_battery_scan(ls.drop_last()), ls.last())
    }
}

/// The battery readings of a power-registry dump.
pub open spec fn spec_battery_readings(text: Seq<char>) -> BatteryReadingsView {
    spec_battery_scan(spec_lines(text))
}

/// Reads the battery block of a power-registry dump (the text of an
/// `ioreg -r -c AppleSmartBattery` run), per [`spec_battery_readings`].
pub fn parse_battery_readings(text: &str) -> (r: BatteryReadings)
    ensures
        r@ == spec_battery_readings(text@),
{
    let ls = split_lines(text);
    let ghost lsv = parts_view(ls@);
    let mut r = BatteryReadings {
        cycle_count: 0,
        design_capacity: 0,
        raw_max_capacity: 0,
        max_capacity: 0,
        current_capacity: 0,
        is_charging: false,
        temperature_raw: None,
    };
    proof {
        assert(lsv.take(0).len() == 0);
    }
    let mut i: usize = 0;
    while i < ls.len()
        invariant
            0 <= i <= ls@.len(),
            lsv == parts_view(ls@),
            lsv == spec_lines(text@),
            r@ == spec_battery_scan(lsv.take(i as int)),
        decreases ls@.len() - i,
    {
        proof {
            assert(lsv[i as int] == ls@[i as int]@);
            assert(lsv.take(i + 1).drop_last() =~= lsv.take(i as int));
            assert(lsv.take(i + 1).last() == lsv[i as int]);
        }
        let l = trim(ls[i]);
        if str_contains(l, "\"CycleCount\"") && !str_contains(l, "CycleCountLastQmax") {
            if let Some(v) = extract_number(l) {
                if v >= 0 && v <= 0xffff_ffff {
                    r.cycle_count = v as u32;
                }
            }
        } else if str_contains(l, "\"DesignCapacity\"") && !str_contains(l, "DesignCapacityUI") {
            if let Some(v) = extract_number(l) {
                if v >= 0 && v <= 0xffff_ffff {
                    r.design_capacity = v as u32;
                }
            }
        } else if str_contains(l, "\"AppleRawMaxCapacity\"") {
            if let Some(v) = extract_number(l) {
                if v >= 0 && v <= 0xffff_ffff {
                    r.raw_max_capacity = v as u32;
                }
            }
        } else if str_contains(l, "\"MaxCapacity\"") && !str_contains(l, "MaxCapacityUI")
            && !str_contains(l, "AppleRawMaxCapacity") {
            if let Some(v) = extract_number(l) {
                if v >= 0 && v <= 0xffff_ffff {
                    r.max_capacity = v as u32;
                }
            }
        } else if str_contains(l, "\"CurrentCapacity\"") && !str_contains(l, "CurrentCapacityUI") {
            if let Some(v) = extract_number(l) {
                if v >= 0 && v <= 0xffff_ffff {
                    r.current_capacity = v as u32;
                }
            }
        } else if str_contains(l, "\"IsCharging\"") {
            r.is_charging = str_contains(l, "Yes");
        } else if str_contains(l, "\"Temperature\"") {
            if let Some(v) = extract_number(l) {
                r.temperature_raw = Some(v);
            }
        }
        i += 1;
    }
    proof {
        assert(lsv.take(ls@.len() as int) =~= lsv);
    }
    r
}

/// The capacity that stands for the battery's real maximum: the raw
/// maximum when the platform reports one; otherwise the plain maximum
/// when it is in milliamp-hours (above one hundred); otherwise the
/// design capacity, since a bare percentage supports no health figure.
pub open spec fn spec_actual_max_capacity(r: BatteryReadingsView) -> u32 {
    if r.raw_max_capacity > 0 {
        r.raw_max_capacity
    } else if r.max_capacity > 100 {
        r.max_capacity
    } else {
        r.design_capacity
    }
}

/// Selects the capacity to rate battery health against, per
/// [`spec_actual_max_capacity`].
pub fn actual_max_capacity(r: &BatteryReadings) -> (m: u32)
    ensures
        m == spec_actual_max_capacity(r@),
{
    if r.raw_max_capacity > 0 {
        r.raw_max_capacity
    } else if r.max_capacity > 100 {
        r.max_capacity
    } else {
        r.design_capacity
    }
}

} // verus!
