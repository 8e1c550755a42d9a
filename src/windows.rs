//! The structured platform: reading the disk inventory, a JSON object or an
//! array of objects, and telling the system disk by its number.
use vstd::prelude::*;
use crate::size::{format_size, size_text};
use crate::text::{
    append_decimal, decimal, parse_i64, parse_i64_spec, starts_with, text_equals, trim_of,
    trimmed,
};
use crate::json::{field, json_accepts, json_field, json_of, parse_json, Json};
use crate::types::{device_views, opt_view, BlockDevice, DeviceView};

verus! {

/// The fields of one inventory entry that the classification reads.
#[derive(Debug, Clone)]
pub struct DiskRecord {
    pub number: Option<i64>,
    pub size: Option<u64>,
    pub friendly_name: Option<String>,
    pub bus_type: Option<String>,
}

pub struct DiskFields {
    pub number: Option<i64>,
    pub size: Option<u64>,
    pub friendly_name: Option<Seq<char>>,
    pub bus_type: Option<Seq<char>>,
}

impl View for DiskRecord {
    type V = DiskFields;

    open spec fn view(&self) -> DiskFields {
        DiskFields {
            number: self.number,
            size: self.size,
            friendly_name: match self.friendly_name {
                Some(s) => Some(s@),
                None => None,
            },
            bus_type: match self.bus_type {
                Some(s) => Some(s@),
                None => None,
            },
        }
    }
}

pub open spec fn disk_views(v: Seq<DiskRecord>) -> Seq<DiskFields> {
    v.map_values(|d: DiskRecord| d@)
}

/// The device that an inventory entry describes, if it has a non-negative
/// number and a non-zero size. Removable are the USB and SD transports; an
/// absent transport reads as the empty string.
pub open spec fn disk_device(d: DiskFields, system_disk: Option<i64>) -> Option<DeviceView> {
    let number: int = match d.number {
        Some(n) => n as int,
        None => -1,
    };
    let size: int = match d.size {
        Some(s) => s as int,
        None => 0,
    };
    if number < 0 || size == 0 {
        None
    } else {
        let bus = match d.bus_type {
            Some(b) => b,
            None => seq![],
        };
        Some(
            DeviceView {
                path: "\\\\.\\PhysicalDrive"@ + decimal(number as nat),
                name: "Disk "@ + decimal(number as nat),
                size: size as u64,
                size_formatted: size_text(size as u64),
                model: match d.friendly_name {
                    Some(m) => m,
                    None => "Unknown"@,
                },
                is_removable: bus == "USB"@ || bus == "SD"@,
                is_system: system_disk == Some(number as i64),
                bus_type: Some(bus),
            },
        )
    }
}

/// The devices of an inventory, in order, skipping entries that describe none.
pub open spec fn disk_devices(ds: Seq<DiskFields>, system_disk: Option<i64>) -> Seq<DeviceView>
    decreases ds.len(),
{
    if ds.len() == 0 {
        seq![]
    } else {
        let prev = disk_devices(ds.drop_last(), system_disk);
        match disk_device(ds.last(), system_disk) {
            Some(d) => prev.push(d),
            None => prev,
        }
    }
}

/// Builds the device that an inventory entry describes, if any.
pub fn device_from_disk(d: &DiskRecord, system_disk: Option<i64>) -> (r: Option<BlockDevice>)
    ensures
        match r {
            Some(dev) => disk_device(d@, system_disk) == Some(dev@),
            None => disk_device(d@, system_disk) is None,
        },
{
    let number: i64 = match d.number {
        Some(n) => n,
        None => -1,
    };
    if number < 0 {
        return None;
    }
    let size: u64 = match d.size {
        Some(s) => s,
        None => 0,
    };
    if size == 0 {
        return None;
    }
    let model = match &d.friendly_name {
        Some(m) => m.clone(),
        None => String::from_str("Unknown"),
    };
    let bus = match &d.bus_type {
        Some(b) => b.clone(),
        None => String::new(),
    };
    let is_removable = text_equals(bus.as_str(), "USB") || text_equals(bus.as_str(), "SD");
    let mut path = String::from_str("\\\\.\\PhysicalDrive");
    append_decimal(&mut path, number as u64);
    let mut name = String::from_str("Disk ");
    append_decimal(&mut name, number as u64);
    let is_system = match system_disk {
        Some(s) => s == number,
        None => false,
    };
    Some(
        BlockDevice {
            path,
            name,
            size,
            size_formatted: format_size(size),
            model,
            is_removable,
            is_system,
            bus_type: Some(bus),
        },
    )
}

/// Builds the devices of an inventory, in order, flagging the one numbered
/// `system_disk`.
pub fn devices_from_disks(disks: &Vec<DiskRecord>, system_disk: Option<i64>) -> (r: Vec<
    BlockDevice,
>)
    ensures
        device_views(r@) == disk_devices(disk_views(disks@), system_disk),
{
    let ghost ds = disk_views(disks@);
    let mut out: Vec<BlockDevice> = Vec::new();
    let mut i: usize = 0;
    while i < disks.len()
        invariant
            ds == disk_views(disks@),
            i <= disks@.len(),
            device_views(out@) == disk_devices(ds.subrange(0, i as int), system_disk),
        decreases disks@.len() - i,
    {
        assert(ds.subrange(0, i + 1).drop_last() =~= ds.subrange(0, i as int));
        match device_from_disk(&disks[i], system_disk) {
            Some(dev) => {
                out.push(dev);
                assert(device_views(out@) =~= disk_devices(ds.subrange(0, i + 1), system_disk));
            },
            None => {},
        }
        i += 1;
    }
    assert(ds.subrange(0, disks@.len() as int) =~= ds);
    out
}

pub open spec fn int_of(j: Option<Json>) -> Option<i64> {
    match j {
        Some(Json::Number(i, _)) => i,
        _ => None,
    }
}

pub open spec fn uint_of(j: Option<Json>) -> Option<u64> {
    match j {
        Some(Json::Number(_, u)) => u,
        _ => None,
    }
}

pub open spec fn str_of(j: Option<Json>) -> Option<Seq<char>> {
    match j {
        Some(Json::Str(s)) => Some(s@),
        _ => None,
    }
}

/// The fields of an inventory entry: its members `Number`, `Size`,
/// `FriendlyName` and `BusType`, each where it has the expected kind.
pub open spec fn record_fields(j: Json) -> DiskFields {
    DiskFields {
        number: int_of(field(j, "Number"@)),
        size: uint_of(field(j, "Size"@)),
        friendly_name: str_of(field(j, "FriendlyName"@)),
        bus_type: str_of(field(j, "BusType"@)),
    }
}

/// The entries of an inventory: the elements of an array, or the one value
/// that the tool prints when there is a single disk.
pub open spec fn inventory_entries(j: Json) -> Seq<Json> {
    match j {
        Json::Array(items) => items@,
        _ => seq![j],
    }
}

pub open spec fn inventory_fields(j: Json) -> Seq<DiskFields> {
    inventory_entries(j).map_values(|e: Json| record_fields(e))
}

fn text_member(j: &Json, key: &str) -> (r: Option<String>)
    ensures
        opt_view(r) == str_of(field(*j, key@)),
{
    match json_field(j, key) {
        Some(Json::Str(s)) => Some(s.clone()),
        _ => None,
    }
}

/// Reads the fields of one inventory entry.
pub fn disk_record(v: &Json) -> (r: DiskRecord)
    ensures
        r@ == record_fields(*v),
{
    let number = match json_field(v, "Number") {
        Some(Json::Number(i, _)) => *i,
        _ => None,
    };
    let size = match json_field(v, "Size") {
        Some(Json::Number(_, u)) => *u,
        _ => None,
    };
    let friendly_name = text_member(v, "FriendlyName");
    let bus_type = text_member(v, "BusType");
    DiskRecord { number, size, friendly_name, bus_type }
}

/// Reads the inventory text into entries, in order; fails exactly when the
/// text is not one JSON value.
pub fn disk_records_from_json(text: &str) -> (r: Result<Vec<DiskRecord>, String>)
    ensures
        r is Ok <==> json_accepts(text@),
        match r {
            Ok(recs) => disk_views(recs@) == inventory_fields(json_of(text@)),
            Err(e) => starts_with(e@, "Failed to parse disk info: "@),
        },
{
    let json = match parse_json(text) {
        Ok(v) => v,
        Err(e) => {
            let mut msg = String::from_str("Failed to parse disk info: ");
            let ghost head = msg@;
            msg.append(e.as_str());
            assert(msg@.subrange(0, head.len() as int) =~= head);
            return Err(msg);
        },
    };
    let ghost entries = inventory_entries(json);
    let mut out: Vec<DiskRecord> = Vec::new();
    match &json {
        Json::Array(items) => {
            let mut i: usize = 0;
            while i < items.len()
                invariant
                    entries == items@,
                    i <= items@.len(),
                    disk_views(out@) == entries.subrange(0, i as int).map_values(
                        |e: Json| record_fields(e),
                    ),
                decreases items@.len() - i,
            {
                let rec = disk_record(&items[i]);
                let ghost before = out@;
                out.push(rec);
                assert(out@ == before.push(rec));
                assert(disk_views(out@) =~= disk_views(before).push(rec@));
                assert(entries.subrange(0, i + 1).map_values(|e: Json| record_fields(e))
                    =~= entries.subrange(0, i as int).map_values(|e: Json| record_fields(e)).push(
                    record_fields(items@[i as int]),
                ));
                i += 1;
            }
            assert(entries.subrange(0, items@.len() as int) =~= entries);
        },
        _ => {
            out.push(disk_record(&json));
        },
    }
    assert(disk_views(out@) =~= inventory_fields(json));
    Ok(out)
}

/// Builds the devices of an inventory text, in order; fails exactly when
/// the text is not one JSON value. An entry that describes no device is
/// skipped.
pub fn devices_from_disk_json(text: &str, system_disk: Option<i64>) -> (r: Result<
    Vec<BlockDevice>,
    String,
>)
    ensures
        r is Ok <==> json_accepts(text@),
        match r {
            Ok(devs) => device_views(devs@) == disk_devices(
                inventory_fields(json_of(text@)),
                system_disk,
            ),
            Err(e) => starts_with(e@, "Failed to parse disk info: "@),
        },
{
    match disk_records_from_json(text) {
        Ok(disks) => Ok(devices_from_disks(&disks, system_disk)),
        Err(e) => Err(e),
    }
}

/// The system disk's number from the output of the partition-to-disk query.
pub fn system_disk_number(output: &str) -> (r: Option<i64>)
    ensures
        r == parse_i64_spec(trim_of(output@)),
{
    parse_i64(trimmed(output))
}

} // verus!
