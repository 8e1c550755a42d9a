//! Properties of the enumeration that hold for all inputs.
use vstd::prelude::*;
use crate::linux::{bus_of, lsblk_entries, lsblk_entry, recognized_path, LsblkEntry};
use crate::text::{contains, parse_u64_spec, tokens_of};
use crate::types::DeviceView;
use crate::json::Json;
use crate::windows::{disk_device, disk_devices, inventory_fields, DiskFields};

verus! {

/// The disks of two listings read one after the other are those of the
/// first, then those of the second.
pub proof fn lemma_lsblk_entries_concat(a: Seq<Seq<char>>, b: Seq<Seq<char>>)
    ensures
        lsblk_entries(a + b) == lsblk_entries(a) + lsblk_entries(b),
    decreases b.len(),
{
    if b.len() == 0 {
        assert(a + b =~= a);
        assert(lsblk_entries(a) + lsblk_entries(b) =~= lsblk_entries(a));
    } else {
        assert((a + b).drop_last() =~= a + b.drop_last());
        lemma_lsblk_entries_concat(a, b.drop_last());
        assert((a + b).last() == b.last());
        match lsblk_entry(tokens_of(b.last())) {
            Some(e) => {
                assert(lsblk_entries(a + b) =~= lsblk_entries(a) + lsblk_entries(b));
            },
            None => {},
        }
    }
}

/// A listing line that describes no whole disk adds nothing, wherever it
/// stands among the other lines, and does not make the listing fail.
pub proof fn lemma_malformed_line_skipped(a: Seq<Seq<char>>, line: Seq<char>, b: Seq<Seq<char>>)
    requires
        lsblk_entry(tokens_of(line)) is None,
    ensures
        lsblk_entries(a.push(line) + b) == lsblk_entries(a + b),
{
    lemma_lsblk_entries_concat(a.push(line), b);
    lemma_lsblk_entries_concat(a, b);
    assert(a.push(line).drop_last() =~= a);
}

/// A line of fewer than two tokens yields no disk.
pub proof fn lemma_short_line_skipped(a: Seq<Seq<char>>, line: Seq<char>, b: Seq<Seq<char>>)
    requires
        tokens_of(line).len() < 2,
    ensures
        lsblk_entries(a.push(line) + b) == lsblk_entries(a + b),
{
    lemma_malformed_line_skipped(a, line, b);
}

/// A line whose path follows none of the recognized naming schemes yields
/// no disk, whatever its size and model.
pub proof fn lemma_unrecognized_path_skipped(
    a: Seq<Seq<char>>,
    line: Seq<char>,
    b: Seq<Seq<char>>,
)
    requires
        tokens_of(line).len() > 0,
        !recognized_path(tokens_of(line)[0]),
    ensures
        lsblk_entries(a.push(line) + b) == lsblk_entries(a + b),
{
    lemma_malformed_line_skipped(a, line, b);
}

/// A line whose size is zero yields no disk.
pub proof fn lemma_zero_size_line_skipped(a: Seq<Seq<char>>, line: Seq<char>, b: Seq<Seq<char>>)
    requires
        tokens_of(line).len() > 1,
        parse_u64_spec(tokens_of(line)[1]) == Some(0u64),
    ensures
        lsblk_entries(a.push(line) + b) == lsblk_entries(a + b),
{
    lemma_malformed_line_skipped(a, line, b);
}

/// Every disk read from a listing has a non-zero size.
pub proof fn lemma_lsblk_sizes_positive(lines: Seq<Seq<char>>)
    ensures
        forall|i: int|
            0 <= i < lsblk_entries(lines).len() ==> (#[trigger] lsblk_entries(lines)[i]).size > 0,
    decreases lines.len(),
{
    if lines.len() > 0 {
        lemma_lsblk_sizes_positive(lines.drop_last());
        let parts = tokens_of(lines.last());
        match lsblk_entry(parts) {
            Some(e) => {
                assert(e.size > 0);
                let prev = lsblk_entries(lines.drop_last());
                assert(lsblk_entries(lines) == prev.push(e));
                assert forall|i: int| 0 <= i < prev.len() + 1 implies (#[trigger] prev.push(
                    e,
                )[i]).size > 0 by {
                    if i < prev.len() {
                        assert(prev.push(e)[i] == prev[i]);
                    }
                }
            },
            None => {
                assert(lsblk_entries(lines) == lsblk_entries(lines.drop_last()));
            },
        }
    }
}

/// The devices of two inventories read one after the other are those of
/// the first, then those of the second.
pub proof fn lemma_disk_devices_concat(a: Seq<DiskFields>, b: Seq<DiskFields>, system_disk: Option<
    i64,
>)
    ensures
        disk_devices(a + b, system_disk) == disk_devices(a, system_disk) + disk_devices(
            b,
            system_disk,
        ),
    decreases b.len(),
{
    if b.len() == 0 {
        assert(a + b =~= a);
        assert(disk_devices(a, system_disk) + disk_devices(b, system_disk) =~= disk_devices(
            a,
            system_disk,
        ));
    } else {
        assert((a + b).drop_last() =~= a + b.drop_last());
        lemma_disk_devices_concat(a, b.drop_last(), system_disk);
        assert((a + b).last() == b.last());
        match disk_device(b.last(), system_disk) {
            Some(e) => {
                assert(disk_devices(a + b, system_disk) =~= disk_devices(a, system_disk)
                    + disk_devices(b, system_disk));
            },
            None => {},
        }
    }
}

/// An inventory entry that describes no device adds nothing, wherever it
/// stands among the others.
pub proof fn lemma_malformed_disk_skipped(
    a: Seq<DiskFields>,
    d: DiskFields,
    b: Seq<DiskFields>,
    system_disk: Option<i64>,
)
    requires
        disk_device(d, system_disk) is None,
    ensures
        disk_devices(a.push(d) + b, system_disk) == disk_devices(a + b, system_disk),
{
    lemma_disk_devices_concat(a.push(d), b, system_disk);
    lemma_disk_devices_concat(a, b, system_disk);
    assert(a.push(d).drop_last() =~= a);
}

/// An inventory entry without a non-negative number, or with size zero,
/// yields no device.
pub proof fn lemma_invalid_disk_skipped(
    a: Seq<DiskFields>,
    d: DiskFields,
    b: Seq<DiskFields>,
    system_disk: Option<i64>,
)
    requires
        d.number is None || d.number->0 < 0 || d.size == Some(0u64),
    ensures
        disk_devices(a.push(d) + b, system_disk) == disk_devices(a + b, system_disk),
{
    lemma_malformed_disk_skipped(a, d, b, system_disk);
}

/// Every device read from an inventory has a non-zero size.
pub proof fn lemma_disk_sizes_positive(ds: Seq<DiskFields>, system_disk: Option<i64>)
    ensures
        forall|i: int|
            0 <= i < disk_devices(ds, system_disk).len() ==> (#[trigger] disk_devices(
                ds,
                system_disk,
            )[i]).size > 0,
    decreases ds.len(),
{
    if ds.len() > 0 {
        lemma_disk_sizes_positive(ds.drop_last(), system_disk);
    }
}

/// A path that names an MMC device classifies as MMC, whatever transport
/// the device reports.
pub proof fn lemma_mmc_path_wins(
    path: Seq<char>,
    transport: Option<Seq<char>>,
    link: Option<Seq<char>>,
)
    requires
        contains(path, "mmcblk"@),
    ensures
        bus_of(path, transport, link) == Some("MMC"@),
{
}

/// An inventory printed as one bare value, rather than an array, reads as
/// the array that holds just that value: same entries, same devices.
pub proof fn lemma_single_entry_as_array(single: Json, array: Json, system_disk: Option<i64>)
    requires
        !(single is Array),
        array is Array,
        array->Array_0@ == seq![single],
    ensures
        inventory_fields(single) == inventory_fields(array),
        disk_devices(inventory_fields(single), system_disk) == disk_devices(
            inventory_fields(array),
            system_disk,
        ),
{
    assert(inventory_fields(single) =~= inventory_fields(array));
}

} // verus!
