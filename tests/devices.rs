use armbian_imager::linux::{
    assemble_device, classify_bus, matches_system_disk, parse_lsblk_output, record_from_tokens,
};
use armbian_imager::size::format_size;
use armbian_imager::sysdisk::{mount_source, system_disk_names, text_less, MountProbe};
use armbian_imager::text::{parse_i64, parse_u64, text_contains, text_last_segment};
use armbian_imager::windows::{
    device_from_disk, devices_from_disk_json, devices_from_disks, disk_records_from_json,
    system_disk_number, DiskRecord,
};

fn strings(v: &[&str]) -> Vec<String> {
    v.iter().map(|s| s.to_string()).collect()
}

#[test]
fn model_joined_from_middle_tokens() {
    let rec = record_from_tokens(&strings(&["/dev/sda", "500000000", "Samsung", "SSD", "0"]))
        .unwrap();
    assert_eq!(rec.model, "Samsung SSD");
    assert!(!rec.is_removable);
    assert_eq!(rec.path, "/dev/sda");
    assert_eq!(rec.name, "sda");
    assert_eq!(rec.size, 500000000);
}

#[test]
fn removable_flag_read_from_last_token() {
    let rec = record_from_tokens(&strings(&["/dev/sdb", "16000000000", "Flash", "Disk", "X", "1"]))
        .unwrap();
    assert_eq!(rec.model, "Flash Disk X");
    assert!(rec.is_removable);
}

#[test]
fn three_tokens_use_third_as_model() {
    let rec = record_from_tokens(&strings(&["/dev/vda", "1024", "1"])).unwrap();
    assert_eq!(rec.model, "1");
    assert!(rec.is_removable);
    let rec = record_from_tokens(&strings(&["/dev/vda", "1024"])).unwrap();
    assert_eq!(rec.model, "");
    assert!(!rec.is_removable);
}

#[test]
fn short_lines_yield_nothing() {
    assert!(record_from_tokens(&strings(&[])).is_none());
    assert!(record_from_tokens(&strings(&["/dev/sda"])).is_none());
    let out = parse_lsblk_output("\n/dev/sda\n   \n");
    assert!(out.is_empty());
}

#[test]
fn unrecognized_paths_excluded() {
    assert!(record_from_tokens(&strings(&["/dev/loop0", "500000000", "Model", "0"])).is_none());
    assert!(record_from_tokens(&strings(&["/dev/sr0", "500000000", "DVD", "1"])).is_none());
    assert!(record_from_tokens(&strings(&["sda", "500000000", "Model", "0"])).is_none());
}

#[test]
fn mmc_boot_and_rpmb_areas_excluded() {
    assert!(record_from_tokens(&strings(&["/dev/mmcblk0boot0", "4194304", "0"])).is_none());
    assert!(record_from_tokens(&strings(&["/dev/mmcblk0rpmb", "4194304", "0"])).is_none());
    assert!(record_from_tokens(&strings(&["/dev/mmcblk0", "31268536320", "0"])).is_some());
}

#[test]
fn zero_or_unreadable_size_excluded() {
    assert!(record_from_tokens(&strings(&["/dev/sda", "0", "Model", "0"])).is_none());
    assert!(record_from_tokens(&strings(&["/dev/sda", "abc", "Model", "0"])).is_none());
    assert!(record_from_tokens(&strings(&["/dev/sda", "-5", "Model", "0"])).is_none());
    assert!(record_from_tokens(&strings(&["/dev/sda", "99999999999999999999", "M", "0"])).is_none());
}

#[test]
fn listing_skips_malformed_lines_among_valid_ones() {
    let text = "/dev/sda 500107862016 Samsung SSD 870 0\n\
                /dev/loop0 1000 x 0\n\
                garbage\n\
                /dev/sdb 0 Empty 1\n\
                /dev/nvme0n1 1000204886016 WD Black 0\r\n\
                /dev/mmcblk0 31268536320 1\n";
    let out = parse_lsblk_output(text);
    assert_eq!(out.len(), 3);
    assert_eq!(out[0].path, "/dev/sda");
    assert_eq!(out[0].model, "Samsung SSD 870");
    assert_eq!(out[1].name, "nvme0n1");
    assert_eq!(out[1].model, "WD Black");
    assert_eq!(out[2].name, "mmcblk0");
    assert!(out[2].is_removable);
}

#[test]
fn mmc_path_classified_mmc_despite_transport() {
    let bus = classify_bus("/dev/mmcblk0", Some("usb\n"), Some("../../devices/pci/usb1/1-1"));
    assert_eq!(bus.as_deref(), Some("MMC"));
}

#[test]
fn nvme_path_classified_nvme() {
    let bus = classify_bus("/dev/nvme0n1", Some("sata"), None);
    assert_eq!(bus.as_deref(), Some("NVMe"));
}

#[test]
fn transport_attribute_trimmed_and_uppercased() {
    let bus = classify_bus("/dev/sda", Some("  sata\n"), Some("../usb1"));
    assert_eq!(bus.as_deref(), Some("SATA"));
    let bus = classify_bus("/dev/sdc", Some("usb"), None);
    assert_eq!(bus.as_deref(), Some("USB"));
}

#[test]
fn device_link_decides_without_transport() {
    let usb = classify_bus("/dev/sdb", Some("  \n"), Some("../../devices/pci0000:00/usb2/2-1"));
    assert_eq!(usb.as_deref(), Some("USB"));
    let ata = classify_bus("/dev/sda", None, Some("../../devices/pci0000:00/ata1/host0"));
    assert_eq!(ata.as_deref(), Some("SATA"));
    assert!(classify_bus("/dev/vda", None, Some("../../devices/virtio0")).is_none());
    assert!(classify_bus("/dev/vda", None, None).is_none());
}

#[test]
fn system_disk_matches_by_prefix_either_way() {
    let cands = strings(&["sda"]);
    assert!(matches_system_disk("sda", &cands));
    assert!(matches_system_disk("sda1", &cands));
    assert!(!matches_system_disk("sdb", &cands));
    let cands = strings(&["nvme0n1p2"]);
    assert!(matches_system_disk("nvme0n1", &cands));
    assert!(!matches_system_disk("sda", &strings(&[])));
}

#[test]
fn system_disk_flagged_not_dropped() {
    let recs = parse_lsblk_output("/dev/sda 500000000 Samsung SSD 0\n/dev/sdb 8000000000 Stick 1\n");
    let sys = strings(&["sda"]);
    let a = assemble_device(recs[0].clone(), &sys, Some("SATA".to_string()));
    let b = assemble_device(recs[1].clone(), &sys, None);
    assert!(a.is_system);
    assert!(!b.is_system);
    assert_eq!(a.size_formatted, "476.8 MB");
    assert_eq!(a.bus_type.as_deref(), Some("SATA"));
    assert_eq!(b.bus_type, None);
    assert_eq!(b.size_formatted, "7.4 GB");
}

#[test]
fn system_disk_names_sorted_and_unique() {
    let probes = vec![
        MountProbe { source_output: "/dev/sda2\n".to_string(), parent_output: Some("sda\n".to_string()) },
        MountProbe { source_output: "/dev/sda1\n".to_string(), parent_output: Some("sda\n".to_string()) },
        MountProbe { source_output: "\n".to_string(), parent_output: None },
        MountProbe { source_output: "/dev/sda1".to_string(), parent_output: Some("  ".to_string()) },
    ];
    assert_eq!(system_disk_names(&probes), strings(&["sda", "sda1", "sda2"]));
}

#[test]
fn mount_source_trimmed() {
    assert_eq!(mount_source("  /dev/sda2 \n").as_deref(), Some("/dev/sda2"));
    assert_eq!(mount_source(" \n"), None);
}

#[test]
fn text_order_by_code_point() {
    assert!(text_less("sda", "sdb"));
    assert!(text_less("sda", "sda1"));
    assert!(!text_less("sda1", "sda"));
    assert!(!text_less("sda", "sda"));
}

#[test]
fn size_formatting() {
    assert_eq!(format_size(0), "0 B");
    assert_eq!(format_size(1023), "1023 B");
    assert_eq!(format_size(1024), "1.0 KB");
    assert_eq!(format_size(1536), "1.5 KB");
    assert_eq!(format_size(32 * 1024 * 1024 * 1024), "32.0 GB");
    assert_eq!(format_size(2 * 1024 * 1024 * 1024 * 1024), "2.0 TB");
    assert_eq!(format_size(u64::MAX), "16777215.9 TB");
}

#[test]
fn integer_parsing() {
    assert_eq!(parse_u64("42"), Some(42));
    assert_eq!(parse_u64("+7"), Some(7));
    assert_eq!(parse_u64("18446744073709551615"), Some(u64::MAX));
    assert_eq!(parse_u64("18446744073709551616"), None);
    assert_eq!(parse_u64(""), None);
    assert_eq!(parse_u64("+"), None);
    assert_eq!(parse_u64("-1"), None);
    assert_eq!(parse_i64("-1"), Some(-1));
    assert_eq!(parse_i64("-9223372036854775808"), Some(i64::MIN));
    assert_eq!(parse_i64("9223372036854775808"), None);
    assert_eq!(parse_i64("3"), Some(3));
    assert_eq!(parse_i64("1 2"), None);
}

#[test]
fn text_helpers() {
    assert!(text_contains("/dev/mmcblk0", "mmcblk"));
    assert!(!text_contains("/dev/sda", "mmcblk"));
    assert_eq!(text_last_segment("/dev/nvme0n1"), "nvme0n1");
    assert_eq!(text_last_segment("sda"), "sda");
}

fn disk(number: Option<i64>, size: Option<u64>, name: Option<&str>, bus: Option<&str>) -> DiskRecord {
    DiskRecord {
        number,
        size,
        friendly_name: name.map(|s| s.to_string()),
        bus_type: bus.map(|s| s.to_string()),
    }
}

#[test]
fn disk_record_becomes_device() {
    let d = device_from_disk(&disk(Some(1), Some(32 * 1024 * 1024 * 1024), Some("SanDisk"), Some("USB")), Some(0))
        .unwrap();
    assert_eq!(d.path, "\\\\.\\PhysicalDrive1");
    assert_eq!(d.name, "Disk 1");
    assert_eq!(d.model, "SanDisk");
    assert_eq!(d.size_formatted, "32.0 GB");
    assert!(d.is_removable);
    assert!(!d.is_system);
    assert_eq!(d.bus_type.as_deref(), Some("USB"));
}

#[test]
fn disk_defaults_when_fields_missing() {
    let d = device_from_disk(&disk(Some(0), Some(1000), None, None), Some(0)).unwrap();
    assert_eq!(d.model, "Unknown");
    assert_eq!(d.bus_type.as_deref(), Some(""));
    assert!(!d.is_removable);
    assert!(d.is_system);
    let sd = device_from_disk(&disk(Some(12), Some(1000), None, Some("SD")), None).unwrap();
    assert!(sd.is_removable);
    assert_eq!(sd.path, "\\\\.\\PhysicalDrive12");
}

#[test]
fn invalid_disks_excluded() {
    assert!(device_from_disk(&disk(Some(-1), Some(1000), None, None), None).is_none());
    assert!(device_from_disk(&disk(None, Some(1000), None, None), None).is_none());
    assert!(device_from_disk(&disk(Some(2), Some(0), None, None), None).is_none());
    assert!(device_from_disk(&disk(Some(2), None, None, None), None).is_none());
    let all = devices_from_disks(
        &vec![
            disk(Some(0), Some(500), None, Some("SATA")),
            disk(Some(-1), Some(500), None, None),
            disk(Some(3), Some(0), None, None),
            disk(Some(4), Some(700), None, Some("USB")),
        ],
        None,
    );
    assert_eq!(all.len(), 2);
    assert_eq!(all[0].name, "Disk 0");
    assert_eq!(all[1].name, "Disk 4");
}

#[test]
fn single_object_same_as_one_element_array() {
    let obj = r#"{"Number": 1, "FriendlyName": "Kingston DataTraveler", "Size": 15518924800, "BusType": "USB"}"#;
    let arr = format!("[{}]", obj);
    let one = devices_from_disk_json(obj, None).unwrap();
    let many = devices_from_disk_json(&arr, None).unwrap();
    assert_eq!(one.len(), 1);
    assert_eq!(many.len(), 1);
    assert_eq!(one[0].path, many[0].path);
    assert_eq!(one[0].name, many[0].name);
    assert_eq!(one[0].size, many[0].size);
    assert_eq!(one[0].model, many[0].model);
    assert_eq!(one[0].is_removable, many[0].is_removable);
    assert_eq!(one[0].bus_type, many[0].bus_type);
    assert_eq!(one[0].model, "Kingston DataTraveler");
    assert!(one[0].is_removable);
}

#[test]
fn json_inventory_skips_invalid_entries() {
    let text = r#"[
        {"Number": 0, "FriendlyName": "System SSD", "Size": 256060514304, "BusType": "SATA"},
        {"Number": -1, "FriendlyName": "Ghost", "Size": 100, "BusType": "USB"},
        {"Number": 2, "FriendlyName": "Empty", "Size": 0, "BusType": "SD"},
        {"FriendlyName": "No number", "Size": 100},
        {"Number": 3, "Size": 62537072640, "BusType": "SD"}
    ]"#;
    let devs = devices_from_disk_json(text, Some(0)).unwrap();
    assert_eq!(devs.len(), 2);
    assert!(devs[0].is_system);
    assert!(!devs[0].is_removable);
    assert_eq!(devs[1].model, "Unknown");
    assert!(devs[1].is_removable);
    let recs = disk_records_from_json(text).unwrap();
    assert_eq!(recs.len(), 5);
    assert_eq!(recs[3].number, None);
}

#[test]
fn unparsable_inventory_is_an_error() {
    let err = devices_from_disk_json("not json", None).unwrap_err();
    assert!(err.starts_with("Failed to parse disk info: "));
    assert!(err.len() > "Failed to parse disk info: ".len());
}

#[test]
fn system_disk_number_parsed() {
    assert_eq!(system_disk_number("0\r\n"), Some(0));
    assert_eq!(system_disk_number("  3 \n"), Some(3));
    assert_eq!(system_disk_number(""), None);
    assert_eq!(system_disk_number("error"), None);
}

#[test]
fn inventory_fields_read_by_kind() {
    let text = r#"[{"Number": 1.5, "Size": "100", "FriendlyName": 7, "BusType": null},
                   {"Number": 2, "Size": 4096, "FriendlyName": "Card", "BusType": "SD", "Extra": true},
                   "not an object"]"#;
    let recs = disk_records_from_json(text).unwrap();
    assert_eq!(recs.len(), 3);
    assert_eq!(recs[0].number, None);
    assert_eq!(recs[0].size, None);
    assert_eq!(recs[0].friendly_name, None);
    assert_eq!(recs[0].bus_type, None);
    assert_eq!(recs[1].number, Some(2));
    assert_eq!(recs[1].size, Some(4096));
    assert_eq!(recs[1].friendly_name.as_deref(), Some("Card"));
    assert_eq!(recs[1].bus_type.as_deref(), Some("SD"));
    assert_eq!(recs[2].number, None);
    let devs = devices_from_disk_json(text, None).unwrap();
    assert_eq!(devs.len(), 1);
    assert_eq!(devs[0].path, "\\\\.\\PhysicalDrive2");
}

#[test]
fn bare_object_reads_as_one_entry() {
    let recs = disk_records_from_json(r#"{"Number": 0, "Size": 10}"#).unwrap();
    assert_eq!(recs.len(), 1);
    assert_eq!(recs[0].number, Some(0));
    assert_eq!(recs[0].size, Some(10));
    assert!(disk_records_from_json("[]").unwrap().is_empty());
}
