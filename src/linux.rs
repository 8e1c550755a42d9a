//! The text platform: parsing the block-device listing, telling which disks
//! hold the running system, and classifying each disk's transport.
use vstd::prelude::*;
use crate::size::{format_size, size_text};
use crate::text::{
    contains, last_segment, lines_of, parse_u64, parse_u64_spec, split_lines, split_tokens,
    starts_with, text_contains, text_equals, text_last_segment, text_starts_with, tokens_of,
    trim_of, trimmed, upper_of, uppercase, views,
};
use crate::types::{opt_view, BlockDevice, DeviceView};

verus! {

/// One whole disk read from a line of the listing.
#[derive(Debug, Clone)]
pub struct LsblkRecord {
    pub path: String,
    pub name: String,
    pub size: u64,
    pub model: String,
    pub is_removable: bool,
}

pub struct LsblkEntry {
    pub path: Seq<char>,
    pub name: Seq<char>,
    pub size: u64,
    pub model: Seq<char>,
    pub is_removable: bool,
}

impl View for LsblkRecord {
    type V = LsblkEntry;

    open spec fn view(&self) -> LsblkEntry {
        LsblkEntry {
            path: self.path@,
            name: self.name@,
            size: self.size,
            model: self.model@,
            is_removable: self.is_removable,
        }
    }
}

pub open spec fn record_views(v: Seq<LsblkRecord>) -> Seq<LsblkEntry> {
    v.map_values(|r: LsblkRecord| r@)
}

/// Paths of the recognized whole-disk naming schemes.
pub open spec fn recognized_path(p: Seq<char>) -> bool {
    starts_with(p, "/dev/sd"@) || starts_with(p, "/dev/hd"@) || starts_with(p, "/dev/vd"@)
        || starts_with(p, "/dev/nvme"@) || starts_with(p, "/dev/mmcblk"@)
}

/// Boot and RPMB areas of MMC devices, which are no whole disks.
pub open spec fn pseudo_partition(p: Seq<char>) -> bool {
    contains(p, "boot"@) || contains(p, "rpmb"@)
}

/// The words joined with one space between each two.
pub open spec fn join_spaced(ws: Seq<Seq<char>>) -> Seq<char>
    decreases ws.len(),
{
    if ws.len() == 0 {
        seq![]
    } else if ws.len() == 1 {
        ws[0]
    } else {
        join_spaced(ws.drop_last()) + seq![' '] + ws.last()
    }
}

/// The model: the tokens between the size and the removable flag; with
/// exactly three tokens, the third.
pub open spec fn model_of(parts: Seq<Seq<char>>) -> Seq<char> {
    if parts.len() > 3 {
        join_spaced(parts.subrange(2, parts.len() - 1))
    } else if parts.len() == 3 {
        parts[2]
    } else {
        seq![]
    }
}

/// The disk that the tokens of one listing line describe, if any.
pub open spec fn lsblk_entry(parts: Seq<Seq<char>>) -> Option<LsblkEntry> {
    if parts.len() < 2 || !recognized_path(parts[0]) || pseudo_partition(parts[0]) {
        None
    } else {
        match parse_u64_spec(parts[1]) {
            Some(size) => if size == 0 {
                None
            } else {
                Some(
                    LsblkEntry {
                        path: parts[0],
                        name: last_segment(parts[0]),
                        size,
                        model: model_of(parts),
                        is_removable: parts.last() == "1"@,
                    },
                )
            },
            None => None,
        }
    }
}

/// The disks of a listing, given as its lines, in order.
pub open spec fn lsblk_entries(lines: Seq<Seq<char>>) -> Seq<LsblkEntry>
    decreases lines.len(),
{
    if lines.len() == 0 {
        seq![]
    } else {
        let prev = lsblk_entries(lines.drop_last());
        match lsblk_entry(tokens_of(lines.last())) {
            Some(e) => prev.push(e),
            None => prev,
        }
    }
}

fn join_model(parts: &Vec<String>) -> (r: String)
    requires
        parts@.len() >= 2,
    ensures
        r@ == model_of(views(parts@)),
{
    let n = parts.len();
    let ghost ps = views(parts@);
    if n == 3 {
        return parts[2].clone();
    }
    let mut m = String::new();
    if n < 3 {
        return m;
    }
    let mut k: usize = 2;
    while k < n - 1
        invariant
            n == parts@.len(),
            n > 3,
            ps == views(parts@),
            2 <= k <= n - 1,
            m@ == join_spaced(ps.subrange(2, k as int)),
        decreases n - k,
    {
        assert(ps.subrange(2, k + 1).drop_last() =~= ps.subrange(2, k as int));
        if k > 2 {
            m.append(" ");
            proof {
                reveal_strlit(" ");
            }
        }
        m.append(parts[k].as_str());
        assert(ps[k as int] == parts@[k as int]@);
        if k == 2 {
            assert(m@ =~= join_spaced(ps.subrange(2, 3)));
        } else {
            assert(m@ =~= join_spaced(ps.subrange(2, k + 1)));
        }
        k += 1;
    }
    m
}

/// Reads one disk from the tokens of a listing line: path, size in bytes,
/// model words, removable flag.
pub fn record_from_tokens(parts: &Vec<String>) -> (r: Option<LsblkRecord>)
    ensures
        match r {
            Some(rec) => lsblk_entry(views(parts@)) == Some(rec@),
            None => lsblk_entry(views(parts@)) is None,
        },
{
    let ghost ps = views(parts@);
    if parts.len() < 2 {
        return None;
    }
    let path = parts[0].as_str();
    assert(ps[0] == path@);
    if !text_starts_with(path, "/dev/sd") && !text_starts_with(path, "/dev/hd")
        && !text_starts_with(path, "/dev/vd") && !text_starts_with(path, "/dev/nvme")
        && !text_starts_with(path, "/dev/mmcblk") {
        return None;
    }
    if text_contains(path, "boot") || text_contains(path, "rpmb") {
        return None;
    }
    assert(ps[1] == parts@[1]@);
    let size = match parse_u64(parts[1].as_str()) {
        Some(v) => v,
        None => {
            return None;
        },
    };
    if size == 0 {
        return None;
    }
    let model = join_model(parts);
    let last = parts[parts.len() - 1].as_str();
    assert(ps.last() == last@);
    let is_removable = text_equals(last, "1");
    Some(
        LsblkRecord {
            path: parts[0].clone(),
            name: text_last_segment(path),
            size,
            model,
            is_removable,
        },
    )
}

/// Reads the disks of a block-device listing (one disk per line: path,
/// size in bytes, model, removable flag; no header), skipping every line
/// that does not describe a whole disk.
pub fn parse_lsblk_output(stdout: &str) -> (r: Vec<LsblkRecord>)
    ensures
        record_views(r@) == lsblk_entries(lines_of(stdout@)),
{
    let lines = split_lines(stdout);
    let ghost ls = lines_of(stdout@);
    let mut out: Vec<LsblkRecord> = Vec::new();
    let mut i: usize = 0;
    while i < lines.len()
        invariant
            views(lines@) == ls,
            i <= lines@.len(),
            record_views(out@) == lsblk_entries(ls.subrange(0, i as int)),
        decreases lines@.len() - i,
    {
        let parts = split_tokens(lines[i].as_str());
        assert(ls.subrange(0, i + 1).drop_last() =~= ls.subrange(0, i as int));
        assert(ls[i as int] == lines@[i as int]@);
        match record_from_tokens(&parts) {
            Some(rec) => {
                out.push(rec);
                assert(record_views(out@) =~= lsblk_entries(ls.subrange(0, i + 1)));
            },
            None => {},
        }
        i += 1;
    }
    assert(ls.subrange(0, lines@.len() as int) =~= ls);
    out
}

/// A device is a system disk when its name and a candidate name are one a
/// prefix of the other (`sda` against `sda1`, and the reverse).
pub open spec fn is_system_name(name: Seq<char>, candidates: Seq<Seq<char>>) -> bool {
    exists|i: int|
        0 <= i < candidates.len() && (starts_with(#[trigger] candidates[i], name) || starts_with(
            name,
            candidates[i],
        ))
}

/// Whether the device named `name` is one of the system disks `candidates`.
pub fn matches_system_disk(name: &str, candidates: &Vec<String>) -> (r: bool)
    ensures
        r == is_system_name(name@, views(candidates@)),
{
    let ghost cs = views(candidates@);
    let mut i: usize = 0;
    while i < candidates.len()
        invariant
            cs == views(candidates@),
            i <= candidates@.len(),
            forall|j: int|
                0 <= j < i ==> !(starts_with(#[trigger] cs[j], name@) || starts_with(
                    name@,
                    cs[j],
                )),
        decreases candidates@.len() - i,
    {
        let c = candidates[i].as_str();
        assert(cs[i as int] == c@);
        if text_starts_with(c, name) || text_starts_with(name, c) {
            return true;
        }
        i += 1;
    }
    false
}

/// The transport of the device at `path`: MMC and NVMe by the path alone;
/// otherwise the reported `transport` attribute, trimmed and upper-cased,
/// when not empty; otherwise USB or SATA by the device link's target.
pub open spec fn bus_of(
    path: Seq<char>,
    transport: Option<Seq<char>>,
    link: Option<Seq<char>>,
) -> Option<Seq<char>> {
    if contains(path, "mmcblk"@) {
        Some("MMC"@)
    } else if contains(path, "nvme"@) {
        Some("NVMe"@)
    } else if transport is Some && upper_of(trim_of(transport->0)).len() > 0 {
        Some(upper_of(trim_of(transport->0)))
    } else if link is Some && contains(link->0, "/usb"@) {
        Some("USB"@)
    } else if link is Some && contains(link->0, "/ata"@) {
        Some("SATA"@)
    } else {
        None
    }
}

/// Classifies the transport of the disk at `path`. `transport` is the
/// content of the disk's transport attribute and `link` the target of its
/// device link, where they could be read.
pub fn classify_bus(path: &str, transport: Option<&str>, link: Option<&str>) -> (r: Option<
    String,
>)
    ensures
        opt_view(r) == bus_of(
            path@,
            match transport {
                Some(t) => Some(t@),
                None => None,
            },
            match link {
                Some(l) => Some(l@),
                None => None,
            },
        ),
{
    if text_contains(path, "mmcblk") {
        return Some(String::from_str("MMC"));
    }
    if text_contains(path, "nvme") {
        return Some(String::from_str("NVMe"));
    }
    match transport {
        Some(t) => {
            let u = uppercase(trimmed(t));
            if u.unicode_len() > 0 {
                return Some(u);
            }
        },
        None => {},
    }
    match link {
        Some(l) => {
            if text_contains(l, "/usb") {
                return Some(String::from_str("USB"));
            }
            if text_contains(l, "/ata") {
                return Some(String::from_str("SATA"));
            }
        },
        None => {},
    }
    None
}

/// The device record of a listed disk.
pub open spec fn linux_device(
    e: LsblkEntry,
    candidates: Seq<Seq<char>>,
    bus: Option<Seq<char>>,
) -> DeviceView {
    DeviceView {
        path: e.path,
        name: e.name,
        size: e.size,
        size_formatted: size_text(e.size),
        model: e.model,
        is_removable: e.is_removable,
        is_system: is_system_name(e.name, candidates),
        bus_type: bus,
    }
}

/// Builds the device record of a listed disk, flagging it as a system disk
/// when its name matches one of `system_disks`.
pub fn assemble_device(rec: LsblkRecord, system_disks: &Vec<String>, bus_type: Option<String>) -> (r:
    BlockDevice)
    ensures
        r@ == linux_device(rec@, views(system_disks@), opt_view(bus_type)),
{
    let is_system = matches_system_disk(rec.name.as_str(), system_disks);
    BlockDevice {
        size_formatted: format_size(rec.size),
        path: rec.path,
        name: rec.name,
        size: rec.size,
        model: rec.model,
        is_removable: rec.is_removable,
        is_system,
        bus_type,
    }
}

} // verus!
