//! The normalized device record and the image catalogue's data types.
use vstd::prelude::*;

verus! {

/// A block device (disk) attached to the host.
#[derive(Debug, Clone)]
pub struct BlockDevice {
    /// Device path, e.g. `/dev/sda` or `\\.\PhysicalDrive1`
    pub path: String,
    /// Short device name, e.g. `sda` or `Disk 1`
    pub name: String,
    /// Size in bytes
    pub size: u64,
    /// Human-readable size, e.g. `"32.0 GB"`
    pub size_formatted: String,
    /// Device model or friendly name
    pub model: String,
    /// Whether the medium is meant to be inserted and ejected
    pub is_removable: bool,
    /// Whether the device hosts the running operating system
    pub is_system: bool,
    /// Transport, e.g. `"USB"`, `"SATA"`, `"NVMe"`, `"MMC"`
    pub bus_type: Option<String>,
}

/// The mathematical content of a [`BlockDevice`].
pub struct DeviceView {
    pub path: Seq<char>,
    pub name: Seq<char>,
    pub size: u64,
    pub size_formatted: Seq<char>,
    pub model: Seq<char>,
    pub is_removable: bool,
    pub is_system: bool,
    pub bus_type: Option<Seq<char>>,
}

pub open spec fn opt_view(o: Option<String>) -> Option<Seq<char>> {
    match o {
        Some(s) => Some(s@),
        None => None,
    }
}

impl View for BlockDevice {
    type V = DeviceView;

    open spec fn view(&self) -> DeviceView {
        DeviceView {
            path: self.path@,
            name: self.name@,
            size: self.size,
            size_formatted: self.size_formatted@,
            model: self.model@,
            is_removable: self.is_removable,
            is_system: self.is_system,
            bus_type: opt_view(self.bus_type),
        }
    }
}

pub open spec fn device_views(v: Seq<BlockDevice>) -> Seq<DeviceView> {
    v.map_values(|d: BlockDevice| d@)
}

/// An image as the remote catalogue lists it.
#[derive(Debug, Clone)]
pub struct ArmbianImage {
    pub board_slug: Option<String>,
    pub board_name: Option<String>,
    pub board_vendor: Option<String>,
    pub company_name: Option<String>,
    pub company_logo: Option<String>,
    pub armbian_version: Option<String>,
    pub distro_release: Option<String>,
    pub kernel_branch: Option<String>,
    pub image_variant: Option<String>,
    pub preinstalled_application: Option<String>,
    pub promoted: Option<String>,
    pub file_url: Option<String>,
    pub file_url_sha: Option<String>,
    pub file_extension: Option<String>,
    pub file_size: Option<String>,
    pub download_repository: Option<String>,
    pub redi_url: Option<String>,
    pub platinum_support: Option<String>,
    pub platinum_support_until: Option<String>,
    /// Board support level: "conf", "csc", "eos", "tvb", "wip"
    pub board_support: Option<String>,
}

/// A board, as shown for selection.
#[derive(Debug, Clone)]
pub struct BoardInfo {
    pub slug: String,
    pub name: String,
    pub vendor: String,
    pub vendor_name: String,
    pub vendor_logo: Option<String>,
    pub image_count: usize,
    pub has_standard_support: bool,
    pub has_community_support: bool,
    pub has_platinum_support: bool,
    pub has_eos_support: bool,
    pub has_tvb_support: bool,
    pub has_wip_support: bool,
}

/// An image, as shown for selection.
#[derive(Debug, Clone)]
pub struct ImageInfo {
    pub armbian_version: String,
    pub distro_release: String,
    pub kernel_branch: String,
    pub image_variant: String,
    pub preinstalled_application: String,
    pub promoted: bool,
    pub file_url: String,
    pub file_url_sha: Option<String>,
    pub file_size: u64,
    pub download_repository: String,
}

} // verus!
