//! What the library knows about a block device: the udev and SCSI facts the
//! checks read, held as plain values.
use vstd::prelude::*;
use crate::disk_state::State;

verus! {

/// The kind of media behind a block device.
#[derive(Debug, Clone, Copy, PartialEq, Eq, Structural)]
pub enum MediaType {
    SolidState,
    Rotational,
    Loopback,
    LVM,
    MdRaid,
    NVME,
    Ram,
    Virtual,
    Unknown,
}

/// Whether a block device is a whole disk or a partition.
#[derive(Debug, Clone, Copy, PartialEq, Eq, Structural)]
pub enum DeviceType {
    Disk,
    Partition,
    Unknown,
}

/// The filesystem found on a block device.
#[derive(Debug, Clone, Copy, PartialEq, Eq, Structural)]
pub enum FilesystemType {
    Btrfs,
    Ext2,
    Ext3,
    Ext4,
    Lvm,
    Xfs,
    Zfs,
    Ntfs,
    Vfat,
    Unknown,
}

/// The name a filesystem type goes by in mount tables and tools.
pub open spec fn fs_type_name(t: FilesystemType) -> Seq<char> {
    match t {
        FilesystemType::Btrfs => "btrfs"@,
        FilesystemType::Ext2 => "ext2"@,
        FilesystemType::Ext3 => "ext3"@,
        FilesystemType::Ext4 => "ext4"@,
        FilesystemType::Lvm => "lvm"@,
        FilesystemType::Xfs => "xfs"@,
        FilesystemType::Zfs => "zfs"@,
        FilesystemType::Vfat => "vfat"@,
        FilesystemType::Ntfs => "ntfs"@,
        FilesystemType::Unknown => "unknown"@,
    }
}

impl FilesystemType {
    /// The name of this filesystem type.
    pub fn to_str(&self) -> (res: &'static str)
        ensures
            res@ == fs_type_name(*self),
    {
        match self {
            FilesystemType::Btrfs => "btrfs",
            FilesystemType::Ext2 => "ext2",
            FilesystemType::Ext3 => "ext3",
            FilesystemType::Ext4 => "ext4",
            FilesystemType::Lvm => "lvm",
            FilesystemType::Xfs => "xfs",
            FilesystemType::Zfs => "zfs",
            FilesystemType::Vfat => "vfat",
            FilesystemType::Ntfs => "ntfs",
            FilesystemType::Unknown => "unknown",
        }
    }
}

/// The vendor of a SCSI device.
#[derive(Debug, Clone, Copy, PartialEq, Eq, Structural)]
pub enum Vendor {
    /// Reported as ATA: no particular vendor
    Ata,
    Cisco,
    Hp,
    Lsi,
    Qemu,
    Vbox,
    NECVMWar,
    VMware,
}

/// The state the kernel reports for a SCSI device.
#[derive(Debug, Clone, Copy, PartialEq, Eq, Structural)]
pub enum DeviceState {
    Blocked,
    FailFast,
    Lost,
    Running,
    RunningRta,
}

/// The SCSI peripheral device type.
#[derive(Debug, Clone, Copy, PartialEq, Eq, Structural)]
pub enum ScsiDeviceType {
    DirectAccess,
    SequentialAccess,
    Printer,
    Processor,
    WriteOnce,
    CdRom,
    Scanner,
    Opticalmemory,
    MediumChanger,
    Communications,
    Unknowna,
    Unknownb,
    StorageArray,
    Enclosure,
    SimplifiedDirectAccess,
    OpticalCardReadWriter,
    BridgeController,
    ObjectBasedStorage,
    AutomationDriveInterface,
    SecurityManager,
    ZonedBlock,
    Reserved15,
    Reserved16,
    Reserved17,
    Reserved18,
    Reserved19,
    Reserved1a,
    Reserved1b,
    Reserved1c,
    Reserved1e,
    WellKnownLu,
    NoDevice,
}

/// A block device as udev describes it.
#[derive(Debug)]
pub struct Device {
    /// The filesystem uuid, if one was found
    pub id: Option<String>,
    pub name: String,
    pub media_type: MediaType,
    pub device_type: DeviceType,
    pub capacity: u64,
    pub fs_type: FilesystemType,
    pub serial_number: Option<String>,
}

/// Where a SCSI device sits and what it reports.
#[derive(Debug)]
pub struct ScsiInfo {
    pub block_device: Option<String>,
    pub host: String,
    pub channel: u8,
    pub id: u8,
    pub lun: u8,
    pub vendor: Vendor,
    pub state: Option<DeviceState>,
    pub scsi_type: ScsiDeviceType,
}

impl ScsiInfo {
    /// An empty record, as block-utils defaults it.
    pub fn default_info() -> (res: ScsiInfo)
        ensures
            res.block_device is None,
            res.host@ == Seq::<char>::empty(),
            res.channel == 0 && res.id == 0 && res.lun == 0,
            res.vendor == Vendor::Ata,
            res.state is None,
            res.scsi_type == ScsiDeviceType::NoDevice,
    {
        ScsiInfo {
            block_device: None,
            host: String::new(),
            channel: 0,
            id: 0,
            lun: 0,
            vendor: Vendor::Ata,
            state: None,
            scsi_type: ScsiDeviceType::NoDevice,
        }
    }
}

/// A device under inspection, with what the checks learn about it.
#[derive(Debug)]
pub struct BlockDevice {
    pub device: Device,
    pub dev_path: String,
    /// None means disk is not in the database
    pub device_database_id: Option<u32>,
    pub mount_point: Option<String>,
    /// The ids of the partitions found in the partition table, in order
    pub partitions: Vec<u32>,
    pub scsi_info: ScsiInfo,
    pub state: State,
    pub storage_detail_id: u32,
    pub operation_id: Option<u32>,
}

impl BlockDevice {
    /// Record the id the database gave this device.
    pub fn set_device_database_id(&mut self, device_database_id: u32)
        ensures
            final(self).device_database_id == Some(device_database_id),
            final(self).device == old(self).device,
            final(self).dev_path == old(self).dev_path,
            final(self).mount_point == old(self).mount_point,
            final(self).partitions == old(self).partitions,
            final(self).scsi_info == old(self).scsi_info,
            final(self).state == old(self).state,
            final(self).storage_detail_id == old(self).storage_detail_id,
            final(self).operation_id == old(self).operation_id,
    {
        self.device_database_id = Some(device_database_id);
    }
}

} // verus!
