//! Reading the results of the filesystem and SMART tools: which tool checks a
//! filesystem, and what each exit code means.
use vstd::prelude::*;
use crate::error::BynarError;
use crate::device::{FilesystemType, ScsiInfo, ScsiDeviceType, Vendor};
use crate::text::{concat2, i64_to_string, signed_decimal};

verus! {

/// What a filesystem check found.
#[derive(Debug, Clone, Copy, PartialEq, Eq, Structural)]
pub enum Fsck {
    Clean,
    Corrupt,
}

/// The tool that checks or repairs a filesystem.
#[derive(Debug, Clone, Copy, PartialEq, Eq, Structural)]
pub enum FsTool {
    /// `e2fsck`
    Ext,
    /// The LVM library
    Lvm,
    /// `xfs_repair`
    Xfs,
}

/// An error carrying exactly the message `m`.
pub open spec fn is_error(r: BynarError, m: Seq<char>) -> bool {
    r matches BynarError::Error(s) && s@ == m
}

/// The tool that checks a filesystem of the given type, if there is one.
pub open spec fn check_tool_for(fs: FilesystemType) -> Option<FsTool> {
    match fs {
        FilesystemType::Ext2 | FilesystemType::Ext3 | FilesystemType::Ext4 => Some(FsTool::Ext),
        FilesystemType::Lvm => Some(FsTool::Lvm),
        FilesystemType::Xfs => Some(FsTool::Xfs),
        _ => None,
    }
}

/// The tool that repairs a filesystem of the given type, if there is one.
pub open spec fn repair_tool_for(fs: FilesystemType) -> Option<FsTool> {
    match fs {
        FilesystemType::Ext2 | FilesystemType::Ext3 | FilesystemType::Ext4 => Some(FsTool::Ext),
        FilesystemType::Xfs => Some(FsTool::Xfs),
        _ => None,
    }
}

/// The tool to check a filesystem with; other filesystems are refused.
pub fn check_filesystem(filesystem_type: &FilesystemType) -> (res: Result<FsTool, BynarError>)
    ensures
        check_tool_for(*filesystem_type) matches Some(t) ==> res == Ok::<FsTool, BynarError>(t),
        check_tool_for(*filesystem_type) is None ==> (res matches Err(e) && is_error(
            e,
            "Unknown filesystem detected"@,
        )),
{
    match filesystem_type {
        FilesystemType::Ext2 | FilesystemType::Ext3 | FilesystemType::Ext4 => Ok(FsTool::Ext),
        FilesystemType::Lvm => Ok(FsTool::Lvm),
        FilesystemType::Xfs => Ok(FsTool::Xfs),
        _ => Err(BynarError::from_str_msg("Unknown filesystem detected")),
    }
}

/// The tool to repair a filesystem with; other filesystems are refused.
pub fn repair_filesystem(filesystem_type: &FilesystemType) -> (res: Result<FsTool, BynarError>)
    ensures
        repair_tool_for(*filesystem_type) matches Some(t) ==> res == Ok::<FsTool, BynarError>(t),
        repair_tool_for(*filesystem_type) is None ==> (res matches Err(e) && is_error(
            e,
            "Unknown filesystem detected"@,
        )),
{
    match filesystem_type {
        FilesystemType::Ext2 | FilesystemType::Ext3 | FilesystemType::Ext4 => Ok(FsTool::Ext),
        FilesystemType::Xfs => Ok(FsTool::Xfs),
        _ => Err(BynarError::from_str_msg("Unknown filesystem detected")),
    }
}

/// An error whose message is `prefix` followed by `code` in decimal.
fn code_error(prefix: &str, code: i32) -> (res: BynarError)
    ensures
        is_error(res, prefix@ + signed_decimal(code as int)),
{
    let digits = i64_to_string(code as i64);
    BynarError::Error(concat2(prefix, digits.as_str()))
}

/// What `xfs_repair -n` exiting with `code` means (`None`: killed by a
/// signal): 0 clean, 1 corrupt, anything else an error.
pub fn check_xfs(code: Option<i32>) -> (res: Result<Fsck, BynarError>)
    ensures
        code == Some(0i32) ==> res == Ok::<Fsck, BynarError>(Fsck::Clean),
        code == Some(1i32) ==> res == Ok::<Fsck, BynarError>(Fsck::Corrupt),
        code matches Some(c) ==> (c != 0 && c != 1 ==> (res matches Err(e) && is_error(
            e,
            "xfs_repair failed with code: "@ + signed_decimal(c as int),
        ))),
        code is None ==> (res matches Err(e) && is_error(e, "xfs_repair terminated by signal"@)),
{
    match code {
        Some(c) => {
            if c == 0 {
                Ok(Fsck::Clean)
            } else if c == 1 {
                Ok(Fsck::Corrupt)
            } else {
                Err(code_error("xfs_repair failed with code: ", c))
            }
        },
        None => Err(BynarError::from_str_msg("xfs_repair terminated by signal")),
    }
}

/// What `xfs_repair` exiting with `code` means: only 0 is a repair.
pub fn repair_xfs(code: Option<i32>) -> (res: Result<(), BynarError>)
    ensures
        code == Some(0i32) ==> res is Ok,
        code matches Some(c) ==> (c != 0 ==> (res matches Err(e) && is_error(e, "xfs_repair failed"@))),
        code is None ==> (res matches Err(e) && is_error(e, "e2fsck terminated by signal"@)),
{
    match code {
        Some(c) => {
            if c == 0 {
                Ok(())
            } else {
                Err(BynarError::from_str_msg("xfs_repair failed"))
            }
        },
        None => Err(BynarError::from_str_msg("e2fsck terminated by signal")),
    }
}

/// What `e2fsck -n` exiting with `code` means: 0 clean, 4 errors left
/// uncorrected, anything else an error.
pub fn check_ext(code: Option<i32>) -> (res: Result<Fsck, BynarError>)
    ensures
        code == Some(0i32) ==> res == Ok::<Fsck, BynarError>(Fsck::Clean),
        code == Some(4i32) ==> res == Ok::<Fsck, BynarError>(Fsck::Corrupt),
        code matches Some(c) ==> (c != 0 && c != 4 ==> (res matches Err(e) && is_error(
            e,
            "e2fsck returned error code: "@ + signed_decimal(c as int),
        ))),
        code is None ==> (res matches Err(e) && is_error(e, "e2fsck terminated by signal"@)),
{
    match code {
        Some(c) => {
            if c == 0 {
                Ok(Fsck::Clean)
            } else if c == 4 {
                Ok(Fsck::Corrupt)
            } else {
                Err(code_error("e2fsck returned error code: ", c))
            }
        },
        None => Err(BynarError::from_str_msg("e2fsck terminated by signal")),
    }
}

/// What `e2fsck -p` exiting with `code` means: 0, 1 and 2 are repairs.
pub fn repair_ext(code: Option<i32>) -> (res: Result<(), BynarError>)
    ensures
        code matches Some(c) ==> (0 <= c <= 2 ==> res is Ok),
        code matches Some(c) ==> (!(0 <= c <= 2) ==> (res matches Err(e) && is_error(
            e,
            "e2fsck returned error code: "@ + signed_decimal(c as int),
        ))),
        code is None ==> (res matches Err(e) && is_error(e, "e2fsck terminated by signal"@)),
{
    match code {
        Some(c) => {
            if 0 <= c && c <= 2 {
                Ok(())
            } else {
                Err(code_error("e2fsck returned error code: ", c))
            }
        },
        None => Err(BynarError::from_str_msg("e2fsck terminated by signal")),
    }
}

/// What `smartctl -s on` exiting with `code` means: only 0 lets the health
/// scan run.
pub fn smartctl_enabled(code: Option<i32>) -> (res: Result<(), BynarError>)
    ensures
        code == Some(0i32) ==> res is Ok,
        code matches Some(c) ==> (c != 0 ==> (res matches Err(e) && is_error(
            e,
            "smartctl could not enable smart checks"@,
        ))),
        code is None ==> (res matches Err(e) && is_error(e, "smartctl terminated by signal"@)),
{
    match code {
        Some(c) => {
            if c == 0 {
                Ok(())
            } else {
                Err(BynarError::from_str_msg("smartctl could not enable smart checks"))
            }
        },
        None => Err(BynarError::from_str_msg("smartctl terminated by signal")),
    }
}

/// What `smartctl -H` exiting with `code` means: healthy exactly on 0.
pub fn smartctl_health(code: Option<i32>) -> (res: Result<bool, BynarError>)
    ensures
        code matches Some(c) ==> res == Ok::<bool, BynarError>(c == 0),
        code is None ==> (res matches Err(e) && is_error(e, "smartctl terminated by signal"@)),
{
    match code {
        Some(c) => Ok(c == 0),
        None => Err(BynarError::from_str_msg("smartctl terminated by signal")),
    }
}

/// Whether a device sits behind a RAID controller whose disks can be
/// inspected, and the controller's vendor: only HP controllers can be.
pub open spec fn raid_backing(scsi_info: Option<(ScsiInfo, Option<ScsiInfo>)>) -> (bool, Vendor) {
    match scsi_info {
        Some((_, Some(host))) => {
            if host.scsi_type == ScsiDeviceType::StorageArray || host.scsi_type
                == ScsiDeviceType::Enclosure {
                if host.vendor == Vendor::Hp {
                    (true, Vendor::Hp)
                } else {
                    (false, host.vendor)
                }
            } else {
                (false, Vendor::Ata)
            }
        },
        _ => (false, Vendor::Ata),
    }
}

/// Whether the device sits behind an HP RAID controller, with the vendor of
/// the controller it sits behind.
pub fn is_raid_backed(scsi_info: &Option<(ScsiInfo, Option<ScsiInfo>)>) -> (res: (bool, Vendor))
    ensures
        res == raid_backing(*scsi_info),
{
    match scsi_info {
        Some(info) => match &info.1 {
            Some(host) => {
                if host.scsi_type == ScsiDeviceType::StorageArray || host.scsi_type
                    == ScsiDeviceType::Enclosure {
                    if host.vendor == Vendor::Hp {
                        (true, Vendor::Hp)
                    } else {
                        (false, host.vendor)
                    }
                } else {
                    (false, Vendor::Ata)
                }
            },
            None => (false, Vendor::Ata),
        },
        None => (false, Vendor::Ata),
    }
}

} // verus!
