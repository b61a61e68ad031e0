//! Choosing the disks to check: which devices are looked at, how devices
//! the system no longer sees are remembered, and how each finds its SCSI
//! information.
use vstd::prelude::*;
use crate::error::BynarError;
use crate::disk_state::State;
use crate::device::{BlockDevice, Device, MediaType, DeviceType, FilesystemType, ScsiInfo};
use crate::paths::{path_file_name, file_name_of};
use crate::text::{is_prefix, starts_with, str_eq, concat2, concat3, decimal, push_u64, opt_view};

verus! {

/// Whether a mount point is one of the system's own: `/`, `/boot` or
/// `/boot/efi`.
pub open spec fn system_mount(m: Seq<char>) -> bool {
    m == "/"@ || m == "/boot"@ || m == "/boot/efi"@
}

fn is_system_mount(m: &str) -> (res: bool)
    ensures
        res == system_mount(m@),
{
    str_eq(m, "/") || str_eq(m, "/boot") || str_eq(m, "/boot/efi")
}

/// The path of partition number `number` of the device named `name`.
pub open spec fn partition_path_of(name: Seq<char>, number: nat) -> Seq<char> {
    "/dev/"@ + name + decimal(number)
}

/// The path of partition number `number` of the device named `name`.
pub fn partition_path(name: &str, number: u64) -> (res: String)
    ensures
        res@ == partition_path_of(name@, number as nat),
{
    let mut p = concat2("/dev/", name);
    push_u64(&mut p, number);
    p
}

/// Whether a device is one to check: not a loop, LVM or RAM device, not a
/// CD/DVD drive (`sr*`), not mounted as a system mount point itself, and
/// none of its partitions mounted as one. `partition_mounts[i]` is where
/// partition `i + 1` is mounted, if anywhere.
pub open spec fn checked_device(b: BlockDevice, partition_mounts: Seq<Option<Seq<char>>>) -> bool {
    &&& b.device.media_type != MediaType::Loopback
    &&& b.device.media_type != MediaType::LVM
    &&& !is_prefix("sr"@, b.device.name@)
    &&& b.device.media_type != MediaType::Ram
    &&& !(b.mount_point matches Some(m) && system_mount(m@))
    &&& forall|i: int| 0 <= i < partition_mounts.len() ==> !(#[trigger] partition_mounts[i] matches Some(m) && system_mount(m))
}

/// Whether a device is one to check.
pub fn is_checked_device(b: &BlockDevice, partition_mounts: &Vec<Option<String>>) -> (res: bool)
    ensures
        res == checked_device(*b, partition_mounts@.map_values(|m: Option<String>| opt_view(m))),
{
    if b.device.media_type == MediaType::Loopback || b.device.media_type == MediaType::LVM
        || starts_with(b.device.name.as_str(), "sr") || b.device.media_type == MediaType::Ram {
        return false;
    }
    match &b.mount_point {
        Some(m) => {
            if is_system_mount(m.as_str()) {
                return false;
            }
        },
        None => {},
    }
    let ghost pm = partition_mounts@.map_values(|m: Option<String>| opt_view(m));
    let mut i: usize = 0;
    while i < partition_mounts.len()
        invariant
            i <= partition_mounts@.len(),
            pm == partition_mounts@.map_values(|m: Option<String>| opt_view(m)),
            forall|j: int| 0 <= j < i ==> !(#[trigger] pm[j] matches Some(m) && system_mount(m)),
        decreases partition_mounts@.len() - i,
    {
        match &partition_mounts[i] {
            Some(m) => {
                if is_system_mount(m.as_str()) {
                    assert(pm[i as int] == Some(m@));
                    return false;
                }
            },
            None => {},
        }
        assert(pm[i as int] == opt_view(partition_mounts@[i as int]));
        i = i + 1;
    }
    true
}

/// The devices to look at: those udev sees, then the mounted devices
/// udev does not see (broken devices still in the mount table).
pub open spec fn merged_devices(devices: Seq<Seq<char>>, mounted: Seq<Seq<char>>) -> Seq<Seq<char>> {
    devices + mounted.filter(|m: Seq<char>| !devices.contains(m))
}

/// The devices to look at.
pub fn merge_mounted_devices(devices: &Vec<String>, mounted: &Vec<String>) -> (res: Vec<String>)
    ensures
        res@.map_values(|s: String| s@) == merged_devices(
            devices@.map_values(|s: String| s@),
            mounted@.map_values(|s: String| s@),
        ),
{
    let ghost dv = devices@.map_values(|s: String| s@);
    let ghost mv = mounted@.map_values(|s: String| s@);
    let ghost keep = |m: Seq<char>| !dv.contains(m);
    let mut res: Vec<String> = Vec::new();
    let mut i: usize = 0;
    while i < devices.len()
        invariant
            i <= devices@.len(),
            dv == devices@.map_values(|s: String| s@),
            res@.map_values(|s: String| s@) == dv.take(i as int),
        decreases devices@.len() - i,
    {
        let ghost before = res@;
        let c = devices[i].clone();
        res.push(c);
        proof {
            assert(dv[i as int] == devices@[i as int]@);
            assert(res@ == before.push(c));
            assert(before.map_values(|s: String| s@) == dv.take(i as int));
            assert(res@.map_values(|s: String| s@) =~= before.map_values(|s: String| s@).push(c@));
            assert(dv.take(i + 1) =~= dv.take(i as int).push(dv[i as int]));
        }
        i = i + 1;
    }
    assert(dv.take(devices@.len() as int) =~= dv);
    let mut j: usize = 0;
    while j < mounted.len()
        invariant
            j <= mounted@.len(),
            dv == devices@.map_values(|s: String| s@),
            mv == mounted@.map_values(|s: String| s@),
            keep == (|m: Seq<char>| !dv.contains(m)),
            res@.map_values(|s: String| s@) == dv + mv.take(j as int).filter(keep),
        decreases mounted@.len() - j,
    {
        let m = mounted[j].as_str();
        let mut known = false;
        let mut k: usize = 0;
        while k < devices.len()
            invariant
                k <= devices@.len(),
                dv == devices@.map_values(|s: String| s@),
                known <==> exists|x: int| 0 <= x < k && dv[x] == m@,
            decreases devices@.len() - k,
        {
            if str_eq(devices[k].as_str(), m) {
                known = true;
            }
            proof {
                assert(dv[k as int] == devices@[k as int]@);
                if known && !(exists|x: int| 0 <= x < k && dv[x] == m@) {
                    assert(dv[k as int] == m@);
                }
            }
            k = k + 1;
        }
        proof {
            assert(known == dv.contains(m@));
            assert(mv.take(j + 1) =~= mv.take(j as int).push(m@));
            mv.take(j as int).lemma_filter_push(m@, keep);
        }
        if !known {
            let ghost before = res@;
            let c = mounted[j].clone();
            res.push(c);
            proof {
                assert(res@.map_values(|s: String| s@) =~= before.map_values(|s: String| s@).push(c@));
                assert(res@.map_values(|s: String| s@) =~= (dv + mv.take(j as int).filter(keep)).push(m@));
            }
        }
        j = j + 1;
    }
    assert(mv.take(mounted@.len() as int) =~= mv);
    res
}

/// Whether a device the database remembers is missing from `devices`.
pub open spec fn device_missing(devices: Seq<BlockDevice>, path: Seq<char>) -> bool {
    forall|i: int| 0 <= i < devices.len() ==> (#[trigger] devices[i]).dev_path@ != path
}

/// Whether no device of `devices` has the path `path`.
pub fn is_device_missing(devices: &Vec<BlockDevice>, path: &str) -> (res: bool)
    ensures
        res == device_missing(devices@, path@),
{
    let mut i: usize = 0;
    while i < devices.len()
        invariant
            i <= devices@.len(),
            forall|j: int| 0 <= j < i ==> (#[trigger] devices@[j]).dev_path@ != path@,
        decreases devices@.len() - i,
    {
        if str_eq(devices[i].dev_path.as_str(), path) {
            return false;
        }
        i = i + 1;
    }
    true
}

/// A device the database remembers but the system no longer sees, and whose
/// repair is not already under way: it is waiting for replacement, with
/// nothing known of it but its name (its path's file name), path and id.
pub fn previous_device(dev_id: u32, device_path: &str, storage_detail_id: u32) -> (res: Result<BlockDevice, BynarError>)
    ensures
        file_name_of(device_path@) matches Some(name) ==> (res matches Ok(b) && b.device.name@ == name
            && b.device.id is None && b.device.media_type == MediaType::Unknown
            && b.device.device_type == DeviceType::Unknown && b.device.capacity == 0
            && b.device.fs_type == FilesystemType::Unknown && b.device.serial_number is None
            && b.dev_path@ == device_path@ && b.device_database_id == Some(dev_id)
            && b.mount_point is None && b.partitions@.len() == 0 && b.state
            == State::WaitingForReplacement && b.storage_detail_id == storage_detail_id
            && b.operation_id is None),
        file_name_of(device_path@) is None ==> (res matches Err(BynarError::Error(m)) && m@
            == "device "@ + device_path@ + " missing filename"@),
{
    let name = match path_file_name(device_path) {
        Some(n) => n,
        None => {
            return Err(BynarError::Error(concat3("device ", device_path, " missing filename")));
        },
    };
    Ok(BlockDevice {
        device: Device {
            id: None,
            name,
            media_type: MediaType::Unknown,
            device_type: DeviceType::Unknown,
            capacity: 0,
            fs_type: FilesystemType::Unknown,
            serial_number: None,
        },
        dev_path: String::from_str(device_path),
        device_database_id: Some(dev_id),
        mount_point: None,
        partitions: Vec::new(),
        scsi_info: ScsiInfo::default_info(),
        state: State::WaitingForReplacement,
        storage_detail_id,
        operation_id: None,
    })
}

/// Whether a SCSI record belongs to the device named `name`: its block
/// device's file name is that name.
pub open spec fn scsi_matches(info: (ScsiInfo, Option<ScsiInfo>), name: Seq<char>) -> bool {
    match info.0.block_device {
        Some(dev) => file_name_of(dev@) == Some(name),
        None => false,
    }
}

/// The index of the first SCSI record belonging to the device named `name`.
pub fn find_scsi_info(scsi_info: &Vec<(ScsiInfo, Option<ScsiInfo>)>, name: &str) -> (res: Option<usize>)
    ensures
        res matches Some(i) ==> i < scsi_info@.len() && scsi_matches(scsi_info@[i as int], name@)
            && forall|j: int| 0 <= j < i ==> !scsi_matches(#[trigger] scsi_info@[j], name@),
        res is None ==> forall|j: int| 0 <= j < scsi_info@.len() ==> !scsi_matches(#[trigger] scsi_info@[j], name@),
{
    let mut i: usize = 0;
    while i < scsi_info.len()
        invariant
            i <= scsi_info@.len(),
            forall|j: int| 0 <= j < i ==> !scsi_matches(#[trigger] scsi_info@[j], name@),
        decreases scsi_info@.len() - i,
    {
        let found = match &scsi_info[i].0.block_device {
            Some(dev) => match path_file_name(dev.as_str()) {
                Some(f) => str_eq(f.as_str(), name),
                None => false,
            },
            None => false,
        };
        if found {
            return Some(i);
        }
        i = i + 1;
    }
    None
}

} // verus!
