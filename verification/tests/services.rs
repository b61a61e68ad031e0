use bynar::device::{BlockDevice, Device, DeviceType, FilesystemType, MediaType, ScsiInfo};
use bynar::disk_scan::{find_scsi_info, is_checked_device, is_device_missing, merge_mounted_devices, partition_path, previous_device};
use bynar::disk_state::State;
use bynar::service::{Disk, DiskType, Disks, Empty, Osd, RepairResponse, Result as OpResultMessage, Result_ResultType};

#[test]
fn repair_response_fields() {
    let mut r = RepairResponse::new();
    assert!(!r.has_corrupted());
    assert!(!r.get_corrupted());
    r.set_corrupted(true);
    assert!(r.has_corrupted());
    assert!(r.get_corrupted());
    r.clear_corrupted();
    assert!(!r.has_corrupted());
    r.set_repaired(true);
    r.set_in_progress(false);
    assert!(r.get_repaired());
    assert!(r.has_in_progress());
    assert!(!r.get_in_progress());
    assert_eq!(r.get_tracking_ticket_id(), "");
    r.mut_tracking_ticket_id().push_str("T-9");
    assert_eq!(r.get_tracking_ticket_id(), "T-9");
    assert_eq!(r.take_tracking_ticket_id(), "T-9");
    assert!(!r.has_tracking_ticket_id());
    r.set_mount_path("/mnt".to_string());
    assert_eq!(r.get_mount_path(), "/mnt");
    r.clear_mount_path();
    assert_eq!(r.get_mount_path(), "");
    assert_eq!(r.take_mount_path(), "");
    assert!(!r.has_disk());
    assert_eq!(r.get_disk().get_field_type(), DiskType::SOLID_STATE);
    r.mut_disk().set_dev_path("/dev/sda".to_string());
    assert!(r.has_disk());
    assert_eq!(r.get_disk().get_dev_path(), "/dev/sda");
    let d = r.take_disk();
    assert_eq!(d.get_dev_path(), "/dev/sda");
    assert!(!r.has_disk());
    r.set_disk(Disk::new());
    r.clear_disk();
    assert!(!r.has_disk());
}

#[test]
fn disk_fields() {
    let mut d = Disk::new();
    assert!(!d.has_field_type());
    d.set_field_type(DiskType::ROTATIONAL);
    assert_eq!(d.get_field_type(), DiskType::ROTATIONAL);
    d.clear_field_type();
    assert_eq!(d.get_field_type(), DiskType::SOLID_STATE);
    d.set_serial_number("SN".to_string());
    assert!(d.has_serial_number());
    assert_eq!(d.mut_serial_number().as_str(), "SN");
    d.clear_serial_number();
    assert_eq!(d.get_serial_number(), "");
    assert_eq!(d.take_dev_path(), "");
    d.mut_dev_path().push_str("/dev/sdb");
    assert!(d.has_dev_path());
    d.clear_dev_path();
    assert!(!d.has_dev_path());
    let mut ds = Disks::new();
    assert!(ds.get_disk().is_empty());
    ds.set_disk(vec![Disk::new(), Disk::new()]);
    assert_eq!(ds.get_disk().len(), 2);
    ds.mut_disk().push(Disk::new());
    assert_eq!(ds.take_disk().len(), 3);
    assert!(ds.get_disk().is_empty());
    ds.set_disk(vec![Disk::new()]);
    ds.clear_disk();
    assert!(ds.get_disk().is_empty());
    let _ = Empty::new();
}

#[test]
fn result_fields() {
    let mut r = OpResultMessage::new();
    assert!(!r.has_result());
    assert_eq!(r.get_result(), Result_ResultType::OK);
    r.set_result(Result_ResultType::ERR);
    assert_eq!(r.get_result(), Result_ResultType::ERR);
    r.clear_result();
    assert!(!r.has_result());
    r.set_error_msg("bad".to_string());
    assert!(r.has_error_msg());
    assert_eq!(r.get_error_msg(), "bad");
    assert_eq!(r.take_error_msg(), "bad");
    assert_eq!(r.mut_error_msg().as_str(), "");
    r.clear_error_msg();
    assert!(!r.has_error_msg());
}

fn block(name: &str, media: MediaType, mount: Option<&str>) -> BlockDevice {
    BlockDevice {
        device: Device {
            id: None,
            name: name.to_string(),
            media_type: media,
            device_type: DeviceType::Disk,
            capacity: 1,
            fs_type: FilesystemType::Xfs,
            serial_number: None,
        },
        dev_path: format!("/dev/{}", name),
        device_database_id: None,
        mount_point: mount.map(|m| m.to_string()),
        partitions: Vec::new(),
        scsi_info: ScsiInfo::default_info(),
        state: State::Unscanned,
        storage_detail_id: 1,
        operation_id: None,
    }
}

#[test]
fn devices_to_check() {
    assert!(is_checked_device(&block("sdb", MediaType::Rotational, None), &vec![None, Some("/data".to_string())]));
    assert!(!is_checked_device(&block("loop0", MediaType::Loopback, None), &vec![]));
    assert!(!is_checked_device(&block("dm-0", MediaType::LVM, None), &vec![]));
    assert!(!is_checked_device(&block("sr0", MediaType::Rotational, None), &vec![]));
    assert!(!is_checked_device(&block("ram0", MediaType::Ram, None), &vec![]));
    assert!(!is_checked_device(&block("sda", MediaType::Rotational, Some("/")), &vec![]));
    assert!(!is_checked_device(&block("sda", MediaType::Rotational, None), &vec![None, Some("/boot/efi".to_string())]));
    assert_eq!(partition_path("sda", 2), "/dev/sda2");
}

#[test]
fn devices_udev_lost() {
    let merged = merge_mounted_devices(
        &vec!["/dev/sda".to_string(), "/dev/sdb".to_string()],
        &vec!["/dev/sdb".to_string(), "/dev/sdx".to_string()],
    );
    assert_eq!(merged, vec!["/dev/sda".to_string(), "/dev/sdb".to_string(), "/dev/sdx".to_string()]);
    let known = vec![block("sda", MediaType::Rotational, None)];
    assert!(!is_device_missing(&known, "/dev/sda"));
    assert!(is_device_missing(&known, "/dev/sdq"));
    let b = previous_device(12, "/dev/sdq", 3).unwrap();
    assert_eq!(b.device.name, "sdq");
    assert_eq!(b.state, State::WaitingForReplacement);
    assert_eq!(b.device_database_id, Some(12));
    assert_eq!(previous_device(12, "/", 3).unwrap_err().to_string(), "device / missing filename");
    let mut info = ScsiInfo::default_info();
    info.block_device = Some("/dev/sdq".to_string());
    let infos = vec![(ScsiInfo::default_info(), None), (info, None)];
    assert_eq!(find_scsi_info(&infos, "sdq"), Some(1));
    assert_eq!(find_scsi_info(&infos, "sdz"), None);
}

#[test]
fn osd_message_fields() {
    let mut o = Osd::new();
    assert!(!o.has_fsid() && !o.has_id() && !o.has_block_device());
    assert!(!o.has_active() && !o.has_used_space() && !o.has_total_space());
    assert_eq!(o.get_fsid(), "");
    assert_eq!(o.get_id(), 0);
    assert_eq!(o.get_block_device(), "");
    assert!(!o.get_active());
    assert_eq!(o.get_used_space(), 0);
    assert_eq!(o.get_total_space(), 0);
    o.set_id(12);
    o.set_active(true);
    o.set_used_space(1 << 30);
    o.set_total_space(1 << 40);
    assert_eq!(o.get_id(), 12);
    assert!(o.get_active());
    assert_eq!(o.get_used_space(), 1 << 30);
    assert_eq!(o.get_total_space(), 1 << 40);
    o.clear_id();
    o.clear_active();
    o.clear_used_space();
    o.clear_total_space();
    assert!(!o.has_id() && !o.has_active() && !o.has_used_space() && !o.has_total_space());
    assert_eq!(o.get_id(), 0);
    o.mut_fsid().push_str("3f1e");
    assert!(o.has_fsid());
    assert_eq!(o.get_fsid(), "3f1e");
    assert_eq!(o.take_fsid(), "3f1e");
    assert!(!o.has_fsid());
    assert_eq!(o.take_fsid(), "");
    o.set_fsid("a-b".to_string());
    o.clear_fsid();
    assert_eq!(o.get_fsid(), "");
    o.set_block_device("/dev/sdc".to_string());
    assert_eq!(o.get_block_device(), "/dev/sdc");
    o.mut_block_device().push_str("1");
    assert_eq!(o.take_block_device(), "/dev/sdc1");
    assert!(!o.has_block_device());
    o.set_block_device("/dev/sdd".to_string());
    o.clear_block_device();
    assert_eq!(o.get_block_device(), "");
}

#[test]
fn message_defaults_and_initialization() {
    let d = Disk::default();
    assert!(d.field_type.is_none() && d.dev_path.is_none() && d.serial_number.is_none());
    assert!(!d.is_initialized());
    let mut d = Disk::new();
    d.set_field_type(DiskType::ROTATIONAL);
    assert!(!d.is_initialized());
    d.set_dev_path("/dev/sda".to_string());
    assert!(d.is_initialized());
    let ds = Disks::default();
    assert!(ds.get_disk().is_empty());
    assert!(ds.is_initialized());
    assert!(Disks::new().is_initialized());
    let mut ds = Disks::new();
    ds.set_disk(vec![d, Disk::new()]);
    assert!(!ds.is_initialized());
    let mut o = Osd::default();
    assert!(!o.is_initialized());
    o.set_id(1);
    o.set_active(true);
    o.set_used_space(0);
    o.set_total_space(10);
    assert!(o.is_initialized());
    let mut r = RepairResponse::default();
    assert!(!r.is_initialized());
    r.set_corrupted(false);
    r.set_repaired(false);
    r.set_in_progress(false);
    r.set_tracking_ticket_id("T-1".to_string());
    r.set_disk(Disk::new());
    assert!(!r.is_initialized());
    let mut full = Disk::new();
    full.set_field_type(DiskType::SOLID_STATE);
    full.set_dev_path("/dev/sdb".to_string());
    r.set_disk(full);
    assert!(r.is_initialized());
    let mut m = OpResultMessage::default();
    assert!(!m.is_initialized());
    m.set_result(Result_ResultType::OK);
    assert!(m.is_initialized());
    assert!(Empty::default().is_initialized());
}

#[test]
fn first_journal_device_with_room() {
    use_first_fitting();
}

fn use_first_fitting() {
    assert_eq!(bynar::backend::first_fitting(&vec![false, true, true]), Some(1));
    assert_eq!(bynar::backend::first_fitting(&vec![false, false]), None);
    assert_eq!(bynar::backend::first_fitting(&vec![]), None);
    assert_eq!(bynar::backend::first_fitting(&vec![true]), Some(0));
}
