use bynar::in_progress::{RegisterStep, Registration};
use bynar::device::{BlockDevice, Device, DeviceType, FilesystemType, MediaType, ScsiInfo};
use bynar::disk_state::State;
use bynar::host::{get_default_iface, get_region_from_hostname, is_region_readable, Host, StorageTypeEnum};
use bynar::in_progress::{
    add_disk_detail, add_disk_detail_stmt, add_or_update_operation, add_or_update_operation_detail,
    add_or_update_operation_detail_stmt, add_or_update_operation_stmt, check_single_row_update,
    deregister_from_process_manager, get_smart_result, get_smart_result_stmt, get_state, get_state_stmt, id_from_row,
    operation_detail_type_query, register_to_process_manager_stmts, save_smart_result_stmt, save_state_stmt,
    storage_details_insert_stmt, storage_details_select_stmt, storage_type_stmt, update_region_stmts, DiskInfo,
    HostDetailsMapping, OperationDetail, OperationInfo, OperationStatus, OperationType, Timestamp,
};

fn device(db_id: Option<u32>) -> BlockDevice {
    BlockDevice {
        device: Device {
            id: None,
            name: "sdb".to_string(),
            media_type: MediaType::Rotational,
            device_type: DeviceType::Disk,
            capacity: 1,
            fs_type: FilesystemType::Xfs,
            serial_number: None,
        },
        dev_path: "/dev/sdb".to_string(),
        device_database_id: db_id,
        mount_point: None,
        partitions: Vec::new(),
        scsi_info: ScsiInfo::default_info(),
        state: State::Unscanned,
        storage_detail_id: 3,
        operation_id: None,
    }
}

#[test]
fn disk_detail_statements() {
    let mut d = DiskInfo::new("sdb".to_string(), "/dev/sdb".to_string(), "/mnt/b".to_string(), 3);
    assert_eq!(
        add_disk_detail_stmt(&d),
        "INSERT INTO disks (storage_detail_id, disk_path, disk_name, mount_path) VALUES (3, /dev/sdb, sdb, /mnt/b) RETURNING disk_id"
    );
    d.set_disk_uuid("u-1".to_string());
    assert_eq!(
        add_disk_detail_stmt(&d),
        "INSERT INTO disks (storage_detail_id, disk_path, disk_name, mount_path, disk_uuid) VALUES (3, /dev/sdb, sdb, /mnt/b, u-1) RETURNING disk_id"
    );
    assert!(add_disk_detail(&mut d, Some(17)));
    assert_eq!(d.disk_id, 17);
    assert!(!add_disk_detail(&mut d, None));
    assert_eq!(d.disk_id, 17);
    assert!(add_disk_detail_stmt(&d).starts_with("SELECT disk_id FROM disks WHERE disk_id = 17 AND\n"));
}

#[test]
fn operation_statements() {
    let op = OperationInfo::new(HostDetailsMapping::new(0, 2, 3), 5).unwrap();
    assert_eq!(add_or_update_operation_stmt(&op), None);
    assert_eq!(add_or_update_operation(&op, None), 0);
    let mut op = OperationInfo::new(HostDetailsMapping::new(1, 2, 3), 5).unwrap();
    let start = op.start_time.to_string();
    let stmt = add_or_update_operation_stmt(&op).unwrap();
    assert_eq!(
        stmt,
        format!(
            "INSERT INTO operations (\n                                    region_id, storage_detail_id, entry_id\n                                    start_time, disk_id) VALUES (2,3,1,{}, 5) RETURNING operation_id",
            start
        )
    );
    op.reason = Some("dead".to_string());
    assert!(add_or_update_operation_stmt(&op).unwrap().ends_with(", 5, dead) RETURNING operation_id"));
    assert_eq!(add_or_update_operation(&op, Some(11)), 11);
    op.operation_id = 11;
    let snap = op.snapshot_time.to_string();
    assert_eq!(
        add_or_update_operation_stmt(&op).unwrap(),
        format!("UPDATE operations SET (snapshot_time = {}) WHERE operation_id = 11", snap)
    );
    assert_eq!(add_or_update_operation(&op, None), 11);
}

#[test]
fn operation_detail_statements() {
    let mut detail = OperationDetail::new(4, OperationType::WaitForReplacement).unwrap();
    assert_eq!(
        operation_detail_type_query(&detail),
        Some("SELECT type_id FROM operation_types WHERE\n                                op_name=waitforreplacement".to_string())
    );
    assert_eq!(add_or_update_operation_detail_stmt(&detail, 0), None);
    detail.set_tracking_id(77);
    let stmt = add_or_update_operation_detail_stmt(&detail, 2).unwrap();
    assert!(stmt.starts_with("INSERT INTO operation_details (operation_id, type_id,\n                            status, start_time, snapshot_time, tracking_id ) VALUES (4, 2, pending, "));
    assert!(stmt.ends_with(", 77) RETURNING operation_detail_id"));
    assert!(add_or_update_operation_detail(&mut detail, true, Some(8)));
    assert_eq!(detail.op_detail_id, 8);
    assert_eq!(operation_detail_type_query(&detail), None);
    detail.set_operation_status(OperationStatus::Complete);
    let stmt = add_or_update_operation_detail_stmt(&detail, 0).unwrap();
    assert!(stmt.starts_with("UPDATE operation_details SET (snapshot_time = "));
    assert!(stmt.ends_with(", \n                            status = complete, tracking_id = 77) WHERE operation_detail_id = 8"));
    assert!(add_or_update_operation_detail(&mut detail, false, None));
    assert!(!add_or_update_operation_detail(&mut detail, true, None));
    assert_eq!(OperationType::DiskAdd.to_string(), "diskadd");
    assert_eq!(OperationStatus::InProgress.to_string(), "in_progress");
}

#[test]
fn state_records() {
    assert_eq!(save_state_stmt(&device(Some(4)), State::Good).unwrap(), "UPDATE disks SET state = 'good' WHERE disk_id=4");
    assert_eq!(
        save_state_stmt(&device(None), State::Good).unwrap_err().to_string(),
        "Device sdb for storage detail with id 3 is not in database"
    );
    assert_eq!(
        save_smart_result_stmt(&device(Some(4)), false).unwrap(),
        "UPDATE disks SET smart_passed = false WHERE disk_id=4"
    );
    assert!(check_single_row_update(1).is_ok());
    assert_eq!(
        check_single_row_update(2).unwrap_err().to_string(),
        "Attempt to update more than one device in database. Rolling back."
    );
    assert_eq!(get_state_stmt(&device(Some(4))).unwrap(), "SELECT state FROM disks WHERE disk_id = 4");
    assert_eq!(get_state_stmt(&device(None)).unwrap_err().to_string(), "Device sdb for storage detail 3 is not in DB");
    assert_eq!(get_state(&vec!["corrupt".to_string()]), State::Corrupt);
    assert_eq!(get_state(&vec!["nonsense".to_string()]), State::Unscanned);
    assert_eq!(get_state(&vec![]), State::Unscanned);
    assert_eq!(get_state(&vec!["good".to_string(), "good".to_string()]), State::Unscanned);
    assert_eq!(
        get_smart_result_stmt(&device(Some(4))).unwrap(),
        "SELECT smart_passed FROM disks WHERE disk_id = 4"
    );
    assert!(get_smart_result(&vec![true]));
    assert!(!get_smart_result(&vec![true, true]));
    assert!(!get_smart_result(&vec![]));
}

fn host() -> Host {
    Host {
        hostname: "ceph-east-1a".to_string(),
        ip: "10.0.0.1".to_string(),
        region: "east-1".to_string(),
        kernel: "5.4.0".to_string(),
        server_type: "ProLiant".to_string(),
        serial_number: "XYZ".to_string(),
        machine_architecture: "x86_64".to_string(),
        scsi_info: Vec::new(),
        storage_type: StorageTypeEnum::Ceph,
        array_name: Some("arr".to_string()),
        pool_name: None,
    }
}

#[test]
fn host_statements() {
    let (select, update, reselect, insert) = register_to_process_manager_stmts(42, "10.0.0.1");
    assert_eq!(select, "SELECT entry_id FROM process_manager WHERE\n    pid=42 AND ip='10.0.0.1'");
    assert_eq!(update, "UPDATE process_manager SET status='idle'\n           WHERE pid=42 AND ip='10.0.0.1'");
    assert_eq!(reselect, "SELECT entry_id FROM process_manager WHERE pid\n        = 42 AND ip = '10.0.0.1'");
    assert_eq!(
        insert,
        "INSERT INTO process_manager (pid, ip, status)\n                            VALUES (42, '10.0.0.1', 'idle') RETURNING entry_id"
    );
    assert_eq!(id_from_row(Some(5)), 5);
    assert_eq!(id_from_row(None), 0);
    let (q, i) = update_region_stmts("east-1");
    assert_eq!(q, "SELECT region_id FROM regions WHERE region_name = 'east-1'");
    assert_eq!(i, "INSERT INTO regions (region_name)\n                            VALUES ('east-1') RETURNING region_id");
    let h = host();
    assert_eq!(storage_type_stmt(&h), "SELECT storage_id FROM storage_types WHERE storage_type='ceph'");
    assert_eq!(
        storage_details_select_stmt(1, 2, &h),
        "SELECT detail_id FROM storage_details WHERE storage_id = 1\n            AND region_id = 2 AND hostname = 'ceph-east-1a'"
    );
    assert_eq!(
        storage_details_insert_stmt(1, 2, &h),
        "INSERT INTO storage_details\n            (storage_id, region_id, hostname, name_key1) VALUES (1, 2, 'ceph-east-1a', 'arr') RETURNING detail_id"
    );
    assert_eq!(deregister_from_process_manager(4242, "10.0.0.5"), "DELETE FROM process_manager WHERE pid=4242 AND ip='10.0.0.5'");
}

#[test]
fn regions_from_hostnames() {
    assert_eq!(get_region_from_hostname("ceph-east-1a").unwrap(), "east-1");
    assert_eq!(get_region_from_hostname("ceph-west-2b-07").unwrap(), "west-2");
    assert_eq!(get_region_from_hostname("node-lab").unwrap(), "lab-");
    assert_eq!(get_region_from_hostname("localhost").unwrap(), "test-region");
    assert_eq!(StorageTypeEnum::Gluster.to_string(), "gluster");
}

#[test]
fn default_interface() {
    let lines = vec![
        vec!["Iface".to_string(), "Destination".to_string(), "Gateway".to_string()],
        vec!["eth1".to_string(), "0000FEA9".to_string(), "00000000".to_string()],
        vec!["eth0".to_string(), "00000000".to_string(), "0100000A".to_string()],
    ];
    assert_eq!(get_default_iface(&lines).unwrap(), "eth0");
    assert_eq!(get_default_iface(&lines[..2].to_vec()).unwrap_err().to_string(), "No default interface found");
}

#[test]
fn timestamps() {
    let t = Timestamp::from_parts(1431648000, 0).unwrap();
    assert_eq!(t.to_string(), "2015-05-15 00:00:00 UTC");
    assert!(Timestamp::from_parts(i64::MAX, 0).is_none());
}

#[test]
fn region_readable_names() {
    assert!(is_region_readable("ceph-east-1a"));
    assert!(is_region_readable("localhost"));
    assert!(is_region_readable("ceph-east"));
    assert!(!is_region_readable("ceph-east-"));
    assert!(!is_region_readable("ceph-east--x"));
    assert!(!is_region_readable("ceph-east-é1"));
}

#[test]
fn saved_state_reads_back() {
    for s in [State::Good, State::Fail, State::Unscanned, State::WaitingForReplacement, State::Corrupt] {
        assert_eq!(get_state(&vec![s.to_string()]), s);
    }
    assert_eq!(get_smart_result(&vec![true]), true);
}

#[test]
fn negative_numbers_in_decimal() {
    assert_eq!(bynar::text::i64_to_string(i64::MIN), "-9223372036854775808");
    assert_eq!(bynar::text::i64_to_string(-7), "-7");
    assert_eq!(bynar::text::i64_to_string(0), "0");
}

#[test]
fn registration_steps() {
    // a known process, region and storage details
    let mut r = Registration::start();
    assert_eq!(r.step, RegisterStep::SelectProcess);
    r = r.next(Some(3));
    assert_eq!(r.step, RegisterStep::UpdateProcess);
    r = r.next(None);
    assert_eq!(r.step, RegisterStep::ReselectProcess);
    r = r.next(Some(3));
    assert_eq!((r.step, r.entry_id), (RegisterStep::SelectRegion, 3));
    r = r.next(Some(5));
    assert_eq!((r.step, r.region_id), (RegisterStep::SelectStorageType, 5));
    r = r.next(Some(2));
    assert_eq!(r.step, RegisterStep::SelectStorageDetail(2));
    r = r.next(Some(9));
    assert_eq!((r.step, r.storage_detail_id), (RegisterStep::Done, 9));
    assert!(r.succeeded());
    assert_eq!(r.next(Some(1)), r);
    // everything new
    let mut r = Registration::start().next(None);
    assert_eq!(r.step, RegisterStep::InsertProcess);
    r = r.next(Some(4)).next(None);
    assert_eq!(r.step, RegisterStep::InsertRegion);
    r = r.next(Some(6)).next(Some(1)).next(None);
    assert_eq!(r.step, RegisterStep::InsertStorageDetail(1));
    r = r.next(Some(8));
    assert_eq!((r.entry_id, r.region_id, r.storage_detail_id, r.step), (4, 6, 8, RegisterStep::Done));
    // no storage type: the details stay unknown
    let r = Registration::start().next(None).next(Some(4)).next(Some(6)).next(None);
    assert_eq!((r.step, r.storage_detail_id), (RegisterStep::Done, 0));
    assert!(!r.succeeded());
}

#[test]
fn clock_readings_as_times() {
    use_clock();
}

fn use_clock() {
    assert!(bynar::in_progress::Timestamp::from_epoch(None).is_none());
    assert!(bynar::in_progress::Timestamp::from_epoch(Some((u64::MAX, 0))).is_none());
    let t = bynar::in_progress::Timestamp::from_epoch(Some((0, 0))).unwrap();
    assert_eq!(t.to_string(), "1970-01-01 00:00:00 UTC");
    let t = bynar::in_progress::Timestamp::from_epoch(Some((86400, 500))).unwrap();
    assert_eq!(t.to_string(), "1970-01-02 00:00:00.000000500 UTC");
    assert!(bynar::in_progress::Timestamp::now().is_some());
}
