use std::collections::VecDeque;

use bynar::device::{BlockDevice, Device, DeviceType, FilesystemType, MediaType, ScsiInfo, Vendor};
use bynar::disk_state::State;
use bynar::host::{Host, StorageTypeEnum};
use bynar::message_map::MessageMap;
use bynar::ops::{DiskOp, Op, OpOutcome, OpOutcomeResult, Operation, ResultType};
use bynar::paths::create_msg_map;
use bynar::repair_queue::{
    add_disk_to_description, handle_add_disk_res, handle_operation_result, next_queue_action, queue_removal,
    queue_repaired_disk, remove_outcome_notice, ticket_details, ticket_resolved, QueueAction, QueuedRequest,
    ResolutionField,
};

fn host() -> Host {
    Host {
        hostname: "ceph-east-1a".to_string(),
        ip: "10.0.0.1".to_string(),
        region: "east-1".to_string(),
        kernel: "5.4.0".to_string(),
        server_type: "ProLiant".to_string(),
        serial_number: "XYZ".to_string(),
        machine_architecture: "x86_64".to_string(),
        scsi_info: Vec::new(),
        storage_type: StorageTypeEnum::Ceph,
        array_name: None,
        pool_name: None,
    }
}

fn device(path: &str) -> BlockDevice {
    let mut scsi = ScsiInfo::default_info();
    scsi.host = "2".to_string();
    scsi.channel = 0;
    scsi.id = 3;
    scsi.lun = 1;
    scsi.vendor = Vendor::Hp;
    BlockDevice {
        device: Device {
            id: None,
            name: "sdb".to_string(),
            media_type: MediaType::Rotational,
            device_type: DeviceType::Disk,
            capacity: 100,
            fs_type: FilesystemType::Xfs,
            serial_number: Some("S1".to_string()),
        },
        dev_path: path.to_string(),
        device_database_id: Some(4),
        mount_point: None,
        partitions: Vec::new(),
        scsi_info: scsi,
        state: State::WaitingForReplacement,
        storage_detail_id: 1,
        operation_id: Some(9),
    }
}

#[test]
fn ticket_description() {
    let h = host();
    let mut desc = h.failed_disk_description();
    assert_eq!(
        desc,
        "A disk on ceph-east-1a failed. Please replace.\nHostname: ceph-east-1a\nServer type: ProLiant\nServer Serial: XYZ\nMachine Architecture: x86_64\nKernel: 5.4.0"
    );
    add_disk_to_description(&mut desc, "/dev/sdb", &device("/dev/sdb"));
    assert!(desc.ends_with(
        "\nDisk path: /dev/sdb\nDisk serial: S1\nSCSI host: 2, channel: 0 id: 3 lun: 1\nDisk vendor: Hp"
    ));
    let mut d = String::new();
    let mut dev = device("/dev/sdc");
    dev.device.serial_number = None;
    dev.scsi_info.vendor = Vendor::Ata;
    add_disk_to_description(&mut d, "/dev/sdc", &dev);
    assert_eq!(d, "\nDisk path: /dev/sdc\nSCSI host: 2, channel: 0 id: 3 lun: 1\nDisk vendor: None");
}

#[test]
fn removal_is_queued_once() {
    let mut queue: VecDeque<QueuedRequest> = VecDeque::new();
    queue_removal(&mut queue, "/dev/sdb", "desc".to_string(), Some(9));
    assert_eq!(queue.len(), 2);
    assert_eq!(queue[0].0.op_type, Op::SafeToRemove);
    assert_eq!(queue[1].0.op_type, Op::Remove);
    assert_eq!(queue[1].0.disk, "/dev/sdb");
    assert_eq!(queue[1].1, Some("desc".to_string()));
    assert_eq!(queue[1].2, Some(9));
    queue_removal(&mut queue, "/dev/sdb", "desc".to_string(), Some(9));
    assert_eq!(queue.len(), 2);
    queue_removal(&mut queue, "/dev/sdc", "desc".to_string(), None);
    assert_eq!(queue.len(), 4);
    assert_eq!(queue[3].2, Some(0));
}

fn disk_op(op_type: Op, ret: Option<OpOutcomeResult>) -> Option<DiskOp> {
    let mut d = DiskOp::new(&Operation::new(op_type, String::new()), Some("d".to_string()), Some(1));
    d.ret_val = ret;
    Some(d)
}

fn outcome(op_type: Op, o: OpOutcome, value: Option<bool>) -> OpOutcomeResult {
    let mut r = OpOutcomeResult::new(op_type, "/dev/sdb".to_string());
    r.outcome = Some(o);
    r.value = value;
    r
}

#[test]
fn queue_actions() {
    let remove = Operation::new(Op::Remove, "/dev/sdb".to_string());
    assert_eq!(next_queue_action(&remove, &None), QueueAction::Send);
    assert_eq!(next_queue_action(&remove, &disk_op(Op::SafeToRemove, None)), QueueAction::Requeue);
    assert_eq!(
        next_queue_action(&remove, &disk_op(Op::SafeToRemove, Some(outcome(Op::SafeToRemove, OpOutcome::Success, Some(true))))),
        QueueAction::Send
    );
    assert_eq!(
        next_queue_action(&remove, &disk_op(Op::SafeToRemove, Some(outcome(Op::SafeToRemove, OpOutcome::Success, Some(false))))),
        QueueAction::Drop
    );
    let add = Operation::new(Op::Add, "/dev/sdb".to_string());
    assert_eq!(
        next_queue_action(&add, &disk_op(Op::SafeToRemove, Some(outcome(Op::SafeToRemove, OpOutcome::Skipped, None)))),
        QueueAction::Send
    );
}

#[test]
fn add_results_and_notices() {
    assert!(handle_add_disk_res(&outcome(Op::Add, OpOutcome::Success, None)));
    assert!(handle_add_disk_res(&outcome(Op::Add, OpOutcome::Skipped, None)));
    assert!(handle_add_disk_res(&outcome(Op::Add, OpOutcome::SkipRepeat, None)));
    assert!(!handle_add_disk_res(&outcome(Op::Add, OpOutcome::SkipRepeat, Some(false))));
    assert_eq!(
        remove_outcome_notice("/dev/sdb", "h1", &outcome(Op::Remove, OpOutcome::Success, None)),
        "Disk /dev/sdb on host h1 removal successful"
    );
    assert_eq!(
        remove_outcome_notice("/dev/sdb", "h1", &outcome(Op::Remove, OpOutcome::SkipRepeat, Some(false))),
        "Disk /dev/sdb on host h1 currently undergoing another operation, skipping"
    );
    assert_eq!(
        remove_outcome_notice("/dev/sdb", "h1", &outcome(Op::Remove, OpOutcome::SkipRepeat, None)),
        "Disk /dev/sdb on host h1 already removed, skipping."
    );
    assert!(ticket_resolved(ResolutionField::Date));
    assert!(!ticket_resolved(ResolutionField::Null));
    assert!(!ticket_resolved(ResolutionField::Missing));
    assert!(!ticket_resolved(ResolutionField::Other));
}

fn sdb_map() -> MessageMap {
    create_msg_map(&vec!["/dev/sdb".to_string()], &Vec::new())
}

#[test]
fn removal_results_open_a_ticket_when_all_finished() {
    let mut map = sdb_map();
    let op = Operation::new(Op::SafeToRemove, "/dev/sdb".to_string());
    map.add_or_update_map_op("/dev/sdb", "/dev/sdb", Some(DiskOp::new(&op, Some("desc".to_string()), Some(5))), &Vec::new())
        .unwrap();
    let f = handle_operation_result(&mut map, "/dev/sdb", "/dev/sdb", "h1", outcome(Op::SafeToRemove, OpOutcome::Success, Some(false)))
        .unwrap();
    assert!(f.open_ticket);
    assert_eq!(
        f.notice,
        Some("Need to remove disk /dev/sdb but it's not safe on host: h1. I need a human.  Filing a ticket".to_string())
    );
    assert_eq!(ticket_details(&map, "/dev/sdb", "/dev/sdb", "h1").unwrap(), ("desc".to_string(), 5));
    let f = handle_operation_result(&mut map, "/dev/sdb", "/dev/sdb", "h1", outcome(Op::Remove, OpOutcome::Success, None)).unwrap();
    assert!(f.open_ticket);
    assert_eq!(f.notice, Some("Filing a ticket for Host: h1. Drive /dev/sdb needs removal".to_string()));
}

#[test]
fn add_results_clear_the_request() {
    let mut map = sdb_map();
    let op = Operation::new(Op::Add, "/dev/sdb".to_string());
    map.add_or_update_map_op("/dev/sdb", "/dev/sdb", Some(DiskOp::new(&op, Some("T-1".to_string()), None)), &Vec::new())
        .unwrap();
    let f = handle_operation_result(&mut map, "/dev/sdb", "/dev/sdb", "h1", outcome(Op::Add, OpOutcome::Success, None)).unwrap();
    assert_eq!(f.resolve_ticket, Some("T-1".to_string()));
    assert!(map.get_map_op("/dev/sdb", "/dev/sdb").is_none());
    match handle_operation_result(&mut map, "/dev/sdb", "/dev/sdb", "h1", outcome(Op::Add, OpOutcome::Success, None)) {
        Err(e) => assert_eq!(e.to_string(), "Unable to get current operation in the map for /dev/sdb"),
        Ok(_) => panic!("no request is running"),
    }
    let mut failed = outcome(Op::Add, OpOutcome::Success, None);
    failed.result = ResultType::ERR;
    failed.error_msg = Some("disk is gone".to_string());
    match handle_operation_result(&mut map, "/dev/sdb", "/dev/sdb", "h1", failed) {
        Err(e) => assert_eq!(e.to_string(), "disk is gone"),
        Ok(_) => panic!("add failed"),
    }
    match handle_operation_result(&mut map, "/dev/sdb", "/dev/sdb", "h1", outcome(Op::List, OpOutcome::Success, None)) {
        Err(e) => assert_eq!(e.to_string(), "/dev/sdb could not have run this operation!"),
        Ok(_) => panic!("bynar never lists"),
    }
    match ticket_details(&map, "/dev/sdb", "/dev/sdb", "h1") {
        Err(e) => assert_eq!(e.to_string(), "Disk /dev/sdb on host h1 is missing the current operation"),
        Ok(_) => panic!("no request"),
    }
}

#[test]
fn repaired_disks_are_queued_for_adding() {
    let mut queue: VecDeque<QueuedRequest> = VecDeque::new();
    queue_repaired_disk(&mut queue, "/dev/sdb", "42", true);
    assert_eq!(queue.len(), 1);
    assert_eq!(queue[0].0.op_type, Op::Add);
    assert_eq!(queue[0].0.simulate, Some(true));
    assert_eq!(queue[0].1, Some("42".to_string()));
    assert_eq!(queue[0].2, None);
}

#[test]
fn paths_going_with_a_replaced_disk() {
    use_related_paths();
}

fn use_related_paths() {
    let on_disk = vec![true, false, true, true];
    let candidate = vec![true, true, false, true];
    assert_eq!(bynar::repair_queue::related_paths(&on_disk, &candidate), vec![0, 3]);
    assert!(bynar::repair_queue::related_paths(&vec![], &vec![]).is_empty());
}
