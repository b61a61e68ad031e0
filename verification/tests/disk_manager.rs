use bynar::backend::{
    is_journal, is_system_disk, sort_journal_devices, to_op_outcome, BackendType, GlusterBackend, JournalDevice,
    OperationOutcome, SystemDisk,
};
use bynar::error::BynarError;
use bynar::ops::{Op, OpOutcome, OpOutcomeResult, Operation, ResultType};
use bynar::request_map::{
    backend_result, create_req_map, op_no_disk, remove_request_step, safe_to_remove_result, RemoveStep,
    RequestDecision, RequestMap,
};

fn journal(device: &str, num_partitions: Option<u64>) -> JournalDevice {
    JournalDevice { device: device.to_string(), partition_id: None, partition_uuid: None, num_partitions }
}

fn same_journals(a: &[JournalDevice], b: &[JournalDevice]) -> bool {
    a.len() == b.len()
        && a.iter().zip(b.iter()).all(|(x, y)| {
            x.device == y.device
                && x.partition_id == y.partition_id
                && x.partition_uuid == y.partition_uuid
                && x.num_partitions == y.num_partitions
        })
}

#[test]
fn test_journal_sorting() {
    let a = journal("/dev/sda", Some(2));
    let b = journal("/dev/sdb", Some(1));
    let journal_devices = sort_journal_devices(vec![journal("/dev/sda", Some(2)), journal("/dev/sdb", Some(1))]);
    println!("journal_devices: {:?}", journal_devices);
    // Journal devices should be sorted from least to greatest number of partitions
    assert!(same_journals(&journal_devices, &[b, a]));
}

#[test]
fn journal_sort_is_stable_and_unknown_counts_first() {
    let sorted = sort_journal_devices(vec![
        journal("/dev/a", Some(3)),
        journal("/dev/b", None),
        journal("/dev/c", Some(1)),
        journal("/dev/d", Some(3)),
        journal("/dev/e", None),
        journal("/dev/f", Some(1)),
    ]);
    let names: Vec<&str> = sorted.iter().map(|j| j.device.as_str()).collect();
    assert_eq!(names, vec!["/dev/b", "/dev/e", "/dev/c", "/dev/f", "/dev/a", "/dev/d"]);
    assert!(sort_journal_devices(Vec::new()).is_empty());
}

#[test]
fn journal_device_text() {
    let mut j = journal("/dev/sdb", None);
    assert_eq!(j.to_string(), "/dev/sdb");
    j.partition_id = Some(12);
    assert_eq!(j.to_string(), "/dev/sdb12");
}

#[test]
fn system_and_journal_disks() {
    let system = vec![SystemDisk { device: "/dev/sda".to_string() }];
    assert!(is_system_disk(&system, "/dev/sda"));
    assert!(is_system_disk(&system, "/dev//sda"));
    assert!(!is_system_disk(&system, "/dev/sdb"));
    let journals = Some(vec![journal("/dev/nvme0n1", None)]);
    assert!(is_journal(&journals, "/dev/nvme0n1"));
    assert!(!is_journal(&journals, "/dev/sda"));
    assert!(!is_journal(&None, "/dev/sda"));
}

#[test]
fn backend_types() {
    assert_eq!(BackendType::from_str("ceph").unwrap(), BackendType::Ceph);
    assert_eq!(BackendType::from_str("CePh").unwrap(), BackendType::Ceph);
    assert_eq!(BackendType::from_str("GLUSTER").unwrap(), BackendType::Gluster);
    match BackendType::from_str("zfs") {
        Err(e) => assert_eq!(e.to_string(), "Unknown backend type: zfs"),
        Ok(_) => panic!("zfs is no backend"),
    }
    assert_eq!(to_op_outcome(OperationOutcome::Success), OpOutcome::Success);
    assert_eq!(to_op_outcome(OperationOutcome::Skipped), OpOutcome::Skipped);
    assert_eq!(OpOutcome::from(OperationOutcome::SkipRepeat), OpOutcome::SkipRepeat);
    let g = GlusterBackend {};
    assert_eq!(g.add_disk("/dev/sda", None, false).unwrap(), OperationOutcome::Success);
    assert_eq!(g.remove_disk("/dev/sda", false).unwrap(), OperationOutcome::Success);
    assert_eq!(g.safe_to_remove("/dev/sda", false).unwrap(), (OperationOutcome::Success, true));
}

#[test]
fn test_set_outcome_result() {
    let result = backend_result(Op::Add, "/dev/sdc", &Err(BynarError::from_str_msg("Error was set")));
    println!("Error Outcome: {:#?}", result);
    assert_eq!(result.result, ResultType::ERR);
    assert_eq!(result.error_msg, Some("Error was set".to_string()));
    assert_eq!(result.disk, "/dev/sdc");
    let result = backend_result(Op::Add, "/dev/sdc", &Ok(OpOutcome::Success));
    println!("Success Outcome: {:#?}", result);
    assert_eq!(result.result, ResultType::OK);
    assert_eq!(result.get_outcome(), OpOutcome::Success);
    let result = safe_to_remove_result("/dev/sdc", &Ok((OpOutcome::Success, true)));
    println!("Success Outcome: {:#?}", result);
    assert_eq!(result.get_value(), true);
    assert_eq!(result.op_type, Op::SafeToRemove);
}

#[test]
fn one_request_per_disk() {
    let mut map = create_req_map(
        &vec!["/dev/sda".to_string(), "/dev/sr0".to_string(), "/dev/loop3".to_string()],
        &vec!["/dev/sda1".to_string()],
    );
    assert_eq!(map.get("/dev/sda"), Some(None));
    assert_eq!(map.get("/dev/sda1"), Some(None));
    assert_eq!(map.get("/dev/sr0"), None);
    assert_eq!(map.get("/dev/loop3"), None);
    let add = Operation::new(Op::Add, "/dev/sda".to_string());
    assert!(matches!(map.accept_request(&add), RequestDecision::Queue));
    assert!(map.op_running(Op::Remove, "/dev/sda", false));
    match map.accept_request(&Operation::new(Op::Remove, "/dev/sda".to_string())) {
        RequestDecision::Skip(r) => {
            assert_eq!(r.get_outcome(), OpOutcome::SkipRepeat);
            assert_eq!(r.get_value(), false);
            assert_eq!(r.op_type, Op::Remove);
            assert_eq!(r.disk, "/dev/sda");
        }
        _ => panic!("a request is already running on /dev/sda"),
    }
    // the partition is a device of its own
    assert!(matches!(map.accept_request(&Operation::new(Op::Remove, "/dev/sda1".to_string())), RequestDecision::Queue));
    // listing is never blocked and never recorded
    assert!(matches!(map.accept_request(&Operation::new(Op::List, String::new())), RequestDecision::Queue));
    assert!(matches!(map.accept_request(&Operation::new(Op::List, String::new())), RequestDecision::Queue));
    let mut done = OpOutcomeResult::new(Op::Add, "/dev/sda".to_string());
    done.outcome = Some(OpOutcome::Success);
    map.finish_request(&done);
    assert_eq!(map.get("/dev/sda"), Some(None));
    assert!(matches!(map.accept_request(&Operation::new(Op::Remove, "/dev/sda".to_string())), RequestDecision::Queue));
}

#[test]
fn requests_without_disk_are_refused() {
    let mut map = RequestMap::new();
    match map.accept_request(&Operation::new(Op::Add, String::new())) {
        RequestDecision::Refuse(r) => {
            assert_eq!(r.result, ResultType::ERR);
            assert_eq!(r.error_msg, Some("missing operation field in protocol. Ignoring request".to_string()));
        }
        _ => panic!("should be refused"),
    }
    assert!(op_no_disk(&Operation::new(Op::GetCreatedTickets, String::new())).is_none());
    assert!(op_no_disk(&Operation::new(Op::SafeToRemove, "/dev/sdb".to_string())).is_none());
}

#[test]
fn remove_steps() {
    assert!(matches!(remove_request_step("/dev/sda", &Ok((OpOutcome::Success, true))), RemoveStep::RemoveDisk));
    match remove_request_step("/dev/sda", &Ok((OpOutcome::Success, false))) {
        RemoveStep::Respond(r) => {
            assert_eq!(r.result, ResultType::ERR);
            assert_eq!(r.error_msg, Some("Not safe to remove disk".to_string()));
            assert_eq!(r.value, Some(false));
        }
        _ => panic!("not safe"),
    }
    match remove_request_step("/dev/sda", &Ok((OpOutcome::Skipped, true))) {
        RemoveStep::Respond(r) => {
            assert_eq!(r.result, ResultType::OK);
            assert_eq!(r.outcome, Some(OpOutcome::Skipped));
            assert_eq!(r.value, Some(true));
        }
        _ => panic!("skipped"),
    }
    match remove_request_step("/dev/sda", &Err(BynarError::from_str_msg("rados down"))) {
        RemoveStep::Respond(r) => {
            assert_eq!(r.result, ResultType::ERR);
            assert_eq!(r.error_msg, Some("rados down".to_string()));
            assert_eq!(r.outcome, None);
        }
        _ => panic!("error"),
    }
}
