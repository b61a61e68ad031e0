use bynar::message_map::{DiskOps, MessageMap};
use bynar::ops::{DiskOp, Op, OpOutcome, OpOutcomeResult, Operation, ResultType};
use bynar::paths::{create_msg_map, get_request_keys, is_tracked_block_device, strip_partition_number};
use bynar::path_order::sorted_unique_indices;
use bynar::disk_state::State;
use bynar::repair_queue::is_replacement_candidate;

fn get_devices() -> Vec<String> {
    vec!["/dev/sda".to_string(), "/dev/sdb".to_string(), "/dev/sdc".to_string(), "/dev/sdd".to_string()]
}

fn get_partitions() -> Vec<String> {
    vec![
        "/dev/sda1".to_string(),
        "/dev/sda2".to_string(),
        "/dev/sdc1".to_string(),
        "/dev/sdd1".to_string(),
        "/dev/sdd2".to_string(),
        "/dev/sdd3".to_string(),
    ]
}

fn default_op() -> Operation {
    Operation::new(Op::Add, String::new())
}

fn disk_len(map: &MessageMap, disk: &str) -> usize {
    map.get_disk_map_op(disk, disk).unwrap().len()
}

fn has_path(map: &MessageMap, disk: &str, path: &str) -> bool {
    map.get_disk_map_op(disk, disk).unwrap().contains_key(path)
}

#[test]
fn test_filter_block_devices() {
    let dev = vec![
        "/dev/sda".to_string(),
        "/dev/loop0".to_string(),
        "/dev/sr0".to_string(),
        "/dev/nvme0n1".to_string(),
        "/".to_string(),
    ];
    println!("Devices before filtering: \n{:#?}", dev);
    let devices: Vec<String> = dev.into_iter().filter(|b| is_tracked_block_device(b)).collect();
    println!("Devices after filtering: \n{:#?}", devices);
    assert_eq!(
        None,
        devices.iter().find(|b| {
            let name = std::path::Path::new(b.as_str()).file_name();
            match name {
                Some(p) => p.to_string_lossy().starts_with("loop") || p.to_string_lossy().starts_with("sr"),
                None => true,
            }
        })
    );
    assert_eq!(devices, vec!["/dev/sda".to_string(), "/dev/nvme0n1".to_string()]);
}

#[test]
fn test_create_msg_map_no_partitions() {
    let devices: Vec<String> = vec!["/dev/sda".to_string(), "/dev/loop1".to_string(), "/dev/sdb".to_string()]
        .into_iter()
        .filter(|b| is_tracked_block_device(b))
        .collect();
    println!("List of devices: \n{:#?}", devices);
    let map = create_msg_map(&devices, &Vec::new());
    for path in &devices {
        assert!(map.contains_disk(path));
        assert_eq!(1, disk_len(&map, path));
        assert!(has_path(&map, path, path));
    }
}

fn check_four_disks(map: &MessageMap) {
    let sda_map = ["/dev/sda", "/dev/sda1", "/dev/sda2"];
    let sdb_map = ["/dev/sdb"];
    let sdc_map = ["/dev/sdc", "/dev/sdc1"];
    let sdd_map = ["/dev/sdd", "/dev/sdd1", "/dev/sdd2", "/dev/sdd3"];
    assert!(map.contains_disk("/dev/sda"));
    assert_eq!(3, disk_len(map, "/dev/sda"));
    sda_map.iter().for_each(|p| assert!(has_path(map, "/dev/sda", p)));
    assert!(map.contains_disk("/dev/sdb"));
    assert_eq!(1, disk_len(map, "/dev/sdb"));
    sdb_map.iter().for_each(|p| assert!(has_path(map, "/dev/sdb", p)));
    assert!(map.contains_disk("/dev/sdc"));
    assert_eq!(2, disk_len(map, "/dev/sdc"));
    sdc_map.iter().for_each(|p| assert!(has_path(map, "/dev/sdc", p)));
    assert!(map.contains_disk("/dev/sdd"));
    assert_eq!(4, disk_len(map, "/dev/sdd"));
    sdd_map.iter().for_each(|p| assert!(has_path(map, "/dev/sdd", p)));
}

#[test]
fn test_create_msg_map_with_partitions() {
    let devices = get_devices();
    println!("List of devices: \n{:#?}", devices);
    let partitions: Vec<(String, Option<bool>)> = get_partitions().into_iter().map(|p| (p, None)).collect();
    println!("List of partitions: \n{:#?}", partitions);
    let map = create_msg_map(&devices, &partitions);
    assert_eq!(4, map.len());
    check_four_disks(&map);
}

#[test]
fn test_create_msg_map_with_db() {
    let devices = get_devices();
    println!("List of devices: \n{:#?}", devices);
    let db_devices: Vec<(String, Option<bool>)> = [
        "/dev/sda1", "/dev/sda2", "/dev/sdc", "/dev/sdc1", "/dev/sdd1", "/dev/sdd2", "/dev/sdd3",
    ]
    .iter()
    .map(|p| (p.to_string(), None))
    .collect();
    let map = create_msg_map(&devices, &db_devices);
    println!("Created map with {} disks", map.len());
    // /dev/sdc is both a block device and a database disk: it is one entry
    assert_eq!(4, map.len());
    check_four_disks(&map);
}

fn empty_sda_map() -> MessageMap {
    create_msg_map(&vec!["/dev/sda".to_string()], &Vec::new())
}

#[test]
fn test_add_or_update_map_op_partition_add() {
    let mut map = empty_sda_map();
    let disk_op = DiskOp::new(&default_op(), Some("test".to_string()), None);
    assert!(map.get_map_op("/dev/sda", "/dev/sda1").is_none());
    assert!(!has_path(&map, "/dev/sda", "/dev/sda1"));
    let prev = map.add_or_update_map_op("/dev/sda", "/dev/sda1", Some(disk_op), &Vec::new()).unwrap();
    assert!(prev.is_none());
    assert!(map.get_map_op("/dev/sda", "/dev/sda1").is_some());
}

#[test]
fn test_add_or_update_map_op_partition_update() {
    let mut map = empty_sda_map();
    let remove = Operation::new(Op::Remove, String::new());
    let disk_op = DiskOp::new(&remove, Some("test update".to_string()), Some(0));
    map.add_or_update_map_op("/dev/sda", "/dev/sda1", Some(disk_op), &Vec::new()).unwrap();
    let disk_op = DiskOp::new(&default_op(), Some("test".to_string()), None);
    assert!(map.get_map_op("/dev/sda", "/dev/sda1").unwrap().op_type == Op::Remove);
    let prev = map.add_or_update_map_op("/dev/sda", "/dev/sda1", Some(disk_op), &Vec::new()).unwrap();
    assert!(prev.unwrap().op_type == Op::Remove);
    assert!(map.get_map_op("/dev/sda", "/dev/sda1").unwrap().op_type == Op::Add);
}

#[test]
fn test_add_or_update_map_op_partition_insert() {
    let mut map = empty_sda_map();
    let disk_op = DiskOp::new(&default_op(), Some("test".to_string()), None);
    assert!(!map.contains_disk("/dev/sdb"));
    let partitions = vec!["/dev/sdb1".to_string(), "/dev/sdb2".to_string()];
    map.add_or_update_map_op("/dev/sdb", "/dev/sdb1", Some(disk_op), &partitions).unwrap();
    assert!(map.contains_disk("/dev/sdb"));
    assert!(map.get_map_op("/dev/sdb", "/dev/sdb1").is_some());
    assert!(has_path(&map, "/dev/sdb", "/dev/sdb2"));
    assert!(map.get_map_op("/dev/sdb", "/dev/sdb2").is_none());
}

#[test]
fn test_add_or_update_map_op_parent_error() {
    // a disk entry whose own path is missing
    let mut map = MessageMap::new();
    map.insert_disk("/dev/sda", DiskOps::new());
    assert!(map.contains_disk("/dev/sda"));
    assert!(!has_path(&map, "/dev/sda", "/dev/sda"));
    let disk_op = DiskOp::new(&default_op(), Some("test".to_string()), None);
    match map.add_or_update_map_op("/dev/sda", "/dev/sda", Some(disk_op), &Vec::new()) {
        Err(e) => assert_eq!(
            e.to_string(),
            "Map is missing the disk entry but disk /dev/sda exists in the map"
        ),
        Ok(_) => panic!("These should be equivalent..."),
    }
}

#[test]
fn test_add_or_update_map_op_parent_update() {
    let mut map = empty_sda_map();
    let remove = Operation::new(Op::Remove, String::new());
    let disk_op = DiskOp::new(&remove, Some("test update".to_string()), Some(0));
    map.add_or_update_map_op("/dev/sda", "/dev/sda", Some(disk_op), &Vec::new()).unwrap();
    assert!(map.get_map_op("/dev/sda", "/dev/sda").unwrap().op_type == Op::Remove);
    let disk_op = DiskOp::new(&default_op(), Some("test".to_string()), None);
    map.add_or_update_map_op("/dev/sda", "/dev/sda", Some(disk_op), &Vec::new()).unwrap();
    assert!(map.get_map_op("/dev/sda", "/dev/sda").unwrap().op_type == Op::Add);
}

#[test]
fn test_add_or_update_map_op_parent_insert() {
    let mut map = empty_sda_map();
    let disk_op = DiskOp::new(&default_op(), Some("test".to_string()), None);
    assert!(!map.contains_disk("/dev/sdb"));
    let partitions = vec!["/dev/sdb1".to_string(), "/dev/sdb2".to_string()];
    map.add_or_update_map_op("/dev/sdb", "/dev/sdb", Some(disk_op), &partitions).unwrap();
    assert!(map.contains_disk("/dev/sdb"));
    assert!(map.get_map_op("/dev/sdb", "/dev/sdb").is_some());
    assert!(has_path(&map, "/dev/sdb", "/dev/sdb1"));
}

#[test]
fn test_get_request_keys_deleted() {
    assert_eq!("/dev/sdc".to_string(), strip_partition_number("/dev/sdc2"));
    assert_eq!("/dev/hda".to_string(), strip_partition_number("/dev/hda12"));
    assert_eq!("/dev/nvme0n1p".to_string(), strip_partition_number("/dev/nvme0n1p3"));
    // a deleted partition whose disk exists is looked up under that disk
    let keys = get_request_keys("/dev/sdc2", None, false, true).unwrap();
    assert_eq!(keys, ("/dev/sdc".to_string(), "/dev/sdc2".to_string()));
    // a missing disk named like one is looked up under itself
    let keys = get_request_keys("/dev/hda12", None, false, false).unwrap();
    assert_eq!(keys, ("/dev/hda12".to_string(), "/dev/hda12".to_string()));
    match get_request_keys("/tmp/x1", None, false, false) {
        Err(e) => assert_eq!(e.to_string(), "Path /tmp/x1 does not exist, nor does its parent."),
        Ok(_) => panic!("should fail"),
    }
    let keys = get_request_keys("/dev/sda1", Some("/dev/sda".to_string()), true, true).unwrap();
    assert_eq!(keys, ("/dev/sda".to_string(), "/dev/sda1".to_string()));
    let keys = get_request_keys("/dev/sda", None, true, false).unwrap();
    assert_eq!(keys, ("/dev/sda".to_string(), "/dev/sda".to_string()));
}

fn sda_with_sda1_op() -> MessageMap {
    let mut map = MessageMap::new();
    let disk_op = DiskOp::new(&default_op(), Some("test".to_string()), None);
    map.add_or_update_map_op("/dev/sda", "/dev/sda1", Some(disk_op), &Vec::new()).unwrap();
    map
}

#[test]
fn test_get_map_op() {
    let map = sda_with_sda1_op();
    assert!(map.get_map_op("/dev/sda", "/dev/sda").is_none());
    assert!(map.get_map_op("/dev/sda", "/dev/sda1").is_some());
}

#[test]
fn test_remove_map_op() {
    let mut map = sda_with_sda1_op();
    assert!(map.get_map_op("/dev/sda", "/dev/sda1").is_some());
    let prev = map.remove_map_op("/dev/sda", "/dev/sda1").unwrap();
    assert!(prev.is_some());
    assert!(map.get_map_op("/dev/sda", "/dev/sda1").is_none());
    assert!(has_path(&map, "/dev/sda", "/dev/sda1"));
    match map.remove_map_op("/dev/sda", "/dev/sda9") {
        Err(e) => assert_eq!(e.to_string(), "Path /dev/sda9 is not in the message map"),
        Ok(_) => panic!("should fail"),
    }
}

#[test]
fn test_get_disk_map_op() {
    let map = sda_with_sda1_op();
    let req_disk_map = map.get_disk_map_op("/dev/sda", "/dev/sda1").unwrap();
    assert_eq!(2, req_disk_map.len());
    assert!(req_disk_map.get("/dev/sda1").is_some());
    assert!(req_disk_map.get("/dev/sda1").unwrap().is_some());
    assert!(req_disk_map.get("/dev/sda").is_some());
    assert!(req_disk_map.get("/dev/sda").unwrap().is_none());
    match map.get_disk_map_op("/dev/sdz", "/dev/sdz1") {
        Err(e) => assert_eq!(e.to_string(), "Path /dev/sdz1 is not a disk in the map"),
        Ok(_) => panic!("should fail"),
    }
}

fn create_none_map() -> MessageMap {
    let db: Vec<(String, Option<bool>)> = get_partitions().into_iter().map(|p| (p, None)).collect();
    create_msg_map(&get_devices(), &db)
}

fn create_op_map(disk_op_type: &dyn Fn(&str) -> Op, part_op_type: &dyn Fn(&str) -> Op) -> MessageMap {
    let mut map = create_none_map();
    for d in get_devices() {
        let op = Operation::new(disk_op_type(&d), String::new());
        map.add_or_update_map_op(&d, &d, Some(DiskOp::new(&op, None, None)), &Vec::new()).unwrap();
        for p in get_partitions() {
            if p.contains(&d) {
                let op = Operation::new(part_op_type(&p), String::new());
                map.add_or_update_map_op(&d, &p, Some(DiskOp::new(&op, None, None)), &Vec::new()).unwrap();
            }
        }
    }
    map
}

fn create_add_map() -> MessageMap {
    create_op_map(&|_| Op::Add, &|_| Op::Add)
}

fn states() -> Vec<String> {
    ["/dev/sda", "/dev/sda1", "/dev/sdb", "/dev/sdc", "/dev/sdc1", "/dev/sdd"].iter().map(|s| s.to_string()).collect()
}

fn parent_of(path: &str) -> String {
    if path == "/dev/sdc1" { "/dev/sdc".to_string() } else { path.to_string() }
}

fn waiting(path: &str) -> State {
    if path == "/dev/sda" || path == "/dev/sdc1" { State::WaitingForReplacement } else { State::Good }
}

#[test]
fn test_get_replacing_vec_none() {
    let map = create_none_map();
    let replacing: Vec<String> = states()
        .into_iter()
        .filter(|path| {
            let op = map.get_map_op(&parent_of(path), path);
            if waiting(path) == State::WaitingForReplacement {
                assert!(op.is_none(), "Should be None");
            }
            is_replacement_candidate(waiting(path), &op, false)
        })
        .collect();
    println!("Replacing: {:#?}", replacing);
    assert_eq!(replacing, vec!["/dev/sda".to_string(), "/dev/sdc1".to_string()]);
}

#[test]
fn test_get_replacing_vec_add() {
    let map = create_add_map();
    let replacing: Vec<String> = states()
        .into_iter()
        .filter(|path| {
            let op = map.get_map_op(&parent_of(path), path);
            if waiting(path) == State::WaitingForReplacement {
                assert!(op.is_some(), "Should be Some");
            }
            let in_progress = path == "/dev/sdc1";
            is_replacement_candidate(waiting(path), &op, in_progress)
        })
        .collect();
    println!("Replacing: {:#?}", replacing);
    assert_eq!(replacing, vec!["/dev/sda".to_string()]);
}

#[test]
fn test_get_replacing_vec_exists() {
    let map = create_op_map(
        &|d| if d == "/dev/sda" { Op::SafeToRemove } else { Op::Add },
        &|p| if p == "/dev/sdc1" { Op::Remove } else { Op::Add },
    );
    let replacing: Vec<String> = states()
        .into_iter()
        .filter(|path| {
            let op = map.get_map_op(&parent_of(path), path);
            if waiting(path) == State::WaitingForReplacement {
                assert!(op.is_some(), "Should be Some");
            }
            let in_progress = path == "/dev/sdc1";
            is_replacement_candidate(waiting(path), &op, in_progress)
        })
        .collect();
    println!("Replacing: {:#?}", replacing);
    let empty: Vec<String> = Vec::new();
    assert_eq!(replacing, empty);
}

fn related(map: &MessageMap, replacing: &[&str], states: &[&str], in_progress_path: &str, expect_none: bool) -> Vec<String> {
    let mut add_replacing = Vec::new();
    for path in replacing {
        let parent = parent_of(path);
        let disks = map.get_disk_map_op(&parent, path).unwrap();
        let in_progress = *path == in_progress_path;
        for state in states {
            if disks.contains_key(state) {
                let op = map.get_map_op(&parent, state);
                if expect_none {
                    assert!(op.is_none(), "all items in map should be NONE");
                } else {
                    assert!(op.is_some(), "all items in map should be SOME");
                }
                // every related path counts as waiting for replacement here
                if is_replacement_candidate(State::WaitingForReplacement, &op, in_progress) {
                    add_replacing.push(state.to_string());
                }
            }
        }
    }
    add_replacing
}

const RELATED_STATES: [&str; 7] = ["/dev/sda", "/dev/sda1", "/dev/sda2", "/dev/sdb", "/dev/sdc", "/dev/sdc1", "/dev/sdd"];

#[test]
fn test_add_related_paths_none() {
    let map = create_none_map();
    let add = related(&map, &["/dev/sda", "/dev/sdc1"], &RELATED_STATES, "", true);
    println!("Added values: {:#?}", add);
    for p in ["/dev/sda", "/dev/sda2", "/dev/sda1", "/dev/sdc", "/dev/sdc1"] {
        assert!(add.contains(&p.to_string()));
    }
}

#[test]
fn test_add_related_paths_add() {
    let map = create_add_map();
    let add = related(&map, &["/dev/sda", "/dev/sdc1"], &RELATED_STATES, "/dev/sdc", false);
    println!("Added values: {:#?}", add);
    for p in ["/dev/sda", "/dev/sda2", "/dev/sda1", "/dev/sdc1"] {
        assert!(add.contains(&p.to_string()));
    }
}

#[test]
fn test_add_related_paths_empty() {
    let map = create_op_map(
        &|d| if d != "/dev/sda" { Op::SafeToRemove } else { Op::Add },
        &|p| if p != "/dev/sdc1" { Op::Remove } else { Op::Add },
    );
    let add = related(&map, &["/dev/sda", "/dev/sdc1"], &RELATED_STATES, "/dev/sdc", false);
    println!("Added values: {:#?}", add);
    for p in ["/dev/sda", "/dev/sdc1"] {
        assert!(add.contains(&p.to_string()));
    }
}

#[test]
fn test_remove_duplicates() {
    let replacing: Vec<String> = ["/dev/sda", "/dev/sdc1", "/dev/sda", "/dev/sda2", "/dev/sda1", "/dev/sdc", "/dev/sdc1"]
        .iter()
        .map(|s| s.to_string())
        .collect();
    println!("Appended: {:#?}", replacing);
    let idx = sorted_unique_indices(&replacing);
    let sorted: Vec<String> = idx.iter().map(|i| replacing[*i].clone()).collect();
    let compare: Vec<String> =
        ["/dev/sda", "/dev/sda1", "/dev/sda2", "/dev/sdc", "/dev/sdc1"].iter().map(|s| s.to_string()).collect();
    println!("Sorted and unique: {:#?}", sorted);
    assert_eq!(compare, sorted);
}

fn result(op: Op, result: ResultType, outcome: Option<OpOutcome>) -> OpOutcomeResult {
    let mut r = OpOutcomeResult::new(op, String::new());
    r.result = result;
    r.outcome = outcome;
    r
}

fn disk_map_with(results: Vec<(&str, Op, OpOutcomeResult)>) -> DiskOps {
    let mut disk_map = DiskOps::new();
    for (path, op, ret) in results {
        let mut disk_op = DiskOp::new(&Operation::new(op, String::new()), None, None);
        disk_op.ret_val = Some(ret);
        disk_map.insert(path, Some(disk_op));
    }
    disk_map
}

/// The finished check these tests were written against: a SafeToRemove that
/// succeeded does not count as finished.
fn all_finished_inline(disk_map: &DiskOps, paths: &[&str]) -> bool {
    let mut all_finished = true;
    for p in paths {
        match disk_map.get(p).unwrap() {
            Some(val) => match &val.ret_val {
                Some(ret) => {
                    if !(ret.get_result() == ResultType::ERR)
                        && !(ret.get_outcome() != OpOutcome::Success
                            && (ret.get_op_type() == Op::SafeToRemove || ret.get_op_type() == Op::Remove))
                        && !(ret.get_outcome() == OpOutcome::Success && ret.get_op_type() == Op::Remove)
                    {
                        all_finished = false;
                    }
                }
                None => all_finished = false,
            },
            None => all_finished = false,
        }
    }
    all_finished
}

const SDA_PATHS: [&str; 3] = ["/dev/sda", "/dev/sda1", "/dev/sda2"];

#[test]
fn test_all_finished_mixed() {
    let disk_map = disk_map_with(vec![
        ("/dev/sda", Op::Remove, result(Op::Remove, ResultType::OK, Some(OpOutcome::Success))),
        ("/dev/sda1", Op::SafeToRemove, result(Op::SafeToRemove, ResultType::OK, Some(OpOutcome::Skipped))),
        ("/dev/sda2", Op::SafeToRemove, result(Op::SafeToRemove, ResultType::OK, Some(OpOutcome::Skipped))),
    ]);
    println!("Initial Disk Map: {:#?}", disk_map);
    assert!(all_finished_inline(&disk_map, &SDA_PATHS));
    assert!(disk_map.all_finished());
}

#[test]
fn test_all_finished_mixed_fail() {
    let disk_map = disk_map_with(vec![
        ("/dev/sda", Op::Remove, result(Op::Remove, ResultType::OK, Some(OpOutcome::Skipped))),
        ("/dev/sda1", Op::SafeToRemove, result(Op::SafeToRemove, ResultType::OK, Some(OpOutcome::Skipped))),
        ("/dev/sda2", Op::SafeToRemove, result(Op::SafeToRemove, ResultType::OK, Some(OpOutcome::Success))),
    ]);
    println!("Initial Disk Map: {:#?}", disk_map);
    assert!(!all_finished_inline(&disk_map, &SDA_PATHS));
}

#[test]
fn test_all_finished_err() {
    let disk_map = disk_map_with(vec![
        ("/dev/sda", Op::Remove, result(Op::Remove, ResultType::ERR, None)),
        ("/dev/sda1", Op::SafeToRemove, result(Op::SafeToRemove, ResultType::ERR, None)),
        ("/dev/sda2", Op::SafeToRemove, result(Op::SafeToRemove, ResultType::ERR, None)),
    ]);
    println!("Initial Disk Map: {:#?}", disk_map);
    assert!(all_finished_inline(&disk_map, &SDA_PATHS));
    assert!(disk_map.all_finished());
}

#[test]
fn safe_to_remove_finding_disk_unsafe_finishes_it() {
    // a SafeToRemove that succeeded but found the disk not safe ends the removal work
    let mut safe = result(Op::SafeToRemove, ResultType::OK, Some(OpOutcome::Success));
    safe.value = Some(false);
    let disk_map = disk_map_with(vec![("/dev/sda", Op::SafeToRemove, safe)]);
    assert!(disk_map.all_finished());
    let mut safe = result(Op::SafeToRemove, ResultType::OK, Some(OpOutcome::Success));
    safe.value = Some(true);
    let disk_map = disk_map_with(vec![("/dev/sda", Op::SafeToRemove, safe)]);
    assert!(!disk_map.all_finished());
}

#[test]
fn update_and_finish_through_the_map() {
    let mut map = create_none_map();
    let op = Operation::new(Op::SafeToRemove, "/dev/sdb".to_string());
    map.add_or_update_map_op("/dev/sdb", "/dev/sdb", Some(DiskOp::new(&op, Some("desc".to_string()), Some(7))), &Vec::new())
        .unwrap();
    assert_eq!(map.is_all_finished("/dev/sdb", "/dev/sdb").unwrap(), false);
    let mut r = result(Op::SafeToRemove, ResultType::ERR, None);
    r.disk = "/dev/sdb".to_string();
    map.update_map_result("/dev/sdb", "/dev/sdb", "host1", r).unwrap();
    assert_eq!(map.is_all_finished("/dev/sdb", "/dev/sdb").unwrap(), true);
    match map.update_map_result("/dev/sda", "/dev/sda1", "host1", result(Op::Remove, ResultType::OK, None)) {
        Err(e) => assert_eq!(e.to_string(), "/dev/sda1 on host host1 does not have a currently running operation!"),
        Ok(_) => panic!("should fail"),
    }
    match map.is_all_finished("/dev/sdz", "/dev/sdz") {
        Err(e) => assert_eq!(e.to_string(), "Path /dev/sdz is not a disk in the map"),
        Ok(_) => panic!("should fail"),
    }
}
