use bynar::checks::{Fsck, check_ext, check_xfs, repair_ext, repair_xfs, is_raid_backed};
use bynar::device::{BlockDevice, Device, DeviceType, FilesystemType, MediaType, ScsiInfo, ScsiDeviceType, Vendor, DeviceState};
use bynar::disk_state::State;
use bynar::error::BynarError;
use bynar::state_machine::{StateMachine, Transition};
use bynar::transitions::{
    attempt_repair, check_for_corruption, check_read_only, check_wear_leveling, eval, mark_for_replacement,
    mount, no_op, reformat, remount, replace, scan, EvalCheck, EvalFacts, EvalNext, MountAttempt,
};

/// What the mocked system answers.
struct Mocks {
    smart: Result<bool, BynarError>,
    blank: bool,
    mount_ok: bool,
    writable: bool,
    fsck: Result<Fsck, BynarError>,
    repaired: bool,
    formatted: bool,
}

fn healthy() -> Mocks {
    Mocks {
        smart: Ok(true),
        blank: false,
        mount_ok: true,
        writable: true,
        fsck: Ok(Fsck::Clean),
        repaired: true,
        formatted: true,
    }
}

fn test_device(state: State, device_type: DeviceType) -> BlockDevice {
    BlockDevice {
        device: Device {
            id: Some("5a8e2a4c-0000-4000-8000-000000000001".to_string()),
            name: "loop0".to_string(),
            media_type: MediaType::Rotational,
            device_type,
            capacity: 26214400,
            fs_type: FilesystemType::Xfs,
            serial_number: Some("123456".to_string()),
        },
        dev_path: String::new(),
        device_database_id: None,
        mount_point: None,
        partitions: Vec::new(),
        scsi_info: ScsiInfo::default_info(),
        state,
        storage_detail_id: 1,
        operation_id: None,
    }
}

fn copy_err(e: &BynarError) -> BynarError {
    BynarError::from_str_msg(&e.to_string())
}

fn run_eval(to: State, m: &Mocks, b: &BlockDevice) -> State {
    let mut facts = EvalFacts {
        blank: None,
        is_lvm: b.device.fs_type == FilesystemType::Lvm,
        lvm: None,
        has_mount_point: b.mount_point.is_some(),
        mount: None,
        writable: None,
    };
    loop {
        match eval(to, &facts) {
            EvalNext::Done(s) => return s,
            EvalNext::Check(EvalCheck::Blank) => facts.blank = Some(Ok(m.blank)),
            EvalNext::Check(EvalCheck::Lvm) => facts.lvm = Some(Ok(Fsck::Clean)),
            EvalNext::Check(EvalCheck::Mount) => {
                facts.mount = Some(if m.mount_ok { MountAttempt::Mounted } else { MountAttempt::Failed })
            }
            EvalNext::Check(EvalCheck::Writable) => {
                facts.writable =
                    Some(if m.writable { Ok(()) } else { Err(BynarError::from_str_msg("Mock Error")) })
            }
        }
    }
}

fn drive(s: &mut StateMachine, m: &Mocks) {
    s.start_run();
    let mut steps = 0;
    while let Some((_from, to, t)) = s.current_attempt() {
        steps += 1;
        assert!(steps < 1000, "run did not end");
        let simulate = s.simulate();
        let outcome = match t {
            Transition::AttemptRepair => attempt_repair(to, simulate, m.repaired),
            Transition::CheckForCorruption => {
                let fsck = match &m.fsck {
                    Ok(f) => Ok(*f),
                    Err(e) => Err(copy_err(e)),
                };
                check_for_corruption(to, simulate, &fsck)
            }
            Transition::CheckReadOnly => check_read_only(to),
            Transition::CheckWearLeveling => check_wear_leveling(to),
            Transition::Eval => run_eval(to, m, &s.block_device),
            Transition::MarkForReplacement => mark_for_replacement(to),
            Transition::Mount => mount(to, m.mount_ok),
            Transition::NoOp => no_op(to),
            Transition::Reformat => reformat(to, m.formatted),
            Transition::Remount => remount(to, true),
            Transition::Replace => replace(to, true),
            Transition::Scan => {
                let smart = match &m.smart {
                    Ok(b) => Ok(*b),
                    Err(e) => Err(copy_err(e)),
                };
                scan(to, s.block_device.device.device_type, &s.scsi_info, &smart)
            }
        };
        s.report_outcome(outcome);
    }
}

#[test]
fn test_state_machine_base() {
    let d = test_device(State::Unscanned, DeviceType::Unknown);
    let mut s = StateMachine::new(d, None, true);
    s.setup_state_machine();
    drive(&mut s, &healthy());
    println!("final state: {}", s.block_device.state.to_string());
    assert_eq!(s.block_device.state, State::Good);
}

#[test]
fn test_state_machine_bad_filesystem() {
    // The corruption is repairable: the filesystem still mounts and takes writes.
    let d = test_device(State::Unscanned, DeviceType::Unknown);
    let mut s = StateMachine::new(d, None, true);
    s.setup_state_machine();
    let mut m = healthy();
    m.fsck = Ok(Fsck::Corrupt);
    drive(&mut s, &m);
    println!("final state: {}", s.block_device.state.to_string());
    assert_eq!(s.block_device.state, State::Good);
}

#[test]
fn test_state_machine_replace_disk() {
    // Smart passes, write fails, check_filesystem finds corruption, attemptRepair and reformat fail
    let d = test_device(State::Unscanned, DeviceType::Unknown);
    let mut s = StateMachine::new(d, None, false);
    s.setup_state_machine();
    let m = Mocks {
        smart: Ok(true),
        blank: false,
        mount_ok: true,
        writable: false,
        fsck: Ok(Fsck::Corrupt),
        repaired: false,
        formatted: false,
    };
    drive(&mut s, &m);
    println!("final state: {}", s.block_device.state.to_string());
    assert_eq!(s.block_device.state, State::WaitingForReplacement);
}

#[test]
fn test_state_machine_replaced_disk() {
    let d = test_device(State::Replaced, DeviceType::Unknown);
    let mut s = StateMachine::new(d, None, true);
    s.setup_state_machine();
    drive(&mut s, &healthy());
    println!("final state: {}", s.block_device.state.to_string());
    assert_eq!(s.block_device.state, State::Good);
}

#[test]
fn healthy_whole_disk_is_good_after_scan() {
    let d = test_device(State::Unscanned, DeviceType::Disk);
    let mut s = StateMachine::new(d, None, false);
    s.setup_state_machine();
    s.start_run();
    assert_eq!(s.current_attempt(), Some((State::Unscanned, State::Scanned, Transition::Scan)));
    s.report_outcome(State::Good);
    assert_eq!(s.current_attempt(), None);
    assert_eq!(s.block_device.state, State::Good);
}

#[test]
fn good_disk_is_scanned_again() {
    let d = test_device(State::Good, DeviceType::Disk);
    let mut s = StateMachine::new(d, None, false);
    s.setup_state_machine();
    s.start_run();
    assert_eq!(s.block_device.state, State::Unscanned);
    assert_eq!(s.current_attempt(), Some((State::Unscanned, State::Scanned, Transition::Scan)));
}

#[test]
fn failed_moves_try_next_edge_and_keep_state() {
    let d = test_device(State::Scanned, DeviceType::Disk);
    let mut s = StateMachine::new(d, None, false);
    s.setup_state_machine();
    s.start_run();
    assert_eq!(s.current_attempt(), Some((State::Scanned, State::Good, Transition::Eval)));
    s.report_outcome(State::Fail);
    assert_eq!(s.block_device.state, State::Scanned);
    assert_eq!(s.current_attempt(), Some((State::Scanned, State::NotMounted, Transition::Eval)));
    s.report_outcome(State::Fail);
    assert_eq!(s.current_attempt(), Some((State::Scanned, State::WriteFailed, Transition::Eval)));
    s.report_outcome(State::Fail);
    assert_eq!(s.current_attempt(), Some((State::Scanned, State::WornOut, Transition::CheckWearLeveling)));
    s.report_outcome(State::Fail);
    // every edge failed: the run ends where it began
    assert_eq!(s.current_attempt(), None);
    assert_eq!(s.block_device.state, State::Scanned);
}

#[test]
fn unexpected_outcome_moves_on_to_next_edge() {
    let d = test_device(State::Scanned, DeviceType::Disk);
    let mut s = StateMachine::new(d, None, false);
    s.setup_state_machine();
    s.start_run();
    s.report_outcome(State::WriteFailed);
    assert_eq!(s.block_device.state, State::Scanned);
    assert_eq!(s.current_attempt(), Some((State::Scanned, State::NotMounted, Transition::Eval)));
}

#[test]
fn waiting_for_replacement_ends_the_run() {
    let d = test_device(State::ReformatFailed, DeviceType::Disk);
    let mut s = StateMachine::new(d, None, false);
    s.setup_state_machine();
    s.start_run();
    assert_eq!(
        s.current_attempt(),
        Some((State::ReformatFailed, State::WaitingForReplacement, Transition::NoOp))
    );
    s.report_outcome(State::WaitingForReplacement);
    assert_eq!(s.current_attempt(), None);
    assert_eq!(s.block_device.state, State::WaitingForReplacement);
}

#[test]
fn state_without_edges_ends_run_at_once() {
    let d = test_device(State::Fail, DeviceType::Disk);
    let mut s = StateMachine::new(d, None, false);
    s.setup_state_machine();
    s.start_run();
    assert_eq!(s.current_attempt(), None);
    assert_eq!(s.block_device.state, State::Fail);
}

#[test]
fn recorded_graph_lists_table_in_order() {
    let d = test_device(State::Unscanned, DeviceType::Disk);
    let mut s = StateMachine::new(d, None, false);
    s.setup_state_machine();
    let g = s.dot_graph();
    assert_eq!(g.len(), 24);
    assert_eq!(g[0].0, State::Unscanned);
    assert_eq!(g[0].1, State::Scanned);
    assert_eq!(g[0].2, "Scan");
    assert_eq!(g[23].0, State::WriteFailed);
    assert_eq!(g[23].1, State::Corrupt);
    assert_eq!(g[23].2, "CheckForCorruption");
}

#[test]
fn state_names_read_back() {
    for (s, n) in [
        (State::Corrupt, "corrupt"),
        (State::Good, "good"),
        (State::MountFailed, "mount_failed"),
        (State::WaitingForReplacement, "waiting_for_replacement"),
        (State::WornOut, "worn_out"),
    ] {
        assert_eq!(s.to_string(), n);
        assert_eq!(State::from_str(n).unwrap(), s);
    }
    assert_eq!(State::NotMounted.to_string(), "not_mounted");
    assert_eq!(State::WriteFailed.to_string(), "write_failed");
    match State::from_str("not_mounted") {
        Err(e) => assert_eq!(e.to_string(), "Unknown state: not_mounted"),
        Ok(_) => panic!("not_mounted should not parse"),
    }
    match State::from_str("bogus") {
        Err(e) => assert_eq!(e.to_string(), "Unknown state: bogus"),
        Ok(_) => panic!("bogus should not parse"),
    }
}

#[test]
fn filesystem_exit_codes() {
    assert_eq!(check_xfs(Some(0)).unwrap(), Fsck::Clean);
    assert_eq!(check_xfs(Some(1)).unwrap(), Fsck::Corrupt);
    assert_eq!(check_xfs(Some(2)).unwrap_err().to_string(), "xfs_repair failed with code: 2");
    assert_eq!(check_xfs(Some(-3)).unwrap_err().to_string(), "xfs_repair failed with code: -3");
    assert_eq!(check_xfs(None).unwrap_err().to_string(), "xfs_repair terminated by signal");
    assert!(repair_xfs(Some(0)).is_ok());
    assert_eq!(repair_xfs(Some(4)).unwrap_err().to_string(), "xfs_repair failed");
    assert_eq!(repair_xfs(None).unwrap_err().to_string(), "e2fsck terminated by signal");
    assert_eq!(check_ext(Some(0)).unwrap(), Fsck::Clean);
    assert_eq!(check_ext(Some(4)).unwrap(), Fsck::Corrupt);
    assert_eq!(check_ext(Some(8)).unwrap_err().to_string(), "e2fsck returned error code: 8");
    assert!(repair_ext(Some(0)).is_ok());
    assert!(repair_ext(Some(1)).is_ok());
    assert!(repair_ext(Some(2)).is_ok());
    assert_eq!(repair_ext(Some(12)).unwrap_err().to_string(), "e2fsck returned error code: 12");
}

fn hp_host(state: Option<DeviceState>, vendor: Vendor) -> Option<(ScsiInfo, Option<ScsiInfo>)> {
    let mut dev = ScsiInfo::default_info();
    dev.state = state;
    let mut host = ScsiInfo::default_info();
    host.scsi_type = ScsiDeviceType::StorageArray;
    host.vendor = vendor;
    Some((dev, Some(host)))
}

#[test]
fn raid_backed_scan() {
    assert_eq!(is_raid_backed(&None), (false, Vendor::Ata));
    assert_eq!(is_raid_backed(&hp_host(None, Vendor::Hp)), (true, Vendor::Hp));
    assert_eq!(is_raid_backed(&hp_host(None, Vendor::Lsi)), (false, Vendor::Lsi));
    let info = hp_host(Some(DeviceState::Running), Vendor::Hp);
    assert_eq!(scan(State::Scanned, DeviceType::Disk, &info, &Ok(false)), State::Good);
    assert_eq!(scan(State::Scanned, DeviceType::Partition, &info, &Ok(false)), State::Scanned);
    let info = hp_host(Some(DeviceState::Blocked), Vendor::Hp);
    assert_eq!(scan(State::Scanned, DeviceType::Disk, &info, &Ok(true)), State::Fail);
    assert_eq!(scan(State::Scanned, DeviceType::Disk, &None, &Ok(false)), State::Fail);
    assert_eq!(
        scan(State::Scanned, DeviceType::Disk, &None, &Err(BynarError::from_str_msg("x"))),
        State::Fail
    );
}
