use bynar::osd::{get_osd_id_from_path, osd_id_from_path};
use bynar::backend::{JournalDevice, OperationOutcome, SystemDisk};
use bynar::device::{FilesystemType, MediaType};
use bynar::error::BynarError;
use bynar::osd::{
    add_disk_step, bluestore_tool_args, ceph_mkfs_args, create_lvm_tags, enough_free_space, evaluate_journal,
    find_tag, get_current_backfill, get_journal_path, get_osd_id_from_device, is_bluestore, is_device_in_cluster,
    is_excluded_device, is_osd_id_in_cluster, is_osd_out, journal_link_choice, journal_partition_matches,
    osd_dir, osd_from_volume_tags, osd_fstab_entry, osd_keyring, osd_start_command, remove_disk_step,
    safe_to_remove_answer, systemctl_stop_args, systemctl_volume_args, tag_value, AddStep, InitDaemon,
    JournalLink, JournalPath, JournalStep, ObjectStore, OsdMetadata, PgStateCount, RemovalStep, VolumeOsd,
};
use bynar::text::{parse_u64, IntErrorKind};

const FSID: &str = "550e8400-e29b-41d4-a716-446655440000";

fn strings(v: &[&str]) -> Vec<String> {
    v.iter().map(|s| s.to_string()).collect()
}

fn bluestore(id: u64, host: &str, path: &str, wal: Option<&str>) -> OsdMetadata {
    OsdMetadata {
        id,
        hostname: host.to_string(),
        store: ObjectStore::Bluestore {
            bdev_partition_path: path.to_string(),
            wal_partition_path: wal.map(|w| w.to_string()),
        },
        journal: None,
    }
}

fn filestore(id: u64, host: &str, path: &str, journal: Option<&str>) -> OsdMetadata {
    OsdMetadata {
        id,
        hostname: host.to_string(),
        store: ObjectStore::Filestore { partition_path: path.to_string() },
        journal: journal.map(|j| j.to_string()),
    }
}

fn volume(id: &str, devices: &[&str]) -> VolumeOsd {
    VolumeOsd { id: id.to_string(), devices: strings(devices) }
}

fn std_kind(s: &str) -> Option<IntErrorKind> {
    match s.parse::<u64>() {
        Ok(_) => None,
        Err(e) => Some(match e.kind() {
            std::num::IntErrorKind::Empty => IntErrorKind::Empty,
            std::num::IntErrorKind::InvalidDigit => IntErrorKind::InvalidDigit,
            _ => IntErrorKind::PosOverflow,
        }),
    }
}

#[test]
fn parse_u64_reads_like_std() {
    let cases = [
        "0", "42", "+7", "", "+", "-", "-1", "12a", " 1", "1 ", "007", "18446744073709551615",
        "18446744073709551616", "99999999999999999999x", "+-3", "٣",
    ];
    for c in cases.iter() {
        let ours = parse_u64(c);
        match ours {
            Ok(n) => assert_eq!(Some(n), c.parse::<u64>().ok(), "case {:?}", c),
            Err(k) => {
                assert_eq!(Some(k), std_kind(c), "case {:?}", c);
                let std_msg = c.parse::<u64>().unwrap_err().to_string();
                assert_eq!(k.to_string(), std_msg);
                assert_eq!(BynarError::ParseIntError(k).to_string(), std_msg);
            }
        }
    }
    assert_eq!(parse_u64("18446744073709551615"), Ok(u64::MAX));
    assert_eq!(parse_u64("+7"), Ok(7));
    assert_eq!(parse_u64(""), Err(IntErrorKind::Empty));
    assert_eq!(parse_u64("18446744073709551616"), Err(IntErrorKind::PosOverflow));
}

#[test]
fn tag_values_follow_split() {
    assert_eq!(tag_value("ceph.osd_id=3"), Some("3".to_string()));
    assert_eq!(tag_value("a=b=c"), Some("b".to_string()));
    assert_eq!(tag_value("a="), Some("".to_string()));
    assert_eq!(tag_value("abc"), None);
    assert_eq!(tag_value(""), None);
    let tags = strings(&["ceph.type=block", "ceph.osd_fsid=x", "ceph.osd_id=4", "ceph.osd_id=5"]);
    assert_eq!(find_tag(&tags, "ceph.osd_id"), Some("ceph.osd_id=4".to_string()));
    assert_eq!(find_tag(&tags, "ceph.wal"), None);
}

#[test]
fn volume_tags_give_osd() {
    let lvs = vec![strings(&["ceph.type=block", "ceph.osd_id=12", &format!("ceph.osd_fsid={}", FSID)])];
    match osd_from_volume_tags("/dev/sdc", &lvs) {
        Ok((id, fsid)) => {
            assert_eq!(id, 12);
            assert_eq!(fsid, FSID);
        }
        Err(e) => panic!("unexpected {}", e.to_string()),
    }
    // The fsid is written back in lowercase hyphenated form.
    let upper = vec![strings(&["ceph.osd_id=1", "ceph.osd_fsid=550E8400E29B41D4A716446655440000"])];
    match osd_from_volume_tags("/dev/sdc", &upper) {
        Ok((id, fsid)) => {
            assert_eq!(id, 1);
            assert_eq!(fsid, FSID);
        }
        Err(e) => panic!("unexpected {}", e.to_string()),
    }
    // A later volume replaces what an earlier one gave.
    let two = vec![
        strings(&["ceph.osd_id=1", &format!("ceph.osd_fsid={}", FSID)]),
        strings(&["ceph.osd_id=2"]),
    ];
    match osd_from_volume_tags("/dev/sdc", &two) {
        Ok((id, _)) => assert_eq!(id, 2),
        Err(e) => panic!("unexpected {}", e.to_string()),
    }
}

#[test]
fn volume_tags_failures() {
    let missing = vec![strings(&["ceph.osd_id=1"])];
    match osd_from_volume_tags("/dev/sdc", &missing) {
        Err(BynarError::Error(m)) => assert_eq!(m, "No osd id's or fsid's were found on /dev/sdc"),
        _ => panic!("expected an error"),
    }
    let bad_id = vec![strings(&["ceph.osd_id=x1", &format!("ceph.osd_fsid={}", FSID)])];
    assert!(matches!(
        osd_from_volume_tags("/dev/sdc", &bad_id),
        Err(BynarError::ParseIntError(IntErrorKind::InvalidDigit))
    ));
    let bad_fsid = vec![strings(&["ceph.osd_id=1", "ceph.osd_fsid=not-a-uuid"])];
    match osd_from_volume_tags("/dev/sdc", &bad_fsid) {
        Err(BynarError::UuidError(m)) => assert_eq!(m, uuid::Uuid::parse_str("not-a-uuid").unwrap_err().to_string()),
        _ => panic!("expected a uuid error"),
    }
    let none: Vec<Vec<String>> = Vec::new();
    assert!(matches!(osd_from_volume_tags("/dev/sdc", &none), Err(BynarError::Error(_))));
}

#[test]
fn created_tags_read_back() {
    let tags = match create_lvm_tags(
        "/dev/ceph-1/osd-block-1",
        33,
        FSID,
        "cluster-fsid",
        "block-uuid",
        &None,
        "",
        MediaType::Rotational,
    ) {
        Ok(t) => t,
        Err(e) => panic!("unexpected {}", e.to_string()),
    };
    match osd_from_volume_tags("/dev/sdd", &vec![tags]) {
        Ok((id, fsid)) => {
            assert_eq!(id, 33);
            assert_eq!(fsid, FSID);
        }
        Err(e) => panic!("unexpected {}", e.to_string()),
    }
}

#[test]
fn lvm_tags_of_new_osd() {
    let tags = create_lvm_tags("/dev/vg/lv", 7, FSID, "cfsid", "buuid", &None, "", MediaType::SolidState);
    let expected = strings(&[
        "ceph.type=block",
        "ceph.block_device=/dev/vg/lv",
        "ceph.osd_id=7",
        &format!("ceph.osd_fsid={}", FSID),
        "ceph.cluster_name=ceph",
        "ceph.cluster_fsid=cfsid",
        "ceph.encrypted=0",
        "ceph.cephx_lockbox_secret=",
        "ceph.block_uuid=buuid",
        "ceph.crush_device_class=ssd",
    ]);
    match tags {
        Ok(t) => assert_eq!(t, expected),
        Err(e) => panic!("unexpected {}", e.to_string()),
    }
    let journal = Some(JournalDevice {
        device: "/dev/sdb".to_string(),
        partition_id: Some(2),
        partition_uuid: Some("part-uuid".to_string()),
        num_partitions: None,
    });
    match create_lvm_tags("/dev/vg/lv", 7, FSID, "cfsid", "buuid", &journal, "", MediaType::NVME) {
        Ok(t) => {
            assert_eq!(t.len(), 12);
            assert_eq!(t[9], "ceph.wal_device=/dev/sdb2");
            assert_eq!(t[10], "ceph.wal_uuid=part-uuid");
            assert_eq!(t[11], "ceph.crush_device_class=nvme");
        }
        Err(e) => panic!("unexpected {}", e.to_string()),
    }
    let probed = Some(JournalDevice {
        device: "/dev/sdb".to_string(),
        partition_id: None,
        partition_uuid: None,
        num_partitions: None,
    });
    match create_lvm_tags("/dev/vg/lv", 7, FSID, "c", "b", &probed, "550E8400-E29B-41D4-A716-446655440000", MediaType::Ram) {
        Ok(t) => {
            assert_eq!(t[9], "ceph.wal_device=/dev/sdb");
            assert_eq!(t[10], format!("ceph.wal_uuid={}", FSID));
            assert_eq!(t[11], "ceph.crush_device_class=None");
        }
        Err(e) => panic!("unexpected {}", e.to_string()),
    }
    match create_lvm_tags("/dev/vg/lv", 7, FSID, "c", "b", &probed, "", MediaType::Ram) {
        Err(BynarError::Error(m)) => assert_eq!(m, "Unable to get the partition UUID"),
        _ => panic!("expected an error"),
    }
    assert!(matches!(
        create_lvm_tags("/dev/vg/lv", 7, FSID, "c", "b", &probed, "zzz", MediaType::Ram),
        Err(BynarError::UuidError(_))
    ));
}

#[test]
fn osd_lookup_by_device() {
    let metas = vec![
        bluestore(1, "other", "/dev/sdb", None),
        bluestore(2, "host1", "/dev/sdb", Some("/dev/nvme0n1p1")),
        filestore(3, "host1", "/dev/sdc", Some("/var/lib/ceph/osd/ceph-3/journal")),
    ];
    let volumes = vec![volume("9", &["/dev/sdx", "/dev/sdy"]), volume("bad", &["/dev/sdz"])];
    assert!(is_device_in_cluster(&metas, &volumes, "host1", "/dev/sdb"));
    assert!(is_device_in_cluster(&metas, &volumes, "host1", "/dev/sdy"));
    assert!(!is_device_in_cluster(&metas, &volumes, "host1", "/dev/sda"));
    assert!(!is_device_in_cluster(&metas, &Vec::new(), "host2", "/dev/sdc"));
    assert!(matches!(get_osd_id_from_device(&metas, &volumes, "host1", "/dev/sdb"), Ok(2)));
    assert!(matches!(get_osd_id_from_device(&metas, &volumes, "host1", "/dev/sdc"), Ok(3)));
    assert!(matches!(get_osd_id_from_device(&metas, &volumes, "host1", "/dev/sdx"), Ok(9)));
    assert!(matches!(
        get_osd_id_from_device(&metas, &volumes, "host1", "/dev/sdz"),
        Err(BynarError::ParseIntError(IntErrorKind::InvalidDigit))
    ));
    match get_osd_id_from_device(&metas, &volumes, "host1", "/dev/sda") {
        Err(BynarError::Error(m)) => assert_eq!(m, "unable to find the osd in the osd metadata"),
        _ => panic!("expected an error"),
    }
    assert!(is_osd_id_in_cluster(&metas, 3));
    assert!(!is_osd_id_in_cluster(&metas, 4));
    assert!(matches!(is_bluestore(&metas, 2), Ok(true)));
    assert!(matches!(is_bluestore(&metas, 3), Ok(false)));
    match is_bluestore(&metas, 8) {
        Err(BynarError::Error(m)) => assert_eq!(m, "Could not find osd in cluster"),
        _ => panic!("expected an error"),
    }
    assert!(matches!(get_journal_path(&metas, 2), Some(JournalPath::Wal(w)) if w == "/dev/nvme0n1p1"));
    assert!(matches!(get_journal_path(&metas, 3), Some(JournalPath::Link(l)) if l == "/var/lib/ceph/osd/ceph-3/journal"));
    assert!(get_journal_path(&metas, 1).is_none());
    assert!(get_journal_path(&metas, 5).is_none());
}

#[test]
fn cluster_counts() {
    assert!(is_osd_out(&vec![-1, 4, 7], 7));
    assert!(!is_osd_out(&vec![-1, 4], 7));
    assert!(is_osd_out(&vec![-1], u64::MAX));
    let states = vec![
        PgStateCount { name: "active+clean".to_string(), num: 100 },
        PgStateCount { name: "active+remapped+backfilling".to_string(), num: 3 },
        PgStateCount { name: "backfilling".to_string(), num: 2 },
        PgStateCount { name: "active+backfill_wait".to_string(), num: 9 },
    ];
    assert_eq!(get_current_backfill(&states), 5);
    assert_eq!(get_current_backfill(&Vec::new()), 0);
    assert!(enough_free_space(&vec![10, 2048], 512, 1_048_575));
    assert!(!enough_free_space(&vec![10, 2048], 512, 1_048_576));
    assert!(!enough_free_space(&Vec::new(), 4096, 0));
}

#[test]
fn ceph_tool_arguments() {
    let dir = osd_dir(5);
    assert_eq!(dir, "/var/lib/ceph/osd/ceph-5");
    let args = ceph_mkfs_args(
        5,
        &None,
        true,
        &Some("/var/lib/ceph/osd/ceph-5/activate.monmap".to_string()),
        &Some(dir.clone()),
        &Some(FSID.to_string()),
        &Some("ceph".to_string()),
        &Some("ceph".to_string()),
    );
    assert_eq!(
        args,
        strings(&[
            "--cluster",
            "ceph",
            "-i",
            "5",
            "--mkfs",
            "--osd-objectstore",
            "bluestore",
            "--monmap",
            "/var/lib/ceph/osd/ceph-5/activate.monmap",
            "--osd-data",
            "/var/lib/ceph/osd/ceph-5",
            "--osd-uuid",
            FSID,
            "--setuser",
            "ceph",
            "--setgroup",
            "ceph",
        ])
    );
    let journal = Some(JournalDevice {
        device: "/dev/sdb".to_string(),
        partition_id: Some(1),
        partition_uuid: None,
        num_partitions: None,
    });
    assert_eq!(
        ceph_mkfs_args(3, &journal, false, &None, &None, &None, &None, &None),
        strings(&["--cluster", "ceph", "-i", "3", "--mkfs", "--osd-journal", "/dev/sdb1"])
    );
    assert_eq!(
        bluestore_tool_args("/dev/vg/lv", "/var/lib/ceph/osd/ceph-5"),
        strings(&["--cluster=ceph", "prime-osd-dir", "--dev", "/dev/vg/lv", "--path", "/var/lib/ceph/osd/ceph-5"])
    );
    assert_eq!(osd_keyring(12, "AQBx=="), "[osd.12]\n\tkey = AQBx==\n");
    assert_eq!(
        systemctl_volume_args("enable", 4, FSID),
        strings(&["enable", &format!("ceph-volume@lvm-4-{}", FSID)])
    );
    assert_eq!(systemctl_stop_args(4), strings(&["stop", "ceph-osd@4.service"]));
    match osd_start_command(InitDaemon::Systemd, 8) {
        Ok((cmd, args)) => {
            assert_eq!(cmd, "systemctl");
            assert_eq!(args, strings(&["start", "ceph-osd@8"]));
        }
        Err(_) => panic!("expected a command"),
    }
    match osd_start_command(InitDaemon::Upstart, 8) {
        Ok((cmd, args)) => {
            assert_eq!(cmd, "start");
            assert_eq!(args, strings(&["ceph-osd", "id=8"]));
        }
        Err(_) => panic!("expected a command"),
    }
    match osd_start_command(InitDaemon::Unknown, 8) {
        Err(BynarError::Error(m)) => assert_eq!(m, "Unknown init system.  Cannot start osd service"),
        _ => panic!("expected an error"),
    }
    let entry = osd_fstab_entry("1234-abcd", FilesystemType::Xfs, 6);
    assert_eq!(entry.fs_spec, "UUID=1234-abcd");
    assert_eq!(entry.mountpoint, "/var/lib/ceph/osd/ceph-6");
    assert_eq!(entry.vfs_type, "xfs");
    assert_eq!(entry.mount_options, strings(&["noatime", "inode64", "attr2", "logbsize=256k", "noquota"]));
    assert!(!entry.dump);
    assert_eq!(entry.fsck_order, 2);
}

#[test]
fn journal_choices() {
    let plain = JournalDevice { device: "/dev/sdb".to_string(), partition_id: None, partition_uuid: None, num_partitions: Some(3) };
    assert!(matches!(evaluate_journal(&plain, &vec![1, 2], None), JournalStep::Create));
    let wanted = JournalDevice { device: "/dev/sdb".to_string(), partition_id: Some(2), partition_uuid: None, num_partitions: None };
    assert!(matches!(evaluate_journal(&wanted, &vec![1, 2], None), JournalStep::CheckInUse(2)));
    assert!(matches!(evaluate_journal(&wanted, &vec![1, 2], Some(true)), JournalStep::Create));
    match evaluate_journal(&wanted, &vec![1, 2], Some(false)) {
        JournalStep::Use(j) => {
            assert_eq!(j.device, "/dev/sdb");
            assert_eq!(j.partition_id, Some(2));
            assert_eq!(j.partition_uuid, None);
            assert_eq!(j.num_partitions, Some(1));
        }
        _ => panic!("expected the partition to be used"),
    }
    match evaluate_journal(&wanted, &vec![1, 3], None) {
        JournalStep::Fail(BynarError::Error(m)) => assert_eq!(m, "/dev/sdb2 not found for journal device"),
        _ => panic!("expected a failure"),
    }
    assert!(matches!(journal_link_choice("/a/journal", "/a/block.wal", true, false), JournalLink::Old));
    assert!(matches!(journal_link_choice("/a/journal", "/a/block.wal", false, true), JournalLink::New));
    assert!(matches!(journal_link_choice("/a/journal", "/a/block.wal", false, false), JournalLink::Absent));
    match journal_link_choice("/a/journal", "/a/block.wal", true, true) {
        JournalLink::Ambiguous(BynarError::Error(m)) => assert_eq!(
            m,
            "Unable to determine which journal path to use.  Both /a/journal and /a/block.wal exist."
        ),
        _ => panic!("expected an ambiguity"),
    }
    assert!(matches!(journal_partition_matches(FSID, "550E8400-E29B-41D4-A716-446655440000"), Ok(true)));
    assert!(matches!(journal_partition_matches(FSID, "650e8400-e29b-41d4-a716-446655440000"), Ok(false)));
    assert!(matches!(journal_partition_matches(FSID, ""), Err(BynarError::Error(_))));
    assert!(matches!(journal_partition_matches(FSID, "nope"), Err(BynarError::UuidError(_))));
}

#[test]
fn add_and_remove_steps() {
    let system = vec![SystemDisk { device: "/dev/sda".to_string() }];
    let journals = Some(vec![JournalDevice {
        device: "/dev/nvme0n1".to_string(),
        partition_id: None,
        partition_uuid: None,
        num_partitions: None,
    }]);
    assert!(is_excluded_device(&system, &journals, "/dev/sda"));
    assert!(is_excluded_device(&system, &journals, "/dev/nvme0n1"));
    assert!(!is_excluded_device(&system, &journals, "/dev/sdb"));
    assert!(!is_excluded_device(&system, &None, "/dev/nvme0n1"));

    assert_eq!(add_disk_step(true, Some(1), None, None, true), AddStep::Finish(OperationOutcome::Skipped));
    assert_eq!(add_disk_step(false, Some(1), None, None, true), AddStep::CheckOsdId(1));
    assert_eq!(add_disk_step(false, Some(1), Some(true), None, true), AddStep::Finish(OperationOutcome::Skipped));
    assert_eq!(add_disk_step(false, Some(1), Some(false), None, true), AddStep::CheckDevice);
    assert_eq!(add_disk_step(false, None, None, None, true), AddStep::CheckDevice);
    assert_eq!(add_disk_step(false, None, None, Some(true), true), AddStep::Finish(OperationOutcome::SkipRepeat));
    assert_eq!(add_disk_step(false, None, None, Some(false), true), AddStep::AddBluestore);
    assert_eq!(add_disk_step(false, Some(2), Some(false), Some(false), false), AddStep::AddFilestore);

    assert_eq!(remove_disk_step(true, None, true, None), RemovalStep::Finish(OperationOutcome::Skipped));
    assert_eq!(remove_disk_step(false, None, true, None), RemovalStep::CheckDevice);
    assert_eq!(remove_disk_step(false, Some(false), true, None), RemovalStep::Finish(OperationOutcome::SkipRepeat));
    assert_eq!(remove_disk_step(false, Some(true), true, None), RemovalStep::CheckBluestore);
    assert_eq!(remove_disk_step(false, Some(true), true, Some(true)), RemovalStep::RemoveBluestore);
    assert_eq!(remove_disk_step(false, Some(true), true, Some(false)), RemovalStep::RemoveFilestore);
    assert_eq!(remove_disk_step(false, Some(true), false, None), RemovalStep::RemoveFilestore);

    assert_eq!(safe_to_remove_answer(true, false, None), Some((OperationOutcome::Skipped, false)));
    assert_eq!(safe_to_remove_answer(false, false, None), None);
    assert_eq!(safe_to_remove_answer(false, false, Some(true)), Some((OperationOutcome::Success, true)));
    assert_eq!(safe_to_remove_answer(false, false, Some(false)), Some((OperationOutcome::Success, false)));
    // a dry run is always answered safe, without asking the cluster
    assert_eq!(safe_to_remove_answer(false, true, None), Some((OperationOutcome::Success, true)));
    assert_eq!(safe_to_remove_answer(true, true, None), Some((OperationOutcome::Success, true)));
    assert_eq!(safe_to_remove_answer(false, true, Some(false)), Some((OperationOutcome::Success, true)));
}

#[test]
fn osd_id_from_mount_path() {
    assert_eq!(get_osd_id_from_path("/var/lib/ceph/osd/ceph-7"), Ok(7));
    assert_eq!(get_osd_id_from_path("/var/lib/ceph/osd/ceph-12-old"), Ok(12));
    assert_eq!(get_osd_id_from_path("/mnt/ceph-x"), Err("invalid digit found in string".to_string()));
    assert_eq!(get_osd_id_from_path("/mnt/ceph-"), Err("cannot parse integer from empty string".to_string()));
    assert_eq!(get_osd_id_from_path("/"), Err("Unable to get filename from /".to_string()));
    assert_eq!(osd_id_from_path("/mnt/nodash"), None);
    assert_eq!(osd_id_from_path("/var/lib/ceph/osd/ceph-3"), Some(Ok(3)));
    assert_eq!(osd_id_from_path(""), Some(Err("Unable to get filename from ".to_string())));
}
