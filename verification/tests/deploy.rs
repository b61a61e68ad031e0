use bynar::deploy::{
    nvme_deployment, parse_host_list, plan_deployment, separate_deployment, sort_by_hostname,
    ssd_deployment, HostDisks, Strategy,
};
use bynar::service::{Disk, DiskType};

fn disk(kind: Option<DiskType>, path: &str) -> Disk {
    Disk { field_type: kind, dev_path: Some(path.to_string()), serial_number: None }
}

fn host(name: &str, disks: Vec<Disk>) -> HostDisks {
    (name.to_string(), disks)
}

fn ids_and_paths(osds: &[bynar::deploy::PlannedOsd]) -> Vec<(u64, String, String)> {
    osds.iter().map(|o| (o.id, o.disk.clone(), o.journal.clone())).collect()
}

#[test]
fn strategy_names() {
    assert_eq!(Strategy::from_str("ssd_journals"), Ok(Strategy::SsdJournal));
    assert_eq!(Strategy::from_str("nvme_journals"), Ok(Strategy::NvmeJournal));
    assert_eq!(Strategy::from_str("separate_pools"), Ok(Strategy::Separate));
    assert_eq!(Strategy::from_str("pools"), Err("Unknown strategy: pools".to_string()));
    assert_eq!(Strategy::from_str(""), Err("Unknown strategy: ".to_string()));
}

#[test]
fn host_list_lines() {
    assert_eq!(parse_host_list("a\nb\nc"), vec!["a", "b", "c"]);
    assert_eq!(parse_host_list("a\nb\n"), vec!["a", "b"]);
    assert_eq!(parse_host_list("a\r\nb\n\nc\r"), vec!["a", "b", "", "c\r"]);
    assert_eq!(parse_host_list(""), Vec::<String>::new());
    assert_eq!(parse_host_list("\n"), vec![""]);
    for text in ["x\ny", "x\r\n\r\ny\n", "one", "\n\n", "é\nß\r\n"] {
        let expected: Vec<String> = text.lines().map(|l| l.to_string()).collect();
        assert_eq!(parse_host_list(text), expected);
    }
}

#[test]
fn separate_pools_numbering() {
    let hosts = vec![
        host(
            "b",
            vec![
                disk(Some(DiskType::ROTATIONAL), "/dev/sda"),
                disk(Some(DiskType::UNKNOWN), "/dev/sdb"),
                disk(Some(DiskType::SOLID_STATE), "/dev/sdc"),
            ],
        ),
        host("a", vec![disk(Some(DiskType::UNKNOWN), "/dev/sdd")]),
        host(
            "c",
            vec![disk(Some(DiskType::ROTATIONAL), "/dev/sde"), disk(None, "/dev/sdf")],
        ),
    ];
    let plan = separate_deployment(hosts);
    assert_eq!(plan.len(), 3);
    assert_eq!(plan[0].0, "b");
    assert_eq!(
        ids_and_paths(&plan[0].1),
        vec![
            (0, "/dev/sda".to_string(), "/dev/sda".to_string()),
            (2, "/dev/sdc".to_string(), "/dev/sdc".to_string()),
        ]
    );
    assert_eq!(plan[1].0, "a");
    assert!(plan[1].1.is_empty());
    assert_eq!(plan[2].0, "c");
    // numbering goes on from the id of the last OSD planned before
    assert_eq!(
        ids_and_paths(&plan[2].1),
        vec![
            (2, "/dev/sde".to_string(), "/dev/sde".to_string()),
            (3, "/dev/sdf".to_string(), "/dev/sdf".to_string()),
        ]
    );
}

#[test]
fn separate_pools_no_hosts() {
    assert!(separate_deployment(Vec::new()).is_empty());
}

#[test]
fn other_strategies_plan_nothing() {
    let hosts = || vec![host("a", vec![disk(Some(DiskType::SOLID_STATE), "/dev/sda")])];
    assert!(ssd_deployment(hosts()).is_empty());
    assert!(nvme_deployment(hosts()).is_empty());
    assert!(plan_deployment(hosts(), Strategy::SsdJournal).is_empty());
    assert!(plan_deployment(hosts(), Strategy::NvmeJournal).is_empty());
    let plan = plan_deployment(hosts(), Strategy::Separate);
    assert_eq!(plan.len(), 1);
    assert_eq!(ids_and_paths(&plan[0].1), vec![(0, "/dev/sda".to_string(), "/dev/sda".to_string())]);
}

#[test]
fn hosts_ordered_by_name() {
    let hosts = vec![
        host("node-b", vec![disk(None, "/dev/sda")]),
        host("node-a", vec![]),
        host("node-c", vec![]),
        host("node-a", vec![disk(None, "/dev/sdb")]),
        host("Node-z", vec![]),
    ];
    let sorted = sort_by_hostname(hosts);
    let names: Vec<&str> = sorted.iter().map(|h| h.0.as_str()).collect();
    assert_eq!(names, vec!["Node-z", "node-a", "node-a", "node-b", "node-c"]);
    // hosts of the same name keep their order
    assert!(sorted[1].1.is_empty());
    assert_eq!(sorted[2].1.len(), 1);
    assert_eq!(sorted[3].1[0].dev_path.as_deref(), Some("/dev/sda"));
}

#[test]
fn hostname_order_matches_string_order() {
    let names = ["b", "a", "ab", "", "aa", "é", "z", "a"];
    let hosts: Vec<HostDisks> = names.iter().map(|n| host(n, vec![])).collect();
    let sorted: Vec<String> = sort_by_hostname(hosts).into_iter().map(|h| h.0).collect();
    let mut expected: Vec<String> = names.iter().map(|n| n.to_string()).collect();
    expected.sort();
    assert_eq!(sorted, expected);
}
