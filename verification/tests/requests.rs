use bynar::error::BynarError;
use bynar::host::{get_ip, IfaceAddr, NetInterface};
use bynar::ops::{
    add_disk_request, get_jira_tickets_request, list_disks_request, remove_disk_request, safe_to_remove_request, Op,
};

fn iface(name: &str, ips: &[(bool, &str)]) -> NetInterface {
    NetInterface {
        name: name.to_string(),
        ips: ips.iter().map(|(v4, a)| IfaceAddr { ipv4: *v4, addr: a.to_string() }).collect(),
    }
}

#[test]
fn request_builders() {
    let add = add_disk_request("/dev/sdb", Some(4), true);
    assert_eq!(add.op_type, Op::Add);
    assert_eq!(add.disk, "/dev/sdb");
    assert_eq!(add.osd_id, Some(4));
    assert_eq!(add.simulate, Some(true));
    let remove = remove_disk_request("/dev/sdc", None, false);
    assert_eq!(remove.op_type, Op::Remove);
    assert_eq!(remove.disk, "/dev/sdc");
    assert_eq!(remove.osd_id, None);
    assert_eq!(remove.simulate, Some(false));
    let safe = safe_to_remove_request("/dev/sdd");
    assert_eq!(safe.op_type, Op::SafeToRemove);
    assert_eq!(safe.disk, "/dev/sdd");
    assert_eq!(safe.simulate, None);
    let list = list_disks_request();
    assert_eq!(list.op_type, Op::List);
    assert_eq!(list.disk, "");
    let tickets = get_jira_tickets_request();
    assert_eq!(tickets.op_type, Op::GetCreatedTickets);
    assert_eq!(tickets.osd_id, None);
}

#[test]
fn host_ip_selection() {
    let ifaces = vec![
        iface("lo", &[(true, "127.0.0.1")]),
        iface("eth0", &[(false, "fe80::1"), (true, "10.1.2.3"), (true, "10.1.2.4")]),
        iface("eth0", &[(true, "10.9.9.9")]),
        iface("eth1", &[(false, "fe80::2")]),
    ];
    match get_ip(&ifaces, "eth0") {
        Ok(ip) => assert_eq!(ip, "10.1.2.3"),
        Err(e) => panic!("unexpected {}", e.to_string()),
    }
    match get_ip(&ifaces, "eth1") {
        Err(BynarError::Error(m)) => assert_eq!(m, "IPv4 Address not found"),
        _ => panic!("expected an error"),
    }
    match get_ip(&ifaces, "eth7") {
        Err(BynarError::Error(m)) => assert_eq!(m, "No network interface found"),
        _ => panic!("expected an error"),
    }
    match get_ip(&Vec::new(), "eth0") {
        Err(BynarError::Error(m)) => assert_eq!(m, "No network interface found"),
        _ => panic!("expected an error"),
    }
}
