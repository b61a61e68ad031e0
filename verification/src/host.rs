//! What Bynar knows about the host it runs on.
use vstd::prelude::*;
use crate::device::ScsiInfo;
use crate::error::BynarError;
use crate::text::{str_eq, concat2};

verus! {

/// The kind of storage the host serves.
#[derive(Debug, Clone, Copy, PartialEq, Eq, Structural)]
pub enum StorageTypeEnum {
    Ceph,
    Scaleio,
    Gluster,
    Hitachi,
}

/// The name a storage kind is written as.
pub open spec fn storage_type_name(s: StorageTypeEnum) -> Seq<char> {
    match s {
        StorageTypeEnum::Ceph => "ceph"@,
        StorageTypeEnum::Scaleio => "scaleio"@,
        StorageTypeEnum::Hitachi => "hitachi"@,
        StorageTypeEnum::Gluster => "gluster"@,
    }
}

impl StorageTypeEnum {
    /// The name of this storage kind.
    pub fn to_string(&self) -> (res: String)
        ensures
            res@ == storage_type_name(*self),
    {
        let s = match self {
            StorageTypeEnum::Ceph => "ceph",
            StorageTypeEnum::Scaleio => "scaleio",
            StorageTypeEnum::Hitachi => "hitachi",
            StorageTypeEnum::Gluster => "gluster",
        };
        String::from_str(s)
    }
}

/// All the information gathered about the host.
pub struct Host {
    pub hostname: String,
    /// The address of the default interface, written out
    pub ip: String,
    pub region: String,
    pub kernel: String,
    pub server_type: String,
    pub serial_number: String,
    pub machine_architecture: String,
    pub scsi_info: Vec<ScsiInfo>,
    pub storage_type: StorageTypeEnum,
    pub array_name: Option<String>,
    pub pool_name: Option<String>,
}

/// The position of the first `-` at or after `from`, or the length of `s`
/// when there is none.
pub open spec fn next_dash(s: Seq<char>, from: int) -> int
    decreases s.len() - from,
{
    if from >= s.len() {
        s.len() as int
    } else if s[from] == '-' {
        from
    } else {
        next_dash(s, from + 1)
    }
}

pub(crate) proof fn lemma_next_dash(s: Seq<char>, from: int)
    requires
        0 <= from <= s.len(),
    ensures
        from <= next_dash(s, from) <= s.len(),
        next_dash(s, from) < s.len() ==> s[next_dash(s, from)] == '-',
        forall|i: int| from <= i < next_dash(s, from) ==> s[i] != '-',
    decreases s.len() - from,
{
    if from < s.len() && s[from] != '-' {
        lemma_next_dash(s, from + 1);
    }
}

/// Whether `s` holds a `-`.
pub open spec fn has_dash(s: Seq<char>) -> bool {
    exists|i: int| 0 <= i < s.len() && s[i] == '-'
}

/// The region a host sits in, read from its name
/// `<name>-<region part one>-<region part two>...`: part one, a `-`, and
/// the first character of part two when there is a part two. A name with
/// no `-` is in the test region.
pub open spec fn region_of(hostname: Seq<char>) -> Seq<char> {
    if has_dash(hostname) {
        let a = next_dash(hostname, 0);
        let b = next_dash(hostname, a + 1);
        hostname.subrange(a + 1, b) + "-"@ + (if b < hostname.len() {
            seq![hostname[b + 1]]
        } else {
            Seq::empty()
        })
    } else {
        "test-region"@
    }
}

/// The names the region reader can take: where a name has a third part,
/// the part starts with an ASCII character (a one-byte first character).
pub open spec fn region_readable(hostname: Seq<char>) -> bool {
    has_dash(hostname) ==> {
        let a = next_dash(hostname, 0);
        let b = next_dash(hostname, a + 1);
        b < hostname.len() ==> b + 1 < hostname.len() && hostname[b + 1] != '-' && (hostname[b
            + 1] as u32) < 128
    }
}

pub(crate) fn find_dash(s: &str, from: usize) -> (res: usize)
    requires
        from <= s@.len(),
    ensures
        res == next_dash(s@, from as int),
{
    let n = s.unicode_len();
    let mut i = from;
    while i < n && s.get_char(i) != '-'
        invariant
            n == s@.len(),
            from <= i <= n,
            next_dash(s@, from as int) == next_dash(s@, i as int),
        decreases n - i,
    {
        i = i + 1;
    }
    i
}

/// Whether the region can be read from `hostname`: where the name has a
/// third `-`-separated part, that part starts with an ASCII character.
pub fn is_region_readable(hostname: &str) -> (res: bool)
    ensures
        res == region_readable(hostname@),
{
    let n = hostname.unicode_len();
    let a = find_dash(hostname, 0);
    proof {
        lemma_next_dash(hostname@, 0);
    }
    if a == n {
        proof {
            if has_dash(hostname@) {
                let i = choose|i: int| 0 <= i < hostname@.len() && hostname@[i] == '-';
                assert(hostname@[i] != '-');
            }
        }
        return true;
    }
    assert(has_dash(hostname@)) by {
        assert(hostname@[a as int] == '-');
    }
    let b = find_dash(hostname, a + 1);
    proof {
        lemma_next_dash(hostname@, a + 1);
    }
    if b == n {
        return true;
    }
    if b + 1 >= n {
        return false;
    }
    let c = hostname.get_char(b + 1);
    c != '-' && (c as u32) < 128
}

/// The region the host sits in, read from its name.
pub fn get_region_from_hostname(hostname: &str) -> (res: Result<String, BynarError>)
    requires
        region_readable(hostname@),
    ensures
        res matches Ok(r) && r@ == region_of(hostname@),
{
    let n = hostname.unicode_len();
    let mut a: usize = 0;
    while a < n && hostname.get_char(a) != '-'
        invariant
            n == hostname@.len(),
            a <= n,
            forall|i: int| 0 <= i < a ==> hostname@[i] != '-',
        decreases n - a,
    {
        a = a + 1;
    }
    proof {
        lemma_next_dash(hostname@, 0);
        if a < n {
            assert(hostname@[a as int] == '-');
        }
    }
    if a == n {
        proof {
            assert(!has_dash(hostname@));
        }
        return Ok(String::from_str("test-region"));
    }
    proof {
        assert(has_dash(hostname@));
        assert(next_dash(hostname@, 0) == a) by {
            lemma_next_dash(hostname@, 0);
            if next_dash(hostname@, 0) < a {
                assert(hostname@[next_dash(hostname@, 0)] == '-');
            }
        }
    }
    let mut b: usize = a + 1;
    while b < n && hostname.get_char(b) != '-'
        invariant
            n == hostname@.len(),
            a < b <= n,
            forall|i: int| a + 1 <= i < b ==> hostname@[i] != '-',
        decreases n - b,
    {
        b = b + 1;
    }
    proof {
        lemma_next_dash(hostname@, a + 1);
        let nb = next_dash(hostname@, a + 1);
        if nb < b {
            assert(hostname@[nb] == '-');
        }
        if b < n {
            assert(hostname@[b as int] == '-');
        }
        assert(nb == b);
    }
    let part1 = hostname.substring_char(a + 1, b);
    let mut region = concat2(part1, "-");
    if b < n {
        let c = hostname.substring_char(b + 1, b + 2);
        region.append(c);
        proof {
            assert(c@ =~= seq![hostname@[b + 1]]);
        }
    }
    proof {
        reveal_strlit("-");
        reveal_strlit("");
    }
    assert(region@ =~= region_of(hostname@));
    Ok(region)
}

/// The default interface named by a line of the kernel routing table: the
/// interface of a route with destination `00000000`, on a line of at least
/// three fields.
pub open spec fn default_route_iface(fields: Seq<Seq<char>>) -> Option<Seq<char>> {
    if fields.len() > 2 && fields[1] == "00000000"@ {
        Some(fields[0])
    } else {
        None
    }
}

/// The default interface named by a line, given as its fields.
pub open spec fn line_iface(fields: Vec<String>) -> Option<Seq<char>> {
    default_route_iface(fields@.map_values(|f: String| f@))
}

/// The default interface named by the first line of the routing table that
/// names one, the lines already split into fields; none is an error.
pub fn get_default_iface(lines: &Vec<Vec<String>>) -> (res: Result<String, BynarError>)
    ensures
        (exists|i: int| 0 <= i < lines@.len() && line_iface(#[trigger] lines@[i]) is Some) ==> (res matches Ok(iface) && exists|i: int|
            0 <= i < lines@.len() && line_iface(#[trigger] lines@[i]) == Some(iface@) && forall|j: int|
                0 <= j < i ==> line_iface(lines@[j]) is None),
        (forall|i: int| 0 <= i < lines@.len() ==> line_iface(#[trigger] lines@[i]) is None) ==> (res matches Err(BynarError::Error(m)) && m@
            == "No default interface found"@),
{
    let mut i: usize = 0;
    while i < lines.len()
        invariant
            i <= lines@.len(),
            forall|j: int|
                0 <= j < i ==> line_iface(#[trigger] lines@[j])
                    is None,
        decreases lines@.len() - i,
    {
        let fields = &lines[i];
        let ghost fv = fields@.map_values(|f: String| f@);
        assert(line_iface(*fields) == default_route_iface(fv));
        if fields.len() > 2 && str_eq(fields[1].as_str(), "00000000") {
            assert(default_route_iface(fv) == Some(fields@[0]@));
            return Ok(fields[0].clone());
        }
        assert(default_route_iface(fv) is None);
        i = i + 1;
    }
    Err(BynarError::from_str_msg("No default interface found"))
}


/// The host's details as a ticket description lists them.
pub open spec fn host_details_text(h: Host) -> Seq<char> {
    "\nHostname: "@ + h.hostname@ + "\nServer type: "@ + h.server_type@ + "\nServer Serial: "@
        + h.serial_number@ + "\nMachine Architecture: "@ + h.machine_architecture@ + "\nKernel: "@
        + h.kernel@
}

impl Host {
    /// The host's details as a ticket description lists them.
    pub fn details(&self) -> (res: String)
        ensures
            res@ == host_details_text(*self),
    {
        let mut s = String::from_str("\nHostname: ");
        s.append(self.hostname.as_str());
        s.append("\nServer type: ");
        s.append(self.server_type.as_str());
        s.append("\nServer Serial: ");
        s.append(self.serial_number.as_str());
        s.append("\nMachine Architecture: ");
        s.append(self.machine_architecture.as_str());
        s.append("\nKernel: ");
        s.append(self.kernel.as_str());
        s
    }

    /// The start of the ticket description for a failed disk on this host.
    pub fn failed_disk_description(&self) -> (res: String)
        ensures
            res@ == "A disk on "@ + self.hostname@ + " failed. Please replace."@ + host_details_text(*self),
    {
        let mut s = String::from_str("A disk on ");
        s.append(self.hostname.as_str());
        s.append(" failed. Please replace.");
        let d = self.details();
        s.append(d.as_str());
        s
    }
}

/// An address of a network interface, in its written form.
#[derive(Debug)]
pub struct IfaceAddr {
    pub ipv4: bool,
    pub addr: String,
}

/// A network interface and its addresses.
#[derive(Debug)]
pub struct NetInterface {
    pub name: String,
    pub ips: Vec<IfaceAddr>,
}

/// The first IPv4 address of `ips`.
pub open spec fn first_ipv4(ips: Seq<IfaceAddr>) -> Option<Seq<char>>
    decreases ips.len(),
{
    if ips.len() == 0 {
        None
    } else if ips[0].ipv4 {
        Some(ips[0].addr@)
    } else {
        first_ipv4(ips.drop_first())
    }
}

/// The first interface of `ifaces` called `name`.
pub open spec fn first_named(ifaces: Seq<NetInterface>, name: Seq<char>) -> Option<NetInterface>
    decreases ifaces.len(),
{
    if ifaces.len() == 0 {
        None
    } else if ifaces[0].name@ == name {
        Some(ifaces[0])
    } else {
        first_named(ifaces.drop_first(), name)
    }
}

fn find_ipv4(ips: &Vec<IfaceAddr>) -> (res: Option<String>)
    ensures
        match first_ipv4(ips@) {
            Some(a) => res matches Some(r) && r@ == a,
            None => res is None,
        },
{
    let mut i: usize = 0;
    assert(ips@.subrange(0, ips@.len() as int) =~= ips@);
    while i < ips.len()
        invariant
            i <= ips@.len(),
            first_ipv4(ips@) == first_ipv4(ips@.subrange(i as int, ips@.len() as int)),
        decreases ips@.len() - i,
    {
        let ghost rest = ips@.subrange(i as int, ips@.len() as int);
        assert(rest[0] == ips@[i as int]);
        assert(rest.drop_first() =~= ips@.subrange(i + 1, ips@.len() as int));
        if ips[i].ipv4 {
            return Some(ips[i].addr.clone());
        }
        i = i + 1;
    }
    assert(ips@.subrange(i as int, ips@.len() as int).len() == 0);
    None
}

/// The IP address of the host: the first IPv4 address of the first
/// interface called `default_iface`.
pub fn get_ip(interfaces: &Vec<NetInterface>, default_iface: &str) -> (res: Result<String, BynarError>)
    ensures
        match first_named(interfaces@, default_iface@) {
            None => (res matches Err(BynarError::Error(m)) && m@ == "No network interface found"@),
            Some(iface) => match first_ipv4(iface.ips@) {
                Some(a) => (res matches Ok(r) && r@ == a),
                None => (res matches Err(BynarError::Error(m)) && m@ == "IPv4 Address not found"@),
            },
        },
{
    let mut i: usize = 0;
    assert(interfaces@.subrange(0, interfaces@.len() as int) =~= interfaces@);
    while i < interfaces.len()
        invariant
            i <= interfaces@.len(),
            first_named(interfaces@, default_iface@) == first_named(
                interfaces@.subrange(i as int, interfaces@.len() as int),
                default_iface@,
            ),
        decreases interfaces@.len() - i,
    {
        let ghost rest = interfaces@.subrange(i as int, interfaces@.len() as int);
        assert(rest[0] == interfaces@[i as int]);
        assert(rest.drop_first() =~= interfaces@.subrange(i + 1, interfaces@.len() as int));
        if str_eq(interfaces[i].name.as_str(), default_iface) {
            return match find_ipv4(&interfaces[i].ips) {
                Some(a) => Ok(a),
                None => Err(BynarError::from_str_msg("IPv4 Address not found")),
            };
        }
        i = i + 1;
    }
    assert(interfaces@.subrange(i as int, interfaces@.len() as int).len() == 0);
    Err(BynarError::from_str_msg("No network interface found"))
}

} // verus!
