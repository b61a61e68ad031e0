//! Planning an OSD deployment over many hosts: reading the host list,
//! ordering the hosts by name and laying OSDs out over the disks each host
//! reports.
use vstd::prelude::*;
use crate::text::{str_eq, concat2, owned};
use crate::service::{Disk, DiskType, opt_text};
use crate::path_order::{seq_lt, str_lt, lemma_seq_lt_irreflexive, lemma_seq_lt_transitive, lemma_seq_lt_total};

verus! {

/// How OSDs are laid out over the disks of the hosts.
#[derive(Debug, Clone, Copy, PartialEq, Eq, Structural)]
pub enum Strategy {
    /// Solid state and rotational disks in separate pools, each OSD with
    /// its journal on its own disk.
    Separate,
    /// Journals on solid state disks.
    SsdJournal,
    /// Journals on NVMe devices.
    NvmeJournal,
}

/// The strategy a name stands for.
pub open spec fn strategy_named(s: Seq<char>) -> Option<Strategy> {
    if s == "ssd_journals"@ {
        Some(Strategy::SsdJournal)
    } else if s == "nvme_journals"@ {
        Some(Strategy::NvmeJournal)
    } else if s == "separate_pools"@ {
        Some(Strategy::Separate)
    } else {
        None
    }
}

impl Strategy {
    /// Read a strategy from its name.
    pub fn from_str(s: &str) -> (res: Result<Strategy, String>)
        ensures
            strategy_named(s@) matches Some(st) ==> res == Ok::<Strategy, String>(st),
            strategy_named(s@) is None ==> (res matches Err(m) && m@ == "Unknown strategy: "@ + s@),
    {
        if str_eq(s, "ssd_journals") {
            Ok(Strategy::SsdJournal)
        } else if str_eq(s, "nvme_journals") {
            Ok(Strategy::NvmeJournal)
        } else if str_eq(s, "separate_pools") {
            Ok(Strategy::Separate)
        } else {
            Err(concat2("Unknown strategy: ", s))
        }
    }
}

/// The index of the first newline in `s`, or -1 when there is none.
pub open spec fn first_newline(s: Seq<char>) -> int
    decreases s.len(),
{
    if s.len() == 0 {
        -1
    } else if s[0] == '\n' {
        0
    } else {
        let r = first_newline(s.drop_first());
        if r < 0 {
            -1
        } else {
            r + 1
        }
    }
}

/// A line without the carriage return that ended it.
pub open spec fn strip_cr(l: Seq<char>) -> Seq<char> {
    if l.len() > 0 && l.last() == '\r' {
        l.drop_last()
    } else {
        l
    }
}

/// The lines of a text, as `str::lines` gives them: split at each `\n`,
/// a `\r` just before it dropped, and no empty line after a final `\n`.
pub open spec fn text_lines(s: Seq<char>) -> Seq<Seq<char>>
    decreases s.len(),
{
    if s.len() == 0 {
        Seq::empty()
    } else {
        let i = first_newline(s);
        if i < 0 {
            seq![s]
        } else {
            proof {
                lemma_first_newline(s);
            }
            seq![strip_cr(s.take(i))] + text_lines(s.skip(i + 1))
        }
    }
}

/// Where the first newline is.
pub proof fn lemma_first_newline(s: Seq<char>)
    ensures
        -1 <= first_newline(s) < s.len(),
        first_newline(s) >= 0 ==> s[first_newline(s)] == '\n',
        forall|j: int| 0 <= j < s.len() && (first_newline(s) < 0 || j < first_newline(s)) ==> s[j] != '\n',
    decreases s.len(),
{
    if s.len() > 0 && s[0] != '\n' {
        lemma_first_newline(s.drop_first());
        assert forall|j: int| 0 <= j < s.len() && (first_newline(s) < 0 || j < first_newline(s)) implies s[j]
            != '\n' by {
            if j > 0 {
                assert(s[j] == s.drop_first()[j - 1]);
            }
        }
    }
}

/// The view of a list of strings.
pub open spec fn string_views(v: Seq<String>) -> Seq<Seq<char>> {
    v.map_values(|s: String| s@)
}

fn find_newline(s: &str, from: usize) -> (res: usize)
    requires
        from <= s@.len(),
    ensures
        from <= res <= s@.len(),
        res < s@.len() ==> res - from == first_newline(s@.skip(from as int)),
        res == s@.len() ==> first_newline(s@.skip(from as int)) < 0,
{
    let n = s.unicode_len();
    let mut i = from;
    while i < n
        invariant
            n == s@.len(),
            from <= i <= n,
            forall|j: int| from <= j < i ==> s@[j] != '\n',
        decreases n - i,
    {
        if s.get_char(i) == '\n' {
            proof {
                lemma_first_newline_at(s@.skip(from as int), i - from);
            }
            return i;
        }
        i = i + 1;
    }
    proof {
        lemma_no_newline(s@.skip(from as int));
    }
    i
}

proof fn lemma_first_newline_at(s: Seq<char>, k: int)
    requires
        0 <= k < s.len(),
        s[k] == '\n',
        forall|j: int| 0 <= j < k ==> s[j] != '\n',
    ensures
        first_newline(s) == k,
    decreases k,
{
    if k > 0 {
        assert forall|j: int| 0 <= j < k - 1 implies s.drop_first()[j] != '\n' by {
            assert(s.drop_first()[j] == s[j + 1]);
        }
        lemma_first_newline_at(s.drop_first(), k - 1);
    }
}

proof fn lemma_no_newline(s: Seq<char>)
    requires
        forall|j: int| 0 <= j < s.len() ==> s[j] != '\n',
    ensures
        first_newline(s) < 0,
    decreases s.len(),
{
    if s.len() > 0 {
        assert forall|j: int| 0 <= j < s.drop_first().len() implies s.drop_first()[j] != '\n' by {
            assert(s.drop_first()[j] == s[j + 1]);
        }
        lemma_no_newline(s.drop_first());
    }
}

/// The hosts listed in a host file, one per line.
pub fn parse_host_list(text: &str) -> (res: Vec<String>)
    ensures
        string_views(res@) == text_lines(text@),
{
    let n = text.unicode_len();
    let mut hosts: Vec<String> = Vec::new();
    let mut pos: usize = 0;
    assert(text@.skip(0) =~= text@);
    while pos < n
        invariant
            n == text@.len(),
            pos <= n,
            text_lines(text@) == string_views(hosts@) + text_lines(text@.skip(pos as int)),
        decreases n - pos,
    {
        let ghost rest = text@.skip(pos as int);
        let nl = find_newline(text, pos);
        if nl < n {
            let mut end = nl;
            if end > pos && text.get_char(end - 1) == '\r' {
                end = end - 1;
            }
            let line = text.substring_char(pos, end);
            proof {
                let i = nl - pos;
                assert(rest.take(i) =~= text@.subrange(pos as int, nl as int));
                if end < nl {
                    assert(strip_cr(rest.take(i)) =~= line@);
                } else {
                    assert(strip_cr(rest.take(i)) =~= line@);
                }
                assert(rest.skip(i + 1) =~= text@.skip(nl + 1));
            }
            let owned_line = String::from_str(line);
            let ghost before = hosts@;
            hosts.push(owned_line);
            proof {
                assert(string_views(hosts@) =~= string_views(before) + seq![line@]);
            }
            pos = nl + 1;
        } else {
            let line = text.substring_char(pos, n);
            proof {
                assert(line@ =~= rest);
                assert(text@.skip(n as int) =~= Seq::<char>::empty());
            }
            let ghost before = hosts@;
            hosts.push(String::from_str(line));
            proof {
                assert(string_views(hosts@) =~= string_views(before) + seq![line@]);
                assert(text_lines(Seq::<char>::empty()) =~= Seq::<Seq<char>>::empty());
            }
            pos = n;
        }
    }
    proof {
        assert(text@.skip(n as int) =~= Seq::<char>::empty());
    }
    assert(string_views(hosts@) + Seq::<Seq<char>>::empty() =~= string_views(hosts@));
    hosts
}

/// A host with the disks it reports.
pub type HostDisks = (String, Vec<Disk>);

/// An OSD to create: its id, its data disk and the device of its journal.
#[derive(Debug)]
pub struct PlannedOsd {
    pub id: u64,
    pub disk: String,
    pub journal: String,
}

/// The kind a disk reports; solid state when unset, as the message reads.
pub open spec fn disk_kind(d: Disk) -> DiskType {
    match d.field_type {
        Some(t) => t,
        None => DiskType::SOLID_STATE,
    }
}

/// Whether the cluster can put an OSD on a disk of this kind.
pub open spec fn usable_kind(t: DiskType) -> bool {
    t == DiskType::SOLID_STATE || t == DiskType::ROTATIONAL
}

/// The OSDs laid out over one host's disks, as (id, device) pairs: the
/// disk at position `k` has the id `start + k`, and only the disks the
/// cluster can use get an OSD.
pub open spec fn host_plan(ds: Seq<Disk>, start: int) -> Seq<(int, Seq<char>)>
    decreases ds.len(),
{
    if ds.len() == 0 {
        Seq::empty()
    } else {
        let p = host_plan(ds.drop_last(), start);
        if usable_kind(disk_kind(ds.last())) {
            p.push((start + ds.len() - 1, opt_text(ds.last().dev_path)))
        } else {
            p
        }
    }
}

/// The id the next host's numbering starts from: that of the last disk
/// given an OSD here, or `start` again when none was.
pub open spec fn next_start(ds: Seq<Disk>, start: int) -> int
    decreases ds.len(),
{
    if ds.len() == 0 {
        start
    } else if usable_kind(disk_kind(ds.last())) {
        start + ds.len() - 1
    } else {
        next_start(ds.drop_last(), start)
    }
}

/// The id the numbering of the host after `hs` starts from.
pub open spec fn host_start(hs: Seq<(String, Vec<Disk>)>) -> int
    decreases hs.len(),
{
    if hs.len() == 0 {
        0
    } else {
        next_start(hs.last().1@, host_start(hs.drop_last()))
    }
}

/// How many disks the hosts report in all.
pub open spec fn total_disks(hs: Seq<(String, Vec<Disk>)>) -> int
    decreases hs.len(),
{
    if hs.len() == 0 {
        0
    } else {
        total_disks(hs.drop_last()) + hs.last().1@.len()
    }
}

/// The (id, device) pairs of planned OSDs.
pub open spec fn planned_view(v: Seq<PlannedOsd>) -> Seq<(int, Seq<char>)> {
    v.map_values(|o: PlannedOsd| (o.id as int, o.disk@))
}

/// Every planned OSD keeps its journal on its own disk.
pub open spec fn collocated(v: Seq<PlannedOsd>) -> bool {
    forall|i: int| 0 <= i < v.len() ==> (#[trigger] v[i]).journal@ == v[i].disk@
}

proof fn lemma_next_start_bound(ds: Seq<Disk>, start: int)
    ensures
        start <= next_start(ds, start) <= start + ds.len(),
    decreases ds.len(),
{
    if ds.len() > 0 {
        lemma_next_start_bound(ds.drop_last(), start);
    }
}

proof fn lemma_host_start_bound(hs: Seq<(String, Vec<Disk>)>)
    ensures
        0 <= host_start(hs) <= total_disks(hs),
    decreases hs.len(),
{
    if hs.len() > 0 {
        lemma_host_start_bound(hs.drop_last());
        lemma_next_start_bound(hs.last().1@, host_start(hs.drop_last()));
    }
}

proof fn lemma_total_prefix(hs: Seq<(String, Vec<Disk>)>, i: int)
    requires
        0 <= i <= hs.len(),
    ensures
        total_disks(hs.take(i)) <= total_disks(hs),
    decreases hs.len(),
{
    if i < hs.len() {
        assert(hs.take(i) =~= hs.drop_last().take(i));
        lemma_total_prefix(hs.drop_last(), i);
    } else {
        assert(hs.take(i) =~= hs);
    }
}

/// Lay OSDs out over one host's disks, numbering from `start`; also gives
/// where the next host's numbering starts.
fn plan_host(ds: &Vec<Disk>, start: u64) -> (res: (Vec<PlannedOsd>, u64))
    requires
        start + ds@.len() <= u64::MAX,
    ensures
        planned_view(res.0@) == host_plan(ds@, start as int),
        collocated(res.0@),
        res.1 == next_start(ds@, start as int),
{
    let mut osds: Vec<PlannedOsd> = Vec::new();
    let mut last: u64 = start;
    let mut k: usize = 0;
    while k < ds.len()
        invariant
            k <= ds@.len(),
            start + ds@.len() <= u64::MAX,
            planned_view(osds@) == host_plan(ds@.take(k as int), start as int),
            collocated(osds@),
            last == next_start(ds@.take(k as int), start as int),
        decreases ds@.len() - k,
    {
        let d = &ds[k];
        proof {
            assert(ds@.take(k + 1).drop_last() =~= ds@.take(k as int));
            assert(ds@.take(k + 1).last() == *d);
        }
        let t = d.get_field_type();
        if t == DiskType::SOLID_STATE || t == DiskType::ROTATIONAL {
            let id = start + k as u64;
            let osd = PlannedOsd { id, disk: owned(d.get_dev_path()), journal: owned(d.get_dev_path()) };
            let ghost before = osds@;
            osds.push(osd);
            proof {
                assert(planned_view(osds@) =~= planned_view(before).push((id as int, opt_text(d.dev_path))));
                assert forall|i: int| 0 <= i < osds@.len() implies (#[trigger] osds@[i]).journal@ == osds@[i].disk@ by {
                    if i < before.len() {
                        assert(osds@[i] == before[i]);
                    }
                }
            }
            last = id;
        }
        k = k + 1;
    }
    assert(ds@.take(ds@.len() as int) =~= ds@);
    (osds, last)
}

/// The layout of the separate-pools strategy: one entry per host, in the
/// order given, with the host's name and, on each disk the cluster can use,
/// an OSD numbered by the disk's position on from where the previous host's
/// last OSD stood, its journal on the same disk.
pub open spec fn separate_layout(disks: Seq<HostDisks>, res: Seq<(String, Vec<PlannedOsd>)>) -> bool {
    &&& res.len() == disks.len()
    &&& forall|i: int| 0 <= i < res.len() ==> (#[trigger] res[i]).0@ == disks[i].0@
    &&& forall|i: int| 0 <= i < res.len() ==> planned_view((#[trigger] res[i]).1@) == host_plan(disks[i].1@, host_start(disks.take(i)))
    &&& forall|i: int| 0 <= i < res.len() ==> collocated((#[trigger] res[i]).1@)
}

/// The deployment for the separate-pools strategy: hosts keep their order,
/// each host's disks are numbered on from where the previous host's last
/// OSD stood, and every disk the cluster can use gets an OSD with its
/// journal on the same disk.
pub fn separate_deployment(disks: Vec<HostDisks>) -> (res: Vec<(String, Vec<PlannedOsd>)>)
    requires
        total_disks(disks@) < u64::MAX,
    ensures
        separate_layout(disks@, res@),
{
    let mut deployment_list: Vec<(String, Vec<PlannedOsd>)> = Vec::new();
    let mut starting_id: u64 = 0;
    let mut h: usize = 0;
    assert(disks@.take(0) =~= Seq::<(String, Vec<Disk>)>::empty());
    while h < disks.len()
        invariant
            h <= disks@.len(),
            total_disks(disks@) < u64::MAX,
            deployment_list@.len() == h,
            starting_id == host_start(disks@.take(h as int)),
            forall|i: int| 0 <= i < h ==> (#[trigger] deployment_list@[i]).0@ == disks@[i].0@,
            forall|i: int| 0 <= i < h ==> planned_view((#[trigger] deployment_list@[i]).1@) == host_plan(disks@[i].1@, host_start(disks@.take(i))),
            forall|i: int| 0 <= i < h ==> collocated((#[trigger] deployment_list@[i]).1@),
        decreases disks@.len() - h,
    {
        proof {
            let t = disks@.take(h + 1);
            assert(t.drop_last() =~= disks@.take(h as int));
            assert(t.last() == disks@[h as int]);
            lemma_host_start_bound(disks@.take(h as int));
            lemma_total_prefix(disks@, h + 1);
        }
        let (osds, next) = plan_host(&disks[h].1, starting_id);
        let name = owned(disks[h].0.as_str());
        let ghost before = deployment_list@;
        deployment_list.push((name, osds));
        proof {
            assert forall|i: int| 0 <= i <= h implies (#[trigger] deployment_list@[i]).0@ == disks@[i].0@ by {
                if i < h {
                    assert(deployment_list@[i] == before[i]);
                }
            }
            assert forall|i: int| 0 <= i <= h implies planned_view((#[trigger] deployment_list@[i]).1@) == host_plan(disks@[i].1@, host_start(disks@.take(i))) by {
                if i < h {
                    assert(deployment_list@[i] == before[i]);
                }
            }
            assert forall|i: int| 0 <= i <= h implies collocated((#[trigger] deployment_list@[i]).1@) by {
                if i < h {
                    assert(deployment_list@[i] == before[i]);
                }
            }
        }
        starting_id = next;
        h = h + 1;
    }
    deployment_list
}

/// Each host's plan gives an OSD to exactly the disks the cluster can use:
/// every planned OSD is on such a disk, with the id of its position, and
/// every such disk has its OSD.
pub proof fn lemma_plan_covers_usable_disks(ds: Seq<Disk>, start: int)
    ensures
        forall|j: int| 0 <= j < host_plan(ds, start).len() ==> exists|k: int|
            0 <= k < ds.len() && usable_kind(disk_kind(#[trigger] ds[k])) && #[trigger] host_plan(ds, start)[j] == (
            start + k,
            opt_text(ds[k].dev_path),
        ),
        forall|k: int| 0 <= k < ds.len() && usable_kind(disk_kind(#[trigger] ds[k])) ==> host_plan(
            ds,
            start,
        ).contains((start + k, opt_text(ds[k].dev_path))),
    decreases ds.len(),
{
    if ds.len() > 0 {
        let d = ds.drop_last();
        lemma_plan_covers_usable_disks(d, start);
        let p = host_plan(d, start);
        let q = host_plan(ds, start);
        assert forall|j: int| 0 <= j < q.len() implies exists|k: int|
            0 <= k < ds.len() && usable_kind(disk_kind(#[trigger] ds[k])) && #[trigger] q[j] == (start + k, opt_text(ds[k].dev_path)) by {
            if j < p.len() {
                assert(q[j] == p[j]);
                let k = choose|k: int| 0 <= k < d.len() && usable_kind(disk_kind(#[trigger] d[k])) && p[j] == (start + k, opt_text(d[k].dev_path));
                assert(d[k] == ds[k]);
            } else {
                assert(ds[ds.len() - 1] == ds.last());
            }
        }
        assert forall|k: int| 0 <= k < ds.len() && usable_kind(disk_kind(#[trigger] ds[k])) implies q.contains(
            (start + k, opt_text(ds[k].dev_path)),
        ) by {
            if k < d.len() {
                assert(d[k] == ds[k]);
                let j = choose|j: int| 0 <= j < p.len() && p[j] == (start + k, opt_text(d[k].dev_path));
                assert(q[j] == p[j]);
            } else {
                assert(q[q.len() - 1] == (start + k, opt_text(ds[k].dev_path)));
            }
        }
    }
}

/// Whether host `a` may come before host `b`: its name is not after `b`'s.
pub open spec fn host_le(a: HostDisks, b: HostDisks) -> bool {
    !seq_lt(b.0@, a.0@)
}

/// `s` with `x` placed after every host whose name is not after its own.
pub open spec fn insert_host(s: Seq<HostDisks>, x: HostDisks) -> Seq<HostDisks>
    decreases s.len(),
{
    if s.len() == 0 {
        seq![x]
    } else if host_le(s.last(), x) {
        s.push(x)
    } else {
        insert_host(s.drop_last(), x).push(s.last())
    }
}

/// The hosts ordered by name, hosts of the same name in the order given.
pub open spec fn sort_hosts(s: Seq<HostDisks>) -> Seq<HostDisks>
    decreases s.len(),
{
    if s.len() == 0 {
        s
    } else {
        insert_host(sort_hosts(s.drop_last()), s.last())
    }
}

/// Hosts in order of their names.
pub open spec fn hosts_sorted(s: Seq<HostDisks>) -> bool {
    forall|i: int, j: int| 0 <= i <= j < s.len() ==> host_le(#[trigger] s[i], #[trigger] s[j])
}

proof fn lemma_host_le_transitive(a: HostDisks, b: HostDisks, c: HostDisks)
    requires
        host_le(a, b),
        host_le(b, c),
    ensures
        host_le(a, c),
{
    if seq_lt(c.0@, a.0@) {
        if a.0@ == b.0@ {
            assert(seq_lt(c.0@, b.0@));
        } else {
            lemma_seq_lt_total(a.0@, b.0@);
            lemma_seq_lt_transitive(c.0@, a.0@, b.0@);
        }
    }
}

proof fn lemma_host_before(a: HostDisks, b: HostDisks)
    requires
        !host_le(b, a),
    ensures
        host_le(a, b),
{
    if seq_lt(b.0@, a.0@) {
        lemma_seq_lt_transitive(a.0@, b.0@, a.0@);
        lemma_seq_lt_irreflexive(a.0@);
    }
}

proof fn lemma_insert_host_at(s: Seq<HostDisks>, x: HostDisks, p: int)
    requires
        hosts_sorted(s),
        0 <= p <= s.len(),
        forall|i: int| 0 <= i < p ==> host_le(#[trigger] s[i], x),
        forall|i: int| p <= i < s.len() ==> !host_le(#[trigger] s[i], x),
    ensures
        insert_host(s, x) == s.insert(p, x),
        hosts_sorted(s.insert(p, x)),
    decreases s.len(),
{
    if s.len() == 0 {
        assert(s.insert(p, x) =~= seq![x]);
    } else if p == s.len() {
        assert(host_le(s.last(), x));
        assert(s.insert(p, x) =~= s.push(x));
    } else {
        let d = s.drop_last();
        assert(hosts_sorted(d)) by {
            assert forall|i: int, j: int| 0 <= i <= j < d.len() implies host_le(#[trigger] d[i], #[trigger] d[j]) by {
                assert(d[i] == s[i] && d[j] == s[j]);
            }
        }
        assert forall|i: int| 0 <= i < p implies host_le(#[trigger] d[i], x) by {
            assert(d[i] == s[i]);
        }
        assert forall|i: int| p <= i < d.len() implies !host_le(#[trigger] d[i], x) by {
            assert(d[i] == s[i]);
        }
        assert(!host_le(s[s.len() - 1], x));
        lemma_insert_host_at(d, x, p);
        assert(s.insert(p, x) =~= d.insert(p, x).push(s.last()));
    }
    let r = s.insert(p, x);
    assert forall|i: int, j: int| 0 <= i <= j < r.len() implies host_le(#[trigger] r[i], #[trigger] r[j]) by {
        if i < p && j < p {
            assert(r[i] == s[i] && r[j] == s[j]);
        } else if i < p && j == p {
            assert(r[i] == s[i]);
        } else if i < p {
            assert(r[i] == s[i] && r[j] == s[j - 1]);
        } else if i == p && j > p {
            assert(r[j] == s[j - 1]);
            lemma_host_before(x, s[j - 1]);
        } else if i == p {
            lemma_seq_lt_irreflexive(x.0@);
        } else {
            assert(r[i] == s[i - 1] && r[j] == s[j - 1]);
        }
    }
}

spec fn host_insert_position(s: Seq<HostDisks>, x: HostDisks) -> int
    decreases s.len(),
{
    if s.len() == 0 {
        0
    } else if host_le(s.last(), x) {
        s.len() as int
    } else {
        host_insert_position(s.drop_last(), x)
    }
}

proof fn lemma_host_insert_position(s: Seq<HostDisks>, x: HostDisks)
    requires
        hosts_sorted(s),
    ensures
        0 <= host_insert_position(s, x) <= s.len(),
        forall|i: int| 0 <= i < host_insert_position(s, x) ==> host_le(#[trigger] s[i], x),
        forall|i: int| host_insert_position(s, x) <= i < s.len() ==> !host_le(#[trigger] s[i], x),
    decreases s.len(),
{
    if s.len() > 0 {
        let d = s.drop_last();
        if host_le(s.last(), x) {
            assert forall|i: int| 0 <= i < s.len() implies host_le(#[trigger] s[i], x) by {
                assert(host_le(s[i], s[s.len() - 1]));
                lemma_host_le_transitive(s[i], s.last(), x);
            }
        } else {
            assert(hosts_sorted(d)) by {
                assert forall|i: int, j: int| 0 <= i <= j < d.len() implies host_le(#[trigger] d[i], #[trigger] d[j]) by {
                    assert(d[i] == s[i] && d[j] == s[j]);
                }
            }
            lemma_host_insert_position(d, x);
            assert forall|i: int| 0 <= i < host_insert_position(s, x) implies host_le(#[trigger] s[i], x) by {
                assert(d[i] == s[i]);
            }
            assert forall|i: int| host_insert_position(s, x) <= i < s.len() implies !host_le(#[trigger] s[i], x) by {
                if i < d.len() {
                    assert(d[i] == s[i]);
                }
            }
        }
    }
}

proof fn lemma_sort_hosts_sorted(s: Seq<HostDisks>)
    ensures
        hosts_sorted(sort_hosts(s)),
    decreases s.len(),
{
    if s.len() > 0 {
        lemma_sort_hosts_sorted(s.drop_last());
        let t = sort_hosts(s.drop_last());
        lemma_host_insert_position(t, s.last());
        lemma_insert_host_at(t, s.last(), host_insert_position(t, s.last()));
    }
}

proof fn lemma_insert_host_multiset(s: Seq<HostDisks>, x: HostDisks)
    ensures
        insert_host(s, x).to_multiset() =~= s.to_multiset().insert(x),
    decreases s.len(),
{
    broadcast use vstd::seq_lib::group_to_multiset_ensures;

    if s.len() == 0 {
        assert(seq![x] =~= s.push(x));
    } else if host_le(s.last(), x) {
    } else {
        let d = s.drop_last();
        lemma_insert_host_multiset(d, x);
        assert(d.push(s.last()) =~= s);
    }
}

proof fn lemma_sort_hosts_multiset(s: Seq<HostDisks>)
    ensures
        sort_hosts(s).to_multiset() =~= s.to_multiset(),
    decreases s.len(),
{
    broadcast use vstd::seq_lib::group_to_multiset_ensures;

    if s.len() > 0 {
        let d = s.drop_last();
        lemma_sort_hosts_multiset(d);
        lemma_insert_host_multiset(sort_hosts(d), s.last());
        assert(d.push(s.last()) =~= s);
    }
}

/// Ordering hosts by name gives the same hosts, each as often as before,
/// in order of their names.
pub proof fn lemma_hostname_order(s: Seq<HostDisks>)
    ensures
        hosts_sorted(sort_hosts(s)),
        sort_hosts(s).to_multiset() == s.to_multiset(),
{
    lemma_sort_hosts_sorted(s);
    lemma_sort_hosts_multiset(s);
}

/// The hosts ordered by name; hosts of the same name keep their order.
pub fn sort_by_hostname(disks: Vec<HostDisks>) -> (res: Vec<HostDisks>)
    ensures
        res@ == sort_hosts(disks@),
{
    let mut sorted: Vec<HostDisks> = Vec::new();
    let ghost all = disks@;
    let mut src = disks;
    let mut items: Vec<HostDisks> = Vec::new();
    while src.len() > 0
        invariant
            src@ + items@.reverse() == all,
        decreases src@.len(),
    {
        let x = src.pop().unwrap();
        proof {
            assert(src@.push(x) + items@.reverse() =~= src@ + items@.push(x).reverse());
        }
        items.push(x);
    }
    assert(items@.reverse() =~= all);
    assert(all.take(0) =~= Seq::<HostDisks>::empty());
    while items.len() > 0
        invariant
            hosts_sorted(sorted@),
            sorted@ == sort_hosts(all.take(all.len() - items@.len())),
            items@.reverse() == all.skip(all.len() - items@.len()),
            items@.len() <= all.len(),
        decreases items@.len(),
    {
        let ghost k = all.len() - items@.len();
        let x = items.pop().unwrap();
        proof {
            assert(all.skip(k)[0] == x) by {
                assert(items@.push(x).reverse()[0] == x);
            }
            assert(all[k] == x);
        }
        let mut p: usize = sorted.len();
        while p > 0 && str_lt(x.0.as_str(), sorted[p - 1].0.as_str())
            invariant
                p <= sorted@.len(),
                hosts_sorted(sorted@),
                forall|j: int| p <= j < sorted@.len() ==> !host_le(#[trigger] sorted@[j], x),
            decreases p,
        {
            p = p - 1;
        }
        proof {
            if p > 0 {
                assert forall|j: int| 0 <= j < p implies host_le(#[trigger] sorted@[j], x) by {
                    assert(host_le(sorted@[j], sorted@[p - 1]));
                    lemma_host_le_transitive(sorted@[j], sorted@[p - 1], x);
                }
            }
            lemma_insert_host_at(sorted@, x, p as int);
            assert(all.take(k + 1).drop_last() =~= all.take(k));
            assert(all.take(k + 1).last() == x);
            assert(items@.reverse() =~= all.skip(k + 1)) by {
                assert forall|j: int| 0 <= j < items@.len() implies items@.reverse()[j] == all.skip(k + 1)[j] by {
                    assert(items@.push(x).reverse()[j + 1] == all.skip(k)[j + 1]);
                }
            }
        }
        sorted.insert(p, x);
    }
    assert(all.take(all.len() as int) =~= all);
    sorted
}

/// The deployment for the SSD-journal strategy: no host gets an OSD yet.
pub fn ssd_deployment(disks: Vec<HostDisks>) -> (res: Vec<(String, Vec<PlannedOsd>)>)
    ensures
        res@.len() == 0,
{
    Vec::new()
}

/// The deployment for the NVMe-journal strategy: no host gets an OSD yet.
pub fn nvme_deployment(disks: Vec<HostDisks>) -> (res: Vec<(String, Vec<PlannedOsd>)>)
    ensures
        res@.len() == 0,
{
    Vec::new()
}

/// The deployment a strategy gives for the hosts and their disks.
pub fn plan_deployment(sorted_disks: Vec<HostDisks>, strategy: Strategy) -> (res: Vec<(String, Vec<PlannedOsd>)>)
    requires
        strategy == Strategy::Separate ==> total_disks(sorted_disks@) < u64::MAX,
    ensures
        strategy == Strategy::Separate ==> separate_layout(sorted_disks@, res@),
        strategy != Strategy::Separate ==> res@.len() == 0,
{
    match strategy {
        Strategy::Separate => separate_deployment(sorted_disks),
        Strategy::SsdJournal => ssd_deployment(sorted_disks),
        Strategy::NvmeJournal => nvme_deployment(sorted_disks),
    }
}

} // verus!
