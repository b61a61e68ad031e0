//! What the storage backends share: the outcome of a backend operation, the
//! kinds of backend, and the disks a backend must leave alone or may put
//! journals on.
use vstd::prelude::*;
use crate::error::BynarError;
use crate::ops::OpOutcome;
use crate::text::{str_eq, concat2, decimal, push_u64};

verus! {

/// The outcome of a backend operation.
#[derive(Debug, Clone, Copy, PartialEq, Eq, Structural)]
pub enum OperationOutcome {
    /// The operation succeeded
    Success,
    /// The disk was skipped (a boot disk, or one the operation cannot run on)
    Skipped,
    /// The operation has already been done on the disk
    SkipRepeat,
}

/// The request outcome a backend outcome is reported as.
pub open spec fn outcome_as_op(out: OperationOutcome) -> OpOutcome {
    match out {
        OperationOutcome::Success => OpOutcome::Success,
        OperationOutcome::Skipped => OpOutcome::Skipped,
        OperationOutcome::SkipRepeat => OpOutcome::SkipRepeat,
    }
}

impl From<OperationOutcome> for OpOutcome {
    fn from(out: OperationOutcome) -> (res: OpOutcome) {
        match out {
            OperationOutcome::Success => OpOutcome::Success,
            OperationOutcome::Skipped => OpOutcome::Skipped,
            OperationOutcome::SkipRepeat => OpOutcome::SkipRepeat,
        }
    }
}

impl vstd::std_specs::convert::FromSpecImpl<OperationOutcome> for OpOutcome {
    open spec fn obeys_from_spec() -> bool {
        true
    }

    open spec fn from_spec(out: OperationOutcome) -> OpOutcome {
        outcome_as_op(out)
    }
}

/// The request outcome a backend outcome is reported as.
pub fn to_op_outcome(out: OperationOutcome) -> (res: OpOutcome)
    ensures
        res == outcome_as_op(out),
{
    OpOutcome::from(out)
}

/// The lowercase form of a string, as `str::to_lowercase` gives it.
pub uninterp spec fn lowercase_of(s: Seq<char>) -> Seq<char>;

/// `str::to_lowercase`: the lowercase form of `s`, as named above.
#[verifier::external_body]
fn to_lowercase(s: &str) -> (res: String)
    ensures
        res@ == lowercase_of(s@),
{
    s.to_lowercase()
}

/// The supported backends.
#[derive(Debug, Clone, Copy, PartialEq, Eq, Structural)]
pub enum BackendType {
    Ceph,
    Gluster,
}

/// The backend a name reads as, whatever its case.
pub open spec fn backend_named(s: Seq<char>) -> Option<BackendType> {
    if lowercase_of(s) == "ceph"@ {
        Some(BackendType::Ceph)
    } else if lowercase_of(s) == "gluster"@ {
        Some(BackendType::Gluster)
    } else {
        None
    }
}

impl BackendType {
    /// Read a backend from its name, whatever its case.
    pub fn from_str(s: &str) -> (res: Result<BackendType, BynarError>)
        ensures
            backend_named(s@) matches Some(b) ==> res == Ok::<BackendType, BynarError>(b),
            backend_named(s@) is None ==> (res matches Err(BynarError::Error(m)) && m@
                == "Unknown backend type: "@ + s@),
    {
        let lower = to_lowercase(s);
        if str_eq(lower.as_str(), "ceph") {
            Ok(BackendType::Ceph)
        } else if str_eq(lower.as_str(), "gluster") {
            Ok(BackendType::Gluster)
        } else {
            Err(BynarError::Error(concat2("Unknown backend type: ", s)))
        }
    }
}

/// Whether two paths name the same place, as `Path`'s `==` tells: they
/// have the same components.
pub uninterp spec fn same_path(a: Seq<char>, b: Seq<char>) -> bool;

/// `Path::eq`: whether two paths have the same components, as named above;
/// a path always names the same place as itself.
#[verifier::external_body]
fn path_eq(a: &str, b: &str) -> (res: bool)
    ensures
        res == same_path(a@, b@),
        a@ == b@ ==> res,
{
    std::path::Path::new(a) == std::path::Path::new(b)
}

/// A device a backend keeps its journals on.
#[derive(Debug)]
pub struct JournalDevice {
    pub device: String,
    pub partition_id: Option<u32>,
    pub partition_uuid: Option<String>,
    pub num_partitions: Option<u64>,
}

/// A disk or partition the backend must not touch.
#[derive(Debug)]
pub struct SystemDisk {
    pub device: String,
}

/// Whether `device` is one of the system disks.
pub open spec fn is_system_disk_spec(system_disks: Seq<SystemDisk>, device: Seq<char>) -> bool {
    exists|i: int| 0 <= i < system_disks.len() && same_path(#[trigger] system_disks[i].device@, device)
}

/// Whether `device` is one of the system disks.
pub fn is_system_disk(system_disks: &Vec<SystemDisk>, device: &str) -> (res: bool)
    ensures
        res == is_system_disk_spec(system_disks@, device@),
{
    let mut i: usize = 0;
    while i < system_disks.len()
        invariant
            i <= system_disks@.len(),
            forall|j: int| 0 <= j < i ==> !same_path(#[trigger] system_disks@[j].device@, device@),
        decreases system_disks@.len() - i,
    {
        if path_eq(system_disks[i].device.as_str(), device) {
            return true;
        }
        i = i + 1;
    }
    false
}

/// Whether `device` is in the list `v`.
pub open spec fn journal_listed(v: Seq<JournalDevice>, device: Seq<char>) -> bool {
    exists|i: int| 0 <= i < v.len() && same_path(#[trigger] v[i].device@, device)
}

/// Whether `device` is one of the journal devices.
pub open spec fn is_journal_spec(journal_devices: Option<Vec<JournalDevice>>, device: Seq<char>) -> bool {
    match journal_devices {
        Some(v) => journal_listed(v@, device),
        None => false,
    }
}

/// Whether `device` is one of the journal devices.
pub fn is_journal(journal_devices: &Option<Vec<JournalDevice>>, device: &str) -> (res: bool)
    ensures
        res == is_journal_spec(*journal_devices, device@),
{
    match journal_devices {
        Some(devices) => {
            let mut i: usize = 0;
            while i < devices.len()
                invariant
                    i <= devices@.len(),
                    is_journal_spec(*journal_devices, device@) == journal_listed(devices@, device@),
                    forall|j: int| 0 <= j < i ==> !same_path(#[trigger] devices@[j].device@, device@),
                decreases devices@.len() - i,
            {
                if path_eq(devices[i].device.as_str(), device) {
                    assert(same_path(devices@[i as int].device@, device@));
                    return true;
                }
                i = i + 1;
            }
            false
        },
        None => false,
    }
}

/// How a journal device is written: its path, followed by its partition
/// number when it has one.
pub open spec fn journal_text(j: JournalDevice) -> Seq<char> {
    match j.partition_id {
        Some(id) => j.device@ + decimal(id as nat),
        None => j.device@,
    }
}

impl JournalDevice {
    /// How this journal device is written.
    pub fn to_string(&self) -> (res: String)
        ensures
            res@ == journal_text(*self),
    {
        let mut s = String::from_str(self.device.as_str());
        match self.partition_id {
            Some(id) => push_u64(&mut s, id as u64),
            None => {},
        }
        s
    }
}

/// The sort key of a journal device: devices whose partition count is
/// unknown come first, then by partition count.
pub open spec fn journal_key(j: JournalDevice) -> int {
    match j.num_partitions {
        Some(n) => n as int,
        None => -1,
    }
}

/// `s` with `x` placed after every element whose key is at most its own,
/// as a stable sort places it.
pub open spec fn insert_by_key(s: Seq<JournalDevice>, x: JournalDevice) -> Seq<JournalDevice>
    decreases s.len(),
{
    if s.len() == 0 {
        seq![x]
    } else if journal_key(s.last()) <= journal_key(x) {
        s.push(x)
    } else {
        insert_by_key(s.drop_last(), x).push(s.last())
    }
}

/// The journal devices sorted by key, keeping the order of devices with
/// equal keys.
pub open spec fn sort_by_key(s: Seq<JournalDevice>) -> Seq<JournalDevice>
    decreases s.len(),
{
    if s.len() == 0 {
        s
    } else {
        insert_by_key(sort_by_key(s.drop_last()), s.last())
    }
}

/// Keys in order.
pub open spec fn keys_sorted(s: Seq<JournalDevice>) -> bool {
    forall|i: int, j: int| 0 <= i <= j < s.len() ==> journal_key(#[trigger] s[i]) <= journal_key(#[trigger] s[j])
}

/// Inserting at position `p` is the stable insertion, when `p` is just past
/// the last element whose key is at most the new one's.
proof fn lemma_insert_at(s: Seq<JournalDevice>, x: JournalDevice, p: int)
    requires
        keys_sorted(s),
        0 <= p <= s.len(),
        forall|i: int| 0 <= i < p ==> journal_key(#[trigger] s[i]) <= journal_key(x),
        forall|i: int| p <= i < s.len() ==> journal_key(#[trigger] s[i]) > journal_key(x),
    ensures
        insert_by_key(s, x) == s.insert(p, x),
        keys_sorted(s.insert(p, x)),
    decreases s.len(),
{
    if s.len() == 0 {
        assert(s.insert(p, x) =~= seq![x]);
    } else if p == s.len() {
        assert(journal_key(s.last()) <= journal_key(x));
        assert(s.insert(p, x) =~= s.push(x));
    } else {
        let d = s.drop_last();
        assert(keys_sorted(d)) by {
            assert forall|i: int, j: int| 0 <= i <= j < d.len() implies journal_key(#[trigger] d[i])
                <= journal_key(#[trigger] d[j]) by {
                assert(d[i] == s[i] && d[j] == s[j]);
            }
        }
        assert forall|i: int| 0 <= i < p implies journal_key(#[trigger] d[i]) <= journal_key(x) by {
            assert(d[i] == s[i]);
        }
        assert forall|i: int| p <= i < d.len() implies journal_key(#[trigger] d[i]) > journal_key(x) by {
            assert(d[i] == s[i]);
        }
        lemma_insert_at(d, x, p);
        assert(s.insert(p, x) =~= d.insert(p, x).push(s.last()));
    }
    let r = s.insert(p, x);
    assert forall|i: int, j: int| 0 <= i <= j < r.len() implies journal_key(#[trigger] r[i])
        <= journal_key(#[trigger] r[j]) by {
        if i < p && j < p {
            assert(r[i] == s[i] && r[j] == s[j]);
        } else if i < p && j == p {
            assert(r[i] == s[i]);
        } else if i < p {
            assert(r[i] == s[i] && r[j] == s[j - 1]);
        } else if i == p && j > p {
            assert(r[j] == s[j - 1]);
        } else if i > p {
            assert(r[i] == s[i - 1] && r[j] == s[j - 1]);
        }
    }
}

/// The sort result is sorted.
proof fn lemma_sort_sorted(s: Seq<JournalDevice>)
    ensures
        keys_sorted(sort_by_key(s)),
        sort_by_key(s).len() == s.len(),
    decreases s.len(),
{
    if s.len() > 0 {
        lemma_sort_sorted(s.drop_last());
        let t = sort_by_key(s.drop_last());
        let x = s.last();
        let p = insert_position(t, x);
        lemma_insert_position(t, x);
        lemma_insert_at(t, x, p);
    }
}

/// Just past the last element whose key is at most `x`'s, in a sorted `s`.
spec fn insert_position(s: Seq<JournalDevice>, x: JournalDevice) -> int
    decreases s.len(),
{
    if s.len() == 0 {
        0
    } else if journal_key(s.last()) <= journal_key(x) {
        s.len() as int
    } else {
        insert_position(s.drop_last(), x)
    }
}

proof fn lemma_insert_position(s: Seq<JournalDevice>, x: JournalDevice)
    requires
        keys_sorted(s),
    ensures
        0 <= insert_position(s, x) <= s.len(),
        forall|i: int| 0 <= i < insert_position(s, x) ==> journal_key(#[trigger] s[i]) <= journal_key(x),
        forall|i: int| insert_position(s, x) <= i < s.len() ==> journal_key(#[trigger] s[i]) > journal_key(x),
    decreases s.len(),
{
    if s.len() > 0 {
        let d = s.drop_last();
        if journal_key(s.last()) <= journal_key(x) {
            assert forall|i: int| 0 <= i < s.len() implies journal_key(#[trigger] s[i]) <= journal_key(x) by {
                assert(journal_key(s[i]) <= journal_key(s[s.len() - 1]));
            }
        } else {
            assert(keys_sorted(d)) by {
                assert forall|i: int, j: int| 0 <= i <= j < d.len() implies journal_key(#[trigger] d[i])
                    <= journal_key(#[trigger] d[j]) by {
                    assert(d[i] == s[i] && d[j] == s[j]);
                }
            }
            lemma_insert_position(d, x);
            assert forall|i: int| 0 <= i < insert_position(s, x) implies journal_key(#[trigger] s[i]) <= journal_key(x) by {
                assert(d[i] == s[i]);
            }
            assert forall|i: int| insert_position(s, x) <= i < s.len() implies journal_key(#[trigger] s[i]) > journal_key(x) by {
                if i < d.len() {
                    assert(d[i] == s[i]);
                }
            }
        }
    }
}

fn key_le(a: &JournalDevice, b: &JournalDevice) -> (res: bool)
    ensures
        res == (journal_key(*a) <= journal_key(*b)),
{
    match (a.num_partitions, b.num_partitions) {
        (None, _) => true,
        (Some(_), None) => false,
        (Some(x), Some(y)) => x <= y,
    }
}

/// Sort journal devices by their number of partitions, those with an
/// unknown number first, keeping the order of devices with equal counts.
pub fn sort_journal_devices(devices: Vec<JournalDevice>) -> (res: Vec<JournalDevice>)
    ensures
        res@ == sort_by_key(devices@),
{
    let mut sorted: Vec<JournalDevice> = Vec::new();
    let ghost all = devices@;
    let mut src = devices;
    let mut items: Vec<JournalDevice> = Vec::new();
    // move the devices out, last first, so each can be taken by value
    while src.len() > 0
        invariant
            src@ + items@.reverse() == all,
        decreases src@.len(),
    {
        let x = src.pop().unwrap();
        proof {
            assert(src@.push(x) + items@.reverse() =~= src@ + items@.push(x).reverse());
        }
        items.push(x);
    }
    assert(items@.reverse() =~= all);
    while items.len() > 0
        invariant
            keys_sorted(sorted@),
            sorted@ == sort_by_key(all.take(all.len() - items@.len())),
            items@.reverse() == all.skip(all.len() - items@.len()),
            items@.len() <= all.len(),
        decreases items@.len(),
    {
        let ghost k = all.len() - items@.len();
        let x = items.pop().unwrap();
        proof {
            assert(all.skip(k)[0] == x) by {
                assert(items@.push(x).reverse()[0] == x);
            }
            assert(all[k] == x);
        }
        let mut p: usize = sorted.len();
        while p > 0 && !key_le(&sorted[p - 1], &x)
            invariant
                p <= sorted@.len(),
                forall|j: int| p <= j < sorted@.len() ==> journal_key(#[trigger] sorted@[j]) > journal_key(x),
            decreases p,
        {
            p = p - 1;
        }
        proof {
            if p > 0 {
                assert forall|j: int| 0 <= j < p implies journal_key(#[trigger] sorted@[j]) <= journal_key(x) by {
                    assert(journal_key(sorted@[j]) <= journal_key(sorted@[p - 1]));
                }
            }
            lemma_insert_at(sorted@, x, p as int);
            assert(all.take(k + 1).drop_last() =~= all.take(k));
            assert(all.take(k + 1).last() == x);
            assert(items@.reverse() =~= all.skip(k + 1)) by {
                assert forall|j: int| 0 <= j < items@.len() implies items@.reverse()[j] == all.skip(k + 1)[j] by {
                    assert(items@.push(x).reverse()[j + 1] == all.skip(k)[j + 1]);
                }
            }
        }
        sorted.insert(p, x);
    }
    assert(all.take(all.len() as int) =~= all);
    sorted
}

/// Sorting by key gives a sorted list of the same length.
pub proof fn lemma_journal_sort_sorted(s: Seq<JournalDevice>)
    ensures
        keys_sorted(sort_by_key(s)),
        sort_by_key(s).len() == s.len(),
{
    lemma_sort_sorted(s);
}


/// The first device with room for a journal, by its position among the
/// devices asked: each device's entry in `fits` says whether it has room.
pub fn first_fitting(fits: &Vec<bool>) -> (res: Option<usize>)
    ensures
        res matches Some(i) ==> i < fits@.len() && fits@[i as int] && forall|j: int| 0 <= j < i ==> !fits@[j],
        res is None ==> forall|j: int| 0 <= j < fits@.len() ==> !fits@[j],
{
    let mut i: usize = 0;
    while i < fits.len()
        invariant
            i <= fits@.len(),
            forall|j: int| 0 <= j < i ==> !fits@[j],
        decreases fits@.len() - i,
    {
        if fits[i] {
            return Some(i);
        }
        i = i + 1;
    }
    None
}

/// Journals are balanced over the devices: among devices sorted by their
/// number of partitions, the first with room has no more partitions than
/// any other device with room.
pub proof fn lemma_first_fitting_least_used(devices: Seq<JournalDevice>, fits: Seq<bool>, i: int)
    requires
        fits.len() == devices.len(),
        keys_sorted(devices),
        0 <= i < fits.len(),
        fits[i],
        forall|j: int| 0 <= j < i ==> !fits[j],
    ensures
        forall|j: int| 0 <= j < fits.len() && fits[j] ==> journal_key(devices[i]) <= journal_key(#[trigger] devices[j]),
{
    assert forall|j: int| 0 <= j < fits.len() && fits[j] implies journal_key(devices[i]) <= journal_key(
        #[trigger] devices[j],
    ) by {
        if j < i {
            assert(!fits[j]);
        }
    }
}

/// A Gluster cluster. Nothing needs doing on it yet: every operation
/// succeeds and every disk is safe to remove.
pub struct GlusterBackend {}

impl GlusterBackend {
    /// Add a disk to the cluster.
    pub fn add_disk(&self, device: &str, id: Option<u64>, simulate: bool) -> (res: Result<OperationOutcome, BynarError>)
        ensures
            res == Ok::<OperationOutcome, BynarError>(OperationOutcome::Success),
    {
        Ok(OperationOutcome::Success)
    }

    /// Remove a disk from the cluster.
    pub fn remove_disk(&self, device: &str, simulate: bool) -> (res: Result<OperationOutcome, BynarError>)
        ensures
            res == Ok::<OperationOutcome, BynarError>(OperationOutcome::Success),
    {
        Ok(OperationOutcome::Success)
    }

    /// Whether a disk is safe to remove from the cluster.
    pub fn safe_to_remove(&self, device: &str, simulate: bool) -> (res: Result<(OperationOutcome, bool), BynarError>)
        ensures
            res == Ok::<(OperationOutcome, bool), BynarError>((OperationOutcome::Success, true)),
    {
        Ok((OperationOutcome::Success, true))
    }
}

} // verus!
