//! The decisions and texts of managing Ceph OSDs: reading the OSD a volume
//! or device belongs to, the arguments and tags handed to Ceph's tools, and
//! the steps of adding and removing a disk. The cluster, LVM and the
//! filesystem are reached by the caller, which hands the answers in here.
use vstd::prelude::*;
use crate::error::BynarError;
use crate::text::{
    is_prefix, starts_with, parse_u64, parse_u64_spec, IntErrorKind, str_eq, contains, contains_seq,
    decimal, u64_to_string, push_u64, concat2, is_digit_char, lemma_parse_decimal, lemma_decimal_all_digits,
};
use crate::backend::{
    JournalDevice, journal_text, SystemDisk, OperationOutcome, is_system_disk, is_journal, is_system_disk_spec,
    is_journal_spec,
};
use crate::device::{MediaType, FilesystemType, fs_type_name};
use crate::message_map::path_views;
use crate::host::{next_dash, has_dash, find_dash, lemma_next_dash};
use crate::paths::{file_name_of, path_file_name};
use crate::text::int_error_text;

verus! {

/// What `Uuid::parse_str` gives for a text: the UUID in lowercase
/// hyphenated form, or the message of the parse error.
pub uninterp spec fn uuid_parse(s: Seq<char>) -> Result<Seq<char>, Seq<char>>;

/// `uuid::Uuid::parse_str`, with the parsed UUID written by its hyphenated
/// formatter and an error written by its `Display`. Both are named by
/// `uuid_parse` and depend on the text alone; nothing more is claimed.
#[verifier::external_body]
fn parse_uuid(s: &str) -> (res: Result<String, String>)
    ensures
        match res {
            Ok(t) => uuid_parse(s@) == Ok::<Seq<char>, Seq<char>>(t@),
            Err(e) => uuid_parse(s@) == Err::<Seq<char>, Seq<char>>(e@),
        },
{
    match uuid::Uuid::parse_str(s) {
        Ok(u) => Ok(u.hyphenated().to_string()),
        Err(e) => Err(e.to_string()),
    }
}

/// The first tag of `tags` that starts with `prefix`.
pub open spec fn first_tag(tags: Seq<String>, prefix: Seq<char>) -> Option<Seq<char>>
    decreases tags.len(),
{
    if tags.len() == 0 {
        None
    } else if is_prefix(prefix, tags[0]@) {
        Some(tags[0]@)
    } else {
        first_tag(tags.drop_first(), prefix)
    }
}

/// The index of the first `=` of `s` at or after `from`, or the length of
/// `s` when there is none.
pub open spec fn next_eq(s: Seq<char>, from: int) -> int
    decreases s.len() - from,
{
    if from >= s.len() {
        s.len() as int
    } else if s[from] == '=' {
        from
    } else {
        next_eq(s, from + 1)
    }
}

/// The second of the `=`-separated fields of `s`, if it has one.
pub open spec fn second_field(s: Seq<char>) -> Option<Seq<char>> {
    let first = next_eq(s, 0);
    if first >= s.len() {
        None
    } else {
        Some(s.subrange(first + 1, next_eq(s, first + 1)))
    }
}

fn find_eq(s: &str, from: usize) -> (res: usize)
    requires
        from <= s@.len(),
    ensures
        res == next_eq(s@, from as int),
        from <= res <= s@.len(),
{
    let n = s.unicode_len();
    let mut i = from;
    while i < n
        invariant
            n == s@.len(),
            from <= i <= n,
            next_eq(s@, from as int) == next_eq(s@, i as int),
        decreases n - i,
    {
        if s.get_char(i) == '=' {
            return i;
        }
        i = i + 1;
    }
    i
}

/// The second `=`-separated field of a tag, as `split('=')` yields it.
pub fn tag_value(tag: &str) -> (res: Option<String>)
    ensures
        match second_field(tag@) {
            Some(v) => res matches Some(r) && r@ == v,
            None => res is None,
        },
{
    let n = tag.unicode_len();
    let first = find_eq(tag, 0);
    if first >= n {
        None
    } else {
        let end = find_eq(tag, first + 1);
        let v = tag.substring_char(first + 1, end);
        Some(String::from_str(v))
    }
}

/// The first of `tags` that starts with `prefix`.
pub fn find_tag(tags: &Vec<String>, prefix: &str) -> (res: Option<String>)
    ensures
        match first_tag(tags@, prefix@) {
            Some(t) => res matches Some(r) && r@ == t,
            None => res is None,
        },
{
    let mut i: usize = 0;
    assert(tags@.subrange(0, tags@.len() as int) =~= tags@);
    while i < tags.len()
        invariant
            i <= tags@.len(),
            first_tag(tags@, prefix@) == first_tag(tags@.subrange(i as int, tags@.len() as int), prefix@),
        decreases tags@.len() - i,
    {
        let ghost rest = tags@.subrange(i as int, tags@.len() as int);
        assert(rest[0] == tags@[i as int]);
        assert(rest.drop_first() =~= tags@.subrange(i + 1, tags@.len() as int));
        if starts_with(tags[i].as_str(), prefix) {
            return Some(tags[i].clone());
        }
        i = i + 1;
    }
    assert(tags@.subrange(i as int, tags@.len() as int).len() == 0);
    None
}

/// Why the tags of a volume could not be read: the OSD id did not read as
/// a number (`Ok`), or the fsid did not read as a UUID (`Err`, its message).
pub type TagFailure = Result<IntErrorKind, Seq<char>>;

/// The OSD id and fsid known after reading one more volume's tags: a volume
/// that carries an `ceph.osd_id` or `ceph.osd_fsid` tag with a value
/// replaces what earlier volumes gave.
pub open spec fn tag_step(tags: Seq<String>, id: Option<int>, fsid: Option<Seq<char>>) -> Result<
    (Option<int>, Option<Seq<char>>),
    TagFailure,
> {
    let id_res: Result<Option<int>, TagFailure> = match first_tag(tags, "ceph.osd_id"@) {
        Some(t) => match second_field(t) {
            Some(v) => match parse_u64_spec(v) {
                Ok(n) => Ok(Some(n)),
                Err(k) => Err(Ok(k)),
            },
            None => Ok(id),
        },
        None => Ok(id),
    };
    match id_res {
        Err(e) => Err(e),
        Ok(id2) => match first_tag(tags, "ceph.osd_fsid"@) {
            Some(t) => match second_field(t) {
                Some(v) => match uuid_parse(v) {
                    Ok(u) => Ok((id2, Some(u))),
                    Err(m) => Err(Err(m)),
                },
                None => Ok((id2, fsid)),
            },
            None => Ok((id2, fsid)),
        },
    }
}

/// The OSD id and fsid that the tags of the volumes `lvs` give, read in
/// order; the first tag that does not read stops the reading.
pub open spec fn tag_scan(lvs: Seq<Vec<String>>) -> Result<(Option<int>, Option<Seq<char>>), TagFailure>
    decreases lvs.len(),
{
    if lvs.len() == 0 {
        Ok((None, None))
    } else {
        match tag_scan(lvs.drop_last()) {
            Err(e) => Err(e),
            Ok((id, fsid)) => tag_step(lvs.last()@, id, fsid),
        }
    }
}

proof fn lemma_tag_scan_failure_stays(lvs: Seq<Vec<String>>, k: int)
    requires
        0 <= k <= lvs.len(),
        tag_scan(lvs.take(k)) is Err,
    ensures
        tag_scan(lvs) == tag_scan(lvs.take(k)),
    decreases lvs.len() - k,
{
    if k < lvs.len() {
        assert(lvs.take(k + 1).drop_last() =~= lvs.take(k));
        lemma_tag_scan_failure_stays(lvs, k + 1);
    } else {
        assert(lvs.take(k) =~= lvs);
    }
}

/// The OSD id and fsid of the Bluestore OSD on `dev_path`, from the tags of
/// the logical volumes of its volume group.
pub fn osd_from_volume_tags(dev_path: &str, lvs: &Vec<Vec<String>>) -> (res: Result<(u64, String), BynarError>)
    ensures
        match tag_scan(lvs@) {
            Err(Ok(k)) => res == Err::<(u64, String), BynarError>(BynarError::ParseIntError(k)),
            Err(Err(m)) => res matches Err(BynarError::UuidError(e)) && e@ == m,
            Ok((Some(id), Some(f))) => res matches Ok((i, s)) && i == id && s@ == f,
            Ok(_) => res matches Err(BynarError::Error(e)) && e@ == "No osd id's or fsid's were found on "@
                + dev_path@,
        },
{
    let mut osd_id: Option<u64> = None;
    let mut osd_fsid: Option<String> = None;
    let mut i: usize = 0;
    while i < lvs.len()
        invariant
            i <= lvs@.len(),
            tag_scan(lvs@.take(i as int)) == Ok::<(Option<int>, Option<Seq<char>>), TagFailure>(
                (
                    match osd_id {
                        Some(n) => Some(n as int),
                        None => None,
                    },
                    match osd_fsid {
                        Some(f) => Some(f@),
                        None => None,
                    },
                ),
            ),
        decreases lvs@.len() - i,
    {
        proof {
            assert(lvs@.take(i + 1).drop_last() =~= lvs@.take(i as int));
            assert(lvs@.take(i + 1).last() == lvs@[i as int]);
        }
        let tags = &lvs[i];
        match find_tag(tags, "ceph.osd_id") {
            Some(t) => match tag_value(t.as_str()) {
                Some(v) => match parse_u64(v.as_str()) {
                    Ok(n) => {
                        osd_id = Some(n);
                    },
                    Err(k) => {
                        proof {
                            lemma_tag_scan_failure_stays(lvs@, i + 1);
                        }
                        return Err(BynarError::ParseIntError(k));
                    },
                },
                None => {},
            },
            None => {},
        }
        match find_tag(tags, "ceph.osd_fsid") {
            Some(t) => match tag_value(t.as_str()) {
                Some(v) => match parse_uuid(v.as_str()) {
                    Ok(u) => {
                        osd_fsid = Some(u);
                    },
                    Err(m) => {
                        proof {
                            lemma_tag_scan_failure_stays(lvs@, i + 1);
                        }
                        return Err(BynarError::UuidError(m));
                    },
                },
                None => {},
            },
            None => {},
        }
        i = i + 1;
    }
    assert(lvs@.take(lvs@.len() as int) =~= lvs@);
    match (osd_id, osd_fsid) {
        (Some(id), Some(f)) => Ok((id, f)),
        _ => {
            let mut msg = String::from_str("No osd id's or fsid's were found on ");
            msg.append(dev_path);
            Err(BynarError::Error(msg))
        },
    }
}

/// Where an OSD keeps its data, as the cluster's OSD metadata reports it.
#[derive(Debug)]
pub enum ObjectStore {
    /// A Bluestore OSD: its data partition and, if it has one, its
    /// write-ahead-log partition.
    Bluestore { bdev_partition_path: String, wal_partition_path: Option<String> },
    /// A Filestore OSD and its data partition.
    Filestore { partition_path: String },
}

/// What the cluster reports of one OSD.
#[derive(Debug)]
pub struct OsdMetadata {
    pub id: u64,
    pub hostname: String,
    pub store: ObjectStore,
    /// The journal path of a Filestore OSD.
    pub journal: Option<String>,
}

/// An OSD that `ceph-volume lvm list` reports: its id as listed and the
/// devices behind its logical volume.
#[derive(Debug)]
pub struct VolumeOsd {
    pub id: String,
    pub devices: Vec<String>,
}

/// The data partition of an OSD.
pub open spec fn store_path(s: ObjectStore) -> Seq<char> {
    match s {
        ObjectStore::Bluestore { bdev_partition_path, .. } => bdev_partition_path@,
        ObjectStore::Filestore { partition_path } => partition_path@,
    }
}

/// Whether the OSD `m` lives on `path` of the host `host`.
pub open spec fn meta_on(m: OsdMetadata, host: Seq<char>, path: Seq<char>) -> bool {
    store_path(m.store) == path && m.hostname@ == host
}

/// The id of the first OSD of `metas` that lives on `path` of `host`.
pub open spec fn meta_osd_id(metas: Seq<OsdMetadata>, host: Seq<char>, path: Seq<char>) -> Option<u64>
    decreases metas.len(),
{
    if metas.len() == 0 {
        None
    } else if meta_on(metas[0], host, path) {
        Some(metas[0].id)
    } else {
        meta_osd_id(metas.drop_first(), host, path)
    }
}

/// Whether the volume `v` is backed by `path`.
pub open spec fn volume_on(v: VolumeOsd, path: Seq<char>) -> bool {
    exists|j: int| 0 <= j < v.devices@.len() && #[trigger] v.devices@[j]@ == path
}

/// The listed id of the first volume of `volumes` backed by `path`.
pub open spec fn volume_osd_id(volumes: Seq<VolumeOsd>, path: Seq<char>) -> Option<Seq<char>>
    decreases volumes.len(),
{
    if volumes.len() == 0 {
        None
    } else if volume_on(volumes[0], path) {
        Some(volumes[0].id@)
    } else {
        volume_osd_id(volumes.drop_first(), path)
    }
}

/// Whether the device `path` of `host` belongs to an OSD: one of the OSD
/// metadata names it, or one of the listed volumes is backed by it.
pub open spec fn device_in_cluster(
    metas: Seq<OsdMetadata>,
    volumes: Seq<VolumeOsd>,
    host: Seq<char>,
    path: Seq<char>,
) -> bool {
    meta_osd_id(metas, host, path) is Some || volume_osd_id(volumes, path) is Some
}

fn find_meta_on(metas: &Vec<OsdMetadata>, host: &str, path: &str) -> (res: Option<u64>)
    ensures
        res == meta_osd_id(metas@, host@, path@),
{
    let mut i: usize = 0;
    assert(metas@.subrange(0, metas@.len() as int) =~= metas@);
    while i < metas.len()
        invariant
            i <= metas@.len(),
            meta_osd_id(metas@, host@, path@) == meta_osd_id(
                metas@.subrange(i as int, metas@.len() as int),
                host@,
                path@,
            ),
        decreases metas@.len() - i,
    {
        let ghost rest = metas@.subrange(i as int, metas@.len() as int);
        assert(rest[0] == metas@[i as int]);
        assert(rest.drop_first() =~= metas@.subrange(i + 1, metas@.len() as int));
        let m = &metas[i];
        let on_path = match &m.store {
            ObjectStore::Bluestore { bdev_partition_path, .. } => str_eq(bdev_partition_path.as_str(), path),
            ObjectStore::Filestore { partition_path } => str_eq(partition_path.as_str(), path),
        };
        if on_path && str_eq(m.hostname.as_str(), host) {
            return Some(m.id);
        }
        i = i + 1;
    }
    assert(metas@.subrange(i as int, metas@.len() as int).len() == 0);
    None
}

fn backed_by(v: &VolumeOsd, path: &str) -> (res: bool)
    ensures
        res == volume_on(*v, path@),
{
    let mut j: usize = 0;
    while j < v.devices.len()
        invariant
            j <= v.devices@.len(),
            forall|k: int| 0 <= k < j ==> #[trigger] v.devices@[k]@ != path@,
        decreases v.devices@.len() - j,
    {
        if str_eq(v.devices[j].as_str(), path) {
            return true;
        }
        j = j + 1;
    }
    false
}

fn find_volume_on(volumes: &Vec<VolumeOsd>, path: &str) -> (res: Option<String>)
    ensures
        match volume_osd_id(volumes@, path@) {
            Some(t) => res matches Some(r) && r@ == t,
            None => res is None,
        },
{
    let mut i: usize = 0;
    assert(volumes@.subrange(0, volumes@.len() as int) =~= volumes@);
    while i < volumes.len()
        invariant
            i <= volumes@.len(),
            volume_osd_id(volumes@, path@) == volume_osd_id(
                volumes@.subrange(i as int, volumes@.len() as int),
                path@,
            ),
        decreases volumes@.len() - i,
    {
        let ghost rest = volumes@.subrange(i as int, volumes@.len() as int);
        assert(rest[0] == volumes@[i as int]);
        assert(rest.drop_first() =~= volumes@.subrange(i + 1, volumes@.len() as int));
        if backed_by(&volumes[i], path) {
            return Some(volumes[i].id.clone());
        }
        i = i + 1;
    }
    assert(volumes@.subrange(i as int, volumes@.len() as int).len() == 0);
    None
}

/// Whether the device `dev_path` of the host `host` is already an OSD of
/// the cluster, by the OSD metadata and the listed volumes.
pub fn is_device_in_cluster(metas: &Vec<OsdMetadata>, volumes: &Vec<VolumeOsd>, host: &str, dev_path: &str) -> (res:
    bool)
    ensures
        res == device_in_cluster(metas@, volumes@, host@, dev_path@),
{
    if find_meta_on(metas, host, dev_path).is_some() {
        return true;
    }
    find_volume_on(volumes, dev_path).is_some()
}

/// The id of the OSD on the device `dev_path` of the host `host`: that of
/// the first OSD whose metadata names the device, else the listed id of the
/// first volume backed by it.
pub fn get_osd_id_from_device(metas: &Vec<OsdMetadata>, volumes: &Vec<VolumeOsd>, host: &str, dev_path: &str) -> (res:
    Result<u64, BynarError>)
    ensures
        match meta_osd_id(metas@, host@, dev_path@) {
            Some(id) => res == Ok::<u64, BynarError>(id),
            None => match volume_osd_id(volumes@, dev_path@) {
                Some(t) => match parse_u64_spec(t) {
                    Ok(n) => res == Ok::<u64, BynarError>(n as u64),
                    Err(k) => res == Err::<u64, BynarError>(BynarError::ParseIntError(k)),
                },
                None => res matches Err(BynarError::Error(e)) && e@ == "unable to find the osd in the osd metadata"@,
            },
        },
{
    match find_meta_on(metas, host, dev_path) {
        Some(id) => Ok(id),
        None => match find_volume_on(volumes, dev_path) {
            Some(t) => match parse_u64(t.as_str()) {
                Ok(n) => Ok(n),
                Err(k) => Err(BynarError::ParseIntError(k)),
            },
            None => Err(BynarError::from_str_msg("unable to find the osd in the osd metadata")),
        },
    }
}

/// Whether an OSD with the id `osd_id` is in the cluster.
pub fn is_osd_id_in_cluster(metas: &Vec<OsdMetadata>, osd_id: u64) -> (res: bool)
    ensures
        res == exists|i: int| 0 <= i < metas@.len() && (#[trigger] metas@[i]).id == osd_id,
{
    let mut i: usize = 0;
    while i < metas.len()
        invariant
            i <= metas@.len(),
            forall|k: int| 0 <= k < i ==> (#[trigger] metas@[k]).id != osd_id,
        decreases metas@.len() - i,
    {
        if metas[i].id == osd_id {
            return true;
        }
        i = i + 1;
    }
    false
}

/// The metadata of the first OSD of `metas` with the id `osd_id`.
pub open spec fn meta_with_id(metas: Seq<OsdMetadata>, osd_id: u64) -> Option<OsdMetadata>
    decreases metas.len(),
{
    if metas.len() == 0 {
        None
    } else if metas[0].id == osd_id {
        Some(metas[0])
    } else {
        meta_with_id(metas.drop_first(), osd_id)
    }
}

/// Whether the OSD `osd_id` is a Bluestore OSD, by its first metadata entry.
pub fn is_bluestore(metas: &Vec<OsdMetadata>, osd_id: u64) -> (res: Result<bool, BynarError>)
    ensures
        match meta_with_id(metas@, osd_id) {
            Some(m) => res == Ok::<bool, BynarError>(m.store is Bluestore),
            None => res matches Err(BynarError::Error(e)) && e@ == "Could not find osd in cluster"@,
        },
{
    let mut i: usize = 0;
    assert(metas@.subrange(0, metas@.len() as int) =~= metas@);
    while i < metas.len()
        invariant
            i <= metas@.len(),
            meta_with_id(metas@, osd_id) == meta_with_id(metas@.subrange(i as int, metas@.len() as int), osd_id),
        decreases metas@.len() - i,
    {
        let ghost rest = metas@.subrange(i as int, metas@.len() as int);
        assert(rest[0] == metas@[i as int]);
        assert(rest.drop_first() =~= metas@.subrange(i + 1, metas@.len() as int));
        if metas[i].id == osd_id {
            return match &metas[i].store {
                ObjectStore::Bluestore { .. } => Ok(true),
                ObjectStore::Filestore { .. } => Ok(false),
            };
        }
        i = i + 1;
    }
    assert(metas@.subrange(i as int, metas@.len() as int).len() == 0);
    Err(BynarError::from_str_msg("Could not find osd in cluster"))
}

/// Where an OSD's journal is: a Bluestore write-ahead-log partition, or the
/// journal link of a Filestore OSD, which still has to be followed.
#[derive(Debug)]
pub enum JournalPath {
    Wal(String),
    Link(String),
}

/// The journal an OSD's metadata names, if any: `(true, p)` for a
/// write-ahead-log partition, `(false, p)` for a Filestore journal link.
pub open spec fn journal_of(m: OsdMetadata) -> Option<(bool, Seq<char>)> {
    match m.store {
        ObjectStore::Bluestore { wal_partition_path, .. } => match wal_partition_path {
            Some(w) => Some((true, w@)),
            None => None,
        },
        ObjectStore::Filestore { .. } => match m.journal {
            Some(j) => Some((false, j@)),
            None => None,
        },
    }
}

/// The journal of the first metadata entry of the OSD `osd_id` that names
/// one.
pub open spec fn journal_location(metas: Seq<OsdMetadata>, osd_id: u64) -> Option<(bool, Seq<char>)>
    decreases metas.len(),
{
    if metas.len() == 0 {
        None
    } else if metas[0].id == osd_id && journal_of(metas[0]) is Some {
        journal_of(metas[0])
    } else {
        journal_location(metas.drop_first(), osd_id)
    }
}

/// Where the journal of the OSD `osd_id` is, if it has one.
pub fn get_journal_path(metas: &Vec<OsdMetadata>, osd_id: u64) -> (res: Option<JournalPath>)
    ensures
        match journal_location(metas@, osd_id) {
            Some((true, p)) => res matches Some(JournalPath::Wal(w)) && w@ == p,
            Some((false, p)) => res matches Some(JournalPath::Link(l)) && l@ == p,
            None => res is None,
        },
{
    let mut i: usize = 0;
    assert(metas@.subrange(0, metas@.len() as int) =~= metas@);
    while i < metas.len()
        invariant
            i <= metas@.len(),
            journal_location(metas@, osd_id) == journal_location(
                metas@.subrange(i as int, metas@.len() as int),
                osd_id,
            ),
        decreases metas@.len() - i,
    {
        let ghost rest = metas@.subrange(i as int, metas@.len() as int);
        assert(rest[0] == metas@[i as int]);
        assert(rest.drop_first() =~= metas@.subrange(i + 1, metas@.len() as int));
        let m = &metas[i];
        if m.id == osd_id {
            match &m.store {
                ObjectStore::Bluestore { wal_partition_path, .. } => match wal_partition_path {
                    Some(w) => {
                        return Some(JournalPath::Wal(w.clone()));
                    },
                    None => {},
                },
                ObjectStore::Filestore { .. } => match &m.journal {
                    Some(j) => {
                        return Some(JournalPath::Link(j.clone()));
                    },
                    None => {},
                },
            }
        }
        i = i + 1;
    }
    assert(metas@.subrange(i as int, metas@.len() as int).len() == 0);
    None
}

/// Whether the OSD `osd_id` is among the ids of the nodes the cluster
/// reports as out; node ids are compared as unsigned numbers.
pub fn is_osd_out(out_ids: &Vec<i64>, osd_id: u64) -> (res: bool)
    ensures
        res == exists|i: int| 0 <= i < out_ids@.len() && (#[trigger] out_ids@[i]) as u64 == osd_id,
{
    let mut i: usize = 0;
    while i < out_ids.len()
        invariant
            i <= out_ids@.len(),
            forall|k: int| 0 <= k < i ==> (#[trigger] out_ids@[k]) as u64 != osd_id,
        decreases out_ids@.len() - i,
    {
        if out_ids[i] as u64 == osd_id {
            return true;
        }
        i = i + 1;
    }
    false
}

/// The number of placement groups in one state, as the cluster counts them.
#[derive(Debug)]
pub struct PgStateCount {
    pub name: String,
    pub num: u64,
}

/// The number of placement groups whose state names backfilling.
pub open spec fn backfill_total(states: Seq<PgStateCount>) -> int
    decreases states.len(),
{
    if states.len() == 0 {
        0
    } else {
        backfill_total(states.drop_last()) + if contains_seq(states.last().name@, "backfilling"@) {
            states.last().num as int
        } else {
            0
        }
    }
}

proof fn lemma_backfill_prefix(states: Seq<PgStateCount>, k: int)
    requires
        0 <= k <= states.len(),
    ensures
        0 <= backfill_total(states.take(k)) <= backfill_total(states),
    decreases states.len() - k,
{
    if k < states.len() {
        assert(states.take(k + 1).drop_last() =~= states.take(k));
        lemma_backfill_prefix(states, k + 1);
    } else {
        assert(states.take(k) =~= states);
    }
    lemma_backfill_nonneg(states.take(k));
}

proof fn lemma_backfill_nonneg(states: Seq<PgStateCount>)
    ensures
        backfill_total(states) >= 0,
    decreases states.len(),
{
    if states.len() > 0 {
        lemma_backfill_nonneg(states.drop_last());
    }
}

/// The number of placement groups that are backfilling.
pub fn get_current_backfill(states: &Vec<PgStateCount>) -> (res: u64)
    requires
        backfill_total(states@) <= u64::MAX,
    ensures
        res == backfill_total(states@),
{
    let mut total: u64 = 0;
    let mut i: usize = 0;
    while i < states.len()
        invariant
            i <= states@.len(),
            backfill_total(states@) <= u64::MAX,
            total == backfill_total(states@.take(i as int)),
        decreases states@.len() - i,
    {
        proof {
            assert(states@.take(i + 1).drop_last() =~= states@.take(i as int));
            assert(states@.take(i + 1).last() == states@[i as int]);
            lemma_backfill_prefix(states@, i + 1);
        }
        if contains(states[i].name.as_str(), "backfilling") {
            total = total + states[i].num;
        }
        i = i + 1;
    }
    assert(states@.take(states@.len() as int) =~= states@);
    total
}

/// Whether one of the free runs of a disk, `free_lengths` blocks of
/// `lba_size` bytes each, holds more than `size` bytes.
pub fn enough_free_space(free_lengths: &Vec<u64>, lba_size: u64, size: u64) -> (res: bool)
    requires
        forall|i: int| 0 <= i < free_lengths@.len() ==> #[trigger] free_lengths@[i] * lba_size <= u64::MAX,
    ensures
        res == exists|i: int| 0 <= i < free_lengths@.len() && #[trigger] free_lengths@[i] * lba_size > size,
{
    let mut i: usize = 0;
    while i < free_lengths.len()
        invariant
            i <= free_lengths@.len(),
            forall|k: int| 0 <= k < free_lengths@.len() ==> #[trigger] free_lengths@[k] * lba_size <= u64::MAX,
            forall|k: int| 0 <= k < i ==> #[trigger] free_lengths@[k] * lba_size <= size,
        decreases free_lengths@.len() - i,
    {
        let len = free_lengths[i];
        assert(free_lengths@[i as int] * lba_size <= u64::MAX);
        if len * lba_size > size {
            return true;
        }
        i = i + 1;
    }
    false
}

/// A flag followed by its value, when there is a value.
pub open spec fn flag_value(flag: Seq<char>, v: Option<String>) -> Seq<Seq<char>> {
    match v {
        Some(x) => seq![flag, x@],
        None => Seq::empty(),
    }
}

/// The journal a journal device is written as, when there is one.
pub open spec fn journal_arg(j: Option<JournalDevice>) -> Option<Seq<char>> {
    match j {
        Some(d) => Some(journal_text(d)),
        None => None,
    }
}

/// The arguments of `ceph-osd` that format the OSD `osd_id`.
pub open spec fn mkfs_args(
    osd_id: u64,
    journal: Option<JournalDevice>,
    bluestore: bool,
    monmap: Option<String>,
    osd_data: Option<String>,
    osd_uuid: Option<String>,
    user_id: Option<String>,
    group_id: Option<String>,
) -> Seq<Seq<char>> {
    seq!["--cluster"@, "ceph"@, "-i"@, decimal(osd_id as nat), "--mkfs"@]
        + match journal_arg(journal) {
            Some(t) => seq!["--osd-journal"@, t],
            None => Seq::empty(),
        }
        + if bluestore { seq!["--osd-objectstore"@, "bluestore"@] } else { Seq::empty() }
        + flag_value("--monmap"@, monmap)
        + flag_value("--osd-data"@, osd_data)
        + flag_value("--osd-uuid"@, osd_uuid)
        + flag_value("--setuser"@, user_id)
        + flag_value("--setgroup"@, group_id)
}

fn push_text(args: &mut Vec<String>, t: String)
    ensures
        path_views(final(args)@) == path_views(old(args)@).push(t@),
{
    let ghost before = args@;
    args.push(t);
    assert(path_views(args@) =~= path_views(before).push(t@));
}

fn push_str(args: &mut Vec<String>, t: &str)
    ensures
        path_views(final(args)@) == path_views(old(args)@).push(t@),
{
    push_text(args, String::from_str(t));
}

fn push_flag_value(args: &mut Vec<String>, flag: &str, v: &Option<String>)
    ensures
        path_views(final(args)@) == path_views(old(args)@) + flag_value(flag@, *v),
{
    match v {
        Some(x) => {
            let ghost before = path_views(args@);
            push_str(args, flag);
            push_text(args, x.clone());
            assert(path_views(args@) =~= before + flag_value(flag@, *v));
        },
        None => {
            assert(path_views(args@) =~= path_views(args@) + flag_value(flag@, *v));
        },
    }
}

/// The arguments `ceph-osd` is run with to format the OSD `osd_id`.
pub fn ceph_mkfs_args(
    osd_id: u64,
    journal: &Option<JournalDevice>,
    bluestore: bool,
    monmap: &Option<String>,
    osd_data: &Option<String>,
    osd_uuid: &Option<String>,
    user_id: &Option<String>,
    group_id: &Option<String>,
) -> (res: Vec<String>)
    ensures
        path_views(res@) == mkfs_args(
            osd_id,
            *journal,
            bluestore,
            *monmap,
            *osd_data,
            *osd_uuid,
            *user_id,
            *group_id,
        ),
{
    let mut args: Vec<String> = Vec::new();
    assert(path_views(args@) =~= Seq::<Seq<char>>::empty());
    push_str(&mut args, "--cluster");
    push_str(&mut args, "ceph");
    push_str(&mut args, "-i");
    push_text(&mut args, u64_to_string(osd_id));
    push_str(&mut args, "--mkfs");
    let ghost base = path_views(args@);
    assert(base =~= seq!["--cluster"@, "ceph"@, "-i"@, decimal(osd_id as nat), "--mkfs"@]);
    match journal {
        Some(j) => {
            push_str(&mut args, "--osd-journal");
            push_text(&mut args, j.to_string());
        },
        None => {},
    }
    let ghost with_journal = path_views(args@);
    assert(with_journal =~= base + match journal_arg(*journal) {
        Some(t) => seq!["--osd-journal"@, t],
        None => Seq::empty(),
    });
    if bluestore {
        push_str(&mut args, "--osd-objectstore");
        push_str(&mut args, "bluestore");
    }
    let ghost with_store = path_views(args@);
    assert(with_store =~= with_journal + if bluestore {
        seq!["--osd-objectstore"@, "bluestore"@]
    } else {
        Seq::empty()
    });
    push_flag_value(&mut args, "--monmap", monmap);
    push_flag_value(&mut args, "--osd-data", osd_data);
    push_flag_value(&mut args, "--osd-uuid", osd_uuid);
    push_flag_value(&mut args, "--setuser", user_id);
    push_flag_value(&mut args, "--setgroup", group_id);
    args
}

/// The arguments `ceph-bluestore-tool` is run with to prime the data
/// directory `mount_path` of the OSD on `device`.
pub fn bluestore_tool_args(device: &str, mount_path: &str) -> (res: Vec<String>)
    ensures
        path_views(res@) == seq!["--cluster=ceph"@, "prime-osd-dir"@, "--dev"@, device@, "--path"@, mount_path@],
{
    let mut args: Vec<String> = Vec::new();
    let ghost start = path_views(args@);
    push_str(&mut args, "--cluster=ceph");
    push_str(&mut args, "prime-osd-dir");
    push_str(&mut args, "--dev");
    push_str(&mut args, device);
    push_str(&mut args, "--path");
    push_str(&mut args, mount_path);
    assert(start =~= Seq::<Seq<char>>::empty());
    assert(path_views(args@) =~= seq![
        "--cluster=ceph"@,
        "prime-osd-dir"@,
        "--dev"@,
        device@,
        "--path"@,
        mount_path@,
    ]);
    args
}

/// The tag that tells Ceph what kind of media an OSD sits on.
pub open spec fn crush_class_tag(media: MediaType) -> Seq<char> {
    match media {
        MediaType::SolidState => "ceph.crush_device_class=ssd"@,
        MediaType::Rotational => "ceph.crush_device_class=hdd"@,
        MediaType::NVME => "ceph.crush_device_class=nvme"@,
        _ => "ceph.crush_device_class=None"@,
    }
}

/// The tags every Bluestore OSD volume carries.
pub open spec fn base_lvm_tags(
    lv_dev_name: Seq<char>,
    osd_id: u64,
    osd_fsid: Seq<char>,
    cluster_fsid: Seq<char>,
    block_uuid: Seq<char>,
) -> Seq<Seq<char>> {
    seq![
        "ceph.type=block"@,
        "ceph.block_device="@ + lv_dev_name,
        "ceph.osd_id="@ + decimal(osd_id as nat),
        "ceph.osd_fsid="@ + osd_fsid,
        "ceph.cluster_name=ceph"@,
        "ceph.cluster_fsid="@ + cluster_fsid,
        "ceph.encrypted=0"@,
        "ceph.cephx_lockbox_secret="@,
        "ceph.block_uuid="@ + block_uuid,
    ]
}

/// The tags naming the write-ahead-log device of an OSD and its partition
/// UUID.
pub open spec fn wal_tags(j: JournalDevice, uuid: Seq<char>) -> Seq<Seq<char>> {
    seq!["ceph.wal_device="@ + journal_text(j), "ceph.wal_uuid="@ + uuid]
}

/// The crush device class an OSD's volume is tagged with follows its media:
/// `hdd` exactly for rotational disks, `ssd` exactly for solid state ones,
/// `nvme` exactly for NVMe devices, and `None` for any other media; so
/// OSDs on different kinds of disk land in different classes, and the tags
/// made for a new OSD end with that class.
pub proof fn lemma_crush_class_follows_media(media: MediaType, other: MediaType, tags: Seq<Seq<char>>)
    ensures
        (crush_class_tag(media) == "ceph.crush_device_class=hdd"@) <==> media == MediaType::Rotational,
        (crush_class_tag(media) == "ceph.crush_device_class=ssd"@) <==> media == MediaType::SolidState,
        (crush_class_tag(media) == "ceph.crush_device_class=nvme"@) <==> media == MediaType::NVME,
        (crush_class_tag(media) == "ceph.crush_device_class=None"@) <==> (media != MediaType::Rotational && media
            != MediaType::SolidState && media != MediaType::NVME),
        crush_class_tag(media) == crush_class_tag(other) ==> (media == other || (media != MediaType::Rotational
            && media != MediaType::SolidState && media != MediaType::NVME && other != MediaType::Rotational
            && other != MediaType::SolidState && other != MediaType::NVME)),
        tags.push(crush_class_tag(media)).last() == "ceph.crush_device_class=hdd"@ <==> media == MediaType::Rotational,
{
    reveal_strlit("ceph.crush_device_class=hdd");
    reveal_strlit("ceph.crush_device_class=ssd");
    reveal_strlit("ceph.crush_device_class=nvme");
    reveal_strlit("ceph.crush_device_class=None");
    let h = "ceph.crush_device_class=hdd"@;
    let s = "ceph.crush_device_class=ssd"@;
    let n = "ceph.crush_device_class=nvme"@;
    let o = "ceph.crush_device_class=None"@;
    assert(h[24] != s[24] && h[24] != n[24] && h[24] != o[24]);
    assert(s[24] != n[24] && s[24] != o[24] && n[24] != o[24]);
    assert(h != s && h != n && h != o && s != n && s != o && n != o);
}

fn crush_class_str(media: MediaType) -> (res: &'static str)
    ensures
        res@ == crush_class_tag(media),
{
    match media {
        MediaType::SolidState => "ceph.crush_device_class=ssd",
        MediaType::Rotational => "ceph.crush_device_class=hdd",
        MediaType::NVME => "ceph.crush_device_class=nvme",
        _ => "ceph.crush_device_class=None",
    }
}

/// The tags Ceph needs on the logical volume of a new Bluestore OSD. With a
/// write-ahead-log device, its partition UUID is the device's own when
/// known, else `found_uuid`, the UUID the partition was probed for, which
/// must not be empty and must read as a UUID.
pub fn create_lvm_tags(
    lv_dev_name: &str,
    osd_id: u64,
    osd_fsid: &str,
    cluster_fsid: &str,
    block_uuid: &str,
    journal: &Option<JournalDevice>,
    found_uuid: &str,
    media: MediaType,
) -> (res: Result<Vec<String>, BynarError>)
    ensures
        ({
            let base = base_lvm_tags(lv_dev_name@, osd_id, osd_fsid@, cluster_fsid@, block_uuid@);
            match *journal {
                None => res matches Ok(v) && path_views(v@) == base.push(crush_class_tag(media)),
                Some(j) => match j.partition_uuid {
                    Some(u) => res matches Ok(v) && path_views(v@) == (base + wal_tags(j, u@)).push(
                        crush_class_tag(media),
                    ),
                    None => if found_uuid@.len() == 0 {
                        res matches Err(BynarError::Error(e)) && e@ == "Unable to get the partition UUID"@
                    } else {
                        match uuid_parse(found_uuid@) {
                            Ok(u) => res matches Ok(v) && path_views(v@) == (base + wal_tags(j, u)).push(
                                crush_class_tag(media),
                            ),
                            Err(m) => res matches Err(BynarError::UuidError(e)) && e@ == m,
                        }
                    },
                },
            }
        }),
{
    let mut tags: Vec<String> = Vec::new();
    let ghost start = path_views(tags@);
    push_str(&mut tags, "ceph.type=block");
    push_text(&mut tags, concat2("ceph.block_device=", lv_dev_name));
    let mut id_tag = String::from_str("ceph.osd_id=");
    push_u64(&mut id_tag, osd_id);
    push_text(&mut tags, id_tag);
    push_text(&mut tags, concat2("ceph.osd_fsid=", osd_fsid));
    push_str(&mut tags, "ceph.cluster_name=ceph");
    push_text(&mut tags, concat2("ceph.cluster_fsid=", cluster_fsid));
    push_str(&mut tags, "ceph.encrypted=0");
    push_str(&mut tags, "ceph.cephx_lockbox_secret=");
    push_text(&mut tags, concat2("ceph.block_uuid=", block_uuid));
    let ghost base = path_views(tags@);
    assert(start =~= Seq::<Seq<char>>::empty());
    assert(base =~= base_lvm_tags(lv_dev_name@, osd_id, osd_fsid@, cluster_fsid@, block_uuid@));
    match journal {
        Some(j) => {
            let uuid = match &j.partition_uuid {
                Some(u) => u.clone(),
                None => {
                    if found_uuid.unicode_len() == 0 {
                        return Err(BynarError::from_str_msg("Unable to get the partition UUID"));
                    }
                    match parse_uuid(found_uuid) {
                        Ok(u) => u,
                        Err(m) => {
                            return Err(BynarError::UuidError(m));
                        },
                    }
                },
            };
            let device_tag = concat2("ceph.wal_device=", j.to_string().as_str());
            push_text(&mut tags, device_tag);
            push_text(&mut tags, concat2("ceph.wal_uuid=", uuid.as_str()));
            assert(path_views(tags@) =~= base + wal_tags(*j, uuid@));
        },
        None => {},
    }
    push_str(&mut tags, crush_class_str(media));
    Ok(tags)
}

/// The keyring file of the OSD `osd_id` holding `key`.
pub open spec fn keyring_text(osd_id: u64, key: Seq<char>) -> Seq<char> {
    "[osd."@ + decimal(osd_id as nat) + "]\n\tkey = "@ + key + "\n"@
}

/// The contents of the keyring file of the OSD `osd_id`.
pub fn osd_keyring(osd_id: u64, key: &str) -> (res: String)
    ensures
        res@ == keyring_text(osd_id, key@),
{
    let mut s = String::from_str("[osd.");
    push_u64(&mut s, osd_id);
    s.append("]\n\tkey = ");
    s.append(key);
    s.append("\n");
    s
}

/// The data directory of the OSD `osd_id`.
pub open spec fn osd_dir_text(osd_id: u64) -> Seq<char> {
    "/var/lib/ceph/osd/ceph-"@ + decimal(osd_id as nat)
}

/// The data directory of the OSD `osd_id`.
pub fn osd_dir(osd_id: u64) -> (res: String)
    ensures
        res@ == osd_dir_text(osd_id),
{
    let mut s = String::from_str("/var/lib/ceph/osd/ceph-");
    push_u64(&mut s, osd_id);
    s
}

/// The `ceph-volume` unit of the OSD `osd_id` with the fsid `fsid`.
pub open spec fn volume_unit_text(osd_id: u64, fsid: Seq<char>) -> Seq<char> {
    "ceph-volume@lvm-"@ + decimal(osd_id as nat) + "-"@ + fsid
}

/// The arguments of `systemctl` that apply `action` (`enable` or
/// `disable`) to the `ceph-volume` unit of an OSD.
pub fn systemctl_volume_args(action: &str, osd_id: u64, fsid: &str) -> (res: Vec<String>)
    ensures
        path_views(res@) == seq![action@, volume_unit_text(osd_id, fsid@)],
{
    let mut unit = String::from_str("ceph-volume@lvm-");
    push_u64(&mut unit, osd_id);
    unit.append("-");
    unit.append(fsid);
    let mut args: Vec<String> = Vec::new();
    let ghost start = path_views(args@);
    push_str(&mut args, action);
    push_text(&mut args, unit);
    assert(start =~= Seq::<Seq<char>>::empty());
    assert(path_views(args@) =~= seq![action@, volume_unit_text(osd_id, fsid@)]);
    args
}

/// The arguments of `systemctl` that stop the OSD `osd_id`.
pub fn systemctl_stop_args(osd_id: u64) -> (res: Vec<String>)
    ensures
        path_views(res@) == seq!["stop"@, "ceph-osd@"@ + decimal(osd_id as nat) + ".service"@],
{
    let mut unit = String::from_str("ceph-osd@");
    push_u64(&mut unit, osd_id);
    unit.append(".service");
    let mut args: Vec<String> = Vec::new();
    let ghost start = path_views(args@);
    push_str(&mut args, "stop");
    push_text(&mut args, unit);
    assert(start =~= Seq::<Seq<char>>::empty());
    assert(path_views(args@) =~= seq!["stop"@, "ceph-osd@"@ + decimal(osd_id as nat) + ".service"@]);
    args
}

/// The init system of the host.
#[derive(Debug, Clone, Copy, PartialEq, Eq, Structural)]
pub enum InitDaemon {
    Systemd,
    Upstart,
    Unknown,
}

/// The command, and its arguments, that start the OSD `osd_id` under the
/// init system `daemon`; an unknown init system cannot start it.
pub fn osd_start_command(daemon: InitDaemon, osd_id: u64) -> (res: Result<(String, Vec<String>), BynarError>)
    ensures
        match daemon {
            InitDaemon::Systemd => res matches Ok((cmd, args)) && cmd@ == "systemctl"@ && path_views(args@)
                == seq!["start"@, "ceph-osd@"@ + decimal(osd_id as nat)],
            InitDaemon::Upstart => res matches Ok((cmd, args)) && cmd@ == "start"@ && path_views(args@)
                == seq!["ceph-osd"@, "id="@ + decimal(osd_id as nat)],
            InitDaemon::Unknown => res matches Err(BynarError::Error(e)) && e@
                == "Unknown init system.  Cannot start osd service"@,
        },
{
    let mut args: Vec<String> = Vec::new();
    let ghost start = path_views(args@);
    assert(start =~= Seq::<Seq<char>>::empty());
    match daemon {
        InitDaemon::Systemd => {
            push_str(&mut args, "start");
            let mut unit = String::from_str("ceph-osd@");
            push_u64(&mut unit, osd_id);
            push_text(&mut args, unit);
            assert(path_views(args@) =~= seq!["start"@, "ceph-osd@"@ + decimal(osd_id as nat)]);
            Ok((String::from_str("systemctl"), args))
        },
        InitDaemon::Upstart => {
            push_str(&mut args, "ceph-osd");
            let mut id = String::from_str("id=");
            push_u64(&mut id, osd_id);
            push_text(&mut args, id);
            assert(path_views(args@) =~= seq!["ceph-osd"@, "id="@ + decimal(osd_id as nat)]);
            Ok((String::from_str("start"), args))
        },
        InitDaemon::Unknown => Err(BynarError::from_str_msg("Unknown init system.  Cannot start osd service")),
    }
}

/// An fstab line.
#[derive(Debug)]
pub struct FstabEntry {
    pub fs_spec: String,
    pub mountpoint: String,
    pub vfs_type: String,
    pub mount_options: Vec<String>,
    pub dump: bool,
    pub fsck_order: u16,
}

/// The mount options of a Filestore OSD's XFS filesystem.
pub open spec fn osd_mount_options() -> Seq<Seq<char>> {
    seq!["noatime"@, "inode64"@, "attr2"@, "logbsize=256k"@, "noquota"@]
}

/// The fstab line that mounts the filesystem with UUID `fs_uuid` and type
/// `fs_type` as the data directory of the OSD `osd_id`.
pub fn osd_fstab_entry(fs_uuid: &str, fs_type: FilesystemType, osd_id: u64) -> (res: FstabEntry)
    ensures
        res.fs_spec@ == "UUID="@ + fs_uuid@,
        res.mountpoint@ == osd_dir_text(osd_id),
        res.vfs_type@ == fs_type_name(fs_type),
        path_views(res.mount_options@) == osd_mount_options(),
        !res.dump,
        res.fsck_order == 2,
{
    let mut options: Vec<String> = Vec::new();
    let ghost start = path_views(options@);
    push_str(&mut options, "noatime");
    push_str(&mut options, "inode64");
    push_str(&mut options, "attr2");
    push_str(&mut options, "logbsize=256k");
    push_str(&mut options, "noquota");
    assert(start =~= Seq::<Seq<char>>::empty());
    assert(path_views(options@) =~= osd_mount_options());
    FstabEntry {
        fs_spec: concat2("UUID=", fs_uuid),
        mountpoint: osd_dir(osd_id),
        vfs_type: String::from_str(fs_type.to_str()),
        mount_options: options,
        dump: false,
        fsck_order: 2,
    }
}

/// What evaluating a journal device calls for next.
#[derive(Debug)]
pub enum JournalStep {
    /// Find out whether another OSD uses this partition.
    CheckInUse(u32),
    /// Use this journal.
    Use(JournalDevice),
    /// Create a new journal partition on the device.
    Create,
    /// The requested partition is not on the device.
    Fail(BynarError),
}

/// The next step in choosing the journal on `journal`: a device without a
/// requested partition gets a new partition; a requested partition must be
/// one of `partition_ids`, the partitions of the device, and is used unless
/// `in_use` says another OSD uses it, when a new partition is made instead.
/// `in_use` is `None` until that has been asked.
pub fn evaluate_journal(journal: &JournalDevice, partition_ids: &Vec<u32>, in_use: Option<bool>) -> (res: JournalStep)
    ensures
        match journal.partition_id {
            None => res is Create,
            Some(p) => if !partition_ids@.contains(p) {
                (res matches JournalStep::Fail(BynarError::Error(e)) && e@ == journal.device@ + decimal(p as nat)
                    + " not found for journal device"@)
            } else {
                match in_use {
                    None => (res matches JournalStep::CheckInUse(q) && q == p),
                    Some(true) => res is Create,
                    Some(false) => (res matches JournalStep::Use(j) && j.device@ == journal.device@
                        && j.partition_id == Some(p) && j.partition_uuid is None && j.num_partitions
                        == Some(1u64)),
                }
            },
        },
{
    match journal.partition_id {
        None => JournalStep::Create,
        Some(p) => {
            let mut found = false;
            let mut i: usize = 0;
            while i < partition_ids.len()
                invariant
                    i <= partition_ids@.len(),
                    found == exists|k: int| 0 <= k < i && partition_ids@[k] == p,
                decreases partition_ids@.len() - i,
            {
                if partition_ids[i] == p {
                    found = true;
                }
                i = i + 1;
            }
            if !found {
                assert(!partition_ids@.contains(p));
                let mut msg = String::from_str(journal.device.as_str());
                push_u64(&mut msg, p as u64);
                msg.append(" not found for journal device");
                return JournalStep::Fail(BynarError::Error(msg));
            }
            match in_use {
                None => JournalStep::CheckInUse(p),
                Some(true) => JournalStep::Create,
                Some(false) => JournalStep::Use(
                    JournalDevice {
                        device: journal.device.clone(),
                        partition_id: Some(p),
                        partition_uuid: None,
                        num_partitions: Some(1),
                    },
                ),
            }
        },
    }
}

/// Which journal link of an OSD data directory to follow.
#[derive(Debug)]
pub enum JournalLink {
    /// The `journal` link older Ceph releases write.
    Old,
    /// The `block.wal` link newer releases write.
    New,
    /// The OSD has no journal.
    Absent,
    /// Both links exist, which cannot be told apart.
    Ambiguous(BynarError),
}

/// Which of the journal links `old_path` and `new_path` of an OSD data
/// directory to follow, by which of them exist.
pub fn journal_link_choice(old_path: &str, new_path: &str, old_exists: bool, new_exists: bool) -> (res: JournalLink)
    ensures
        old_exists && new_exists ==> (res matches JournalLink::Ambiguous(BynarError::Error(e)) && e@
            == "Unable to determine which journal path to use.  Both "@ + old_path@ + " and "@ + new_path@
            + " exist."@),
        old_exists && !new_exists ==> res is Old,
        !old_exists && new_exists ==> res is New,
        !old_exists && !new_exists ==> res is Absent,
{
    if old_exists && new_exists {
        let mut msg = String::from_str("Unable to determine which journal path to use.  Both ");
        msg.append(old_path);
        msg.append(" and ");
        msg.append(new_path);
        msg.append(" exist.");
        JournalLink::Ambiguous(BynarError::Error(msg))
    } else if old_exists {
        JournalLink::Old
    } else if new_exists {
        JournalLink::New
    } else {
        JournalLink::Absent
    }
}

/// Whether the partition a journal link leads to, whose UUID was probed as
/// `found_uuid`, is the partition `partition_uuid`: the probed UUID must not
/// be empty and must read as a UUID.
pub fn journal_partition_matches(partition_uuid: &str, found_uuid: &str) -> (res: Result<bool, BynarError>)
    ensures
        found_uuid@.len() == 0 ==> (res matches Err(BynarError::Error(e)) && e@
            == "Unable to get the partition UUID"@),
        found_uuid@.len() > 0 ==> match uuid_parse(found_uuid@) {
            Ok(u) => res == Ok::<bool, BynarError>(u == partition_uuid@),
            Err(m) => res matches Err(BynarError::UuidError(e)) && e@ == m,
        },
{
    if found_uuid.unicode_len() == 0 {
        return Err(BynarError::from_str_msg("Unable to get the partition UUID"));
    }
    match parse_uuid(found_uuid) {
        Ok(u) => Ok(str_eq(u.as_str(), partition_uuid)),
        Err(m) => Err(BynarError::UuidError(m)),
    }
}

/// Whether a backend must leave `device` alone: it is a system disk or one
/// of the journal devices.
pub fn is_excluded_device(
    system_disks: &Vec<SystemDisk>,
    journal_devices: &Option<Vec<JournalDevice>>,
    device: &str,
) -> (res: bool)
    ensures
        res == (is_system_disk_spec(system_disks@, device@) || is_journal_spec(*journal_devices, device@)),
{
    is_system_disk(system_disks, device) || is_journal(journal_devices, device)
}

/// What adding a disk to the cluster calls for next.
#[derive(Debug, Clone, Copy, PartialEq, Eq, Structural)]
pub enum AddStep {
    /// Ask whether an OSD with this id is already in the cluster.
    CheckOsdId(u64),
    /// Ask whether the device already belongs to an OSD.
    CheckDevice,
    /// Add the device as a Bluestore OSD.
    AddBluestore,
    /// Add the device as a Filestore OSD.
    AddFilestore,
    /// Nothing to do: finish with this outcome.
    Finish(OperationOutcome),
}

/// The step after the requested id, if any, has been cleared.
pub open spec fn add_after_id(device_in_cluster: Option<bool>, luminous: bool) -> AddStep {
    match device_in_cluster {
        None => AddStep::CheckDevice,
        Some(true) => AddStep::Finish(OperationOutcome::SkipRepeat),
        Some(false) => if luminous {
            AddStep::AddBluestore
        } else {
            AddStep::AddFilestore
        },
    }
}

/// The next step of adding a disk: an excluded disk is skipped; a requested
/// OSD id already in the cluster is skipped; a device already in the
/// cluster has nothing left to do; else the disk is added as Bluestore on
/// Luminous and later, as Filestore before. The answers are `None` until
/// asked.
pub fn add_disk_step(
    excluded: bool,
    id: Option<u64>,
    id_in_cluster: Option<bool>,
    device_in_cluster: Option<bool>,
    luminous: bool,
) -> (res: AddStep)
    ensures
        excluded ==> res == AddStep::Finish(OperationOutcome::Skipped),
        !excluded ==> res == match id {
            Some(n) => match id_in_cluster {
                None => AddStep::CheckOsdId(n),
                Some(true) => AddStep::Finish(OperationOutcome::Skipped),
                Some(false) => add_after_id(device_in_cluster, luminous),
            },
            None => add_after_id(device_in_cluster, luminous),
        },
{
    if excluded {
        return AddStep::Finish(OperationOutcome::Skipped);
    }
    match id {
        Some(n) => match id_in_cluster {
            None => {
                return AddStep::CheckOsdId(n);
            },
            Some(true) => {
                return AddStep::Finish(OperationOutcome::Skipped);
            },
            Some(false) => {},
        },
        None => {},
    }
    match device_in_cluster {
        None => AddStep::CheckDevice,
        Some(true) => AddStep::Finish(OperationOutcome::SkipRepeat),
        Some(false) => if luminous {
            AddStep::AddBluestore
        } else {
            AddStep::AddFilestore
        },
    }
}

/// What removing a disk from the cluster calls for next.
#[derive(Debug, Clone, Copy, PartialEq, Eq, Structural)]
pub enum RemovalStep {
    /// Ask whether the device belongs to an OSD.
    CheckDevice,
    /// Ask whether the OSD on the device is a Bluestore OSD.
    CheckBluestore,
    /// Remove the Bluestore OSD on the device.
    RemoveBluestore,
    /// Remove the Filestore OSD on the device.
    RemoveFilestore,
    /// Nothing to do: finish with this outcome.
    Finish(OperationOutcome),
}

/// The next step of removing a disk: an excluded disk is skipped; a device
/// that belongs to no OSD has nothing left to do; on Luminous and later a
/// Bluestore OSD is removed as such; every other OSD as Filestore. The
/// answers are `None` until asked.
pub fn remove_disk_step(
    excluded: bool,
    device_in_cluster: Option<bool>,
    luminous: bool,
    bluestore: Option<bool>,
) -> (res: RemovalStep)
    ensures
        excluded ==> res == RemovalStep::Finish(OperationOutcome::Skipped),
        !excluded ==> res == match device_in_cluster {
            None => RemovalStep::CheckDevice,
            Some(false) => RemovalStep::Finish(OperationOutcome::SkipRepeat),
            Some(true) => if !luminous {
                RemovalStep::RemoveFilestore
            } else {
                match bluestore {
                    None => RemovalStep::CheckBluestore,
                    Some(true) => RemovalStep::RemoveBluestore,
                    Some(false) => RemovalStep::RemoveFilestore,
                }
            },
        },
{
    if excluded {
        return RemovalStep::Finish(OperationOutcome::Skipped);
    }
    match device_in_cluster {
        None => RemovalStep::CheckDevice,
        Some(false) => RemovalStep::Finish(OperationOutcome::SkipRepeat),
        Some(true) => if !luminous {
            RemovalStep::RemoveFilestore
        } else {
            match bluestore {
                None => RemovalStep::CheckBluestore,
                Some(true) => RemovalStep::RemoveBluestore,
                Some(false) => RemovalStep::RemoveFilestore,
            }
        },
    }
}

/// The answer to whether a disk is safe to remove: a dry run always
/// answers safe without asking the cluster; otherwise an excluded disk is
/// skipped and not safe, and any other disk is answered with what the
/// cluster said of its OSD, `safe`, once asked (`None` until then).
pub fn safe_to_remove_answer(excluded: bool, simulate: bool, safe: Option<bool>) -> (res: Option<(OperationOutcome, bool)>)
    ensures
        simulate ==> res == Some((OperationOutcome::Success, true)),
        !simulate && excluded ==> res == Some((OperationOutcome::Skipped, false)),
        !simulate && !excluded ==> res == match safe {
            Some(b) => Some((OperationOutcome::Success, b)),
            None => None,
        },
{
    if simulate {
        Some((OperationOutcome::Success, true))
    } else if excluded {
        Some((OperationOutcome::Skipped, false))
    } else {
        match safe {
            Some(b) => Some((OperationOutcome::Success, b)),
            None => None,
        }
    }
}

proof fn lemma_next_eq_skip(s: Seq<char>, from: int, k: int)
    requires
        0 <= from <= k <= s.len(),
        forall|j: int| from <= j < k ==> s[j] != '=',
    ensures
        next_eq(s, from) == next_eq(s, k),
    decreases k - from,
{
    if from < k {
        lemma_next_eq_skip(s, from + 1, k);
    }
}

/// The field after `key=` in the tag `key + "=" + value`, when `key` and
/// `value` hold no `=`.
proof fn lemma_second_field_of_tag(key: Seq<char>, value: Seq<char>)
    requires
        !key.contains('='),
        !value.contains('='),
    ensures
        second_field(key + seq!['='] + value) == Some(value),
{
    let s = key + seq!['='] + value;
    let k = key.len() as int;
    assert forall|j: int| 0 <= j < k implies s[j] != '=' by {
        assert(s[j] == key[j]);
        if key[j] == '=' {
            assert(key.contains('='));
        }
    }
    lemma_next_eq_skip(s, 0, k);
    assert(s[k] == '=');
    assert forall|j: int| k + 1 <= j < s.len() implies s[j] != '=' by {
        assert(s[j] == value[j - k - 1]);
        if value[j - k - 1] == '=' {
            assert(value.contains('='));
        }
    }
    lemma_next_eq_skip(s, k + 1, s.len() as int);
    assert(s.subrange(k + 1, s.len() as int) =~= value);
}

proof fn lemma_first_tag_at(t: Seq<String>, p: Seq<char>, k: int)
    requires
        0 <= k < t.len(),
        forall|j: int| 0 <= j < k ==> !is_prefix(p, #[trigger] t[j]@),
        is_prefix(p, t[k]@),
    ensures
        first_tag(t, p) == Some(t[k]@),
    decreases k,
{
    if k > 0 {
        assert forall|j: int| 0 <= j < k - 1 implies !is_prefix(p, #[trigger] t.drop_first()[j]@) by {
            assert(t.drop_first()[j] == t[j + 1]);
        }
        lemma_first_tag_at(t.drop_first(), p, k - 1);
    }
}

proof fn lemma_not_prefix_at(p: Seq<char>, s: Seq<char>, j: int)
    requires
        0 <= j < p.len(),
        j < s.len(),
        s[j] != p[j],
    ensures
        !is_prefix(p, s),
{
    if p.len() <= s.len() {
        assert(s.subrange(0, p.len() as int)[j] == s[j]);
    }
}

proof fn lemma_prefix_of_tag(p: Seq<char>, rest: Seq<char>)
    ensures
        is_prefix(p, p + rest),
{
    assert((p + rest).subrange(0, p.len() as int) =~= p);
}

/// The tags a new Bluestore OSD's volume is given read back as that OSD's
/// id and fsid: whatever follows the tags every such volume carries, a
/// volume whose tags begin with them, for a fsid that the uuid crate reads
/// as itself and that holds no `=` (as UUID text does not), gives back the
/// id and fsid it was tagged with.
pub proof fn lemma_lvm_tags_read_back(
    tags: Vec<String>,
    lv_dev_name: Seq<char>,
    osd_id: u64,
    osd_fsid: Seq<char>,
    cluster_fsid: Seq<char>,
    block_uuid: Seq<char>,
)
    requires
        path_views(tags@).len() >= 9,
        path_views(tags@).take(9) == base_lvm_tags(lv_dev_name, osd_id, osd_fsid, cluster_fsid, block_uuid),
        uuid_parse(osd_fsid) == Ok::<Seq<char>, Seq<char>>(osd_fsid),
        !osd_fsid.contains('='),
    ensures
        tag_scan(seq![tags]) == Ok::<(Option<int>, Option<Seq<char>>), TagFailure>(
            (Some(osd_id as int), Some(osd_fsid)),
        ),
{
    let t = tags@;
    let base = base_lvm_tags(lv_dev_name, osd_id, osd_fsid, cluster_fsid, block_uuid);
    assert forall|j: int| 0 <= j < 9 implies #[trigger] t[j]@ == base[j] by {
        assert(path_views(t).take(9)[j] == path_views(t)[j]);
    }
    reveal_strlit("ceph.type=block");
    reveal_strlit("ceph.block_device=");
    reveal_strlit("ceph.osd_id=");
    reveal_strlit("ceph.osd_id");
    reveal_strlit("ceph.osd_fsid=");
    reveal_strlit("ceph.osd_fsid");
    let id_key = "ceph.osd_id"@;
    let fsid_key = "ceph.osd_fsid"@;
    // Neither key is a prefix of the tags before its own.
    lemma_not_prefix_at(id_key, t[0]@, 5);
    lemma_not_prefix_at(id_key, t[1]@, 5);
    lemma_not_prefix_at(fsid_key, t[0]@, 5);
    lemma_not_prefix_at(fsid_key, t[1]@, 5);
    lemma_not_prefix_at(fsid_key, t[2]@, 9);
    let id_digits = decimal(osd_id as nat);
    assert(t[2]@ == id_key + seq!['='] + id_digits);
    assert(t[3]@ == fsid_key + seq!['='] + osd_fsid);
    lemma_prefix_of_tag(id_key, seq!['='] + id_digits);
    assert(id_key + (seq!['='] + id_digits) == id_key + seq!['='] + id_digits);
    lemma_prefix_of_tag(fsid_key, seq!['='] + osd_fsid);
    assert(fsid_key + (seq!['='] + osd_fsid) == fsid_key + seq!['='] + osd_fsid);
    lemma_first_tag_at(t, id_key, 2);
    lemma_first_tag_at(t, fsid_key, 3);
    // The values after `=` read back.
    lemma_decimal_all_digits(osd_id as nat);
    if id_digits.contains('=') {
        let j = choose|j: int| 0 <= j < id_digits.len() && id_digits[j] == '=';
        assert(is_digit_char(id_digits[j]));
    }
    assert(!id_key.contains('='));
    assert(!fsid_key.contains('='));
    lemma_second_field_of_tag(id_key, id_digits);
    lemma_second_field_of_tag(fsid_key, osd_fsid);
    lemma_parse_decimal(osd_id);
    let one = seq![tags];
    assert(one.drop_last() =~= Seq::<Vec<String>>::empty());
    assert(one.last() == tags);
    assert(tag_scan(Seq::<Vec<String>>::empty()) == Ok::<(Option<int>, Option<Seq<char>>), TagFailure>(
        (None, None),
    ));
    assert(first_tag(t, "ceph.osd_id"@) == Some(t[2]@));
    assert(second_field(t[2]@) == Some(id_digits));
    assert(first_tag(t, "ceph.osd_fsid"@) == Some(t[3]@));
    assert(second_field(t[3]@) == Some(osd_fsid));
    assert(tag_step(t, None, None) == Ok::<(Option<int>, Option<Seq<char>>), TagFailure>(
        (Some(osd_id as int), Some(osd_fsid)),
    ));
}

/// The second `-`-separated part of a name: from after its first `-` to the
/// next `-` or the end.
pub open spec fn second_dash_part(n: Seq<char>) -> Seq<char> {
    let a = next_dash(n, 0);
    n.subrange(a + 1, next_dash(n, a + 1))
}

/// The OSD id a mount path names: the second `-`-separated part of its
/// final component read as a number (`ceph-7` is OSD 7), or the reason it
/// cannot be read.
pub open spec fn osd_id_of_path(path: Seq<char>) -> Result<int, Seq<char>> {
    match file_name_of(path) {
        Some(n) => match parse_u64_spec(second_dash_part(n)) {
            Ok(v) => Ok(v),
            Err(k) => Err(int_error_text(k)),
        },
        None => Err("Unable to get filename from "@ + path),
    }
}

fn id_from_name(name: &str) -> (res: Result<u64, String>)
    requires
        has_dash(name@),
    ensures
        match parse_u64_spec(second_dash_part(name@)) {
            Ok(v) => res == Ok::<u64, String>(v as u64),
            Err(k) => res matches Err(m) && m@ == int_error_text(k),
        },
{
    let n = name.unicode_len();
    let a = find_dash(name, 0);
    proof {
        lemma_next_dash(name@, 0);
        let i = choose|i: int| 0 <= i < name@.len() && name@[i] == '-';
        if a == n {
            assert(name@[i] != '-');
        }
    }
    let b = find_dash(name, a + 1);
    proof {
        lemma_next_dash(name@, a + 1);
    }
    let part = name.substring_char(a + 1, b);
    match parse_u64(part) {
        Ok(v) => Ok(v),
        Err(k) => Err(k.to_string()),
    }
}

/// The OSD id a mount path names, read from its final component
/// (`/var/lib/ceph/osd/ceph-7` gives 7): a fallback for when the OSD cannot
/// be asked.
pub fn get_osd_id_from_path(path: &str) -> (res: Result<u64, String>)
    requires
        (file_name_of(path@) matches Some(n) ==> has_dash(n)),
    ensures
        match osd_id_of_path(path@) {
            Ok(v) => res == Ok::<u64, String>(v as u64),
            Err(m) => res matches Err(e) && e@ == m,
        },
{
    match path_file_name(path) {
        Some(name) => id_from_name(name.as_str()),
        None => Err(concat2("Unable to get filename from ", path)),
    }
}

/// The OSD id a mount path names, when its final component has a `-`:
/// `None` for a component without one, which has no second part.
pub fn osd_id_from_path(path: &str) -> (res: Option<Result<u64, String>>)
    ensures
        (file_name_of(path@) matches Some(n) && !has_dash(n)) ==> res is None,
        !(file_name_of(path@) matches Some(n) && !has_dash(n)) ==> (res matches Some(r) && match osd_id_of_path(path@) {
            Ok(v) => r == Ok::<u64, String>(v as u64),
            Err(m) => r matches Err(e) && e@ == m,
        }),
{
    match path_file_name(path) {
        Some(name) => {
            let n = name.unicode_len();
            let a = find_dash(name.as_str(), 0);
            proof {
                lemma_next_dash(name@, 0);
            }
            if a == n {
                proof {
                    if has_dash(name@) {
                        let i = choose|i: int| 0 <= i < name@.len() && name@[i] == '-';
                        assert(name@[i] != '-');
                    }
                }
                None
            } else {
                assert(name@[a as int] == '-');
                Some(get_osd_id_from_path(path))
            }
        },
        None => Some(get_osd_id_from_path(path)),
    }
}

} // verus!
