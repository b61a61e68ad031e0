//! Device paths: which devices Bynar looks after, how a partition's path
//! leads to its disk, and the message map built from them.
use vstd::prelude::*;
use crate::error::BynarError;
use crate::message_map::{MessageMap, DiskOps, fresh_disk_view, path_views};
use crate::text::{is_prefix, starts_with, str_eq, concat3, opt_view, contains_seq};

verus! {

/// The final component of a path, as `std::path::Path::file_name` gives it.
pub uninterp spec fn file_name_of(path: Seq<char>) -> Option<Seq<char>>;

/// `Path::file_name`: the final component of `path`, if it has one; the
/// result is the name above, held as a string.
#[verifier::external_body]
pub(crate) fn path_file_name(path: &str) -> (res: Option<String>)
    ensures
        res matches Some(n) ==> file_name_of(path@) == Some(n@),
        res is None ==> file_name_of(path@) is None,
{
    match std::path::Path::new(path).file_name() {
        Some(n) => Some(n.to_string_lossy().into_owned()),
        None => None,
    }
}

/// A decimal digit.
pub open spec fn is_digit(c: char) -> bool {
    '0' <= c && c <= '9'
}

fn is_digit_exec(c: char) -> (res: bool)
    ensures
        res == is_digit(c),
{
    '0' <= c && c <= '9'
}

/// A path some character of which is not a digit.
pub open spec fn has_non_digit(s: Seq<char>) -> bool {
    exists|i: int| 0 <= i < s.len() && !is_digit(#[trigger] s[i])
}

/// A path with its trailing digits (a partition number) taken off.
pub open spec fn strip_digits(s: Seq<char>) -> Seq<char>
    decreases s.len(),
{
    if s.len() > 0 && is_digit(s.last()) {
        strip_digits(s.drop_last())
    } else {
        s
    }
}

/// Taking the trailing digits off the first `n` characters, when the
/// character at `n - 1` is no digit, leaves those `n` characters.
proof fn lemma_strip_digits(s: Seq<char>, n: int)
    requires
        0 < n <= s.len(),
        !is_digit(s[n - 1]),
        forall|j: int| n <= j < s.len() ==> is_digit(#[trigger] s[j]),
    ensures
        strip_digits(s) == s.subrange(0, n),
    decreases s.len(),
{
    if s.len() > n {
        assert(is_digit(s[s.len() - 1]));
        assert(s.drop_last()[n - 1] == s[n - 1]);
        assert forall|j: int| n <= j < s.drop_last().len() implies is_digit(#[trigger] s.drop_last()[j]) by {
            assert(s.drop_last()[j] == s[j]);
        }
        lemma_strip_digits(s.drop_last(), n);
        assert(s.drop_last().subrange(0, n) =~= s.subrange(0, n));
    } else {
        assert(s.subrange(0, n) =~= s);
    }
}

/// The path of the disk a partition lives on, by naming convention: the
/// partition's path without its trailing digits.
pub fn strip_partition_number(path: &str) -> (res: String)
    requires
        has_non_digit(path@),
    ensures
        res@ == strip_digits(path@),
{
    let n = path.unicode_len();
    let mut end: usize = n;
    while end > 0 && is_digit_exec(path.get_char(end - 1))
        invariant
            n == path@.len(),
            end <= n,
            has_non_digit(path@),
            forall|j: int| end <= j < n ==> is_digit(#[trigger] path@[j]),
        decreases end,
    {
        end = end - 1;
    }
    proof {
        if end == 0 {
            let i = choose|i: int| 0 <= i < path@.len() && !is_digit(#[trigger] path@[i]);
            assert(is_digit(path@[i]));
        }
        lemma_strip_digits(path@, end as int);
    }
    String::from_str(path.substring_char(0, end))
}

/// The `(disk, path)` keys a device path is looked up under in the message
/// map: its parent when udev knows one, else the path itself when it exists;
/// a path that no longer exists is taken as a partition of the disk named
/// without its trailing digits when that disk exists, and as a disk itself
/// when it is named like one (`/dev/sd`, `/dev/hd`, `/dev/nvme`).
pub open spec fn request_keys_spec(
    dev_path: Seq<char>,
    parent: Option<Seq<char>>,
    dev_exists: bool,
    stripped_exists: bool,
) -> Option<(Seq<char>, Seq<char>)> {
    match parent {
        Some(p) => Some((p, dev_path)),
        None => {
            if dev_exists {
                Some((dev_path, dev_path))
            } else {
                let stripped = strip_digits(dev_path);
                if stripped_exists {
                    Some((stripped, dev_path))
                } else if is_prefix("/dev/sd"@, stripped) || is_prefix("/dev/hd"@, stripped)
                    || is_prefix("/dev/nvme"@, stripped) {
                    Some((dev_path, dev_path))
                } else {
                    None
                }
            }
        },
    }
}

/// The keys `dev_path` is looked up under. `parent` is the parent device
/// udev reports, `dev_exists` whether the path exists, and `stripped_exists`
/// whether the path without its trailing digits exists.
pub fn get_request_keys(
    dev_path: &str,
    parent: Option<String>,
    dev_exists: bool,
    stripped_exists: bool,
) -> (res: Result<(String, String), BynarError>)
    requires
        parent is None && !dev_exists ==> has_non_digit(dev_path@),
    ensures
        request_keys_spec(dev_path@, opt_view(parent), dev_exists, stripped_exists)
            matches Some(k) ==> (res matches Ok(r) && r.0@ == k.0 && r.1@ == k.1),
        request_keys_spec(dev_path@, opt_view(parent), dev_exists, stripped_exists)
            is None ==> (res matches Err(BynarError::Error(m)) && m@ == "Path "@ + dev_path@
            + " does not exist, nor does its parent."@),
{
    match parent {
        Some(p) => Ok((p, String::from_str(dev_path))),
        None => {
            if dev_exists {
                return Ok((String::from_str(dev_path), String::from_str(dev_path)));
            }
            let stripped = strip_partition_number(dev_path);
            if stripped_exists {
                Ok((stripped, String::from_str(dev_path)))
            } else if starts_with(stripped.as_str(), "/dev/sd") || starts_with(
                stripped.as_str(),
                "/dev/hd",
            ) || starts_with(stripped.as_str(), "/dev/nvme") {
                Ok((String::from_str(dev_path), String::from_str(dev_path)))
            } else {
                Err(
                    BynarError::Error(
                        concat3("Path ", dev_path, " does not exist, nor does its parent."),
                    ),
                )
            }
        },
    }
}

/// Whether a block device is one Bynar tracks: CD/DVD (`sr*`) and loop
/// devices are not, nor a path with no file name.
pub open spec fn tracked_block_device(path: Seq<char>) -> bool {
    match file_name_of(path) {
        Some(n) => !(is_prefix("sr"@, n) || is_prefix("loop"@, n)),
        None => false,
    }
}

/// Whether `path` names a tracked block device.
pub fn is_tracked_block_device(path: &str) -> (res: bool)
    ensures
        res == tracked_block_device(path@),
{
    match path_file_name(path) {
        Some(n) => !(starts_with(n.as_str(), "sr") || starts_with(n.as_str(), "loop")),
        None => false,
    }
}

/// Whether a device the database knows is a whole disk: as udev says when
/// it can tell, else when its path does not end in a digit.
pub open spec fn db_is_disk(path: Seq<char>, is_disk: Option<bool>) -> bool {
    match is_disk {
        Some(d) => d,
        None => !is_digit(path.last()),
    }
}

/// Whether a device the database knows counts as a partition: as udev's
/// disk test says when it can tell, else when its path ends in a digit.
pub open spec fn db_is_partition(path: Seq<char>, is_disk: Option<bool>) -> bool {
    match is_disk {
        Some(d) => d,
        None => is_digit(path.last()),
    }
}

/// The database devices as `(path, udev's disk test)` pairs.
pub open spec fn db_views(db: Seq<(String, Option<bool>)>) -> Seq<(Seq<char>, Option<bool>)> {
    db.map_values(|e: (String, Option<bool>)| (e.0@, e.1))
}

/// The disks of a fresh message map: the tracked block devices and the
/// database devices that are disks.
pub open spec fn msg_map_disk(devices: Seq<Seq<char>>, db: Seq<(Seq<char>, Option<bool>)>, k: Seq<char>) -> bool {
    ||| (devices.contains(k) && tracked_block_device(k))
    ||| exists|i: int| 0 <= i < db.len() && #[trigger] db[i].0 == k && db_is_disk(db[i].0, db[i].1)
}

/// The partitions of a fresh message map: the database devices counted as
/// partitions.
pub open spec fn msg_map_partition(db: Seq<(Seq<char>, Option<bool>)>, p: Seq<char>) -> bool {
    exists|i: int| 0 <= i < db.len() && #[trigger] db[i].0 == p && db_is_partition(db[i].0, db[i].1)
}

/// The database devices counted as partitions.
fn db_partitions(db_devices: &Vec<(String, Option<bool>)>) -> (res: Vec<String>)
    requires
        forall|i: int| 0 <= i < db_devices@.len() ==> (#[trigger] db_devices@[i]).1 is None
            ==> db_devices@[i].0@.len() > 0,
    ensures
        forall|p: Seq<char>| path_views(res@).contains(p) <==> msg_map_partition(
            db_views(db_devices@),
            p,
        ),
{
    let ghost db = db_views(db_devices@);
    let mut res: Vec<String> = Vec::new();
    let mut i: usize = 0;
    while i < db_devices.len()
        invariant
            i <= db_devices@.len(),
            db == db_views(db_devices@),
            forall|j: int| 0 <= j < db_devices@.len() ==> (#[trigger] db_devices@[j]).1 is None
                ==> db_devices@[j].0@.len() > 0,
            forall|p: Seq<char>| path_views(res@).contains(p) <==> exists|j: int|
                0 <= j < i && #[trigger] db[j].0 == p && db_is_partition(db[j].0, db[j].1),
        decreases db_devices@.len() - i,
    {
        let e = &db_devices[i];
        let keep = match e.1 {
            Some(d) => d,
            None => {
                let n = e.0.as_str().unicode_len();
                is_digit_exec(e.0.as_str().get_char(n - 1))
            },
        };
        let ghost before = path_views(res@);
        if keep {
            res.push(e.0.clone());
        }
        proof {
            assert(db[i as int] == (e.0@, e.1));
            let after = path_views(res@);
            if keep {
                assert(after =~= before.push(e.0@));
            } else {
                assert(after =~= before);
            }
            assert forall|p: Seq<char>| after.contains(p) <==> exists|j: int|
                0 <= j < i + 1 && #[trigger] db[j].0 == p && db_is_partition(db[j].0, db[j].1) by {
                if after.contains(p) {
                    if !before.contains(p) {
                        assert(keep && p == e.0@);
                        assert(db[i as int].0 == p);
                    } else {
                        let j = choose|j: int| 0 <= j < i && #[trigger] db[j].0 == p && db_is_partition(db[j].0, db[j].1);
                        assert(db[j].0 == p);
                    }
                }
                if exists|j: int| 0 <= j < i + 1 && #[trigger] db[j].0 == p && db_is_partition(db[j].0, db[j].1) {
                    let j = choose|j: int| 0 <= j < i + 1 && #[trigger] db[j].0 == p && db_is_partition(db[j].0, db[j].1);
                    if j < i {
                        assert(before.contains(p));
                        let k = choose|k: int| 0 <= k < before.len() && before[k] == p;
                        if keep {
                            assert(after[k] == p);
                        }
                    } else {
                        assert(keep);
                        assert(after[after.len() - 1] == p);
                    }
                }
            }
        }
        i = i + 1;
    }
    res
}


/// Whether one of the first `n` database devices is the disk `k`.
pub open spec fn db_disk_upto(db: Seq<(Seq<char>, Option<bool>)>, n: int, k: Seq<char>) -> bool {
    exists|y: int| 0 <= y < n && #[trigger] db[y].0 == k && db_is_disk(db[y].0, db[y].1)
}

/// The fresh requests of disk `k` in a message map built from the database
/// devices `db`: the disk and every partition whose path contains it.
pub open spec fn fresh_msg_disk(db: Seq<(Seq<char>, Option<bool>)>, k: Seq<char>) -> Map<Seq<char>, Option<crate::ops::DiskOp>> {
    Map::new(
        |p: Seq<char>| p == k || (msg_map_partition(db, p) && contains_seq(p, k)),
        |p: Seq<char>| None,
    )
}

/// The message map of the tracked block `devices` and the database devices
/// `db_devices` (each with udev's disk test, `None` when udev could not
/// tell): every disk maps each of its paths to no request.
pub fn create_msg_map(devices: &Vec<String>, db_devices: &Vec<(String, Option<bool>)>) -> (res: MessageMap)
    requires
        forall|i: int| 0 <= i < db_devices@.len() ==> (#[trigger] db_devices@[i]).1 is None
            ==> db_devices@[i].0@.len() > 0,
    ensures
        res.wf(),
        res@ == Map::new(
            |k: Seq<char>| msg_map_disk(path_views(devices@), db_views(db_devices@), k),
            |k: Seq<char>| fresh_msg_disk(db_views(db_devices@), k),
        ),
{
    let ghost db = db_views(db_devices@);
    let ghost devs = path_views(devices@);
    let partitions = db_partitions(db_devices);
    let mut map = MessageMap::new();
    let mut i: usize = 0;
    while i < devices.len()
        invariant
            map.wf(),
            i <= devices@.len(),
            db == db_views(db_devices@),
            devs == path_views(devices@),
            forall|p: Seq<char>| path_views(partitions@).contains(p) <==> msg_map_partition(db, p),
            map@ == Map::new(
                |k: Seq<char>| exists|x: int| 0 <= x < i && #[trigger] devs[x] == k && tracked_block_device(k),
                |k: Seq<char>| fresh_msg_disk(db, k),
            ),
        decreases devices@.len() - i,
    {
        let d = devices[i].as_str();
        let ghost before = map@;
        if is_tracked_block_device(d) {
            let ops = DiskOps::fresh(d, &partitions);
            proof {
                assert(ops@ =~= fresh_msg_disk(db, d@));
            }
            map.insert_disk(d, ops);
        }
        proof {
            assert(devs[i as int] == d@);
            assert(map@ =~= Map::new(
                |k: Seq<char>| exists|x: int| 0 <= x < i + 1 && #[trigger] devs[x] == k && tracked_block_device(k),
                |k: Seq<char>| fresh_msg_disk(db, k),
            ));
        }
        i = i + 1;
    }
    let mut j: usize = 0;
    while j < db_devices.len()
        invariant
            map.wf(),
            j <= db_devices@.len(),
            db == db_views(db_devices@),
            devs == path_views(devices@),
            forall|p: Seq<char>| path_views(partitions@).contains(p) <==> msg_map_partition(db, p),
            forall|x: int| 0 <= x < db_devices@.len() ==> (#[trigger] db_devices@[x]).1 is None
                ==> db_devices@[x].0@.len() > 0,
            map@ == Map::new(
                |k: Seq<char>| (exists|x: int| 0 <= x < devs.len() && #[trigger] devs[x] == k && tracked_block_device(k))
                    || db_disk_upto(db, j as int, k),
                |k: Seq<char>| fresh_msg_disk(db, k),
            ),
        decreases db_devices@.len() - j,
    {
        let e = &db_devices[j];
        let is_disk = match e.1 {
            Some(b) => b,
            None => {
                let n = e.0.as_str().unicode_len();
                !is_digit_exec(e.0.as_str().get_char(n - 1))
            },
        };
        if is_disk {
            let ops = DiskOps::fresh(e.0.as_str(), &partitions);
            proof {
                assert(ops@ =~= fresh_msg_disk(db, e.0@));
            }
            map.insert_disk(e.0.as_str(), ops);
        }
        proof {
            assert(db[j as int] == (e.0@, e.1));
            assert(is_disk == db_is_disk(db[j as int].0, db[j as int].1));
            assert forall|k: Seq<char>| #[trigger] db_disk_upto(db, j + 1, k)
                <==> (db_disk_upto(db, j as int, k) || (k == e.0@ && is_disk)) by {
                if k == e.0@ && is_disk {
                    assert(db[j as int].0 == k);
                }
            }
            assert(map@ =~= Map::new(
                |k: Seq<char>| (exists|x: int| 0 <= x < devs.len() && #[trigger] devs[x] == k && tracked_block_device(k))
                    || db_disk_upto(db, j + 1, k),
                |k: Seq<char>| fresh_msg_disk(db, k),
            ));
        }
        j = j + 1;
    }
    proof {
        assert forall|k: Seq<char>| devs.contains(k) <==> exists|x: int| 0 <= x < devs.len() && #[trigger] devs[x] == k by {
        }
        assert(map@ =~= Map::new(
            |k: Seq<char>| msg_map_disk(devs, db, k),
            |k: Seq<char>| fresh_msg_disk(db, k),
        ));
    }
    map
}

} // verus!
