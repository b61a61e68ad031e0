//! Records kept in the database about disks and the operations on them: the
//! records themselves, the SQL statements that store them, and what the
//! database's answers mean.
use vstd::prelude::*;
use crate::error::BynarError;
use crate::disk_state::{State, state_name, parse_state, lemma_state_name_roundtrip};
use crate::device::BlockDevice;
use crate::text::{push_u64, decimal, push_bool, bool_text, opt_view, concat2};

verus! {

/// The text `chrono` prints for the UTC time `secs` seconds and `nanos`
/// nanoseconds after the epoch, or `None` when that is no valid time.
pub uninterp spec fn utc_text(secs: i64, nanos: u32) -> Option<Seq<char>>;

/// `DateTime::<Utc>::from_timestamp` followed by `to_string`: the text of a
/// time, as named above.
#[verifier::external_body]
fn format_utc(secs: i64, nanos: u32) -> (res: Option<String>)
    ensures
        opt_view(res) == utc_text(secs, nanos),
{
    match chrono::DateTime::<chrono::Utc>::from_timestamp(secs, nanos) {
        Some(t) => Some(t.to_string()),
        None => None,
    }
}

/// The clock's time, as std's `SystemTime`.
#[verifier::external_type_specification]
#[verifier::external_body]
pub struct ExSystemTime(std::time::SystemTime);

/// `SystemTime::now`: the current time of the system clock. The clock
/// decides it, so nothing is stated of it.
#[verifier::external_body]
fn system_now() -> (res: std::time::SystemTime) {
    std::time::SystemTime::now()
}

/// `SystemTime::duration_since` the Unix epoch, as whole seconds and the
/// nanoseconds past them; `None` for a time before the epoch. The value
/// rests on the time given, which is opaque here; `Duration::subsec_nanos`
/// is documented to stay below one billion.
#[verifier::external_body]
fn since_epoch(t: &std::time::SystemTime) -> (res: Option<(u64, u32)>)
    ensures
        res matches Some(p) ==> p.1 < 1_000_000_000,
{
    match t.duration_since(std::time::UNIX_EPOCH) {
        Ok(d) => Some((d.as_secs(), d.subsec_nanos())),
        Err(_) => None,
    }
}

/// A UTC time.
pub struct Timestamp {
    secs: i64,
    nanos: u32,
}

impl Timestamp {
    #[verifier::type_invariant]
    spec fn valid(self) -> bool {
        utc_text(self.secs, self.nanos) is Some
    }

    /// How this time is printed.
    pub closed spec fn text(self) -> Seq<char> {
        utc_text(self.secs, self.nanos).unwrap()
    }

    /// The current time: the system clock's reading made a time by
    /// `from_epoch`. The clock decides the reading, so what is stated of the
    /// result is `from_epoch`'s contract.
    pub fn now() -> (res: Option<Timestamp>) {
        Timestamp::from_epoch(since_epoch(&system_now()))
    }

    /// The time of a clock reading (whole seconds since the Unix epoch and
    /// the nanoseconds past them): `None` for no reading (a clock before the
    /// epoch), for seconds beyond `i64::MAX`, or for a time that cannot be
    /// printed.
    pub fn from_epoch(reading: Option<(u64, u32)>) -> (res: Option<Timestamp>)
        ensures
            res is Some <==> (reading matches Some(p) && p.0 <= i64::MAX as u64 && utc_text(p.0 as i64, p.1) is Some),
            res matches Some(t) ==> t.text() == utc_text((reading->0).0 as i64, (reading->0).1).unwrap(),
    {
        match reading {
            Some((secs, nanos)) => {
                if secs > 9223372036854775807u64 {
                    None
                } else {
                    Timestamp::from_parts(secs as i64, nanos)
                }
            },
            None => None,
        }
    }

    /// The time `secs` seconds and `nanos` nanoseconds after the epoch, if
    /// that is a valid time.
    pub fn from_parts(secs: i64, nanos: u32) -> (res: Option<Timestamp>)
        ensures
            res is Some <==> utc_text(secs, nanos) is Some,
            res matches Some(t) ==> t.text() == utc_text(secs, nanos).unwrap(),
    {
        match format_utc(secs, nanos) {
            Some(_) => Some(Timestamp { secs, nanos }),
            None => None,
        }
    }

    /// A copy of this time.
    pub fn copy(&self) -> (res: Timestamp)
        ensures
            res.text() == self.text(),
    {
        proof {
            use_type_invariant(self);
        }
        Timestamp { secs: self.secs, nanos: self.nanos }
    }

    /// How this time is printed.
    pub fn to_string(&self) -> (res: String)
        ensures
            res@ == self.text(),
    {
        proof {
            use_type_invariant(self);
        }
        match format_utc(self.secs, self.nanos) {
            Some(s) => s,
            None => {
                proof {
                    assert(false);
                }
                String::new()
            },
        }
    }
}

/// A repair ticket kept for a disk.
pub struct DiskRepairTicket {
    pub id: i32,
    pub ticket_id: String,
    pub time_created: Timestamp,
    pub disk_path: String,
}

/// A disk as the database records it.
#[derive(Debug)]
pub struct DiskInfo {
    pub disk_id: u32,
    pub storage_detail_id: u32,
    pub disk_path: String,
    pub mount_path: String,
    pub disk_name: String,
    pub disk_uuid: Option<String>,
}

impl DiskInfo {
    /// A disk not yet recorded (id 0), with no uuid.
    pub fn new(disk_name: String, disk_path: String, mount_path: String, storage_detail_id: u32) -> (res: DiskInfo)
        ensures
            res == (DiskInfo {
                disk_id: 0,
                storage_detail_id,
                disk_path,
                mount_path,
                disk_name,
                disk_uuid: None,
            }),
    {
        DiskInfo { disk_id: 0, disk_name, disk_path, mount_path, storage_detail_id, disk_uuid: None }
    }

    /// Record the id the database gave the disk.
    pub fn set_disk_id(&mut self, disk_id: u32)
        ensures
            *final(self) == (DiskInfo { disk_id, ..*old(self) }),
    {
        self.disk_id = disk_id;
    }

    /// Record the disk's uuid.
    pub fn set_disk_uuid(&mut self, disk_uuid: String)
        ensures
            *final(self) == (DiskInfo { disk_uuid: Some(disk_uuid), ..*old(self) }),
    {
        self.disk_uuid = Some(disk_uuid);
    }
}

/// Where this host's records sit in the database.
#[derive(Debug)]
pub struct HostDetailsMapping {
    pub entry_id: u32,
    pub region_id: u32,
    pub storage_detail_id: u32,
}

impl HostDetailsMapping {
    /// The mapping of the given ids.
    pub fn new(entry_id: u32, region_id: u32, storage_detail_id: u32) -> (res: HostDetailsMapping)
        ensures
            res == (HostDetailsMapping { entry_id, region_id, storage_detail_id }),
    {
        HostDetailsMapping { entry_id, region_id, storage_detail_id }
    }
}

/// An operation on a disk, as the database records it.
pub struct OperationInfo {
    pub operation_id: u32,
    pub host_details: HostDetailsMapping,
    pub disk_id: u32,
    pub behalf_of: Option<String>,
    pub reason: Option<String>,
    pub start_time: Timestamp,
    pub snapshot_time: Timestamp,
    pub done_time: Option<Timestamp>,
}

impl OperationInfo {
    /// A new operation on `disk_id`, not yet recorded (id 0), started now;
    /// `None` when the clock gives no time.
    pub fn new(host_details: HostDetailsMapping, disk_id: u32) -> (res: Option<OperationInfo>)
        ensures
            res matches Some(o) ==> {
                &&& o.operation_id == 0
                &&& o.host_details == host_details
                &&& o.disk_id == disk_id
                &&& o.behalf_of is None
                &&& o.reason is None
                &&& o.done_time is None
            },
    {
        let start_time = match Timestamp::now() {
            Some(t) => t,
            None => return None,
        };
        let snapshot_time = match Timestamp::now() {
            Some(t) => t,
            None => return None,
        };
        Some(OperationInfo {
            operation_id: 0,
            host_details,
            disk_id,
            behalf_of: None,
            reason: None,
            start_time,
            snapshot_time,
            done_time: None,
        })
    }
}

/// The kind of an operation.
#[derive(Debug, Clone, Copy, PartialEq, Eq, Structural)]
pub enum OperationType {
    DiskAdd,
    DiskReplace,
    DiskRemove,
    WaitForReplacement,
    Evaluation,
}

/// The name an operation kind is stored under.
pub open spec fn operation_type_name(t: OperationType) -> Seq<char> {
    match t {
        OperationType::DiskAdd => "diskadd"@,
        OperationType::DiskReplace => "diskreplace"@,
        OperationType::DiskRemove => "diskremove"@,
        OperationType::WaitForReplacement => "waitforreplacement"@,
        OperationType::Evaluation => "evaluation"@,
    }
}

impl OperationType {
    /// The name this kind is stored under.
    pub fn to_string(&self) -> (res: String)
        ensures
            res@ == operation_type_name(*self),
    {
        let s = match self {
            OperationType::DiskAdd => "diskadd",
            OperationType::DiskReplace => "diskreplace",
            OperationType::DiskRemove => "diskremove",
            OperationType::WaitForReplacement => "waitforreplacement",
            OperationType::Evaluation => "evaluation",
        };
        String::from_str(s)
    }
}

/// Where an operation stands.
#[derive(Debug, Clone, Copy, PartialEq, Eq, Structural)]
pub enum OperationStatus {
    Pending,
    InProgress,
    Complete,
}

/// The name a status is stored under.
pub open spec fn operation_status_name(s: OperationStatus) -> Seq<char> {
    match s {
        OperationStatus::Pending => "pending"@,
        OperationStatus::InProgress => "in_progress"@,
        OperationStatus::Complete => "complete"@,
    }
}

impl OperationStatus {
    /// The name this status is stored under.
    pub fn to_string(&self) -> (res: String)
        ensures
            res@ == operation_status_name(*self),
    {
        let s = match self {
            OperationStatus::Pending => "pending",
            OperationStatus::InProgress => "in_progress",
            OperationStatus::Complete => "complete",
        };
        String::from_str(s)
    }
}

/// A step of an operation, as the database records it.
pub struct OperationDetail {
    pub op_detail_id: u32,
    pub operation_id: u32,
    pub op_type: OperationType,
    pub status: OperationStatus,
    pub tracking_id: Option<u32>,
    pub start_time: Timestamp,
    pub snapshot_time: Timestamp,
    pub done_time: Option<Timestamp>,
}

impl OperationDetail {
    /// A pending step of kind `op_type` of operation `operation_id`, not yet
    /// recorded (id 0), started now; `None` when the clock gives no time.
    pub fn new(operation_id: u32, op_type: OperationType) -> (res: Option<OperationDetail>)
        ensures
            res matches Some(d) ==> {
                &&& d.op_detail_id == 0
                &&& d.operation_id == operation_id
                &&& d.op_type == op_type
                &&& d.status == OperationStatus::Pending
                &&& d.tracking_id is None
                &&& d.done_time is None
            },
    {
        let start_time = match Timestamp::now() {
            Some(t) => t,
            None => return None,
        };
        let snapshot_time = match Timestamp::now() {
            Some(t) => t,
            None => return None,
        };
        Some(OperationDetail {
            op_detail_id: 0,
            operation_id,
            op_type,
            status: OperationStatus::Pending,
            tracking_id: None,
            start_time,
            snapshot_time,
            done_time: None,
        })
    }

    /// Record the id the database gave this step.
    pub fn set_operation_detail_id(&mut self, op_detail_id: u32)
        ensures
            *final(self) == (OperationDetail { op_detail_id, ..*old(self) }),
    {
        self.op_detail_id = op_detail_id;
    }

    /// Record the ticket tracking this step.
    pub fn set_tracking_id(&mut self, tracking_id: u32)
        ensures
            *final(self) == (OperationDetail { tracking_id: Some(tracking_id), ..*old(self) }),
    {
        self.tracking_id = Some(tracking_id);
    }

    /// Record when this step finished.
    pub fn set_done_time(&mut self, done_time: Timestamp)
        ensures
            *final(self) == (OperationDetail { done_time: Some(done_time), ..*old(self) }),
    {
        self.done_time = Some(done_time);
    }

    /// Record where this step stands.
    pub fn set_operation_status(&mut self, status: OperationStatus)
        ensures
            *final(self) == (OperationDetail { status, ..*old(self) }),
    {
        self.status = status;
    }
}

/// The optional text `prefix + value`.
pub open spec fn opt_part(v: Option<String>, prefix: Seq<char>) -> Seq<char> {
    match v {
        Some(s) => prefix + s@,
        None => Seq::empty(),
    }
}

/// The statement that records a disk: an insert returning its new id for a
/// disk with id 0, else a select checking the recorded disk matches.
pub open spec fn disk_detail_stmt(d: DiskInfo) -> Seq<char> {
    if d.disk_id == 0 {
        "INSERT INTO disks (storage_detail_id, disk_path, disk_name, mount_path"@ + (if d.disk_uuid is Some {
            ", disk_uuid"@
        } else {
            Seq::empty()
        }) + ") VALUES ("@ + decimal(d.storage_detail_id as nat) + ", "@ + d.disk_path@ + ", "@
            + d.disk_name@ + ", "@ + d.mount_path@ + opt_part(d.disk_uuid, ", "@)
            + ") RETURNING disk_id"@
    } else {
        "SELECT disk_id FROM disks WHERE disk_id = "@ + decimal(d.disk_id as nat)
            + " AND\n                                    disk_name = "@ + d.disk_name@
            + " AND disk_path = "@ + d.disk_path@
            + " AND \n                                    mounth_path = "@ + d.mount_path@
            + " AND \n                                    storage_detail_id = "@ + decimal(
            d.storage_detail_id as nat,
        )
    }
}

fn push_opt_part(stmt: &mut String, v: &Option<String>, prefix: &str)
    ensures
        final(stmt)@ == old(stmt)@ + opt_part(*v, prefix@),
{
    match v {
        Some(s) => {
            stmt.append(prefix);
            stmt.append(s.as_str());
        },
        None => {},
    }
}

/// The statement that records a disk.
pub fn add_disk_detail_stmt(disk_info: &DiskInfo) -> (res: String)
    ensures
        res@ == disk_detail_stmt(*disk_info),
{
    let mut stmt = String::new();
    if disk_info.disk_id == 0 {
        stmt.append("INSERT INTO disks (storage_detail_id, disk_path, disk_name, mount_path");
        let ghost s1 = stmt@;
        if disk_info.disk_uuid.is_some() {
            stmt.append(", disk_uuid");
        }
        let ghost s2 = stmt@;
        stmt.append(") VALUES (");
        push_u64(&mut stmt, disk_info.storage_detail_id as u64);
        stmt.append(", ");
        stmt.append(disk_info.disk_path.as_str());
        stmt.append(", ");
        stmt.append(disk_info.disk_name.as_str());
        stmt.append(", ");
        stmt.append(disk_info.mount_path.as_str());
        push_opt_part(&mut stmt, &disk_info.disk_uuid, ", ");
        stmt.append(") RETURNING disk_id");
        proof {
            reveal_strlit("");
        }
        assert(stmt@ =~= disk_detail_stmt(*disk_info));
    } else {
        stmt.append("SELECT disk_id FROM disks WHERE disk_id = ");
        push_u64(&mut stmt, disk_info.disk_id as u64);
        stmt.append(" AND\n                                    disk_name = ");
        stmt.append(disk_info.disk_name.as_str());
        stmt.append(" AND disk_path = ");
        stmt.append(disk_info.disk_path.as_str());
        stmt.append(" AND \n                                    mounth_path = ");
        stmt.append(disk_info.mount_path.as_str());
        stmt.append(" AND \n                                    storage_detail_id = ");
        push_u64(&mut stmt, disk_info.storage_detail_id as u64);
        assert(stmt@ =~= disk_detail_stmt(*disk_info));
    }
    stmt
}

/// Take the database's answer to the disk statement: the id it returned
/// becomes the disk's id; no row back means the disk was not recorded.
pub fn add_disk_detail(disk_info: &mut DiskInfo, returned_id: Option<i32>) -> (res: bool)
    ensures
        res == returned_id is Some,
        returned_id matches Some(id) ==> *final(disk_info) == (DiskInfo { disk_id: id as u32, ..*old(disk_info) }),
        returned_id is None ==> *final(disk_info) == *old(disk_info),
{
    match returned_id {
        Some(id) => {
            disk_info.set_disk_id(id as u32);
            true
        },
        None => false,
    }
}


/// The optional text `prefix + time`.
pub open spec fn opt_time_part(t: Option<Timestamp>, prefix: Seq<char>) -> Seq<char> {
    match t {
        Some(x) => prefix + x.text(),
        None => Seq::empty(),
    }
}

fn push_opt_time(stmt: &mut String, t: &Option<Timestamp>, prefix: &str)
    ensures
        final(stmt)@ == old(stmt)@ + opt_time_part(*t, prefix@),
{
    match t {
        Some(x) => {
            stmt.append(prefix);
            let text = x.to_string();
            stmt.append(text.as_str());
        },
        None => {},
    }
}

/// The statement that records an operation: an insert returning its new id
/// for an operation with id 0, which needs the host's region, storage detail
/// and entry ids (none without them); else an update of its times.
pub open spec fn operation_stmt(op: OperationInfo) -> Option<Seq<char>> {
    let h = op.host_details;
    if op.operation_id == 0 {
        if h.region_id == 0 || h.entry_id == 0 || h.storage_detail_id == 0 {
            None
        } else {
            Some(
                "INSERT INTO operations (\n                                    region_id, storage_detail_id, entry_id\n                                    start_time, disk_id"@
                    + (if op.behalf_of is Some {
                    ", behalf_of"@
                } else {
                    Seq::empty()
                }) + (if op.reason is Some {
                    ", reason"@
                } else {
                    Seq::empty()
                }) + ")"@ + " VALUES ("@ + decimal(h.region_id as nat) + ","@ + decimal(
                    h.storage_detail_id as nat,
                ) + ","@ + decimal(h.entry_id as nat) + ","@ + op.start_time.text() + ", "@
                    + decimal(op.disk_id as nat) + opt_part(op.behalf_of, ", "@) + opt_part(
                    op.reason,
                    ", "@,
                ) + ") RETURNING operation_id"@,
            )
        }
    } else {
        Some(
            "UPDATE operations SET (snapshot_time = "@ + op.snapshot_time.text() + opt_time_part(
                op.done_time,
                ", done_time = "@,
            ) + ") WHERE operation_id = "@ + decimal(op.operation_id as nat),
        )
    }
}

/// The statement that records an operation, `None` when a new operation
/// lacks the host's ids.
pub fn add_or_update_operation_stmt(op_info: &OperationInfo) -> (res: Option<String>)
    ensures
        opt_view(res) == operation_stmt(*op_info),
{
    let h = &op_info.host_details;
    let mut stmt = String::new();
    if op_info.operation_id == 0 {
        if h.region_id == 0 || h.entry_id == 0 || h.storage_detail_id == 0 {
            return None;
        }
        stmt.append(
            "INSERT INTO operations (\n                                    region_id, storage_detail_id, entry_id\n                                    start_time, disk_id",
        );
        if op_info.behalf_of.is_some() {
            stmt.append(", behalf_of");
        }
        if op_info.reason.is_some() {
            stmt.append(", reason");
        }
        stmt.append(")");
        stmt.append(" VALUES (");
        push_u64(&mut stmt, h.region_id as u64);
        stmt.append(",");
        push_u64(&mut stmt, h.storage_detail_id as u64);
        stmt.append(",");
        push_u64(&mut stmt, h.entry_id as u64);
        stmt.append(",");
        let start = op_info.start_time.to_string();
        stmt.append(start.as_str());
        stmt.append(", ");
        push_u64(&mut stmt, op_info.disk_id as u64);
        push_opt_part(&mut stmt, &op_info.behalf_of, ", ");
        push_opt_part(&mut stmt, &op_info.reason, ", ");
        stmt.append(") RETURNING operation_id");
        assert(stmt@ =~= operation_stmt(*op_info).unwrap());
    } else {
        stmt.append("UPDATE operations SET (snapshot_time = ");
        let snap = op_info.snapshot_time.to_string();
        stmt.append(snap.as_str());
        push_opt_time(&mut stmt, &op_info.done_time, ", done_time = ");
        stmt.append(") WHERE operation_id = ");
        push_u64(&mut stmt, op_info.operation_id as u64);
        assert(stmt@ =~= operation_stmt(*op_info).unwrap());
    }
    Some(stmt)
}

/// The operation id after the database answered: the id it returned; with
/// no row back, the operation's own id for an update and 0 for an insert.
pub fn add_or_update_operation(op_info: &OperationInfo, returned_id: Option<i32>) -> (res: u32)
    ensures
        returned_id matches Some(id) ==> res == id as u32,
        returned_id is None ==> res == op_info.operation_id,
{
    match returned_id {
        Some(id) => id as u32,
        None => op_info.operation_id,
    }
}

/// The query for the id of an operation kind.
pub open spec fn operation_type_query(t: OperationType) -> Seq<char> {
    "SELECT type_id FROM operation_types WHERE\n                                op_name="@ + operation_type_name(t)
}

/// The statement that records an operation step with kind id `type_id`: an
/// insert returning its new id for a step with id 0 (none when the kind has
/// no id), else an update of its times, status and ticket.
pub open spec fn operation_detail_stmt(d: OperationDetail, type_id: i32) -> Option<Seq<char>> {
    if d.op_detail_id == 0 {
        if type_id == 0 {
            None
        } else {
            Some(
                "INSERT INTO operation_details (operation_id, type_id,\n                            status, start_time, snapshot_time"@
                    + (if d.tracking_id is Some {
                    ", tracking_id"@
                } else {
                    Seq::empty()
                }) + (if d.done_time is Some {
                    ", done_time"@
                } else {
                    Seq::empty()
                }) + " ) VALUES ("@ + decimal(d.operation_id as nat) + ", "@ + crate::text::signed_decimal(
                    type_id as int,
                ) + ", "@ + operation_status_name(d.status) + ", "@ + d.start_time.text() + ", "@
                    + d.snapshot_time.text() + (match d.tracking_id {
                    Some(t) => ", "@ + decimal(t as nat),
                    None => Seq::empty(),
                }) + opt_time_part(d.done_time, ", "@) + ") RETURNING operation_detail_id"@,
            )
        }
    } else {
        Some(
            "UPDATE operation_details SET (snapshot_time = "@ + d.snapshot_time.text()
                + ", \n                            status = "@ + operation_status_name(d.status)
                + (match d.tracking_id {
                Some(t) => ", tracking_id = "@ + decimal(t as nat),
                None => Seq::empty(),
            }) + opt_time_part(d.done_time, ", done_time = "@) + ") WHERE operation_detail_id = "@
                + decimal(d.op_detail_id as nat),
        )
    }
}

/// The query for the id of the step's kind, needed only for a new step.
pub fn operation_detail_type_query(detail: &OperationDetail) -> (res: Option<String>)
    ensures
        detail.op_detail_id == 0 ==> opt_view(res) == Some(operation_type_query(detail.op_type)),
        detail.op_detail_id != 0 ==> res is None,
{
    if detail.op_detail_id == 0 {
        let name = detail.op_type.to_string();
        Some(concat2("SELECT type_id FROM operation_types WHERE\n                                op_name=", name.as_str()))
    } else {
        None
    }
}

/// The statement that records an operation step, given the id of its kind
/// (0 when the kind was not found); `None` for a new step whose kind was
/// not found.
pub fn add_or_update_operation_detail_stmt(detail: &OperationDetail, type_id: i32) -> (res: Option<String>)
    ensures
        opt_view(res) == operation_detail_stmt(*detail, type_id),
{
    let mut stmt = String::new();
    if detail.op_detail_id == 0 {
        if type_id == 0 {
            return None;
        }
        stmt.append(
            "INSERT INTO operation_details (operation_id, type_id,\n                            status, start_time, snapshot_time",
        );
        if detail.tracking_id.is_some() {
            stmt.append(", tracking_id");
        }
        if detail.done_time.is_some() {
            stmt.append(", done_time");
        }
        stmt.append(" ) VALUES (");
        push_u64(&mut stmt, detail.operation_id as u64);
        stmt.append(", ");
        let tid = crate::text::i64_to_string(type_id as i64);
        stmt.append(tid.as_str());
        stmt.append(", ");
        let status = detail.status.to_string();
        stmt.append(status.as_str());
        stmt.append(", ");
        let start = detail.start_time.to_string();
        stmt.append(start.as_str());
        stmt.append(", ");
        let snap = detail.snapshot_time.to_string();
        stmt.append(snap.as_str());
        match detail.tracking_id {
            Some(t) => {
                stmt.append(", ");
                push_u64(&mut stmt, t as u64);
            },
            None => {},
        }
        push_opt_time(&mut stmt, &detail.done_time, ", ");
        stmt.append(") RETURNING operation_detail_id");
        assert(stmt@ =~= operation_detail_stmt(*detail, type_id).unwrap());
    } else {
        stmt.append("UPDATE operation_details SET (snapshot_time = ");
        let snap = detail.snapshot_time.to_string();
        stmt.append(snap.as_str());
        stmt.append(", \n                            status = ");
        let status = detail.status.to_string();
        stmt.append(status.as_str());
        match detail.tracking_id {
            Some(t) => {
                stmt.append(", tracking_id = ");
                push_u64(&mut stmt, t as u64);
            },
            None => {},
        }
        push_opt_time(&mut stmt, &detail.done_time, ", done_time = ");
        stmt.append(") WHERE operation_detail_id = ");
        push_u64(&mut stmt, detail.op_detail_id as u64);
        assert(stmt@ =~= operation_detail_stmt(*detail, type_id).unwrap());
    }
    Some(stmt)
}

/// Take the database's answer to the step statement: a new step takes the
/// id returned and is recorded only if one came back; an update is recorded.
pub fn add_or_update_operation_detail(detail: &mut OperationDetail, inserted: bool, returned_id: Option<i32>) -> (res: bool)
    ensures
        !inserted ==> res,
        inserted ==> res == returned_id is Some,
        inserted && returned_id is Some ==> *final(detail) == (OperationDetail {
            op_detail_id: returned_id.unwrap() as u32,
            ..*old(detail)
        }),
        !(inserted && returned_id is Some) ==> *final(detail) == *old(detail),
{
    if inserted {
        match returned_id {
            Some(id) => {
                detail.set_operation_detail_id(id as u32);
                true
            },
            None => false,
        }
    } else {
        true
    }
}

/// The error for a device the database does not hold.
pub open spec fn not_in_db_error(b: BlockDevice, with_id: bool) -> Seq<char> {
    "Device "@ + b.device.name@ + (if with_id {
        " for storage detail with id "@
    } else {
        " for storage detail "@
    }) + decimal(b.storage_detail_id as nat) + (if with_id {
        " is not in database"@
    } else {
        " is not in DB"@
    })
}

fn not_in_db(b: &BlockDevice, with_id: bool) -> (res: BynarError)
    ensures
        res matches BynarError::Error(m) && m@ == not_in_db_error(*b, with_id),
{
    let mut m = String::from_str("Device ");
    m.append(b.device.name.as_str());
    if with_id {
        m.append(" for storage detail with id ");
    } else {
        m.append(" for storage detail ");
    }
    push_u64(&mut m, b.storage_detail_id as u64);
    if with_id {
        m.append(" is not in database");
    } else {
        m.append(" is not in DB");
    }
    BynarError::Error(m)
}

/// The statement setting `column` to `value` in the row of `table` whose
/// `key` is `id`.
pub open spec fn update_sql(table: Seq<char>, column: Seq<char>, value: Seq<char>, key: Seq<char>, id: nat) -> Seq<char> {
    "UPDATE "@ + table + " SET "@ + column + " = "@ + value + " WHERE "@ + key + "="@ + decimal(id)
}

/// The query for `column` of the row of `table` whose `key` is `id`.
pub open spec fn select_sql(table: Seq<char>, column: Seq<char>, key: Seq<char>, id: nat) -> Seq<char> {
    "SELECT "@ + column + " FROM "@ + table + " WHERE "@ + key + " = "@ + decimal(id)
}

/// A text as an SQL string literal.
pub open spec fn sql_quoted(t: Seq<char>) -> Seq<char> {
    "'"@ + t + "'"@
}

/// The statement saving state `state` for the disk with id `id`.
pub open spec fn save_state_sql(id: nat, state: State) -> Seq<char> {
    update_sql("disks"@, "state"@, sql_quoted(state_name(state)), "disk_id"@, id)
}

/// The query for the saved state of the disk with id `id`.
pub open spec fn get_state_sql(id: nat) -> Seq<char> {
    select_sql("disks"@, "state"@, "disk_id"@, id)
}

/// The statement saving whether the disk with id `id` passed its SMART checks.
pub open spec fn save_smart_sql(id: nat, passed: bool) -> Seq<char> {
    update_sql("disks"@, "smart_passed"@, bool_text(passed), "disk_id"@, id)
}

/// The query for whether the disk with id `id` passed its SMART checks.
pub open spec fn get_smart_sql(id: nat) -> Seq<char> {
    select_sql("disks"@, "smart_passed"@, "disk_id"@, id)
}

/// The statement saving a device's state; a device not in the database is
/// an error. The state's name is written as an SQL string literal (quoted),
/// so the statement is valid SQL and the name reads back as text.
pub fn save_state_stmt(device_detail: &BlockDevice, state: State) -> (res: Result<String, BynarError>)
    ensures
        device_detail.device_database_id matches Some(id) ==> (res matches Ok(s) && s@ == save_state_sql(
            id as nat,
            state,
        )),
        device_detail.device_database_id is None ==> (res matches Err(BynarError::Error(m)) && m@
            == not_in_db_error(*device_detail, true)),
{
    match device_detail.device_database_id {
        Some(id) => {
            let mut s = String::from_str("UPDATE disks SET state = '");
            let name = state.to_string();
            s.append(name.as_str());
            s.append("' WHERE disk_id=");
            push_u64(&mut s, id as u64);
            proof {
                reveal_strlit("UPDATE disks SET state = '");
                reveal_strlit("' WHERE disk_id=");
                reveal_strlit("UPDATE ");
                reveal_strlit("disks");
                reveal_strlit(" SET ");
                reveal_strlit("state");
                reveal_strlit(" = ");
                reveal_strlit("'");
                reveal_strlit(" WHERE ");
                reveal_strlit("disk_id");
                reveal_strlit("=");
                assert(s@ =~= save_state_sql(id as nat, state));
            }
            Ok(s)
        },
        None => Err(not_in_db(device_detail, true)),
    }
}

/// The statement saving whether a device passed its SMART checks; a device
/// not in the database is an error.
pub fn save_smart_result_stmt(device_detail: &BlockDevice, smart_passed: bool) -> (res: Result<String, BynarError>)
    ensures
        device_detail.device_database_id matches Some(id) ==> (res matches Ok(s) && s@ == save_smart_sql(
            id as nat,
            smart_passed,
        )),
        device_detail.device_database_id is None ==> (res matches Err(BynarError::Error(m)) && m@
            == not_in_db_error(*device_detail, true)),
{
    match device_detail.device_database_id {
        Some(id) => {
            let mut s = String::from_str("UPDATE disks SET smart_passed = ");
            push_bool(&mut s, smart_passed);
            s.append(" WHERE disk_id=");
            push_u64(&mut s, id as u64);
            proof {
                reveal_strlit("UPDATE disks SET smart_passed = ");
                reveal_strlit(" WHERE disk_id=");
                reveal_strlit("UPDATE ");
                reveal_strlit("disks");
                reveal_strlit(" SET ");
                reveal_strlit("smart_passed");
                reveal_strlit(" = ");
                reveal_strlit(" WHERE ");
                reveal_strlit("disk_id");
                reveal_strlit("=");
                assert(s@ =~= save_smart_sql(id as nat, smart_passed));
            }
            Ok(s)
        },
        None => Err(not_in_db(device_detail, true)),
    }
}

/// An update that touched other than exactly one row is rolled back.
pub fn check_single_row_update(rows: u64) -> (res: Result<(), BynarError>)
    ensures
        rows == 1 ==> res is Ok,
        rows != 1 ==> (res matches Err(BynarError::Error(m)) && m@
            == "Attempt to update more than one device in database. Rolling back."@),
{
    if rows != 1 {
        Err(BynarError::from_str_msg("Attempt to update more than one device in database. Rolling back."))
    } else {
        Ok(())
    }
}

/// The query for a device's saved state; a device not in the database is
/// an error. It reads the `state` column of the `disks` row with the
/// device's `disk_id`, the row `save_state_stmt` writes, so a saved state
/// reads back (a query of a `devices` table by `device_id` would not see it).
pub fn get_state_stmt(device_detail: &BlockDevice) -> (res: Result<String, BynarError>)
    ensures
        device_detail.device_database_id matches Some(id) ==> (res matches Ok(s) && s@ == get_state_sql(
            id as nat,
        )),
        device_detail.device_database_id is None ==> (res matches Err(BynarError::Error(m)) && m@
            == not_in_db_error(*device_detail, false)),
{
    match device_detail.device_database_id {
        Some(id) => {
            let mut s = String::from_str("SELECT state FROM disks WHERE disk_id = ");
            push_u64(&mut s, id as u64);
            proof {
                reveal_strlit("SELECT state FROM disks WHERE disk_id = ");
                reveal_strlit("SELECT ");
                reveal_strlit("state");
                reveal_strlit(" FROM ");
                reveal_strlit("disks");
                reveal_strlit(" WHERE ");
                reveal_strlit("disk_id");
                reveal_strlit(" = ");
                assert(s@ =~= get_state_sql(id as nat));
            }
            Ok(s)
        },
        None => Err(not_in_db(device_detail, false)),
    }
}

/// The saved state read from the rows the query returned: a single row's
/// state when it reads as one, else `Unscanned`.
pub open spec fn state_from_rows(rows: Seq<Seq<char>>) -> State {
    if rows.len() != 1 {
        State::Unscanned
    } else {
        match parse_state(rows[0]) {
            Some(s) => s,
            None => State::Unscanned,
        }
    }
}

/// The saved state read from the rows the query returned.
pub fn get_state(rows: &Vec<String>) -> (res: State)
    ensures
        res == state_from_rows(rows@.map_values(|r: String| r@)),
{
    if rows.len() != 1 {
        State::Unscanned
    } else {
        match State::from_str(rows[0].as_str()) {
            Ok(s) => s,
            Err(_) => State::Unscanned,
        }
    }
}

/// The query for whether a device passed its SMART checks; a device not in
/// the database is an error. It reads the `disks` row by `disk_id`, the row
/// `save_smart_result_stmt` writes, so a saved result reads back.
pub fn get_smart_result_stmt(device_detail: &BlockDevice) -> (res: Result<String, BynarError>)
    ensures
        device_detail.device_database_id matches Some(id) ==> (res matches Ok(s) && s@ == get_smart_sql(
            id as nat,
        )),
        device_detail.device_database_id is None ==> (res matches Err(BynarError::Error(m)) && m@
            == not_in_db_error(*device_detail, false)),
{
    match device_detail.device_database_id {
        Some(id) => {
            let mut s = String::from_str("SELECT smart_passed FROM disks WHERE disk_id = ");
            push_u64(&mut s, id as u64);
            proof {
                reveal_strlit("SELECT smart_passed FROM disks WHERE disk_id = ");
                reveal_strlit("SELECT ");
                reveal_strlit("smart_passed");
                reveal_strlit(" FROM ");
                reveal_strlit("disks");
                reveal_strlit(" WHERE ");
                reveal_strlit("disk_id");
                reveal_strlit(" = ");
                assert(s@ =~= get_smart_sql(id as nat));
            }
            Ok(s)
        },
        None => Err(not_in_db(device_detail, false)),
    }
}

/// Whether the device passed its SMART checks, from the rows the query
/// returned: a single row's value, else `false`.
pub fn get_smart_result(rows: &Vec<bool>) -> (res: bool)
    ensures
        res == (rows@.len() == 1 && rows@[0]),
{
    if rows.len() != 1 {
        false
    } else {
        rows[0]
    }
}


/// A saved state reads back: its statement and the query address the same
/// column of the same row, and the text written reads as the state saved
/// (the two states whose names do not read back as a state excepted).
pub proof fn lemma_saved_state_reads_back(id: nat, state: State)
    requires
        state != State::NotMounted,
        state != State::WriteFailed,
    ensures
        save_state_sql(id, state) == update_sql("disks"@, "state"@, sql_quoted(state_name(state)), "disk_id"@, id),
        get_state_sql(id) == select_sql("disks"@, "state"@, "disk_id"@, id),
        state_from_rows(seq![state_name(state)]) == state,
{
    lemma_state_name_roundtrip(state);
}

/// A saved SMART result reads back: its statement and the query address the
/// same column of the same row.
pub proof fn lemma_saved_smart_result_reads_back(id: nat, passed: bool)
    ensures
        save_smart_sql(id, passed) == update_sql("disks"@, "smart_passed"@, bool_text(passed), "disk_id"@, id),
        get_smart_sql(id) == select_sql("disks"@, "smart_passed"@, "disk_id"@, id),
{
}

/// The query for this process's entry in the process manager.
pub open spec fn process_select_stmt(pid: u32, ip: Seq<char>) -> Seq<char> {
    "SELECT entry_id FROM process_manager WHERE\n    pid="@ + decimal(pid as nat) + " AND ip='"@ + ip + "'"@
}

/// The statement marking this process idle.
pub open spec fn process_update_stmt(pid: u32, ip: Seq<char>) -> Seq<char> {
    "UPDATE process_manager SET status='idle'\n           WHERE pid="@ + decimal(pid as nat) + " AND ip='"@ + ip
        + "'"@
}

/// The query for this process's entry after marking it idle.
pub open spec fn process_reselect_stmt(pid: u32, ip: Seq<char>) -> Seq<char> {
    "SELECT entry_id FROM process_manager WHERE pid\n        = "@ + decimal(pid as nat) + " AND ip = '"@ + ip
        + "'"@
}

/// The statement registering this process, returning its entry id.
pub open spec fn process_insert_stmt(pid: u32, ip: Seq<char>) -> Seq<char> {
    "INSERT INTO process_manager (pid, ip, status)\n                            VALUES ("@ + decimal(pid as nat)
        + ", '"@ + ip + "', 'idle') RETURNING entry_id"@
}

/// A statement naming a process: the text before the pid, between pid and
/// ip, and after the ip.
fn pid_ip_stmt(before: &str, pid: u32, middle: &str, ip: &str, after: &str) -> (res: String)
    ensures
        res@ == before@ + decimal(pid as nat) + middle@ + ip@ + after@,
{
    let mut s = String::from_str(before);
    push_u64(&mut s, pid as u64);
    s.append(middle);
    s.append(ip);
    s.append(after);
    s
}

/// The statements of registering this process in the process manager: the
/// first query, then either the idle update and the second query (when the
/// process was found) or the insert.
pub fn register_to_process_manager_stmts(pid: u32, ip: &str) -> (res: (String, String, String, String))
    ensures
        res.0@ == process_select_stmt(pid, ip@),
        res.1@ == process_update_stmt(pid, ip@),
        res.2@ == process_reselect_stmt(pid, ip@),
        res.3@ == process_insert_stmt(pid, ip@),
{
    (
        pid_ip_stmt("SELECT entry_id FROM process_manager WHERE\n    pid=", pid, " AND ip='", ip, "'"),
        pid_ip_stmt(
            "UPDATE process_manager SET status='idle'\n           WHERE pid=",
            pid,
            " AND ip='",
            ip,
            "'",
        ),
        pid_ip_stmt("SELECT entry_id FROM process_manager WHERE pid\n        = ", pid, " AND ip = '", ip, "'"),
        pid_ip_stmt(
            "INSERT INTO process_manager (pid, ip, status)\n                            VALUES (",
            pid,
            ", '",
            ip,
            "', 'idle') RETURNING entry_id",
        ),
    )
}

/// An id the database returned, 0 when no row came back.
pub fn id_from_row(returned_id: Option<i32>) -> (res: u32)
    ensures
        returned_id matches Some(id) ==> res == id as u32,
        returned_id is None ==> res == 0,
{
    match returned_id {
        Some(id) => id as u32,
        None => 0,
    }
}

/// The query for a region's id, and the insert returning a new one.
pub fn update_region_stmts(region: &str) -> (res: (String, String))
    ensures
        res.0@ == "SELECT region_id FROM regions WHERE region_name = '"@ + region@ + "'"@,
        res.1@ == "INSERT INTO regions (region_name)\n                            VALUES ('"@ + region@
            + "') RETURNING region_id"@,
{
    let q = crate::text::concat3("SELECT region_id FROM regions WHERE region_name = '", region, "'");
    let i = crate::text::concat3(
        "INSERT INTO regions (region_name)\n                            VALUES ('",
        region,
        "') RETURNING region_id",
    );
    (q, i)
}

/// The query for the id of the host's storage kind.
pub fn storage_type_stmt(host: &crate::host::Host) -> (res: String)
    ensures
        res@ == "SELECT storage_id FROM storage_types WHERE storage_type='"@
            + crate::host::storage_type_name(host.storage_type) + "'"@,
{
    let name = host.storage_type.to_string();
    crate::text::concat3("SELECT storage_id FROM storage_types WHERE storage_type='", name.as_str(), "'")
}

/// The query for the host's storage details.
pub fn storage_details_select_stmt(storage_id: u32, region_id: u32, host: &crate::host::Host) -> (res: String)
    ensures
        res@ == "SELECT detail_id FROM storage_details WHERE storage_id = "@ + decimal(storage_id as nat)
            + "\n            AND region_id = "@ + decimal(region_id as nat) + " AND hostname = '"@
            + host.hostname@ + "'"@,
{
    let mut s = String::from_str("SELECT detail_id FROM storage_details WHERE storage_id = ");
    push_u64(&mut s, storage_id as u64);
    s.append("\n            AND region_id = ");
    push_u64(&mut s, region_id as u64);
    s.append(" AND hostname = '");
    s.append(host.hostname.as_str());
    s.append("'");
    s
}

/// The optional text `prefix + value + suffix`.
pub open spec fn quoted_part(v: Option<String>) -> Seq<char> {
    match v {
        Some(s) => ", '"@ + s@ + "'"@,
        None => Seq::empty(),
    }
}

/// The insert recording the host's storage details, returning their id.
pub open spec fn storage_details_insert(storage_id: u32, region_id: u32, host: crate::host::Host) -> Seq<char> {
    "INSERT INTO storage_details\n            (storage_id, region_id, hostname"@ + (if host.array_name is Some {
        ", name_key1"@
    } else {
        Seq::empty()
    }) + (if host.pool_name is Some {
        ", name_key2"@
    } else {
        Seq::empty()
    }) + ") VALUES ("@ + decimal(storage_id as nat) + ", "@ + decimal(region_id as nat) + ", '"@
        + host.hostname@ + "'"@ + quoted_part(host.array_name) + quoted_part(host.pool_name)
        + ") RETURNING detail_id"@
}

fn push_quoted(s: &mut String, v: &Option<String>)
    ensures
        final(s)@ == old(s)@ + quoted_part(*v),
{
    match v {
        Some(x) => {
            s.append(", '");
            s.append(x.as_str());
            s.append("'");
        },
        None => {},
    }
}

/// The insert recording the host's storage details.
pub fn storage_details_insert_stmt(storage_id: u32, region_id: u32, host: &crate::host::Host) -> (res: String)
    ensures
        res@ == storage_details_insert(storage_id, region_id, *host),
{
    let mut s = String::from_str("INSERT INTO storage_details\n            (storage_id, region_id, hostname");
    if host.array_name.is_some() {
        s.append(", name_key1");
    }
    if host.pool_name.is_some() {
        s.append(", name_key2");
    }
    s.append(") VALUES (");
    push_u64(&mut s, storage_id as u64);
    s.append(", ");
    push_u64(&mut s, region_id as u64);
    s.append(", '");
    s.append(host.hostname.as_str());
    s.append("'");
    push_quoted(&mut s, &host.array_name);
    push_quoted(&mut s, &host.pool_name);
    s.append(") RETURNING detail_id");
    proof {
        reveal_strlit("");
    }
    assert(s@ =~= storage_details_insert(storage_id, region_id, *host));
    s
}

/// The statement removing this process's entry from the process manager.
pub open spec fn process_delete_stmt(pid: u32, ip: Seq<char>) -> Seq<char> {
    "DELETE FROM process_manager WHERE pid="@ + decimal(pid as nat) + " AND ip='"@ + ip + "'"@
}

/// The statement with which the daemon removes its own entry, the one the
/// registration statements name, from the process manager when it exits.
pub fn deregister_from_process_manager(pid: u32, ip: &str) -> (res: String)
    ensures
        res@ == process_delete_stmt(pid, ip@),
{
    pid_ip_stmt("DELETE FROM process_manager WHERE pid=", pid, " AND ip='", ip, "'")
}

/// The id a query's returned row gives: 0 when no row came back.
pub open spec fn row_id(returned_id: Option<i32>) -> u32 {
    match returned_id {
        Some(id) => id as u32,
        None => 0,
    }
}

/// The statement recording this host runs next.
#[derive(Debug, Clone, Copy, PartialEq, Eq, Structural)]
pub enum RegisterStep {
    /// Look for this process's entry.
    SelectProcess,
    /// Mark the entry found idle.
    UpdateProcess,
    /// Read the entry's id again.
    ReselectProcess,
    /// Add an entry for this process.
    InsertProcess,
    /// Look for the host's region.
    SelectRegion,
    /// Add the region.
    InsertRegion,
    /// Look for the host's storage type.
    SelectStorageType,
    /// Look for the host's storage details, of the storage type given.
    SelectStorageDetail(u32),
    /// Add the host's storage details, of the storage type given.
    InsertStorageDetail(u32),
    /// Nothing is left to run.
    Done,
}

/// Recording this host in the database: the statement to run next and the
/// ids found so far (0 while unknown).
#[derive(Debug, Clone, Copy, PartialEq, Eq, Structural)]
pub struct Registration {
    pub step: RegisterStep,
    pub entry_id: u32,
    pub region_id: u32,
    pub storage_detail_id: u32,
}

/// Where recording the host goes once the statement of the current step
/// answered `answer`, the id of the row it returned (none for a statement
/// that returns no row): an entry found is marked idle and read again, else
/// added; a region not found is added; storage details not found are added
/// under the storage type found, and without a storage type the details
/// stay unknown.
pub open spec fn registration_next(r: Registration, answer: Option<i32>) -> Registration {
    match r.step {
        RegisterStep::SelectProcess => if answer is Some {
            Registration { step: RegisterStep::UpdateProcess, ..r }
        } else {
            Registration { step: RegisterStep::InsertProcess, ..r }
        },
        RegisterStep::UpdateProcess => Registration { step: RegisterStep::ReselectProcess, ..r },
        RegisterStep::ReselectProcess => Registration { step: RegisterStep::SelectRegion, entry_id: row_id(answer), ..r },
        RegisterStep::InsertProcess => Registration { step: RegisterStep::SelectRegion, entry_id: row_id(answer), ..r },
        RegisterStep::SelectRegion => if answer is Some {
            Registration { step: RegisterStep::SelectStorageType, region_id: row_id(answer), ..r }
        } else {
            Registration { step: RegisterStep::InsertRegion, ..r }
        },
        RegisterStep::InsertRegion => Registration { step: RegisterStep::SelectStorageType, region_id: row_id(answer), ..r },
        RegisterStep::SelectStorageType => if answer is Some {
            Registration { step: RegisterStep::SelectStorageDetail(row_id(answer)), ..r }
        } else {
            Registration { step: RegisterStep::Done, storage_detail_id: 0, ..r }
        },
        RegisterStep::SelectStorageDetail(sid) => if answer is Some {
            Registration { step: RegisterStep::Done, storage_detail_id: row_id(answer), ..r }
        } else {
            Registration { step: RegisterStep::InsertStorageDetail(sid), ..r }
        },
        RegisterStep::InsertStorageDetail(_) => Registration {
            step: RegisterStep::Done,
            storage_detail_id: row_id(answer),
            ..r
        },
        RegisterStep::Done => r,
    }
}

impl Registration {
    /// The start: look for this process's entry, no id known.
    pub fn start() -> (res: Registration)
        ensures
            res == (Registration { step: RegisterStep::SelectProcess, entry_id: 0, region_id: 0, storage_detail_id: 0 }),
    {
        Registration { step: RegisterStep::SelectProcess, entry_id: 0, region_id: 0, storage_detail_id: 0 }
    }

    /// The registration after the current step's statement answered `answer`.
    pub fn next(&self, answer: Option<i32>) -> (res: Registration)
        ensures
            res == registration_next(*self, answer),
    {
        let r = *self;
        match self.step {
            RegisterStep::SelectProcess => if answer.is_some() {
                Registration { step: RegisterStep::UpdateProcess, ..r }
            } else {
                Registration { step: RegisterStep::InsertProcess, ..r }
            },
            RegisterStep::UpdateProcess => Registration { step: RegisterStep::ReselectProcess, ..r },
            RegisterStep::ReselectProcess => Registration { step: RegisterStep::SelectRegion, entry_id: id_from_row(answer), ..r },
            RegisterStep::InsertProcess => Registration { step: RegisterStep::SelectRegion, entry_id: id_from_row(answer), ..r },
            RegisterStep::SelectRegion => if answer.is_some() {
                Registration { step: RegisterStep::SelectStorageType, region_id: id_from_row(answer), ..r }
            } else {
                Registration { step: RegisterStep::InsertRegion, ..r }
            },
            RegisterStep::InsertRegion => Registration { step: RegisterStep::SelectStorageType, region_id: id_from_row(answer), ..r },
            RegisterStep::SelectStorageType => if answer.is_some() {
                Registration { step: RegisterStep::SelectStorageDetail(id_from_row(answer)), ..r }
            } else {
                Registration { step: RegisterStep::Done, storage_detail_id: 0, ..r }
            },
            RegisterStep::SelectStorageDetail(sid) => if answer.is_some() {
                Registration { step: RegisterStep::Done, storage_detail_id: id_from_row(answer), ..r }
            } else {
                Registration { step: RegisterStep::InsertStorageDetail(sid), ..r }
            },
            RegisterStep::InsertStorageDetail(_) => Registration {
                step: RegisterStep::Done,
                storage_detail_id: id_from_row(answer),
                ..r
            },
            RegisterStep::Done => r,
        }
    }

    /// Whether every step recorded what it should: all three ids known.
    pub fn succeeded(&self) -> (res: bool)
        ensures
            res == (self.entry_id != 0 && self.region_id != 0 && self.storage_detail_id != 0),
    {
        self.entry_id != 0 && self.region_id != 0 && self.storage_detail_id != 0
    }
}

} // verus!
