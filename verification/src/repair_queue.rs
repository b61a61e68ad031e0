//! Bynar's side of the conversation with the disk manager: which disks to
//! ask to remove, when a queued request may be sent, and what a returned
//! result means for the message map.
use vstd::prelude::*;
use std::collections::VecDeque;
use crate::error::BynarError;
use crate::disk_state::State;
use crate::device::{BlockDevice, Vendor};
use crate::ops::{Op, OpOutcome, ResultType, Operation, OpOutcomeResult, DiskOp, outcome_of, value_of};
use crate::message_map::{MessageMap, map_op, op_finished};
use crate::text::{concat2, concat3, u64_to_string, decimal, opt_view, str_eq};

verus! {

/// A queued request: the request, the ticket description (or, for an Add,
/// the ticket id) and the database id of the operation.
pub type QueuedRequest = (Operation, Option<String>, Option<u32>);

/// Whether a disk found waiting for replacement should be asked to be
/// removed: not while a SafeToRemove or Remove request runs on it, nor
/// while its repair is already in progress.
pub open spec fn replacement_candidate(state: State, current: Option<DiskOp>, in_progress: bool) -> bool {
    state == State::WaitingForReplacement && match current {
        Some(op) => !(op.op_type == Op::SafeToRemove || op.op_type == Op::Remove || in_progress),
        None => true,
    }
}

/// Whether a disk should be asked to be removed. `in_progress` is read only
/// when a request is running on the disk.
pub fn is_replacement_candidate(state: State, current: &Option<DiskOp>, in_progress: bool) -> (res: bool)
    ensures
        res == replacement_candidate(state, *current, in_progress),
{
    if state != State::WaitingForReplacement {
        return false;
    }
    match current {
        Some(op) => !(op.op_type == Op::SafeToRemove || op.op_type == Op::Remove || in_progress),
        None => true,
    }
}

/// Two queued requests are the same request.
pub open spec fn same_request(a: QueuedRequest, b: QueuedRequest) -> bool {
    &&& a.0.op_type == b.0.op_type
    &&& a.0.disk@ == b.0.disk@
    &&& a.0.osd_id == b.0.osd_id
    &&& a.0.simulate == b.0.simulate
    &&& opt_view(a.1) == opt_view(b.1)
    &&& a.2 == b.2
}

fn opt_str_eq(a: &Option<String>, b: &Option<String>) -> (res: bool)
    ensures
        res == (opt_view(*a) == opt_view(*b)),
{
    match (a, b) {
        (Some(x), Some(y)) => str_eq(x.as_str(), y.as_str()),
        (None, None) => true,
        _ => false,
    }
}

/// Whether two queued requests are the same.
pub fn is_same_request(a: &QueuedRequest, b: &QueuedRequest) -> (res: bool)
    ensures
        res == same_request(*a, *b),
{
    a.0.op_type == b.0.op_type && str_eq(a.0.disk.as_str(), b.0.disk.as_str()) && a.0.osd_id
        == b.0.osd_id && a.0.simulate == b.0.simulate && opt_str_eq(&a.1, &b.1) && a.2 == b.2
}

/// Whether the queue holds a request the same as `r`.
pub open spec fn queue_has(q: Seq<QueuedRequest>, r: QueuedRequest) -> bool {
    exists|i: int| 0 <= i < q.len() && same_request(#[trigger] q[i], r)
}

fn queue_contains(queue: &VecDeque<QueuedRequest>, r: &QueuedRequest) -> (res: bool)
    ensures
        res == queue_has(queue@, *r),
{
    let mut i: usize = 0;
    while i < queue.len()
        invariant
            i <= queue@.len(),
            forall|j: int| 0 <= j < i ==> !same_request(#[trigger] queue@[j], *r),
        decreases queue@.len() - i,
    {
        if is_same_request(&queue[i], r) {
            return true;
        }
        i = i + 1;
    }
    false
}

/// Whether `r` is the request of kind `t` queued to remove `dev_path`.
pub open spec fn is_removal_request(
    r: QueuedRequest,
    t: Op,
    dev_path: Seq<char>,
    description: Seq<char>,
    op_id: u32,
) -> bool {
    &&& r.0.op_type == t
    &&& r.0.disk@ == dev_path
    &&& r.0.osd_id is None
    &&& r.0.simulate is None
    &&& opt_view(r.1) == Some(description)
    &&& r.2 == Some(op_id)
}

/// Whether a removal request for `dev_path` is queued already.
pub open spec fn removal_queued(q: Seq<QueuedRequest>, dev_path: Seq<char>, description: Seq<char>, op_id: u32) -> bool {
    exists|i: int|
        0 <= i < q.len() && (is_removal_request(#[trigger] q[i], Op::SafeToRemove, dev_path, description, op_id)
            || is_removal_request(q[i], Op::Remove, dev_path, description, op_id))
}

/// The operation id recorded, 0 when none was.
pub open spec fn op_id_or_zero(operation_id: Option<u32>) -> u32 {
    match operation_id {
        Some(i) => i,
        None => 0,
    }
}

/// Queue a SafeToRemove request and then a Remove request for `dev_path`,
/// both carrying `description` and the operation id (0 when none was
/// recorded), unless either is queued already.
pub fn queue_removal(
    queue: &mut VecDeque<QueuedRequest>,
    dev_path: &str,
    description: String,
    operation_id: Option<u32>,
)
    ensures
        removal_queued(old(queue)@, dev_path@, description@, op_id_or_zero(operation_id))
            ==> final(queue)@ == old(queue)@,
        !removal_queued(old(queue)@, dev_path@, description@, op_id_or_zero(operation_id)) ==> {
            &&& final(queue)@.len() == old(queue)@.len() + 2
            &&& final(queue)@.take(old(queue)@.len() as int) == old(queue)@
            &&& is_removal_request(
                final(queue)@[old(queue)@.len() as int],
                Op::SafeToRemove,
                dev_path@,
                description@,
                op_id_or_zero(operation_id),
            )
            &&& is_removal_request(
                final(queue)@[old(queue)@.len() as int + 1],
                Op::Remove,
                dev_path@,
                description@,
                op_id_or_zero(operation_id),
            )
        },
{
    let op_id: u32 = match operation_id {
        Some(i) => i,
        None => 0,
    };
    let first: QueuedRequest = (
        Operation::new(Op::SafeToRemove, String::from_str(dev_path)),
        Some(description.clone()),
        Some(op_id),
    );
    let second: QueuedRequest = (
        Operation::new(Op::Remove, String::from_str(dev_path)),
        Some(description),
        Some(op_id),
    );
    let has_first = queue_contains(queue, &first);
    let has_second = queue_contains(queue, &second);
    let ghost q0 = queue@;
    proof {
        let dv = dev_path@;
        let ds = description@;
        if removal_queued(q0, dv, ds, op_id) {
            let i = choose|i: int|
                0 <= i < q0.len() && (is_removal_request(#[trigger] q0[i], Op::SafeToRemove, dv, ds, op_id)
                    || is_removal_request(q0[i], Op::Remove, dv, ds, op_id));
            if is_removal_request(q0[i], Op::SafeToRemove, dv, ds, op_id) {
                assert(same_request(q0[i], first));
            } else {
                assert(same_request(q0[i], second));
            }
        }
        if has_first {
            let i = choose|i: int| 0 <= i < q0.len() && same_request(#[trigger] q0[i], first);
            assert(is_removal_request(q0[i], Op::SafeToRemove, dv, ds, op_id));
        }
        if has_second {
            let i = choose|i: int| 0 <= i < q0.len() && same_request(#[trigger] q0[i], second);
            assert(is_removal_request(q0[i], Op::Remove, dv, ds, op_id));
        }
    }
    if !has_first && !has_second {
        queue.push_back(first);
        queue.push_back(second);
        assert(queue@.take(q0.len() as int) =~= q0);
    }
}


/// What to do with the request at the front of the queue.
#[derive(Debug, Clone, Copy, PartialEq, Eq, Structural)]
pub enum QueueAction {
    /// Send it to the disk manager and record it in the message map
    Send,
    /// The earlier request on the disk has not come back: queue it again
    Requeue,
    /// Drop it: a Remove whose SafeToRemove did not find the disk safe to remove
    Drop,
}

/// What to do with a queued request, given the request running on its path.
pub open spec fn queue_action(request: Operation, current: Option<DiskOp>) -> QueueAction {
    match current {
        Some(op) => match op.ret_val {
            Some(val) => {
                if request.op_type == Op::Remove {
                    if outcome_of(val) == OpOutcome::Success && value_of(val) {
                        QueueAction::Send
                    } else {
                        QueueAction::Drop
                    }
                } else {
                    QueueAction::Send
                }
            },
            None => QueueAction::Requeue,
        },
        None => QueueAction::Send,
    }
}

/// Decide what to do with the request at the front of the queue.
pub fn next_queue_action(request: &Operation, current: &Option<DiskOp>) -> (res: QueueAction)
    ensures
        res == queue_action(*request, *current),
{
    match current {
        Some(op) => match &op.ret_val {
            Some(val) => {
                if request.op_type == Op::Remove {
                    if val.get_outcome() == OpOutcome::Success && val.get_value() {
                        QueueAction::Send
                    } else {
                        QueueAction::Drop
                    }
                } else {
                    QueueAction::Send
                }
            },
            None => QueueAction::Requeue,
        },
        None => QueueAction::Send,
    }
}

/// The name a vendor is printed with.
pub open spec fn vendor_name(v: Vendor) -> Seq<char> {
    match v {
        Vendor::Ata => "None"@,
        Vendor::Cisco => "Cisco"@,
        Vendor::Hp => "Hp"@,
        Vendor::Lsi => "Lsi"@,
        Vendor::Qemu => "Qemu"@,
        Vendor::Vbox => "Vbox"@,
        Vendor::NECVMWar => "NECVMWar"@,
        Vendor::VMware => "VMware"@,
    }
}

/// The name of a vendor.
pub fn vendor_debug_name(v: Vendor) -> (res: &'static str)
    ensures
        res@ == vendor_name(v),
{
    match v {
        Vendor::Ata => "None",
        Vendor::Cisco => "Cisco",
        Vendor::Hp => "Hp",
        Vendor::Lsi => "Lsi",
        Vendor::Qemu => "Qemu",
        Vendor::Vbox => "Vbox",
        Vendor::NECVMWar => "NECVMWar",
        Vendor::VMware => "VMware",
    }
}

/// The lines a ticket description gets for a disk.
pub open spec fn disk_description(dev_path: Seq<char>, b: BlockDevice) -> Seq<char> {
    "\nDisk path: "@ + dev_path + match b.device.serial_number {
        Some(serial) => "\nDisk serial: "@ + serial@,
        None => Seq::empty(),
    } + "\nSCSI host: "@ + b.scsi_info.host@ + ", channel: "@ + decimal(b.scsi_info.channel as nat)
        + " id: "@ + decimal(b.scsi_info.id as nat) + " lun: "@ + decimal(b.scsi_info.lun as nat)
        + "\nDisk vendor: "@ + vendor_name(b.scsi_info.vendor)
}

/// Add the disk's path, serial number, SCSI address and vendor to a ticket
/// description.
pub fn add_disk_to_description(description: &mut String, dev_path: &str, block_device: &BlockDevice)
    ensures
        final(description)@ == old(description)@ + disk_description(dev_path@, *block_device),
{
    let ghost d0 = description@;
    description.append("\nDisk path: ");
    description.append(dev_path);
    let ghost d1 = description@;
    match &block_device.device.serial_number {
        Some(serial) => {
            description.append("\nDisk serial: ");
            description.append(serial.as_str());
        },
        None => {},
    }
    let ghost d2 = description@;
    let scsi = &block_device.scsi_info;
    description.append("\nSCSI host: ");
    description.append(scsi.host.as_str());
    description.append(", channel: ");
    let channel = u64_to_string(scsi.channel as u64);
    description.append(channel.as_str());
    description.append(" id: ");
    let id = u64_to_string(scsi.id as u64);
    description.append(id.as_str());
    description.append(" lun: ");
    let lun = u64_to_string(scsi.lun as u64);
    description.append(lun.as_str());
    description.append("\nDisk vendor: ");
    description.append(vendor_debug_name(scsi.vendor));
    assert(description@ =~= d0 + disk_description(dev_path@, *block_device));
}

/// Whether an Add result lets the ticket be marked resolved in the
/// database: not when another request was running on the disk.
pub open spec fn add_result_resolves_ticket(outcome: OpOutcomeResult) -> bool {
    match outcome_of(outcome) {
        OpOutcome::SkipRepeat => outcome.value is None,
        _ => true,
    }
}

/// Whether an Add result lets the ticket be marked resolved.
pub fn handle_add_disk_res(outcome: &OpOutcomeResult) -> (res: bool)
    ensures
        res == add_result_resolves_ticket(*outcome),
{
    match outcome.get_outcome() {
        OpOutcome::SkipRepeat => !outcome.has_value(),
        _ => true,
    }
}

/// The notice sent about a Remove result.
pub open spec fn remove_notice(dev_path: Seq<char>, hostname: Seq<char>, outcome: OpOutcomeResult) -> Seq<char> {
    match outcome_of(outcome) {
        OpOutcome::Success => "Disk "@ + dev_path + " on host "@ + hostname + " removal successful"@,
        OpOutcome::Skipped => "Disk "@ + dev_path + " on host "@ + hostname
            + " skipped, disk is not removable"@,
        OpOutcome::SkipRepeat => {
            if outcome.value is Some {
                "Disk "@ + dev_path + " on host "@ + hostname
                    + " currently undergoing another operation, skipping"@
            } else {
                "Disk "@ + dev_path + " on host "@ + hostname + " already removed, skipping."@
            }
        },
    }
}

/// The notice to send about a Remove result.
pub fn remove_outcome_notice(dev_path: &str, hostname: &str, outcome: &OpOutcomeResult) -> (res: String)
    ensures
        res@ == remove_notice(dev_path@, hostname@, *outcome),
{
    let head = concat3("Disk ", dev_path, " on host ");
    let head = head.concat(hostname);
    match outcome.get_outcome() {
        OpOutcome::Success => head.concat(" removal successful"),
        OpOutcome::Skipped => head.concat(" skipped, disk is not removable"),
        OpOutcome::SkipRepeat => {
            if outcome.has_value() {
                head.concat(" currently undergoing another operation, skipping")
            } else {
                head.concat(" already removed, skipping.")
            }
        },
    }
}

/// What follows a handled result.
pub struct ResultFollowUp {
    /// The ticket id to mark resolved in the database, after an Add
    pub resolve_ticket: Option<String>,
    /// A notice for Slack
    pub notice: Option<String>,
    /// Every request on the disk has finished: open a ticket for it
    pub open_ticket: bool,
}

/// A disk whose requests have all finished gets a ticket: the notice sent
/// then, for a SafeToRemove and for a Remove result.
pub open spec fn finished_notice(op_type: Op, dev_path: Seq<char>, hostname: Seq<char>) -> Seq<char> {
    if op_type == Op::SafeToRemove {
        "Need to remove disk "@ + dev_path + " but it's not safe on host: "@ + hostname
            + ". I need a human.  Filing a ticket"@
    } else {
        "Filing a ticket for Host: "@ + hostname + ". Drive "@ + dev_path + " needs removal"@
    }
}

/// Every request on disk `parent` of `m` has come back finished.
pub open spec fn disk_finished(m: Map<Seq<char>, Map<Seq<char>, Option<DiskOp>>>, parent: Seq<char>) -> bool {
    forall|k: Seq<char>| #[trigger] m[parent].dom().contains(k) ==> op_finished(m[parent][k])
}

/// Handle a result that came back for path `dev_path` of disk `parent`:
/// - a failed Add is an error carrying its message;
/// - an Add clears its request, and names the ticket to resolve when the
///   result allows it; an Add with no request or no ticket id is an error;
/// - a SafeToRemove or Remove stores its result with the request, and once
///   every request on the disk has finished asks for a ticket;
/// - any other request could not have been made, and is an error.
pub fn handle_operation_result(
    map: &mut MessageMap,
    parent: &str,
    dev_path: &str,
    hostname: &str,
    op_res: OpOutcomeResult,
) -> (res: Result<ResultFollowUp, BynarError>)
    requires
        old(map).wf(),
    ensures
        final(map).wf(),
        ({
            let m = old(map)@;
            let cur = map_op(m, parent@, dev_path@);
            let failed = op_res.result == ResultType::ERR && op_res.error_msg is Some;
            if op_res.op_type == Op::Add {
                if failed {
                    res matches Err(BynarError::Error(e)) && e@ == op_res.error_msg.unwrap()@
                        && final(map)@ == m
                } else if cur matches Some(o) && o.description is Some {
                    res matches Ok(f) && f.notice is None && !f.open_ticket && (if add_result_resolves_ticket(op_res) {
                        opt_view(f.resolve_ticket) == opt_view(cur.unwrap().description)
                    } else {
                        f.resolve_ticket is None
                    }) && final(map)@ == m.insert(parent@, m[parent@].insert(dev_path@, None))
                } else {
                    res matches Err(BynarError::Error(e)) && e@
                        == "Unable to get current operation in the map for "@ + dev_path@
                        && final(map)@ == m
                }
            } else if op_res.op_type == Op::SafeToRemove || op_res.op_type == Op::Remove {
                match cur {
                    Some(o) => {
                        let m2 = m.insert(
                            parent@,
                            m[parent@].insert(dev_path@, Some(DiskOp { ret_val: Some(op_res), ..o })),
                        );
                        &&& final(map)@ == m2
                        &&& res matches Ok(f)
                        &&& f.resolve_ticket is None
                        &&& f.open_ticket == disk_finished(m2, parent@)
                        &&& f.open_ticket ==> opt_view(f.notice) == Some(
                            finished_notice(op_res.op_type, dev_path@, hostname@),
                        )
                        &&& !f.open_ticket ==> f.notice is None
                    },
                    None => {
                        res matches Err(BynarError::Error(e)) && e@ == dev_path@ + " on host "@ + hostname@
                            + " does not have a currently running operation!"@ && final(map)@ == m
                    },
                }
            } else {
                res matches Err(BynarError::Error(e)) && e@ == op_res.disk@
                    + " could not have run this operation!"@ && final(map)@ == m
            }
        }),
{
    let failed = op_res.get_result() == ResultType::ERR && op_res.has_error_msg();
    let op_type = op_res.get_op_type();
    match op_type {
        Op::Add => {
            if failed {
                let msg = match &op_res.error_msg {
                    Some(m) => m.clone(),
                    None => String::new(),
                };
                return Err(BynarError::Error(msg));
            }
            match map.get_map_op(parent, dev_path) {
                Some(disk_op) => {
                    match disk_op.description {
                        Some(ticket_id) => {
                            let resolve = if handle_add_disk_res(&op_res) {
                                Some(ticket_id)
                            } else {
                                None
                            };
                            let _ = map.remove_map_op(parent, dev_path);
                            return Ok(ResultFollowUp { resolve_ticket: resolve, notice: None, open_ticket: false });
                        },
                        None => {},
                    }
                },
                None => {},
            }
            Err(BynarError::Error(concat2("Unable to get current operation in the map for ", dev_path)))
        },
        Op::SafeToRemove | Op::Remove => {
            map.update_map_result(parent, dev_path, hostname, op_res)?;
            let all = match map.is_all_finished(parent, dev_path) {
                Ok(b) => b,
                Err(_) => false,
            };
            if all {
                let notice = if op_type == Op::SafeToRemove {
                    let n = concat3("Need to remove disk ", dev_path, " but it's not safe on host: ");
                    let n = n.concat(hostname);
                    n.concat(". I need a human.  Filing a ticket")
                } else {
                    let n = concat3("Filing a ticket for Host: ", hostname, ". Drive ");
                    let n = n.concat(dev_path);
                    n.concat(" needs removal")
                };
                Ok(ResultFollowUp { resolve_ticket: None, notice: Some(notice), open_ticket: true })
            } else {
                Ok(ResultFollowUp { resolve_ticket: None, notice: None, open_ticket: false })
            }
        },
        _ => Err(BynarError::Error(concat2(op_res.get_disk(), " could not have run this operation!"))),
    }
}

/// The description and operation id of the ticket to open for the disk
/// whose keys are `(parent, disk)`; a disk with no request, or a request
/// with no description, is an error. A missing operation id reads as 0.
pub fn ticket_details(map: &MessageMap, parent: &str, disk: &str, hostname: &str) -> (res: Result<(String, u32), BynarError>)
    requires
        map.wf(),
    ensures
        map_op(map@, parent@, disk@) matches Some(o) ==> (match o.description {
            Some(d) => res matches Ok(r) && r.0@ == d@ && r.1 == op_id_or_zero(o.operation_id),
            None => res matches Err(BynarError::Error(e)) && e@ == "Disk "@ + disk@ + " on host "@
                + hostname@ + " is missing a description"@,
        }),
        map_op(map@, parent@, disk@) is None ==> (res matches Err(BynarError::Error(e)) && e@
            == "Disk "@ + disk@ + " on host "@ + hostname@ + " is missing the current operation"@),
{
    match map.get_map_op(parent, disk) {
        Some(op) => {
            match op.description {
                Some(d) => {
                    let id: u32 = match op.operation_id {
                        Some(i) => i,
                        None => 0,
                    };
                    Ok((d, id))
                },
                None => {
                    let m = concat3("Disk ", disk, " on host ");
                    let m = m.concat(hostname);
                    Err(BynarError::Error(m.concat(" is missing a description")))
                },
            }
        },
        None => {
            let m = concat3("Disk ", disk, " on host ");
            let m = m.concat(hostname);
            Err(BynarError::Error(m.concat(" is missing the current operation")))
        },
    }
}


/// What a ticket's resolution date field holds.
#[derive(Debug, Clone, Copy, PartialEq, Eq, Structural)]
pub enum ResolutionField {
    /// The ticket has no such field
    Missing,
    /// The field is null
    Null,
    /// The field holds a date
    Date,
    /// The field holds anything else
    Other,
}

/// A ticket is resolved when its resolution date holds a date.
pub fn ticket_resolved(resolution: ResolutionField) -> (res: bool)
    ensures
        res == (resolution == ResolutionField::Date),
{
    match resolution {
        ResolutionField::Date => true,
        _ => false,
    }
}

/// Queue an Add request for the disk of a resolved repair ticket, carrying
/// the ticket id in place of a description.
pub fn queue_repaired_disk(
    queue: &mut VecDeque<QueuedRequest>,
    device_path: &str,
    ticket_id: &str,
    simulate: bool,
)
    ensures
        final(queue)@.len() == old(queue)@.len() + 1,
        final(queue)@.take(old(queue)@.len() as int) == old(queue)@,
        ({
            let r = final(queue)@[old(queue)@.len() as int];
            &&& r.0.op_type == Op::Add
            &&& r.0.disk@ == device_path@
            &&& r.0.osd_id is None
            &&& r.0.simulate == Some(simulate)
            &&& opt_view(r.1) == Some(ticket_id@)
            &&& r.2 is None
        }),
{
    let mut op = Operation::new(Op::Add, String::from_str(device_path));
    op.simulate = Some(simulate);
    let ghost q0 = queue@;
    queue.push_back((op, Some(String::from_str(ticket_id)), None));
    assert(queue@.take(q0.len() as int) =~= q0);
}

/// The positions, in order, of the paths that go with a disk being
/// replaced: those on the disk (`on_disk`) that are themselves candidates
/// for removal as a disk waiting for replacement (`candidate`).
pub open spec fn related_positions(on_disk: Seq<bool>, candidate: Seq<bool>, n: int) -> Seq<usize>
    decreases n,
{
    if n <= 0 {
        Seq::empty()
    } else {
        let before = related_positions(on_disk, candidate, n - 1);
        if on_disk[n - 1] && candidate[n - 1] {
            before.push((n - 1) as usize)
        } else {
            before
        }
    }
}

/// The other paths of a disk being replaced that go with it: of the
/// checked paths, in order, those on the disk that are not already being
/// removed. Position `j` of each list describes the `j`-th checked path.
pub fn related_paths(on_disk: &Vec<bool>, candidate: &Vec<bool>) -> (res: Vec<usize>)
    requires
        on_disk@.len() == candidate@.len(),
    ensures
        res@ == related_positions(on_disk@, candidate@, on_disk@.len() as int),
{
    let mut res: Vec<usize> = Vec::new();
    let mut j: usize = 0;
    while j < on_disk.len()
        invariant
            j <= on_disk@.len(),
            on_disk@.len() == candidate@.len(),
            res@ == related_positions(on_disk@, candidate@, j as int),
        decreases on_disk@.len() - j,
    {
        if on_disk[j] && candidate[j] {
            res.push(j);
        }
        j = j + 1;
    }
    res
}

} // verus!
