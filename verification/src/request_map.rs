//! The disk manager's request map: every device path with the kind of
//! request running on it, if any, so that no two requests run on one device.
use vstd::prelude::*;
use crate::error::{BynarError, bynar_error_text};
use crate::ops::{Op, OpOutcome, ResultType, Operation, OpOutcomeResult};
use crate::assoc::{
    keys_unique, has_key, assoc_view, lemma_assoc_dom, lemma_assoc_at, lemma_assoc_update,
    lemma_assoc_push, lemma_assoc_empty,
};
use crate::paths::{is_tracked_block_device, tracked_block_device};
use crate::message_map::path_views;
use crate::text::str_eq;

verus! {

/// Every device path with the kind of request running on it.
pub struct RequestMap {
    entries: Vec<(String, Option<Op>)>,
}

/// Whether a request of kind `op_type` about `disk` finds a request running
/// on its disk. List and GetCreatedTickets requests are about no disk: for
/// them the answer is `is_result`.
pub open spec fn op_running_spec(m: Map<Seq<char>, Option<Op>>, op_type: Op, disk: Seq<char>, is_result: bool) -> bool {
    if op_type == Op::List || op_type == Op::GetCreatedTickets {
        is_result
    } else {
        m.dom().contains(disk) && m[disk] is Some
    }
}

impl RequestMap {
    /// The entries as `(path, request kind)` pairs.
    pub closed spec fn pairs(&self) -> Seq<(Seq<char>, Option<Op>)> {
        self.entries@.map_values(|e: (String, Option<Op>)| (e.0@, e.1))
    }

    /// No path occurs twice.
    pub closed spec fn wf(&self) -> bool {
        keys_unique(self.pairs())
    }

    /// An empty map.
    pub fn new() -> (res: RequestMap)
        ensures
            res.wf(),
            res@ == Map::<Seq<char>, Option<Op>>::empty(),
    {
        let res = RequestMap { entries: Vec::new() };
        proof {
            assert(res.pairs() =~= Seq::<(Seq<char>, Option<Op>)>::empty());
            lemma_assoc_empty::<Option<Op>>();
        }
        res
    }

    fn find(&self, k: &str) -> (res: Option<usize>)
        ensures
            res matches Some(i) ==> i < self.entries@.len() && self.pairs()[i as int].0 == k@,
            res is None ==> !has_key(self.pairs(), k@),
    {
        let mut i: usize = 0;
        while i < self.entries.len()
            invariant
                i <= self.entries@.len(),
                forall|j: int| 0 <= j < i ==> self.pairs()[j].0 != k@,
            decreases self.entries@.len() - i,
        {
            if str_eq(self.entries[i].0.as_str(), k) {
                return Some(i);
            }
            i = i + 1;
        }
        proof {
            if has_key(self.pairs(), k@) {
                let j = choose|j: int| 0 <= j < self.pairs().len() && #[trigger] self.pairs()[j].0 == k@;
                assert(self.pairs()[j].0 != k@);
            }
        }
        None
    }

    /// The entry of `path`, if it has one.
    pub fn get(&self, path: &str) -> (res: Option<Option<Op>>)
        requires
            self.wf(),
        ensures
            self@.dom().contains(path@) ==> res == Some(self@[path@]),
            !self@.dom().contains(path@) ==> res is None,
    {
        proof {
            lemma_assoc_dom(self.pairs(), path@);
        }
        match self.find(path) {
            Some(i) => {
                proof {
                    lemma_assoc_at(self.pairs(), i as int);
                }
                Some(self.entries[i].1)
            },
            None => None,
        }
    }

    /// Set the entry of `path`.
    pub fn insert(&mut self, path: &str, op: Option<Op>)
        requires
            old(self).wf(),
        ensures
            final(self).wf(),
            final(self)@ == old(self)@.insert(path@, op),
    {
        let ghost s = self.pairs();
        match self.find(path) {
            Some(i) => {
                let key = self.entries[i].0.clone();
                self.entries.set(i, (key, op));
                proof {
                    lemma_assoc_update(s, i as int, op);
                    assert(self.pairs() =~= s.update(i as int, (s[i as int].0, op)));
                }
            },
            None => {
                self.entries.push((String::from_str(path), op));
                proof {
                    lemma_assoc_push(s, path@, op);
                    assert(self.pairs() =~= s.push((path@, op)));
                }
            },
        }
    }

    /// Whether a request of kind `op_type` about `disk` finds a request
    /// running on its disk (for a List or GetCreatedTickets request:
    /// `is_result`).
    pub fn op_running(&self, op_type: Op, disk: &str, is_result: bool) -> (res: bool)
        requires
            self.wf(),
        ensures
            res == op_running_spec(self@, op_type, disk@, is_result),
    {
        match op_type {
            Op::List | Op::GetCreatedTickets => is_result,
            _ => match self.get(disk) {
                Some(o) => o.is_some(),
                None => false,
            },
        }
    }

    /// Record that `op` is running on its disk; List and GetCreatedTickets
    /// requests are not recorded. The request must not find one running.
    pub fn op_insert(&mut self, op: &Operation)
        requires
            old(self).wf(),
            !op_running_spec(old(self)@, op.op_type, op.disk@, false),
        ensures
            final(self).wf(),
            op.op_type == Op::List || op.op_type == Op::GetCreatedTickets ==> final(self)@ == old(self)@,
            !(op.op_type == Op::List || op.op_type == Op::GetCreatedTickets) ==> final(self)@
                == old(self)@.insert(op.disk@, Some(op.op_type)),
            !(op.op_type == Op::List || op.op_type == Op::GetCreatedTickets) ==> op_running_spec(
                final(self)@,
                op.op_type,
                op.disk@,
                false,
            ),
    {
        match op.op_type {
            Op::List | Op::GetCreatedTickets => {},
            _ => {
                self.insert(op.disk.as_str(), Some(op.op_type));
            },
        }
    }
}

impl View for RequestMap {
    type V = Map<Seq<char>, Option<Op>>;

    closed spec fn view(&self) -> Map<Seq<char>, Option<Op>> {
        assoc_view(self.pairs())
    }
}

/// The request map of the tracked block devices and the partitions, none
/// with a request running.
pub fn create_req_map(devices: &Vec<String>, partitions: &Vec<String>) -> (res: RequestMap)
    ensures
        res.wf(),
        res@ == Map::new(
            |k: Seq<char>| (path_views(devices@).contains(k) && tracked_block_device(k)) || path_views(
                partitions@,
            ).contains(k),
            |k: Seq<char>| None::<Op>,
        ),
{
    let ghost devs = path_views(devices@);
    let ghost parts = path_views(partitions@);
    let mut map = RequestMap::new();
    let mut i: usize = 0;
    while i < devices.len()
        invariant
            map.wf(),
            i <= devices@.len(),
            devs == path_views(devices@),
            map@ == Map::new(
                |k: Seq<char>| exists|x: int| 0 <= x < i && #[trigger] devs[x] == k && tracked_block_device(k),
                |k: Seq<char>| None::<Op>,
            ),
        decreases devices@.len() - i,
    {
        let d = devices[i].as_str();
        if is_tracked_block_device(d) {
            map.insert(d, None);
        }
        proof {
            assert(devs[i as int] == d@);
            assert(map@ =~= Map::new(
                |k: Seq<char>| exists|x: int| 0 <= x < i + 1 && #[trigger] devs[x] == k && tracked_block_device(k),
                |k: Seq<char>| None::<Op>,
            ));
        }
        i = i + 1;
    }
    let mut j: usize = 0;
    while j < partitions.len()
        invariant
            map.wf(),
            j <= partitions@.len(),
            devs == path_views(devices@),
            parts == path_views(partitions@),
            map@ == Map::new(
                |k: Seq<char>| (exists|x: int| 0 <= x < devs.len() && #[trigger] devs[x] == k && tracked_block_device(k))
                    || exists|y: int| 0 <= y < j && #[trigger] parts[y] == k,
                |k: Seq<char>| None::<Op>,
            ),
        decreases partitions@.len() - j,
    {
        let p = partitions[j].as_str();
        map.insert(p, None);
        proof {
            assert(parts[j as int] == p@);
            assert(map@ =~= Map::new(
                |k: Seq<char>| (exists|x: int| 0 <= x < devs.len() && #[trigger] devs[x] == k && tracked_block_device(k))
                    || exists|y: int| 0 <= y < j + 1 && #[trigger] parts[y] == k,
                |k: Seq<char>| None::<Op>,
            ));
        }
        j = j + 1;
    }
    proof {
        assert(map@ =~= Map::new(
            |k: Seq<char>| (devs.contains(k) && tracked_block_device(k)) || parts.contains(k),
            |k: Seq<char>| None::<Op>,
        ));
    }
    map
}


/// Whether a request kind must name a disk.
pub open spec fn needs_disk(op_type: Op) -> bool {
    op_type == Op::Add || op_type == Op::AddPartition || op_type == Op::Remove || op_type
        == Op::SafeToRemove
}

/// The error answered to a request that names no disk.
pub open spec fn missing_disk_result(r: OpOutcomeResult) -> bool {
    &&& r.result == ResultType::ERR
    &&& r.error_msg matches Some(m) && m@ == "missing operation field in protocol. Ignoring request"@
    &&& r.outcome is None
    &&& r.value is None
    &&& r.disk@ == Seq::<char>::empty()
}

/// The answer to a request that must name a disk and names none; `None` for
/// any other request. The disk field is a plain string, unset when empty, so
/// a disk given as the empty string counts as none: such a request is
/// answered here rather than passed to the backend with an empty path.
pub fn op_no_disk(op: &Operation) -> (res: Option<OpOutcomeResult>)
    ensures
        op.disk@.len() == 0 && needs_disk(op.op_type) ==> (res matches Some(r) && missing_disk_result(r)),
        !(op.disk@.len() == 0 && needs_disk(op.op_type)) ==> res is None,
{
    if op.disk.as_str().unicode_len() == 0 {
        match op.op_type {
            Op::Add | Op::AddPartition | Op::Remove | Op::SafeToRemove => {
                let mut result = OpOutcomeResult::new(Op::Add, String::new());
                result.result = ResultType::ERR;
                result.error_msg = Some(
                    String::from_str("missing operation field in protocol. Ignoring request"),
                );
                Some(result)
            },
            _ => None,
        }
    } else {
        None
    }
}

/// What the disk manager does with an incoming request.
pub enum RequestDecision {
    /// Answer this error: the request names no disk
    Refuse(OpOutcomeResult),
    /// Answer this: a request is already running on the disk
    Skip(OpOutcomeResult),
    /// Queue the request; it is now recorded as running
    Queue,
}

/// The answer to a request that finds another running on its disk.
pub open spec fn skip_repeat_result(op: Operation, r: OpOutcomeResult) -> bool {
    &&& r.disk@ == op.disk@
    &&& r.op_type == op.op_type
    &&& r.result == ResultType::OK
    &&& r.outcome == Some(OpOutcome::SkipRepeat)
    &&& r.value == Some(false)
    &&& r.error_msg is None
}

impl RequestMap {
    /// Take an incoming request: refuse one that names no disk, skip one
    /// that finds a request running on its disk, and otherwise record it as
    /// running and queue it.
    pub fn accept_request(&mut self, op: &Operation) -> (res: RequestDecision)
        requires
            old(self).wf(),
        ensures
            final(self).wf(),
            op.disk@.len() == 0 && needs_disk(op.op_type) ==> (res matches RequestDecision::Refuse(r)
                && missing_disk_result(r)) && final(self)@ == old(self)@,
            !(op.disk@.len() == 0 && needs_disk(op.op_type)) && op_running_spec(
                old(self)@,
                op.op_type,
                op.disk@,
                false,
            ) ==> (res matches RequestDecision::Skip(r) && skip_repeat_result(*op, r)) && final(self)@
                == old(self)@,
            !(op.disk@.len() == 0 && needs_disk(op.op_type)) && !op_running_spec(
                old(self)@,
                op.op_type,
                op.disk@,
                false,
            ) ==> res is Queue && (if op.op_type == Op::List || op.op_type == Op::GetCreatedTickets {
                final(self)@ == old(self)@
            } else {
                final(self)@ == old(self)@.insert(op.disk@, Some(op.op_type))
            }),
    {
        match op_no_disk(op) {
            Some(r) => {
                return RequestDecision::Refuse(r);
            },
            None => {},
        }
        if self.op_running(op.op_type, op.disk.as_str(), false) {
            let mut r = OpOutcomeResult::new(op.op_type, op.disk.clone());
            r.outcome = Some(OpOutcome::SkipRepeat);
            r.value = Some(false);
            return RequestDecision::Skip(r);
        }
        self.op_insert(op);
        RequestDecision::Queue
    }

    /// A result is about to be sent back: its disk no longer has a request
    /// running. A result other than SkipRepeat must be for a running request.
    pub fn finish_request(&mut self, result: &OpOutcomeResult)
        requires
            old(self).wf(),
            result.outcome != Some(OpOutcome::SkipRepeat) ==> op_running_spec(
                old(self)@,
                result.op_type,
                result.disk@,
                true,
            ),
        ensures
            final(self).wf(),
            final(self)@ == old(self)@.insert(result.disk@, None),
    {
        self.insert(result.disk.as_str(), None);
    }
}

/// A request recorded as running makes every later request on the same
/// disk find it running, until its result is sent back.
pub proof fn lemma_one_request_per_disk(m: Map<Seq<char>, Option<Op>>, disk: Seq<char>, first: Op, second: Op)
    requires
        !(first == Op::List || first == Op::GetCreatedTickets),
        !(second == Op::List || second == Op::GetCreatedTickets),
    ensures
        op_running_spec(m.insert(disk, Some(first)), second, disk, false),
        !op_running_spec(m.insert(disk, Some(first)).insert(disk, None), second, disk, false),
{
}

/// What comes of a Remove request once SafeToRemove has answered.
pub enum RemoveStep {
    /// The disk is safe to remove: remove it
    RemoveDisk,
    /// Answer this result instead
    Respond(OpOutcomeResult),
}

/// What comes of a Remove request for `disk` given SafeToRemove's answer:
/// removed when it succeeded and found the disk safe; a Skipped or
/// SkipRepeat answer is passed on with its value; a disk not safe to remove
/// or a failed check is an error result.
pub open spec fn remove_step(disk: Seq<char>, safe: Result<(OpOutcome, bool), BynarError>, r: RemoveStep) -> bool {
    match safe {
        Ok((OpOutcome::Success, true)) => r is RemoveDisk,
        Ok((OpOutcome::Skipped, val)) => r matches RemoveStep::Respond(x) && x.disk@ == disk && x.op_type
            == Op::Remove && x.result == ResultType::OK && x.outcome == Some(OpOutcome::Skipped)
            && x.value == Some(val) && x.error_msg is None,
        Ok((OpOutcome::SkipRepeat, val)) => r matches RemoveStep::Respond(x) && x.disk@ == disk
            && x.op_type == Op::Remove && x.result == ResultType::OK && x.outcome == Some(
            OpOutcome::SkipRepeat,
        ) && x.value == Some(val) && x.error_msg is None,
        Ok((OpOutcome::Success, false)) => r matches RemoveStep::Respond(x) && x.disk@ == disk
            && x.op_type == Op::Remove && x.result == ResultType::ERR && x.outcome == Some(
            OpOutcome::Success,
        ) && x.value == Some(false) && (x.error_msg matches Some(m) && m@
            == "Not safe to remove disk"@),
        Err(e) => r matches RemoveStep::Respond(x) && x.disk@ == disk && x.op_type == Op::Remove
            && x.result == ResultType::ERR && x.outcome is None && x.value == Some(false) && (
        x.error_msg matches Some(m) && m@ == bynar_error_text(e)),
    }
}

/// Decide what a Remove request for `disk` comes to, given SafeToRemove's
/// answer.
pub fn remove_request_step(disk: &str, safe: &Result<(OpOutcome, bool), BynarError>) -> (res: RemoveStep)
    ensures
        remove_step(disk@, *safe, res),
{
    let mut result = OpOutcomeResult::new(Op::Remove, String::from_str(disk));
    match safe {
        Ok((OpOutcome::Success, true)) => RemoveStep::RemoveDisk,
        Ok((OpOutcome::Skipped, val)) => {
            result.outcome = Some(OpOutcome::Skipped);
            result.value = Some(*val);
            RemoveStep::Respond(result)
        },
        Ok((OpOutcome::SkipRepeat, val)) => {
            result.outcome = Some(OpOutcome::SkipRepeat);
            result.value = Some(*val);
            RemoveStep::Respond(result)
        },
        Ok((_, _)) => {
            result.value = Some(false);
            result.outcome = Some(OpOutcome::Success);
            result.result = ResultType::ERR;
            result.error_msg = Some(String::from_str("Not safe to remove disk"));
            RemoveStep::Respond(result)
        },
        Err(e) => {
            result.value = Some(false);
            result.result = ResultType::ERR;
            result.error_msg = Some(e.to_string());
            RemoveStep::Respond(result)
        },
    }
}


/// The result sent back for an Add or Remove request on `disk`: the
/// backend's outcome, or the error it met.
pub open spec fn backend_result_spec(op_type: Op, disk: Seq<char>, outcome: Result<OpOutcome, BynarError>, r: OpOutcomeResult) -> bool {
    &&& r.disk@ == disk
    &&& r.op_type == op_type
    &&& r.value is None
    &&& match outcome {
        Ok(o) => r.result == ResultType::OK && r.outcome == Some(o) && r.error_msg is None,
        Err(e) => r.result == ResultType::ERR && r.outcome is None && (r.error_msg matches Some(m)
            && m@ == bynar_error_text(e)),
    }
}

/// The result sent back for an Add or Remove request on `disk`.
pub fn backend_result(op_type: Op, disk: &str, outcome: &Result<OpOutcome, BynarError>) -> (res: OpOutcomeResult)
    ensures
        backend_result_spec(op_type, disk@, *outcome, res),
{
    let mut result = OpOutcomeResult::new(op_type, String::from_str(disk));
    match outcome {
        Ok(o) => {
            result.result = ResultType::OK;
            result.outcome = Some(*o);
        },
        Err(e) => {
            result.result = ResultType::ERR;
            result.error_msg = Some(e.to_string());
        },
    }
    result
}

/// The result sent back for a SafeToRemove request on `disk`: the
/// backend's outcome and whether the disk is safe to remove, or the error
/// it met.
pub fn safe_to_remove_result(disk: &str, answer: &Result<(OpOutcome, bool), BynarError>) -> (res: OpOutcomeResult)
    ensures
        res.disk@ == disk@,
        res.op_type == Op::SafeToRemove,
        *answer matches Ok((o, v)) ==> res.result == ResultType::OK && res.outcome == Some(o)
            && res.value == Some(v) && res.error_msg is None,
        *answer matches Err(e) ==> res.result == ResultType::ERR && res.outcome is None
            && res.value is None && (res.error_msg matches Some(m) && m@ == bynar_error_text(e)),
{
    let mut result = OpOutcomeResult::new(Op::SafeToRemove, String::from_str(disk));
    match answer {
        Ok((o, v)) => {
            result.value = Some(*v);
            result.result = ResultType::OK;
            result.outcome = Some(*o);
        },
        Err(e) => {
            result.result = ResultType::ERR;
            result.error_msg = Some(e.to_string());
        },
    }
    result
}

} // verus!
