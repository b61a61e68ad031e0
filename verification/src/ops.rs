//! The requests Bynar sends the disk manager and the results it gets back.
use vstd::prelude::*;

verus! {

/// A request kind.
#[derive(Debug, Clone, Copy, PartialEq, Eq, Structural)]
pub enum Op {
    Add,
    AddPartition,
    List,
    Remove,
    SafeToRemove,
    GetCreatedTickets,
}

/// How a request went.
#[derive(Debug, Clone, Copy, PartialEq, Eq, Structural)]
pub enum OpOutcome {
    Success,
    /// The disk was not one to work on (a boot disk, say)
    Skipped,
    /// The work was already done, or another request is running on the disk
    SkipRepeat,
}

/// Whether a request succeeded.
#[derive(Debug, Clone, Copy, PartialEq, Eq, Structural)]
pub enum ResultType {
    OK,
    ERR,
}

/// A request.
#[derive(Debug)]
pub struct Operation {
    pub op_type: Op,
    /// The device path the request is about; empty when the request names
    /// none, as an unset field reads
    pub disk: String,
    pub osd_id: Option<u64>,
    pub simulate: Option<bool>,
}

/// The result of a request.
#[derive(Debug)]
pub struct OpOutcomeResult {
    pub disk: String,
    pub op_type: Op,
    pub result: ResultType,
    pub outcome: Option<OpOutcome>,
    pub value: Option<bool>,
    pub error_msg: Option<String>,
}

/// An unset outcome reads as `Success`.
pub open spec fn outcome_of(r: OpOutcomeResult) -> OpOutcome {
    match r.outcome {
        Some(o) => o,
        None => OpOutcome::Success,
    }
}

/// An unset value reads as `false`.
pub open spec fn value_of(r: OpOutcomeResult) -> bool {
    match r.value {
        Some(v) => v,
        None => false,
    }
}

/// A copy of an optional string.
pub fn copy_opt_string(s: &Option<String>) -> (res: Option<String>)
    ensures
        res == *s,
{
    match s {
        Some(v) => Some(v.clone()),
        None => None,
    }
}

impl Operation {
    /// A request of kind `op_type` about `disk`.
    pub fn new(op_type: Op, disk: String) -> (res: Operation)
        ensures
            res == (Operation { op_type, disk, osd_id: None, simulate: None }),
    {
        Operation { op_type, disk, osd_id: None, simulate: None }
    }

    /// The request kind.
    #[allow(non_snake_case)]
    pub fn get_Op_type(&self) -> (res: Op)
        ensures
            res == self.op_type,
    {
        self.op_type
    }

    /// The device path the request is about.
    pub fn get_disk(&self) -> (res: &str)
        ensures
            res@ == self.disk@,
    {
        self.disk.as_str()
    }

    /// A copy of this request.
    pub fn copy(&self) -> (res: Operation)
        ensures
            res == *self,
    {
        Operation {
            op_type: self.op_type,
            disk: self.disk.clone(),
            osd_id: self.osd_id,
            simulate: self.simulate,
        }
    }
}

/// The request to add the device `path` as an OSD, with the OSD id to
/// give it when one is asked for.
pub fn add_disk_request(path: &str, id: Option<u64>, simulate: bool) -> (res: Operation)
    ensures
        res.op_type == Op::Add,
        res.disk@ == path@,
        res.osd_id == id,
        res.simulate == Some(simulate),
{
    Operation { op_type: Op::Add, disk: String::from_str(path), osd_id: id, simulate: Some(simulate) }
}

/// The request to remove the device `path` from the cluster.
pub fn remove_disk_request(path: &str, id: Option<u64>, simulate: bool) -> (res: Operation)
    ensures
        res.op_type == Op::Remove,
        res.disk@ == path@,
        res.osd_id == id,
        res.simulate == Some(simulate),
{
    Operation { op_type: Op::Remove, disk: String::from_str(path), osd_id: id, simulate: Some(simulate) }
}

/// The request to ask whether the device `path` can be removed safely.
pub fn safe_to_remove_request(path: &str) -> (res: Operation)
    ensures
        res.op_type == Op::SafeToRemove,
        res.disk@ == path@,
        res.osd_id is None,
        res.simulate is None,
{
    Operation::new(Op::SafeToRemove, String::from_str(path))
}

/// The request to list the disks of a host.
pub fn list_disks_request() -> (res: Operation)
    ensures
        res.op_type == Op::List,
        res.disk@ == Seq::<char>::empty(),
        res.osd_id is None,
        res.simulate is None,
{
    proof {
        reveal_strlit("");
    }
    Operation::new(Op::List, String::from_str(""))
}

/// The request to list the repair tickets the disk manager created.
pub fn get_jira_tickets_request() -> (res: Operation)
    ensures
        res.op_type == Op::GetCreatedTickets,
        res.disk@ == Seq::<char>::empty(),
        res.osd_id is None,
        res.simulate is None,
{
    proof {
        reveal_strlit("");
    }
    Operation::new(Op::GetCreatedTickets, String::from_str(""))
}

impl OpOutcomeResult {
    /// A successful result for a request of kind `op_type` about `disk`, with
    /// nothing else set.
    pub fn new(op_type: Op, disk: String) -> (res: OpOutcomeResult)
        ensures
            res == (OpOutcomeResult {
                disk,
                op_type,
                result: ResultType::OK,
                outcome: None,
                value: None,
                error_msg: None,
            }),
    {
        OpOutcomeResult {
            disk,
            op_type,
            result: ResultType::OK,
            outcome: None,
            value: None,
            error_msg: None,
        }
    }

    /// The outcome; `Success` when none was set.
    pub fn get_outcome(&self) -> (res: OpOutcome)
        ensures
            res == outcome_of(*self),
    {
        match self.outcome {
            Some(o) => o,
            None => OpOutcome::Success,
        }
    }

    /// The value; `false` when none was set.
    pub fn get_value(&self) -> (res: bool)
        ensures
            res == value_of(*self),
    {
        match self.value {
            Some(v) => v,
            None => false,
        }
    }

    /// Whether a value was set.
    pub fn has_value(&self) -> (res: bool)
        ensures
            res == self.value is Some,
    {
        self.value.is_some()
    }

    /// Whether an error message was set.
    pub fn has_error_msg(&self) -> (res: bool)
        ensures
            res == self.error_msg is Some,
    {
        self.error_msg.is_some()
    }

    /// The result kind.
    pub fn get_result(&self) -> (res: ResultType)
        ensures
            res == self.result,
    {
        self.result
    }

    /// The request kind.
    pub fn get_op_type(&self) -> (res: Op)
        ensures
            res == self.op_type,
    {
        self.op_type
    }

    /// The device path.
    pub fn get_disk(&self) -> (res: &str)
        ensures
            res@ == self.disk@,
    {
        self.disk.as_str()
    }

    /// A copy of this result.
    pub fn copy(&self) -> (res: OpOutcomeResult)
        ensures
            res == *self,
    {
        OpOutcomeResult {
            disk: self.disk.clone(),
            op_type: self.op_type,
            result: self.result,
            outcome: self.outcome,
            value: self.value,
            error_msg: copy_opt_string(&self.error_msg),
        }
    }
}

/// A request Bynar has made about a disk, and its result once it came back.
#[derive(Debug)]
pub struct DiskOp {
    pub op_type: Op,
    /// The ticket description for a SafeToRemove or Remove request; for an
    /// Add request, the ticket id
    pub description: Option<String>,
    /// The database id of the operation, if one was recorded
    pub operation_id: Option<u32>,
    /// `None` until the result comes back
    pub ret_val: Option<OpOutcomeResult>,
}

impl DiskOp {
    /// A request record with no result yet.
    pub fn new(op: &Operation, description: Option<String>, operation_id: Option<u32>) -> (res: DiskOp)
        ensures
            res == (DiskOp { op_type: op.op_type, description, operation_id, ret_val: None }),
    {
        DiskOp { op_type: op.op_type, description, operation_id, ret_val: None }
    }

    /// A copy of this record.
    pub fn copy(&self) -> (res: DiskOp)
        ensures
            res == *self,
    {
        let ret_val = match &self.ret_val {
            Some(r) => Some(r.copy()),
            None => None,
        };
        DiskOp {
            op_type: self.op_type,
            description: copy_opt_string(&self.description),
            operation_id: self.operation_id,
            ret_val,
        }
    }
}

/// A copy of an optional request record.
pub fn copy_opt_disk_op(op: &Option<DiskOp>) -> (res: Option<DiskOp>)
    ensures
        res == *op,
{
    match op {
        Some(o) => Some(o.copy()),
        None => None,
    }
}

} // verus!
