//! What each transition concludes from the work it did. The work itself
//! (mounting, running the tools) is done by the driver, which hands in what
//! it saw; each function here names the state the move reached.
use vstd::prelude::*;
use crate::error::BynarError;
use crate::disk_state::State;
use crate::device::{DeviceType, DeviceState, ScsiInfo, Vendor};
use crate::checks::{Fsck, raid_backing, is_raid_backed};

verus! {

/// `AttemptRepair`: a simulated run skips the repair and moves on; otherwise
/// the move succeeds when the repair did.
pub fn attempt_repair(to_state: State, simulate: bool, repaired: bool) -> (res: State)
    ensures
        res == (if simulate || repaired { to_state } else { State::Fail }),
{
    if simulate || repaired {
        to_state
    } else {
        State::Fail
    }
}

/// What `CheckForCorruption` concludes from a filesystem check.
pub open spec fn corruption_outcome(to_state: State, simulate: bool, fsck: Result<Fsck, BynarError>) -> State {
    if simulate {
        to_state
    } else {
        match fsck {
            Ok(Fsck::Clean) => State::Fail,
            Ok(Fsck::Corrupt) => to_state,
            Err(_) => State::Fail,
        }
    }
}

/// `CheckForCorruption`: a corrupt filesystem moves on to repair; a clean one,
/// or a failed check, leaves nothing to do here. A simulated run moves on.
pub fn check_for_corruption(to_state: State, simulate: bool, fsck: &Result<Fsck, BynarError>) -> (res: State)
    ensures
        res == corruption_outcome(to_state, simulate, *fsck),
{
    if simulate {
        return to_state;
    }
    match fsck {
        Ok(Fsck::Clean) => State::Fail,
        Ok(Fsck::Corrupt) => to_state,
        Err(_) => State::Fail,
    }
}

/// `CheckReadOnly`: never succeeds; the next move is tried.
pub fn check_read_only(to_state: State) -> (res: State)
    ensures
        res == State::Fail,
{
    State::Fail
}

/// `CheckWearLeveling`: always moves on.
pub fn check_wear_leveling(to_state: State) -> (res: State)
    ensures
        res == to_state,
{
    to_state
}

/// `MarkForReplacement`: always moves on.
pub fn mark_for_replacement(to_state: State) -> (res: State)
    ensures
        res == to_state,
{
    to_state
}

/// `NoOp`: always moves on.
pub fn no_op(to_state: State) -> (res: State)
    ensures
        res == to_state,
{
    to_state
}

/// `Mount`: moves on when the device could be mounted.
pub fn mount(to_state: State, mounted: bool) -> (res: State)
    ensures
        res == (if mounted { to_state } else { State::Fail }),
{
    if mounted {
        to_state
    } else {
        State::Fail
    }
}

/// `Reformat`: moves on when the device was formatted.
pub fn reformat(to_state: State, formatted: bool) -> (res: State)
    ensures
        res == (if formatted { to_state } else { State::Fail }),
{
    if formatted {
        to_state
    } else {
        State::Fail
    }
}

/// `Remount`: moves on when `mount -o remount` succeeded.
pub fn remount(to_state: State, remounted: bool) -> (res: State)
    ensures
        res == (if remounted { to_state } else { State::Fail }),
{
    if remounted {
        to_state
    } else {
        State::Fail
    }
}

/// `Replace`: moves on when the host can see the device again.
pub fn replace(to_state: State, device_found: bool) -> (res: State)
    ensures
        res == (if device_found { to_state } else { State::Fail }),
{
    if device_found {
        to_state
    } else {
        State::Fail
    }
}

/// Whether a scan reads the SMART status: it does unless the device sits
/// behind an HP RAID controller.
pub fn scan_needs_smart(scsi_info: &Option<(ScsiInfo, Option<ScsiInfo>)>) -> (res: bool)
    ensures
        res == !raid_backing(*scsi_info).0,
{
    !is_raid_backed(scsi_info).0
}

/// What `Scan` concludes. A device not behind an HP controller is judged by
/// its SMART status; one behind it by the state its controller reports. A
/// whole disk found healthy is good and the run ends there.
pub open spec fn scan_outcome(
    to_state: State,
    device_type: DeviceType,
    scsi_info: Option<(ScsiInfo, Option<ScsiInfo>)>,
    smart: Result<bool, BynarError>,
) -> State {
    let (raid, vendor) = raid_backing(scsi_info);
    if !raid {
        match smart {
            Ok(healthy) => {
                if device_type == DeviceType::Disk {
                    if healthy {
                        State::Good
                    } else {
                        State::Fail
                    }
                } else {
                    to_state
                }
            },
            Err(_) => State::Fail,
        }
    } else if vendor == Vendor::Hp {
        match scsi_info.unwrap().0.state {
            Some(DeviceState::Running) => {
                if device_type == DeviceType::Disk {
                    State::Good
                } else {
                    to_state
                }
            },
            _ => State::Fail,
        }
    } else {
        to_state
    }
}

/// `Scan`: `smart` is the SMART health result, read only when
/// `scan_needs_smart` says so.
pub fn scan(
    to_state: State,
    device_type: DeviceType,
    scsi_info: &Option<(ScsiInfo, Option<ScsiInfo>)>,
    smart: &Result<bool, BynarError>,
) -> (res: State)
    ensures
        res == scan_outcome(to_state, device_type, *scsi_info, *smart),
{
    let (raid, vendor) = is_raid_backed(scsi_info);
    if !raid {
        match smart {
            Ok(healthy) => {
                if device_type == DeviceType::Disk {
                    if *healthy {
                        State::Good
                    } else {
                        State::Fail
                    }
                } else {
                    to_state
                }
            },
            Err(_) => State::Fail,
        }
    } else if vendor == Vendor::Hp {
        match scsi_info {
            Some(info) => match info.0.state {
                Some(DeviceState::Running) => {
                    if device_type == DeviceType::Disk {
                        State::Good
                    } else {
                        to_state
                    }
                },
                _ => State::Fail,
            },
            None => State::Fail,
        }
    } else {
        to_state
    }
}

/// How an attempt to mount the device on a fresh temporary directory went.
#[derive(Debug, Clone, Copy, PartialEq, Eq, Structural)]
pub enum MountAttempt {
    /// The temporary directory could not be made
    NoTempDir,
    /// The mount failed
    Failed,
    Mounted,
}

/// A check `Eval` needs done next.
#[derive(Debug, Clone, Copy, PartialEq, Eq, Structural)]
pub enum EvalCheck {
    /// Whether the disk is blank
    Blank,
    /// Whether LVM can read the device
    Lvm,
    /// Mount the device on a temporary directory
    Mount,
    /// Whether the mount point takes a write
    Writable,
}

/// What `Eval` has learnt so far; `None` is a check not yet made.
pub struct EvalFacts {
    pub blank: Option<Result<bool, BynarError>>,
    /// The filesystem is LVM
    pub is_lvm: bool,
    pub lvm: Option<Result<Fsck, BynarError>>,
    /// The device already had a mount point
    pub has_mount_point: bool,
    pub mount: Option<MountAttempt>,
    pub writable: Option<Result<(), BynarError>>,
}

/// What `Eval` does next: make a check, or conclude.
pub enum EvalNext {
    Check(EvalCheck),
    Done(State),
}

/// The next step of `Eval`. A blank disk is good (a failed blank check
/// counts as not blank); an LVM disk is good when LVM can read it; any other
/// disk is mounted if it is not already and must take a write.
pub open spec fn eval_step(to_state: State, f: EvalFacts) -> EvalNext {
    match f.blank {
        None => EvalNext::Check(EvalCheck::Blank),
        Some(Ok(true)) => EvalNext::Done(to_state),
        _ => {
            if f.is_lvm {
                match f.lvm {
                    None => EvalNext::Check(EvalCheck::Lvm),
                    Some(Ok(_)) => EvalNext::Done(to_state),
                    Some(Err(_)) => EvalNext::Done(State::Fail),
                }
            } else if !f.has_mount_point && f.mount != Some(MountAttempt::Mounted) {
                match f.mount {
                    None => EvalNext::Check(EvalCheck::Mount),
                    Some(MountAttempt::NoTempDir) => EvalNext::Done(State::Fail),
                    _ => EvalNext::Done(State::MountFailed),
                }
            } else {
                match f.writable {
                    None => EvalNext::Check(EvalCheck::Writable),
                    Some(Ok(_)) => EvalNext::Done(to_state),
                    Some(Err(_)) => EvalNext::Done(State::WriteFailed),
                }
            }
        },
    }
}

/// `Eval` judges a disk good only on evidence: the disk is blank, or LVM
/// reads it, or (not being LVM) it takes a write. An LVM disk that is not
/// blank and that LVM cannot read fails.
pub proof fn lemma_eval_needs_evidence(to_state: State, f: EvalFacts)
    ensures
        (f.blank matches Some(b) && !(b matches Ok(true)) && f.is_lvm && f.lvm matches Some(Err(_)))
            ==> eval_step(to_state, f) == EvalNext::Done(State::Fail),
        (eval_step(to_state, f) == EvalNext::Done(to_state) && to_state != State::Fail && to_state
            != State::MountFailed && to_state != State::WriteFailed) ==> ((f.blank matches Some(Ok(true))) || (f.is_lvm
            && f.lvm matches Some(Ok(_))) || (!f.is_lvm && f.writable matches Some(Ok(_)))),
{
}

/// `Eval`: the check to make next, or the state reached.
pub fn eval(to_state: State, facts: &EvalFacts) -> (res: EvalNext)
    ensures
        res == eval_step(to_state, *facts),
{
    let blank = match &facts.blank {
        None => {
            return EvalNext::Check(EvalCheck::Blank);
        },
        Some(Ok(b)) => *b,
        Some(Err(_)) => false,
    };
    if blank {
        return EvalNext::Done(to_state);
    }
    if facts.is_lvm {
        return match &facts.lvm {
            None => EvalNext::Check(EvalCheck::Lvm),
            Some(Ok(_)) => EvalNext::Done(to_state),
            Some(Err(_)) => EvalNext::Done(State::Fail),
        };
    }
    if !facts.has_mount_point {
        match facts.mount {
            None => {
                return EvalNext::Check(EvalCheck::Mount);
            },
            Some(MountAttempt::NoTempDir) => {
                return EvalNext::Done(State::Fail);
            },
            Some(MountAttempt::Failed) => {
                return EvalNext::Done(State::MountFailed);
            },
            Some(MountAttempt::Mounted) => {},
        }
    }
    match &facts.writable {
        None => EvalNext::Check(EvalCheck::Writable),
        Some(Ok(_)) => EvalNext::Done(to_state),
        Some(Err(_)) => EvalNext::Done(State::WriteFailed),
    }
}

} // verus!
