//! The messages of the repair API: a repair response, disks and a result,
//! each with optional fields that read as their defaults when unset.
use vstd::prelude::*;
use crate::device::MediaType;

verus! {

/// The text of an optional string field: empty when unset.
pub open spec fn opt_text(s: Option<String>) -> Seq<char> {
    match s {
        Some(v) => v@,
        None => Seq::empty(),
    }
}

/// The kind of a disk.
#[derive(Debug, Clone, Copy, PartialEq, Eq, Structural)]
#[allow(non_camel_case_types)]
pub enum DiskType {
    SOLID_STATE,
    ROTATIONAL,
    UNKNOWN,
}

/// The disk type a kind of media is reported as: solid state and
/// rotational media as such, any other media as unknown.
pub fn convert_media_to_disk_type(m: MediaType) -> (res: DiskType)
    ensures
        m == MediaType::SolidState ==> res == DiskType::SOLID_STATE,
        m == MediaType::Rotational ==> res == DiskType::ROTATIONAL,
        m != MediaType::SolidState && m != MediaType::Rotational ==> res == DiskType::UNKNOWN,
{
    match m {
        MediaType::SolidState => DiskType::SOLID_STATE,
        MediaType::Rotational => DiskType::ROTATIONAL,
        _ => DiskType::UNKNOWN,
    }
}

/// Whether an operation succeeded.
#[derive(Debug, Clone, Copy, PartialEq, Eq, Structural)]
#[allow(non_camel_case_types)]
pub enum Result_ResultType {
    OK,
    ERR,
}

/// A disk.
#[derive(Debug)]
pub struct Disk {
    pub field_type: Option<DiskType>,
    pub dev_path: Option<String>,
    pub serial_number: Option<String>,
}

/// An OSD as the repair API reports it.
#[derive(Debug)]
pub struct Osd {
    pub fsid: Option<String>,
    pub id: Option<u64>,
    pub block_device: Option<String>,
    pub active: Option<bool>,
    pub used_space: Option<u64>,
    pub total_space: Option<u64>,
}

/// The answer to a repair request.
#[derive(Debug)]
pub struct RepairResponse {
    pub corrupted: Option<bool>,
    pub repaired: Option<bool>,
    pub in_progress: Option<bool>,
    pub tracking_ticket_id: Option<String>,
    pub disk: Option<Disk>,
    pub mount_path: Option<String>,
}

/// A list of disks.
#[derive(Debug)]
pub struct Disks {
    pub disk: Vec<Disk>,
}

/// The outcome of an operation, with an error message when it failed.
#[derive(Debug)]
pub struct Result {
    pub result: Option<Result_ResultType>,
    pub error_msg: Option<String>,
}

/// A message with no fields.
#[derive(Debug)]
pub struct Empty {}

/// A disk with no field set.
pub open spec fn empty_disk() -> Disk {
    Disk { field_type: None, dev_path: None, serial_number: None }
}

impl Disk {
    /// A disk with no field set.
    pub fn new() -> (res: Disk)
        ensures
            res == empty_disk(),
    {
        Disk { field_type: None, dev_path: None, serial_number: None }
    }

    /// A copy of this disk.
    pub fn copy(&self) -> (res: Disk)
        ensures
            res == *self,
    {
        Disk {
            field_type: self.field_type,
            dev_path: crate::ops::copy_opt_string(&self.dev_path),
            serial_number: crate::ops::copy_opt_string(&self.serial_number),
        }
    }

    /// Unset `field_type`.
    pub fn clear_field_type(&mut self)
        ensures
            *final(self) == (Disk { field_type: None, ..*old(self) }),
    {
        self.field_type = None;
    }

    /// Whether `field_type` is set.
    pub fn has_field_type(&self) -> (res: bool)
        ensures
            res == self.field_type is Some,
    {
        self.field_type.is_some()
    }

    /// Set `field_type`.
    pub fn set_field_type(&mut self, v: DiskType)
        ensures
            *final(self) == (Disk { field_type: Some(v), ..*old(self) }),
    {
        self.field_type = Some(v);
    }

    /// The kind of the disk; solid state when unset.
    pub fn get_field_type(&self) -> (res: DiskType)
        ensures
            res == (match self.field_type {
                Some(t) => t,
                None => DiskType::SOLID_STATE,
            }),
    {
        match self.field_type {
            Some(t) => t,
            None => DiskType::SOLID_STATE,
        }
    }

    /// Unset `dev_path`.
    pub fn clear_dev_path(&mut self)
        ensures
            *final(self) == (Disk { dev_path: None, ..*old(self) }),
    {
        self.dev_path = None;
    }

    /// Whether `dev_path` is set.
    pub fn has_dev_path(&self) -> (res: bool)
        ensures
            res == self.dev_path is Some,
    {
        self.dev_path.is_some()
    }

    /// Set `dev_path`.
    pub fn set_dev_path(&mut self, v: String)
        ensures
            *final(self) == (Disk { dev_path: Some(v), ..*old(self) }),
    {
        self.dev_path = Some(v);
    }

    /// A mutable reference to `dev_path`, set to the empty string first when unset.
    pub fn mut_dev_path(&mut self) -> (res: &mut String)
        ensures
            old(self).dev_path matches Some(s) ==> *res == s,
            old(self).dev_path is None ==> res@ == Seq::<char>::empty(),
            *final(self) == (Disk { dev_path: Some(*final(res)), ..*old(self) }),
    {
        self.dev_path.get_or_insert(String::new())
    }

    /// Take `dev_path` out, leaving it unset; the empty string when it was unset.
    pub fn take_dev_path(&mut self) -> (res: String)
        ensures
            old(self).dev_path matches Some(s) ==> res == s,
            old(self).dev_path is None ==> res@ == Seq::<char>::empty(),
            *final(self) == (Disk { dev_path: None, ..*old(self) }),
    {
        match self.dev_path.take() {
            Some(s) => s,
            None => String::new(),
        }
    }

    /// The device path; empty when unset.
    pub fn get_dev_path(&self) -> (res: &str)
        ensures
            res@ == opt_text(self.dev_path),
    {
        match &self.dev_path {
            Some(s) => s.as_str(),
            None => {
                proof {
                    reveal_strlit("");
                }
                ""
            },
        }
    }

    /// Unset `serial_number`.
    pub fn clear_serial_number(&mut self)
        ensures
            *final(self) == (Disk { serial_number: None, ..*old(self) }),
    {
        self.serial_number = None;
    }

    /// Whether `serial_number` is set.
    pub fn has_serial_number(&self) -> (res: bool)
        ensures
            res == self.serial_number is Some,
    {
        self.serial_number.is_some()
    }

    /// Set `serial_number`.
    pub fn set_serial_number(&mut self, v: String)
        ensures
            *final(self) == (Disk { serial_number: Some(v), ..*old(self) }),
    {
        self.serial_number = Some(v);
    }

    /// A mutable reference to `serial_number`, set to the empty string first when unset.
    pub fn mut_serial_number(&mut self) -> (res: &mut String)
        ensures
            old(self).serial_number matches Some(s) ==> *res == s,
            old(self).serial_number is None ==> res@ == Seq::<char>::empty(),
            *final(self) == (Disk { serial_number: Some(*final(res)), ..*old(self) }),
    {
        self.serial_number.get_or_insert(String::new())
    }

    /// Take `serial_number` out, leaving it unset; the empty string when it was unset.
    pub fn take_serial_number(&mut self) -> (res: String)
        ensures
            old(self).serial_number matches Some(s) ==> res == s,
            old(self).serial_number is None ==> res@ == Seq::<char>::empty(),
            *final(self) == (Disk { serial_number: None, ..*old(self) }),
    {
        match self.serial_number.take() {
            Some(s) => s,
            None => String::new(),
        }
    }

    /// The serial number; empty when unset.
    pub fn get_serial_number(&self) -> (res: &str)
        ensures
            res@ == opt_text(self.serial_number),
    {
        match &self.serial_number {
            Some(s) => s.as_str(),
            None => {
                proof {
                    reveal_strlit("");
                }
                ""
            },
        }
    }
}

impl Osd {
    /// An OSD with no field set.
    pub fn new() -> (res: Osd)
        ensures
            res == (Osd {
                fsid: None,
                id: None,
                block_device: None,
                active: None,
                used_space: None,
                total_space: None,
            }),
    {
        Osd { fsid: None, id: None, block_device: None, active: None, used_space: None, total_space: None }
    }

    /// Unset `fsid`.
    pub fn clear_fsid(&mut self)
        ensures
            *final(self) == (Osd { fsid: None, ..*old(self) }),
    {
        self.fsid = None;
    }

    /// Whether `fsid` is set.
    pub fn has_fsid(&self) -> (res: bool)
        ensures
            res == self.fsid is Some,
    {
        self.fsid.is_some()
    }

    /// Set `fsid`.
    pub fn set_fsid(&mut self, v: String)
        ensures
            *final(self) == (Osd { fsid: Some(v), ..*old(self) }),
    {
        self.fsid = Some(v);
    }

    /// A mutable reference to `fsid`, set to the empty string first when unset.
    pub fn mut_fsid(&mut self) -> (res: &mut String)
        ensures
            old(self).fsid matches Some(s) ==> *res == s,
            old(self).fsid is None ==> res@ == Seq::<char>::empty(),
            *final(self) == (Osd { fsid: Some(*final(res)), ..*old(self) }),
    {
        self.fsid.get_or_insert(String::new())
    }

    /// Take `fsid` out, leaving it unset; the empty string when it was unset.
    pub fn take_fsid(&mut self) -> (res: String)
        ensures
            old(self).fsid matches Some(s) ==> res == s,
            old(self).fsid is None ==> res@ == Seq::<char>::empty(),
            *final(self) == (Osd { fsid: None, ..*old(self) }),
    {
        match self.fsid.take() {
            Some(s) => s,
            None => String::new(),
        }
    }

    /// The fsid of the OSD; empty when unset.
    pub fn get_fsid(&self) -> (res: &str)
        ensures
            res@ == opt_text(self.fsid),
    {
        match &self.fsid {
            Some(s) => s.as_str(),
            None => {
                proof {
                    reveal_strlit("");
                }
                ""
            },
        }
    }

    /// Unset `id`.
    pub fn clear_id(&mut self)
        ensures
            *final(self) == (Osd { id: None, ..*old(self) }),
    {
        self.id = None;
    }

    /// Whether `id` is set.
    pub fn has_id(&self) -> (res: bool)
        ensures
            res == self.id is Some,
    {
        self.id.is_some()
    }

    /// Set `id`.
    pub fn set_id(&mut self, v: u64)
        ensures
            *final(self) == (Osd { id: Some(v), ..*old(self) }),
    {
        self.id = Some(v);
    }

    /// The id of the OSD; `0` when unset.
    pub fn get_id(&self) -> (res: u64)
        ensures
            res == (match self.id {
                Some(v) => v,
                None => 0,
            }),
    {
        match self.id {
            Some(v) => v,
            None => 0,
        }
    }

    /// Unset `block_device`.
    pub fn clear_block_device(&mut self)
        ensures
            *final(self) == (Osd { block_device: None, ..*old(self) }),
    {
        self.block_device = None;
    }

    /// Whether `block_device` is set.
    pub fn has_block_device(&self) -> (res: bool)
        ensures
            res == self.block_device is Some,
    {
        self.block_device.is_some()
    }

    /// Set `block_device`.
    pub fn set_block_device(&mut self, v: String)
        ensures
            *final(self) == (Osd { block_device: Some(v), ..*old(self) }),
    {
        self.block_device = Some(v);
    }

    /// A mutable reference to `block_device`, set to the empty string first when unset.
    pub fn mut_block_device(&mut self) -> (res: &mut String)
        ensures
            old(self).block_device matches Some(s) ==> *res == s,
            old(self).block_device is None ==> res@ == Seq::<char>::empty(),
            *final(self) == (Osd { block_device: Some(*final(res)), ..*old(self) }),
    {
        self.block_device.get_or_insert(String::new())
    }

    /// Take `block_device` out, leaving it unset; the empty string when it was unset.
    pub fn take_block_device(&mut self) -> (res: String)
        ensures
            old(self).block_device matches Some(s) ==> res == s,
            old(self).block_device is None ==> res@ == Seq::<char>::empty(),
            *final(self) == (Osd { block_device: None, ..*old(self) }),
    {
        match self.block_device.take() {
            Some(s) => s,
            None => String::new(),
        }
    }

    /// The device the OSD stores its data on; empty when unset.
    pub fn get_block_device(&self) -> (res: &str)
        ensures
            res@ == opt_text(self.block_device),
    {
        match &self.block_device {
            Some(s) => s.as_str(),
            None => {
                proof {
                    reveal_strlit("");
                }
                ""
            },
        }
    }

    /// Unset `active`.
    pub fn clear_active(&mut self)
        ensures
            *final(self) == (Osd { active: None, ..*old(self) }),
    {
        self.active = None;
    }

    /// Whether `active` is set.
    pub fn has_active(&self) -> (res: bool)
        ensures
            res == self.active is Some,
    {
        self.active.is_some()
    }

    /// Set `active`.
    pub fn set_active(&mut self, v: bool)
        ensures
            *final(self) == (Osd { active: Some(v), ..*old(self) }),
    {
        self.active = Some(v);
    }

    /// Whether the OSD is active; `false` when unset.
    pub fn get_active(&self) -> (res: bool)
        ensures
            res == (match self.active {
                Some(v) => v,
                None => false,
            }),
    {
        match self.active {
            Some(v) => v,
            None => false,
        }
    }

    /// Unset `used_space`.
    pub fn clear_used_space(&mut self)
        ensures
            *final(self) == (Osd { used_space: None, ..*old(self) }),
    {
        self.used_space = None;
    }

    /// Whether `used_space` is set.
    pub fn has_used_space(&self) -> (res: bool)
        ensures
            res == self.used_space is Some,
    {
        self.used_space.is_some()
    }

    /// Set `used_space`.
    pub fn set_used_space(&mut self, v: u64)
        ensures
            *final(self) == (Osd { used_space: Some(v), ..*old(self) }),
    {
        self.used_space = Some(v);
    }

    /// The space the OSD uses; `0` when unset.
    pub fn get_used_space(&self) -> (res: u64)
        ensures
            res == (match self.used_space {
                Some(v) => v,
                None => 0,
            }),
    {
        match self.used_space {
            Some(v) => v,
            None => 0,
        }
    }

    /// Unset `total_space`.
    pub fn clear_total_space(&mut self)
        ensures
            *final(self) == (Osd { total_space: None, ..*old(self) }),
    {
        self.total_space = None;
    }

    /// Whether `total_space` is set.
    pub fn has_total_space(&self) -> (res: bool)
        ensures
            res == self.total_space is Some,
    {
        self.total_space.is_some()
    }

    /// Set `total_space`.
    pub fn set_total_space(&mut self, v: u64)
        ensures
            *final(self) == (Osd { total_space: Some(v), ..*old(self) }),
    {
        self.total_space = Some(v);
    }

    /// The space the OSD has; `0` when unset.
    pub fn get_total_space(&self) -> (res: u64)
        ensures
            res == (match self.total_space {
                Some(v) => v,
                None => 0,
            }),
    {
        match self.total_space {
            Some(v) => v,
            None => 0,
        }
    }
}

impl RepairResponse {
    /// A response with no field set.
    pub fn new() -> (res: RepairResponse)
        ensures
            res == (RepairResponse {
                corrupted: None,
                repaired: None,
                in_progress: None,
                tracking_ticket_id: None,
                disk: None,
                mount_path: None,
            }),
    {
        RepairResponse {
            corrupted: None,
            repaired: None,
            in_progress: None,
            tracking_ticket_id: None,
            disk: None,
            mount_path: None,
        }
    }

    /// Unset `corrupted`.
    pub fn clear_corrupted(&mut self)
        ensures
            *final(self) == (RepairResponse { corrupted: None, ..*old(self) }),
    {
        self.corrupted = None;
    }

    /// Whether `corrupted` is set.
    pub fn has_corrupted(&self) -> (res: bool)
        ensures
            res == self.corrupted is Some,
    {
        self.corrupted.is_some()
    }

    /// Set `corrupted`.
    pub fn set_corrupted(&mut self, v: bool)
        ensures
            *final(self) == (RepairResponse { corrupted: Some(v), ..*old(self) }),
    {
        self.corrupted = Some(v);
    }

    /// Whether the disk was found corrupted; `false` when unset.
    pub fn get_corrupted(&self) -> (res: bool)
        ensures
            res == (match self.corrupted {
                Some(v) => v,
                None => false,
            }),
    {
        match self.corrupted {
            Some(v) => v,
            None => false,
        }
    }

    /// Unset `repaired`.
    pub fn clear_repaired(&mut self)
        ensures
            *final(self) == (RepairResponse { repaired: None, ..*old(self) }),
    {
        self.repaired = None;
    }

    /// Whether `repaired` is set.
    pub fn has_repaired(&self) -> (res: bool)
        ensures
            res == self.repaired is Some,
    {
        self.repaired.is_some()
    }

    /// Set `repaired`.
    pub fn set_repaired(&mut self, v: bool)
        ensures
            *final(self) == (RepairResponse { repaired: Some(v), ..*old(self) }),
    {
        self.repaired = Some(v);
    }

    /// Whether the disk was repaired; `false` when unset.
    pub fn get_repaired(&self) -> (res: bool)
        ensures
            res == (match self.repaired {
                Some(v) => v,
                None => false,
            }),
    {
        match self.repaired {
            Some(v) => v,
            None => false,
        }
    }

    /// Unset `in_progress`.
    pub fn clear_in_progress(&mut self)
        ensures
            *final(self) == (RepairResponse { in_progress: None, ..*old(self) }),
    {
        self.in_progress = None;
    }

    /// Whether `in_progress` is set.
    pub fn has_in_progress(&self) -> (res: bool)
        ensures
            res == self.in_progress is Some,
    {
        self.in_progress.is_some()
    }

    /// Set `in_progress`.
    pub fn set_in_progress(&mut self, v: bool)
        ensures
            *final(self) == (RepairResponse { in_progress: Some(v), ..*old(self) }),
    {
        self.in_progress = Some(v);
    }

    /// Whether a repair is in progress; `false` when unset.
    pub fn get_in_progress(&self) -> (res: bool)
        ensures
            res == (match self.in_progress {
                Some(v) => v,
                None => false,
            }),
    {
        match self.in_progress {
            Some(v) => v,
            None => false,
        }
    }

    /// Unset `tracking_ticket_id`.
    pub fn clear_tracking_ticket_id(&mut self)
        ensures
            *final(self) == (RepairResponse { tracking_ticket_id: None, ..*old(self) }),
    {
        self.tracking_ticket_id = None;
    }

    /// Whether `tracking_ticket_id` is set.
    pub fn has_tracking_ticket_id(&self) -> (res: bool)
        ensures
            res == self.tracking_ticket_id is Some,
    {
        self.tracking_ticket_id.is_some()
    }

    /// Set `tracking_ticket_id`.
    pub fn set_tracking_ticket_id(&mut self, v: String)
        ensures
            *final(self) == (RepairResponse { tracking_ticket_id: Some(v), ..*old(self) }),
    {
        self.tracking_ticket_id = Some(v);
    }

    /// A mutable reference to `tracking_ticket_id`, set to the empty string first when unset.
    pub fn mut_tracking_ticket_id(&mut self) -> (res: &mut String)
        ensures
            old(self).tracking_ticket_id matches Some(s) ==> *res == s,
            old(self).tracking_ticket_id is None ==> res@ == Seq::<char>::empty(),
            *final(self) == (RepairResponse { tracking_ticket_id: Some(*final(res)), ..*old(self) }),
    {
        self.tracking_ticket_id.get_or_insert(String::new())
    }

    /// Take `tracking_ticket_id` out, leaving it unset; the empty string when it was unset.
    pub fn take_tracking_ticket_id(&mut self) -> (res: String)
        ensures
            old(self).tracking_ticket_id matches Some(s) ==> res == s,
            old(self).tracking_ticket_id is None ==> res@ == Seq::<char>::empty(),
            *final(self) == (RepairResponse { tracking_ticket_id: None, ..*old(self) }),
    {
        match self.tracking_ticket_id.take() {
            Some(s) => s,
            None => String::new(),
        }
    }

    /// The id of the ticket tracking the repair; empty when unset.
    pub fn get_tracking_ticket_id(&self) -> (res: &str)
        ensures
            res@ == opt_text(self.tracking_ticket_id),
    {
        match &self.tracking_ticket_id {
            Some(s) => s.as_str(),
            None => {
                proof {
                    reveal_strlit("");
                }
                ""
            },
        }
    }

    /// Unset `disk`.
    pub fn clear_disk(&mut self)
        ensures
            *final(self) == (RepairResponse { disk: None, ..*old(self) }),
    {
        self.disk = None;
    }

    /// Whether `disk` is set.
    pub fn has_disk(&self) -> (res: bool)
        ensures
            res == self.disk is Some,
    {
        self.disk.is_some()
    }

    /// Set `disk`.
    pub fn set_disk(&mut self, v: Disk)
        ensures
            *final(self) == (RepairResponse { disk: Some(v), ..*old(self) }),
    {
        self.disk = Some(v);
    }

    /// A mutable reference to `disk`, set to an empty disk first when unset.
    pub fn mut_disk(&mut self) -> (res: &mut Disk)
        ensures
            old(self).disk matches Some(d) ==> *res == d,
            old(self).disk is None ==> *res == empty_disk(),
            *final(self) == (RepairResponse { disk: Some(*final(res)), ..*old(self) }),
    {
        self.disk.get_or_insert(Disk::new())
    }

    /// Take `disk` out, leaving it unset; an empty disk when it was unset.
    pub fn take_disk(&mut self) -> (res: Disk)
        ensures
            old(self).disk matches Some(d) ==> res == d,
            old(self).disk is None ==> res == empty_disk(),
            *final(self) == (RepairResponse { disk: None, ..*old(self) }),
    {
        match self.disk.take() {
            Some(d) => d,
            None => Disk::new(),
        }
    }

    /// The disk; an empty disk when unset.
    pub fn get_disk(&self) -> (res: Disk)
        ensures
            self.disk matches Some(d) ==> res == d,
            self.disk is None ==> res == empty_disk(),
    {
        match &self.disk {
            Some(d) => d.copy(),
            None => Disk::new(),
        }
    }

    /// Unset `mount_path`.
    pub fn clear_mount_path(&mut self)
        ensures
            *final(self) == (RepairResponse { mount_path: None, ..*old(self) }),
    {
        self.mount_path = None;
    }

    /// Whether `mount_path` is set.
    pub fn has_mount_path(&self) -> (res: bool)
        ensures
            res == self.mount_path is Some,
    {
        self.mount_path.is_some()
    }

    /// Set `mount_path`.
    pub fn set_mount_path(&mut self, v: String)
        ensures
            *final(self) == (RepairResponse { mount_path: Some(v), ..*old(self) }),
    {
        self.mount_path = Some(v);
    }

    /// A mutable reference to `mount_path`, set to the empty string first when unset.
    pub fn mut_mount_path(&mut self) -> (res: &mut String)
        ensures
            old(self).mount_path matches Some(s) ==> *res == s,
            old(self).mount_path is None ==> res@ == Seq::<char>::empty(),
            *final(self) == (RepairResponse { mount_path: Some(*final(res)), ..*old(self) }),
    {
        self.mount_path.get_or_insert(String::new())
    }

    /// Take `mount_path` out, leaving it unset; the empty string when it was unset.
    pub fn take_mount_path(&mut self) -> (res: String)
        ensures
            old(self).mount_path matches Some(s) ==> res == s,
            old(self).mount_path is None ==> res@ == Seq::<char>::empty(),
            *final(self) == (RepairResponse { mount_path: None, ..*old(self) }),
    {
        match self.mount_path.take() {
            Some(s) => s,
            None => String::new(),
        }
    }

    /// Where the disk is mounted; empty when unset.
    pub fn get_mount_path(&self) -> (res: &str)
        ensures
            res@ == opt_text(self.mount_path),
    {
        match &self.mount_path {
            Some(s) => s.as_str(),
            None => {
                proof {
                    reveal_strlit("");
                }
                ""
            },
        }
    }
}

impl Disks {
    /// An empty list.
    pub fn new() -> (res: Disks)
        ensures
            res.disk@ == Seq::<Disk>::empty(),
    {
        Disks { disk: Vec::new() }
    }

    /// Empty the list.
    pub fn clear_disk(&mut self)
        ensures
            final(self).disk@ == Seq::<Disk>::empty(),
    {
        self.disk = Vec::new();
    }

    /// Replace the list.
    pub fn set_disk(&mut self, v: Vec<Disk>)
        ensures
            final(self).disk == v,
    {
        self.disk = v;
    }

    /// A mutable reference to the list.
    pub fn mut_disk(&mut self) -> (res: &mut Vec<Disk>)
        ensures
            *res == old(self).disk,
            final(self).disk == *final(res),
    {
        &mut self.disk
    }

    /// Take the list out, leaving it empty.
    pub fn take_disk(&mut self) -> (res: Vec<Disk>)
        ensures
            res == old(self).disk,
            final(self).disk@ == Seq::<Disk>::empty(),
    {
        let mut taken: Vec<Disk> = Vec::new();
        std::mem::swap(&mut taken, &mut self.disk);
        taken
    }

    /// The disks.
    pub fn get_disk(&self) -> (res: &Vec<Disk>)
        ensures
            res@ == self.disk@,
    {
        &self.disk
    }
}

impl Result {
    /// A result with no field set.
    pub fn new() -> (res: Result)
        ensures
            res.result is None,
            res.error_msg is None,
    {
        Result { result: None, error_msg: None }
    }

    /// Unset `result`.
    pub fn clear_result(&mut self)
        ensures
            *final(self) == (Result { result: None, ..*old(self) }),
    {
        self.result = None;
    }

    /// Whether `result` is set.
    pub fn has_result(&self) -> (res: bool)
        ensures
            res == self.result is Some,
    {
        self.result.is_some()
    }

    /// Set `result`.
    pub fn set_result(&mut self, v: Result_ResultType)
        ensures
            *final(self) == (Result { result: Some(v), ..*old(self) }),
    {
        self.result = Some(v);
    }

    /// Whether the operation succeeded; `OK` when unset.
    pub fn get_result(&self) -> (res: Result_ResultType)
        ensures
            res == (match self.result {
                Some(r) => r,
                None => Result_ResultType::OK,
            }),
    {
        match self.result {
            Some(r) => r,
            None => Result_ResultType::OK,
        }
    }

    /// Unset `error_msg`.
    pub fn clear_error_msg(&mut self)
        ensures
            *final(self) == (Result { error_msg: None, ..*old(self) }),
    {
        self.error_msg = None;
    }

    /// Whether `error_msg` is set.
    pub fn has_error_msg(&self) -> (res: bool)
        ensures
            res == self.error_msg is Some,
    {
        self.error_msg.is_some()
    }

    /// Set `error_msg`.
    pub fn set_error_msg(&mut self, v: String)
        ensures
            *final(self) == (Result { error_msg: Some(v), ..*old(self) }),
    {
        self.error_msg = Some(v);
    }

    /// A mutable reference to `error_msg`, set to the empty string first when unset.
    pub fn mut_error_msg(&mut self) -> (res: &mut String)
        ensures
            old(self).error_msg matches Some(s) ==> *res == s,
            old(self).error_msg is None ==> res@ == Seq::<char>::empty(),
            *final(self) == (Result { error_msg: Some(*final(res)), ..*old(self) }),
    {
        self.error_msg.get_or_insert(String::new())
    }

    /// Take `error_msg` out, leaving it unset; the empty string when it was unset.
    pub fn take_error_msg(&mut self) -> (res: String)
        ensures
            old(self).error_msg matches Some(s) ==> res == s,
            old(self).error_msg is None ==> res@ == Seq::<char>::empty(),
            *final(self) == (Result { error_msg: None, ..*old(self) }),
    {
        match self.error_msg.take() {
            Some(s) => s,
            None => String::new(),
        }
    }

    /// The error message; empty when unset.
    pub fn get_error_msg(&self) -> (res: &str)
        ensures
            res@ == opt_text(self.error_msg),
    {
        match &self.error_msg {
            Some(s) => s.as_str(),
            None => {
                proof {
                    reveal_strlit("");
                }
                ""
            },
        }
    }
}

impl Empty {
    /// The empty message.
    pub fn new() -> (res: Empty)
        ensures
            res == (Empty {}),
    {
        Empty {}
    }
}

impl Disk {
    /// Whether the fields a disk needs are set: its kind and its path.
    pub fn is_initialized(&self) -> (res: bool)
        ensures
            res == (self.field_type is Some && self.dev_path is Some),
    {
        self.field_type.is_some() && self.dev_path.is_some()
    }
}

impl Default for Disk {
    fn default() -> (res: Disk)
        ensures
            res == empty_disk(),
    {
        Disk::new()
    }
}

impl Osd {
    /// Whether the fields an OSD needs are set: id, state and space.
    pub fn is_initialized(&self) -> (res: bool)
        ensures
            res == (self.id is Some && self.active is Some && self.used_space is Some && self.total_space is Some),
    {
        self.id.is_some() && self.active.is_some() && self.used_space.is_some() && self.total_space.is_some()
    }
}

impl Default for Osd {
    fn default() -> (res: Osd)
        ensures
            res == (Osd {
                fsid: None,
                id: None,
                block_device: None,
                active: None,
                used_space: None,
                total_space: None,
            }),
    {
        Osd::new()
    }
}

/// Whether a disk has the fields it needs.
pub open spec fn disk_initialized(d: Disk) -> bool {
    d.field_type is Some && d.dev_path is Some
}

impl RepairResponse {
    /// Whether the fields a response needs are set, its disk's among them.
    pub fn is_initialized(&self) -> (res: bool)
        ensures
            res == (self.corrupted is Some && self.repaired is Some && self.in_progress is Some
                && self.tracking_ticket_id is Some && self.disk is Some && disk_initialized(self.disk->0)),
    {
        if self.corrupted.is_none() || self.repaired.is_none() || self.in_progress.is_none()
            || self.tracking_ticket_id.is_none() {
            return false;
        }
        match &self.disk {
            Some(d) => d.is_initialized(),
            None => false,
        }
    }
}

impl Default for RepairResponse {
    fn default() -> (res: RepairResponse)
        ensures
            res == (RepairResponse {
                corrupted: None,
                repaired: None,
                in_progress: None,
                tracking_ticket_id: None,
                disk: None,
                mount_path: None,
            }),
    {
        RepairResponse::new()
    }
}

impl Disks {
    /// Whether every disk of the list has the fields it needs.
    pub fn is_initialized(&self) -> (res: bool)
        ensures
            res == (forall|i: int| 0 <= i < self.disk@.len() ==> disk_initialized(#[trigger] self.disk@[i])),
    {
        let mut i: usize = 0;
        while i < self.disk.len()
            invariant
                i <= self.disk@.len(),
                forall|j: int| 0 <= j < i ==> disk_initialized(#[trigger] self.disk@[j]),
            decreases self.disk@.len() - i,
        {
            if !self.disk[i].is_initialized() {
                return false;
            }
            i = i + 1;
        }
        true
    }
}

impl Default for Disks {
    fn default() -> (res: Disks)
        ensures
            res.disk@ == Seq::<Disk>::empty(),
    {
        Disks::new()
    }
}

impl Result {
    /// Whether the result is set.
    pub fn is_initialized(&self) -> (res: bool)
        ensures
            res == self.result is Some,
    {
        self.result.is_some()
    }
}

impl Default for Result {
    fn default() -> (res: Result)
        ensures
            res.result is None,
            res.error_msg is None,
    {
        Result::new()
    }
}

impl Empty {
    /// The empty message needs no field.
    pub fn is_initialized(&self) -> (res: bool)
        ensures
            res,
    {
        true
    }
}

impl Default for Empty {
    fn default() -> (res: Empty)
        ensures
            res == (Empty {}),
    {
        Empty::new()
    }
}

} // verus!
