//! The message map: for every disk, its own path and its partitions' paths,
//! each with the request Bynar has running on it, if any.
use vstd::prelude::*;
use crate::error::BynarError;
use crate::ops::{DiskOp, copy_opt_disk_op, OpOutcomeResult, Op, OpOutcome, ResultType, outcome_of, value_of};
use crate::assoc::{
    keys_unique, has_key, assoc_view, lemma_assoc_dom, lemma_assoc_at, lemma_assoc_update,
    lemma_assoc_push, lemma_assoc_empty,
};
use crate::text::{str_eq, contains, contains_seq, concat3};

verus! {

/// The requests on one disk: its own path and its partitions' paths, each
/// with the request running on it, if any.
#[derive(Debug)]
pub struct DiskOps {
    entries: Vec<(String, Option<DiskOp>)>,
}

/// The paths of `v`, as character sequences.
pub open spec fn path_views(v: Seq<String>) -> Seq<Seq<char>> {
    v.map_values(|s: String| s@)
}

/// The fresh request map of a disk: the disk itself and every partition
/// whose path contains the disk's path, none with a request.
pub open spec fn fresh_disk_view(disk: Seq<char>, partitions: Seq<Seq<char>>) -> Map<
    Seq<char>,
    Option<DiskOp>,
> {
    Map::new(
        |p: Seq<char>| p == disk || (partitions.contains(p) && contains_seq(p, disk)),
        |p: Seq<char>| None,
    )
}

impl DiskOps {
    /// The entries as `(path, request)` pairs.
    pub closed spec fn pairs(&self) -> Seq<(Seq<char>, Option<DiskOp>)> {
        self.entries@.map_values(|e: (String, Option<DiskOp>)| (e.0@, e.1))
    }

    /// No path occurs twice.
    pub closed spec fn wf(&self) -> bool {
        keys_unique(self.pairs())
    }

    /// An empty record.
    pub fn new() -> (res: DiskOps)
        ensures
            res.wf(),
            res@ == Map::<Seq<char>, Option<DiskOp>>::empty(),
    {
        let res = DiskOps { entries: Vec::new() };
        proof {
            assert(res.pairs() =~= Seq::<(Seq<char>, Option<DiskOp>)>::empty());
            lemma_assoc_empty::<Option<DiskOp>>();
        }
        res
    }

    fn find(&self, k: &str) -> (res: Option<usize>)
        ensures
            res matches Some(i) ==> i < self.entries@.len() && self.pairs()[i as int].0 == k@,
            res is None ==> !has_key(self.pairs(), k@),
    {
        let mut i: usize = 0;
        while i < self.entries.len()
            invariant
                i <= self.entries@.len(),
                forall|j: int| 0 <= j < i ==> self.pairs()[j].0 != k@,
            decreases self.entries@.len() - i,
        {
            if str_eq(self.entries[i].0.as_str(), k) {
                return Some(i);
            }
            i = i + 1;
        }
        proof {
            if has_key(self.pairs(), k@) {
                let j = choose|j: int| 0 <= j < self.pairs().len() && #[trigger] self.pairs()[j].0 == k@;
                assert(self.pairs()[j].0 != k@);
            }
        }
        None
    }

    /// The number of paths with an entry.
    pub fn len(&self) -> (res: usize)
        requires
            self.wf(),
        ensures
            res == self@.dom().len(),
    {
        proof {
            crate::assoc::lemma_assoc_len(self.pairs());
        }
        self.entries.len()
    }

    /// Whether `path` has an entry.
    pub fn contains_key(&self, path: &str) -> (res: bool)
        ensures
            res == self@.dom().contains(path@),
    {
        proof {
            lemma_assoc_dom(self.pairs(), path@);
        }
        self.find(path).is_some()
    }

    /// The entry of `path`: `None` when it has none, else the request on it.
    pub fn get(&self, path: &str) -> (res: Option<Option<DiskOp>>)
        requires
            self.wf(),
        ensures
            self@.dom().contains(path@) ==> res == Some(self@[path@]),
            !self@.dom().contains(path@) ==> res is None,
    {
        proof {
            lemma_assoc_dom(self.pairs(), path@);
        }
        match self.find(path) {
            Some(i) => {
                proof {
                    lemma_assoc_at(self.pairs(), i as int);
                }
                Some(copy_opt_disk_op(&self.entries[i].1))
            },
            None => None,
        }
    }

    /// Set the request on `path`, adding the path if it had no entry.
    pub fn insert(&mut self, path: &str, op: Option<DiskOp>)
        requires
            old(self).wf(),
        ensures
            final(self).wf(),
            final(self)@ == old(self)@.insert(path@, op),
    {
        let ghost s = self.pairs();
        match self.find(path) {
            Some(i) => {
                let key = self.entries[i].0.clone();
                self.entries.set(i, (key, op));
                proof {
                    lemma_assoc_update(s, i as int, op);
                    assert(self.pairs() =~= s.update(i as int, (s[i as int].0, op)));
                }
            },
            None => {
                self.entries.push((String::from_str(path), op));
                proof {
                    lemma_assoc_push(s, path@, op);
                    assert(self.pairs() =~= s.push((path@, op)));
                }
            },
        }
    }

    /// A copy of this record.
    pub fn copy(&self) -> (res: DiskOps)
        requires
            self.wf(),
        ensures
            res.wf(),
            res@ == self@,
    {
        let mut entries: Vec<(String, Option<DiskOp>)> = Vec::new();
        let mut i: usize = 0;
        while i < self.entries.len()
            invariant
                i <= self.entries@.len(),
                entries@.len() == i,
                forall|j: int| 0 <= j < i ==> #[trigger] entries@[j] == self.entries@[j],
            decreases self.entries@.len() - i,
        {
            let e = &self.entries[i];
            entries.push((e.0.clone(), copy_opt_disk_op(&e.1)));
            i = i + 1;
        }
        let res = DiskOps { entries };
        assert(res.entries@ =~= self.entries@);
        res
    }

    /// The fresh record of `disk`: the disk and every partition whose path
    /// contains the disk's path, none with a request.
    pub fn fresh(disk: &str, partitions: &Vec<String>) -> (res: DiskOps)
        ensures
            res.wf(),
            res@ == fresh_disk_view(disk@, path_views(partitions@)),
    {
        let mut res = DiskOps::new();
        res.insert(disk, None);
        let mut i: usize = 0;
        while i < partitions.len()
            invariant
                res.wf(),
                i <= partitions@.len(),
                res@ == Map::new(
                    |p: Seq<char>| p == disk@ || (path_views(partitions@).take(i as int).contains(p)
                        && contains_seq(p, disk@)),
                    |p: Seq<char>| None::<DiskOp>,
                ),
            decreases partitions@.len() - i,
        {
            let ghost before = res@;
            let part = partitions[i].as_str();
            if contains(part, disk) {
                res.insert(part, None);
            }
            proof {
                let pv = path_views(partitions@);
                assert(pv[i as int] == part@);
                assert(pv.take(i + 1) =~= pv.take(i as int).push(part@));
                assert forall|p: Seq<char>| pv.take(i + 1).contains(p) <==> (pv.take(
                    i as int,
                ).contains(p) || p == part@) by {
                    if pv.take(i + 1).contains(p) {
                        let k = choose|k: int| 0 <= k < pv.take(i + 1).len() && #[trigger] pv.take(i + 1)[k] == p;
                        if k < i {
                            assert(pv.take(i as int)[k] == p);
                        }
                    }
                    if p == part@ {
                        assert(pv.take(i + 1)[i as int] == p);
                    }
                    if pv.take(i as int).contains(p) {
                        let k = choose|k: int| 0 <= k < pv.take(i as int).len() && #[trigger] pv.take(i as int)[k] == p;
                        assert(pv.take(i + 1)[k] == p);
                    }
                }
                assert forall|p: Seq<char>| res@.dom().contains(p) <==> (p == disk@ || (pv.take(
                    i + 1,
                ).contains(p) && contains_seq(p, disk@))) by {
                    assert(before.dom().contains(p) <==> (p == disk@ || (pv.take(i as int).contains(p)
                        && contains_seq(p, disk@))));
                }
                assert(res@ =~= Map::new(
                    |p: Seq<char>| p == disk@ || (pv.take(i + 1).contains(p) && contains_seq(p, disk@)),
                    |p: Seq<char>| None::<DiskOp>,
                ));
            }
            i = i + 1;
        }
        proof {
            assert(path_views(partitions@).take(partitions@.len() as int) =~= path_views(partitions@));
            assert(res@ =~= fresh_disk_view(disk@, path_views(partitions@)));
        }
        res
    }
}

/// Whether a returned result ends the disk's removal work: it failed, a
/// SafeToRemove or Remove did not succeed, a Remove succeeded, or a
/// SafeToRemove succeeded and found the disk not safe to remove.
pub open spec fn result_finished(ret: OpOutcomeResult) -> bool {
    ||| ret.result == ResultType::ERR
    ||| outcome_of(ret) != OpOutcome::Success && (ret.op_type == Op::SafeToRemove || ret.op_type
        == Op::Remove)
    ||| outcome_of(ret) == OpOutcome::Success && ret.op_type == Op::Remove
    ||| outcome_of(ret) == OpOutcome::Success && !value_of(ret) && ret.op_type == Op::SafeToRemove
}

/// Whether the request on a path has come back finished.
pub open spec fn op_finished(op: Option<DiskOp>) -> bool {
    match op {
        Some(o) => match o.ret_val {
            Some(ret) => result_finished(ret),
            None => false,
        },
        None => false,
    }
}

fn result_finished_exec(ret: &OpOutcomeResult) -> (res: bool)
    ensures
        res == result_finished(*ret),
{
    let outcome = ret.get_outcome();
    let op_type = ret.get_op_type();
    !(!(ret.get_result() == ResultType::ERR) && !(outcome != OpOutcome::Success && (op_type
        == Op::SafeToRemove || op_type == Op::Remove)) && !(outcome == OpOutcome::Success && op_type
        == Op::Remove) && !(outcome == OpOutcome::Success && !ret.get_value() && op_type
        == Op::SafeToRemove))
}

impl DiskOps {
    /// Whether the request on every path has come back finished.
    pub fn all_finished(&self) -> (res: bool)
        requires
            self.wf(),
        ensures
            res == forall|k: Seq<char>| self@.dom().contains(k) ==> op_finished(#[trigger] self@[k]),
    {
        let mut all = true;
        let mut i: usize = 0;
        while i < self.entries.len()
            invariant
                self.wf(),
                i <= self.entries@.len(),
                all == forall|j: int| 0 <= j < i ==> op_finished(#[trigger] self.pairs()[j].1),
            decreases self.entries@.len() - i,
        {
            let done = match &self.entries[i].1 {
                Some(op) => match &op.ret_val {
                    Some(ret) => result_finished_exec(ret),
                    None => false,
                },
                None => false,
            };
            if !done {
                all = false;
            }
            proof {
                assert(self.pairs()[i as int].1 == self.entries@[i as int].1);
                if all {
                    assert forall|j: int| 0 <= j < i + 1 implies op_finished(#[trigger] self.pairs()[j].1) by {
                    }
                }
            }
            i = i + 1;
        }
        proof {
            let s = self.pairs();
            if all {
                assert forall|k: Seq<char>| self@.dom().contains(k) implies op_finished(#[trigger] self@[k]) by {
                    lemma_assoc_dom(s, k);
                    let j = choose|j: int| 0 <= j < s.len() && #[trigger] s[j].0 == k;
                    lemma_assoc_at(s, j);
                }
            } else {
                assert(s.len() == self.entries@.len());
                let j = choose|j: int| 0 <= j < s.len() && !op_finished(#[trigger] s[j].1);
                lemma_assoc_at(s, j);
                assert(self@.dom().contains(s[j].0) && !op_finished(self@[s[j].0]));
            }
        }
        all
    }
}

impl View for DiskOps {
    type V = Map<Seq<char>, Option<DiskOp>>;

    closed spec fn view(&self) -> Map<Seq<char>, Option<DiskOp>> {
        assoc_view(self.pairs())
    }
}


/// The request running on `dev` of disk `parent`, if any.
pub open spec fn map_op(
    m: Map<Seq<char>, Map<Seq<char>, Option<DiskOp>>>,
    parent: Seq<char>,
    dev: Seq<char>,
) -> Option<DiskOp> {
    if m.dom().contains(parent) && m[parent].dom().contains(dev) {
        m[parent][dev]
    } else {
        None
    }
}

/// For every disk, the requests on its paths.
#[derive(Debug)]
pub struct MessageMap {
    disks: Vec<(String, DiskOps)>,
}

impl MessageMap {
    /// The disks as `(path, requests)` pairs.
    pub closed spec fn pairs(&self) -> Seq<(Seq<char>, Map<Seq<char>, Option<DiskOp>>)> {
        self.disks@.map_values(|e: (String, DiskOps)| (e.0@, e.1@))
    }

    /// No disk occurs twice, and no path twice within a disk.
    pub closed spec fn wf(&self) -> bool {
        &&& keys_unique(self.pairs())
        &&& forall|i: int| 0 <= i < self.disks@.len() ==> (#[trigger] self.disks@[i]).1.wf()
    }

    /// A map with no disks.
    pub fn new() -> (res: MessageMap)
        ensures
            res.wf(),
            res@ == Map::<Seq<char>, Map<Seq<char>, Option<DiskOp>>>::empty(),
    {
        let res = MessageMap { disks: Vec::new() };
        proof {
            assert(res.pairs() =~= Seq::<(Seq<char>, Map<Seq<char>, Option<DiskOp>>)>::empty());
            lemma_assoc_empty::<Map<Seq<char>, Option<DiskOp>>>();
        }
        res
    }

    fn find_disk(&self, k: &str) -> (res: Option<usize>)
        ensures
            res matches Some(i) ==> i < self.disks@.len() && self.pairs()[i as int].0 == k@,
            res is None ==> !has_key(self.pairs(), k@),
    {
        let mut i: usize = 0;
        while i < self.disks.len()
            invariant
                i <= self.disks@.len(),
                forall|j: int| 0 <= j < i ==> self.pairs()[j].0 != k@,
            decreases self.disks@.len() - i,
        {
            if str_eq(self.disks[i].0.as_str(), k) {
                return Some(i);
            }
            i = i + 1;
        }
        proof {
            if has_key(self.pairs(), k@) {
                let j = choose|j: int| 0 <= j < self.pairs().len() && #[trigger] self.pairs()[j].0 == k@;
                assert(self.pairs()[j].0 != k@);
            }
        }
        None
    }

    /// The disk at index `i` reads as the map's entry for its path.
    proof fn lemma_disk_at(&self, i: int)
        requires
            self.wf(),
            0 <= i < self.disks@.len(),
        ensures
            self@.dom().contains(self.disks@[i].0@),
            self@[self.disks@[i].0@] == self.disks@[i].1@,
            self.disks@[i].1.wf(),
    {
        lemma_assoc_at(self.pairs(), i);
    }

    /// The number of disks.
    pub fn len(&self) -> (res: usize)
        requires
            self.wf(),
        ensures
            res == self@.dom().len(),
    {
        proof {
            crate::assoc::lemma_assoc_len(self.pairs());
        }
        self.disks.len()
    }

    /// Whether `disk` has an entry.
    pub fn contains_disk(&self, disk: &str) -> (res: bool)
        ensures
            res == self@.dom().contains(disk@),
    {
        proof {
            lemma_assoc_dom(self.pairs(), disk@);
        }
        self.find_disk(disk).is_some()
    }

    /// Set the requests of `disk`, adding the disk if it had no entry.
    pub fn insert_disk(&mut self, disk: &str, ops: DiskOps)
        requires
            old(self).wf(),
            ops.wf(),
        ensures
            final(self).wf(),
            final(self)@ == old(self)@.insert(disk@, ops@),
    {
        let ghost s = self.pairs();
        let ghost v = ops@;
        match self.find_disk(disk) {
            Some(i) => {
                let key = self.disks[i].0.clone();
                self.disks.set(i, (key, ops));
                proof {
                    lemma_assoc_update(s, i as int, v);
                    assert(self.pairs() =~= s.update(i as int, (s[i as int].0, v)));
                }
            },
            None => {
                self.disks.push((String::from_str(disk), ops));
                proof {
                    lemma_assoc_push(s, disk@, v);
                    assert(self.pairs() =~= s.push((disk@, v)));
                }
            },
        }
    }

    /// Set the request on `path` of the disk at index `i`.
    fn set_at(&mut self, i: usize, path: &str, op: Option<DiskOp>)
        requires
            old(self).wf(),
            i < old(self).disks@.len(),
        ensures
            final(self).wf(),
            final(self)@ == old(self)@.insert(
                old(self).disks@[i as int].0@,
                old(self).disks@[i as int].1@.insert(path@, op),
            ),
    {
        let ghost s = self.pairs();
        proof {
            self.lemma_disk_at(i as int);
        }
        let mut entry = self.disks[i].1.copy();
        entry.insert(path, op);
        let key = self.disks[i].0.clone();
        let ghost v = entry@;
        self.disks.set(i, (key, entry));
        proof {
            lemma_assoc_update(s, i as int, v);
            assert(self.pairs() =~= s.update(i as int, (s[i as int].0, v)));
        }
    }

    /// The request running on `dev_path` of disk `parent`, if any.
    pub fn get_map_op(&self, parent: &str, dev_path: &str) -> (res: Option<DiskOp>)
        requires
            self.wf(),
        ensures
            res == map_op(self@, parent@, dev_path@),
    {
        proof {
            lemma_assoc_dom(self.pairs(), parent@);
        }
        match self.find_disk(parent) {
            Some(i) => {
                proof {
                    self.lemma_disk_at(i as int);
                }
                match self.disks[i].1.get(dev_path) {
                    Some(op) => op,
                    None => None,
                }
            },
            None => None,
        }
    }

    /// Record `op` on `dev_path` of disk `parent`, returning the request it
    /// replaces. A disk not yet in the map is added with its partitions (those
    /// of `partitions` whose path contains the disk's). A disk in the map
    /// whose own path has no entry is an error.
    pub fn add_or_update_map_op(
        &mut self,
        parent: &str,
        dev_path: &str,
        op: Option<DiskOp>,
        partitions: &Vec<String>,
    ) -> (res: Result<Option<DiskOp>, BynarError>)
        requires
            old(self).wf(),
        ensures
            final(self).wf(),
            old(self)@.dom().contains(parent@) && old(self)@[parent@].dom().contains(dev_path@)
                ==> res == Ok::<Option<DiskOp>, BynarError>(old(self)@[parent@][dev_path@])
                && final(self)@ == old(self)@.insert(
                parent@,
                old(self)@[parent@].insert(dev_path@, op),
            ),
            old(self)@.dom().contains(parent@) && !old(self)@[parent@].dom().contains(dev_path@)
                && parent@ == dev_path@ ==> (res matches Err(BynarError::Error(m)) && m@
                == "Map is missing the disk entry but disk "@ + parent@ + " exists in the map"@)
                && final(self)@ == old(self)@,
            old(self)@.dom().contains(parent@) && !old(self)@[parent@].dom().contains(dev_path@)
                && parent@ != dev_path@ ==> res == Ok::<Option<DiskOp>, BynarError>(None)
                && final(self)@ == old(self)@.insert(
                parent@,
                old(self)@[parent@].insert(dev_path@, op),
            ),
            !old(self)@.dom().contains(parent@) ==> res == Ok::<Option<DiskOp>, BynarError>(None)
                && final(self)@ == old(self)@.insert(
                parent@,
                fresh_disk_view(parent@, path_views(partitions@)).insert(dev_path@, op),
            ),
    {
        proof {
            lemma_assoc_dom(self.pairs(), parent@);
        }
        match self.find_disk(parent) {
            Some(i) => {
                proof {
                    self.lemma_disk_at(i as int);
                }
                match self.disks[i].1.get(dev_path) {
                    Some(previous) => {
                        self.set_at(i, dev_path, op);
                        Ok(previous)
                    },
                    None => {
                        if str_eq(parent, dev_path) {
                            Err(
                                BynarError::Error(
                                    concat3(
                                        "Map is missing the disk entry but disk ",
                                        parent,
                                        " exists in the map",
                                    ),
                                ),
                            )
                        } else {
                            self.set_at(i, dev_path, op);
                            Ok(None)
                        }
                    },
                }
            },
            None => {
                let mut ops = DiskOps::fresh(parent, partitions);
                ops.insert(dev_path, op);
                self.insert_disk(parent, ops);
                Ok(None)
            },
        }
    }

    /// Clear the request on `dev_path` of disk `parent`, returning it; a path
    /// not in the map is an error.
    pub fn remove_map_op(&mut self, parent: &str, dev_path: &str) -> (res: Result<Option<DiskOp>, BynarError>)
        requires
            old(self).wf(),
        ensures
            final(self).wf(),
            old(self)@.dom().contains(parent@) && old(self)@[parent@].dom().contains(dev_path@)
                ==> res == Ok::<Option<DiskOp>, BynarError>(old(self)@[parent@][dev_path@])
                && final(self)@ == old(self)@.insert(
                parent@,
                old(self)@[parent@].insert(dev_path@, None),
            ),
            !(old(self)@.dom().contains(parent@) && old(self)@[parent@].dom().contains(dev_path@))
                ==> (res matches Err(BynarError::Error(m)) && m@ == "Path "@ + dev_path@
                + " is not in the message map"@) && final(self)@ == old(self)@,
    {
        proof {
            lemma_assoc_dom(self.pairs(), parent@);
        }
        match self.find_disk(parent) {
            Some(i) => {
                proof {
                    self.lemma_disk_at(i as int);
                }
                match self.disks[i].1.get(dev_path) {
                    Some(previous) => {
                        self.set_at(i, dev_path, None);
                        return Ok(previous);
                    },
                    None => {},
                }
            },
            None => {},
        }
        Err(BynarError::Error(concat3("Path ", dev_path, " is not in the message map")))
    }

    /// A copy of the requests of disk `parent`; a disk not in the map is an
    /// error naming `dev_path`.
    pub fn get_disk_map_op(&self, parent: &str, dev_path: &str) -> (res: Result<DiskOps, BynarError>)
        requires
            self.wf(),
        ensures
            self@.dom().contains(parent@) ==> (res matches Ok(d) && d.wf() && d@ == self@[parent@]),
            !self@.dom().contains(parent@) ==> (res matches Err(BynarError::Error(m)) && m@
                == "Path "@ + dev_path@ + " is not a disk in the map"@),
    {
        proof {
            lemma_assoc_dom(self.pairs(), parent@);
        }
        match self.find_disk(parent) {
            Some(i) => {
                proof {
                    self.lemma_disk_at(i as int);
                }
                Ok(self.disks[i].1.copy())
            },
            None => Err(BynarError::Error(concat3("Path ", dev_path, " is not a disk in the map"))),
        }
    }
}

impl MessageMap {
    /// Store the result `op_res` with the request running on `dev_path` of
    /// disk `parent`; a path with no request running is an error.
    pub fn update_map_result(
        &mut self,
        parent: &str,
        dev_path: &str,
        hostname: &str,
        op_res: OpOutcomeResult,
    ) -> (res: Result<(), BynarError>)
        requires
            old(self).wf(),
        ensures
            final(self).wf(),
            map_op(old(self)@, parent@, dev_path@) matches Some(o) ==> res is Ok && final(self)@
                == old(self)@.insert(
                parent@,
                old(self)@[parent@].insert(
                    dev_path@,
                    Some(DiskOp { ret_val: Some(op_res), ..o }),
                ),
            ),
            map_op(old(self)@, parent@, dev_path@) is None ==> (res matches Err(BynarError::Error(m))
                && m@ == dev_path@ + " on host "@ + hostname@
                + " does not have a currently running operation!"@) && final(self)@ == old(self)@,
    {
        match self.get_map_op(parent, dev_path) {
            Some(current) => {
                let updated = DiskOp {
                    op_type: current.op_type,
                    description: current.description,
                    operation_id: current.operation_id,
                    ret_val: Some(op_res),
                };
                let no_partitions: Vec<String> = Vec::new();
                let _ = self.add_or_update_map_op(parent, dev_path, Some(updated), &no_partitions);
                Ok(())
            },
            None => {
                let msg = concat3(dev_path, " on host ", hostname);
                Err(BynarError::Error(msg.concat(" does not have a currently running operation!")))
            },
        }
    }

    /// Whether every request on disk `parent` has come back finished; a disk
    /// not in the map is an error naming `dev_path`.
    pub fn is_all_finished(&self, parent: &str, dev_path: &str) -> (res: Result<bool, BynarError>)
        requires
            self.wf(),
        ensures
            self@.dom().contains(parent@) ==> res == Ok::<bool, BynarError>(
                forall|k: Seq<char>| #[trigger] self@[parent@].dom().contains(k) ==> op_finished(
                    self@[parent@][k],
                ),
            ),
            !self@.dom().contains(parent@) ==> (res matches Err(BynarError::Error(m)) && m@
                == "Path "@ + dev_path@ + " is not a disk in the map"@),
    {
        let disk = self.get_disk_map_op(parent, dev_path)?;
        let all = disk.all_finished();
        assert(all == forall|k: Seq<char>| #[trigger] self@[parent@].dom().contains(k) ==> op_finished(
            self@[parent@][k],
        ));
        Ok(all)
    }
}

impl View for MessageMap {
    type V = Map<Seq<char>, Map<Seq<char>, Option<DiskOp>>>;

    closed spec fn view(&self) -> Map<Seq<char>, Map<Seq<char>, Option<DiskOp>>> {
        assoc_view(self.pairs())
    }
}


/// The map after recording `op` on `dev` of disk `parent`, as
/// `add_or_update_map_op` does when it succeeds.
pub open spec fn with_op(
    m: Map<Seq<char>, Map<Seq<char>, Option<DiskOp>>>,
    parent: Seq<char>,
    dev: Seq<char>,
    op: Option<DiskOp>,
    partitions: Seq<Seq<char>>,
) -> Map<Seq<char>, Map<Seq<char>, Option<DiskOp>>> {
    if m.dom().contains(parent) {
        m.insert(parent, m[parent].insert(dev, op))
    } else {
        m.insert(parent, fresh_disk_view(parent, partitions).insert(dev, op))
    }
}

/// Reading a path back after recording a request on it gives that request.
pub proof fn lemma_read_after_write(
    m: Map<Seq<char>, Map<Seq<char>, Option<DiskOp>>>,
    parent: Seq<char>,
    dev: Seq<char>,
    op: Option<DiskOp>,
    partitions: Seq<Seq<char>>,
)
    ensures
        map_op(with_op(m, parent, dev, op, partitions), parent, dev) == op,
{
}

/// Recording a request on one path leaves what every other path reads.
pub proof fn lemma_write_leaves_other_paths(
    m: Map<Seq<char>, Map<Seq<char>, Option<DiskOp>>>,
    parent: Seq<char>,
    dev: Seq<char>,
    op: Option<DiskOp>,
    partitions: Seq<Seq<char>>,
    other_parent: Seq<char>,
    other_dev: Seq<char>,
)
    requires
        other_parent != parent || other_dev != dev,
    ensures
        map_op(with_op(m, parent, dev, op, partitions), other_parent, other_dev) == map_op(
            m,
            other_parent,
            other_dev,
        ),
{
}

/// After a request is cleared, the path reads as having none.
pub proof fn lemma_read_after_clear(
    m: Map<Seq<char>, Map<Seq<char>, Option<DiskOp>>>,
    parent: Seq<char>,
    dev: Seq<char>,
)
    requires
        m.dom().contains(parent),
        m[parent].dom().contains(dev),
    ensures
        map_op(m.insert(parent, m[parent].insert(dev, None)), parent, dev) is None,
        m.insert(parent, m[parent].insert(dev, None)).dom() == m.dom(),
{
    assert(m.insert(parent, m[parent].insert(dev, None)).dom() =~= m.dom());
}

} // verus!
