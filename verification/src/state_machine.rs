//! The disk health state machine: a graph of allowed moves between states,
//! walked in the order the moves were added, most hopeful first.
//!
//! The work a move does (mounting, running fsck, formatting) happens outside
//! the library. The machine tells its driver which move to attempt next and
//! is told the state that move reached; from that it decides where the disk
//! stands and what comes next.
use vstd::prelude::*;
use crate::disk_state::State;
use crate::device::{BlockDevice, ScsiInfo};
use crate::graph::{
    CodeGraph, graph_edges, pair_at, pairs_unique, has_pair, after_add_edge, edges_leaving, leaves,
    new_code_graph, add_code_edge, code_edges_from,
};

verus! {

/// The work attempted to move a disk from one state to another.
#[derive(Debug, Clone, Copy, PartialEq, Eq, Structural)]
pub enum Transition {
    AttemptRepair,
    CheckForCorruption,
    CheckReadOnly,
    CheckWearLeveling,
    Eval,
    MarkForReplacement,
    Mount,
    NoOp,
    Reformat,
    Remount,
    Replace,
    Scan,
}

/// The code a state is stored under in the graph.
pub open spec fn state_code(s: State) -> u8 {
    match s {
        State::Corrupt => 0,
        State::Fail => 1,
        State::Good => 2,
        State::Mounted => 3,
        State::MountFailed => 4,
        State::NotMounted => 5,
        State::ReadOnly => 6,
        State::ReformatFailed => 7,
        State::Reformatted => 8,
        State::RepairFailed => 9,
        State::Repaired => 10,
        State::Replaced => 11,
        State::Scanned => 12,
        State::Unscanned => 13,
        State::WaitingForReplacement => 14,
        State::WornOut => 15,
        State::WriteFailed => 16,
    }
}

/// The state stored under a code.
pub open spec fn code_state(c: u8) -> Option<State> {
    if c == 0 {
        Some(State::Corrupt)
    } else if c == 1 {
        Some(State::Fail)
    } else if c == 2 {
        Some(State::Good)
    } else if c == 3 {
        Some(State::Mounted)
    } else if c == 4 {
        Some(State::MountFailed)
    } else if c == 5 {
        Some(State::NotMounted)
    } else if c == 6 {
        Some(State::ReadOnly)
    } else if c == 7 {
        Some(State::ReformatFailed)
    } else if c == 8 {
        Some(State::Reformatted)
    } else if c == 9 {
        Some(State::RepairFailed)
    } else if c == 10 {
        Some(State::Repaired)
    } else if c == 11 {
        Some(State::Replaced)
    } else if c == 12 {
        Some(State::Scanned)
    } else if c == 13 {
        Some(State::Unscanned)
    } else if c == 14 {
        Some(State::WaitingForReplacement)
    } else if c == 15 {
        Some(State::WornOut)
    } else if c == 16 {
        Some(State::WriteFailed)
    } else {
        None
    }
}

/// The code a transition is stored under as an edge weight.
pub open spec fn transition_code(t: Transition) -> u8 {
    match t {
        Transition::AttemptRepair => 0,
        Transition::CheckForCorruption => 1,
        Transition::CheckReadOnly => 2,
        Transition::CheckWearLeveling => 3,
        Transition::Eval => 4,
        Transition::MarkForReplacement => 5,
        Transition::Mount => 6,
        Transition::NoOp => 7,
        Transition::Reformat => 8,
        Transition::Remount => 9,
        Transition::Replace => 10,
        Transition::Scan => 11,
    }
}

/// The transition stored under a code.
pub open spec fn code_transition(c: u8) -> Option<Transition> {
    if c == 0 {
        Some(Transition::AttemptRepair)
    } else if c == 1 {
        Some(Transition::CheckForCorruption)
    } else if c == 2 {
        Some(Transition::CheckReadOnly)
    } else if c == 3 {
        Some(Transition::CheckWearLeveling)
    } else if c == 4 {
        Some(Transition::Eval)
    } else if c == 5 {
        Some(Transition::MarkForReplacement)
    } else if c == 6 {
        Some(Transition::Mount)
    } else if c == 7 {
        Some(Transition::NoOp)
    } else if c == 8 {
        Some(Transition::Reformat)
    } else if c == 9 {
        Some(Transition::Remount)
    } else if c == 10 {
        Some(Transition::Replace)
    } else if c == 11 {
        Some(Transition::Scan)
    } else {
        None
    }
}

/// The label a transition carries in the recorded graph.
pub open spec fn transition_label(t: Transition) -> Seq<char> {
    match t {
        Transition::AttemptRepair => "AttemptRepair"@,
        Transition::CheckForCorruption => "CheckForCorruption"@,
        Transition::CheckReadOnly => "CheckReadOnly"@,
        Transition::CheckWearLeveling => "CheckWearLeveling"@,
        Transition::Eval => "Eval"@,
        Transition::MarkForReplacement => "MarkForReplacement"@,
        Transition::Mount => "Mount"@,
        Transition::NoOp => "NoOp"@,
        Transition::Reformat => "Reformat"@,
        Transition::Remount => "Remount"@,
        Transition::Replace => "Replace"@,
        Transition::Scan => "Scan"@,
    }
}

/// An edge `(from, to, transition)` as stored in the graph.
pub open spec fn encode_edge(e: (State, State, Transition)) -> (u8, u8, u8) {
    (state_code(e.0), state_code(e.1), transition_code(e.2))
}

/// A stored edge read back.
pub open spec fn decode_edge(e: (u8, u8, u8)) -> (State, State, Transition) {
    (code_state(e.0).unwrap(), code_state(e.1).unwrap(), code_transition(e.2).unwrap())
}

/// Every code in `s` names a state or a transition.
pub open spec fn valid_codes(s: Seq<(u8, u8, u8)>) -> bool {
    forall|i: int| 0 <= i < s.len() ==> #[trigger] s[i].0 < 17 && s[i].1 < 17 && s[i].2 < 12
}

/// The moves a disk may make, in the order they are tried: from each state
/// the most hopeful outcome comes first.
pub open spec fn transition_table() -> Seq<(State, State, Transition)> {
    seq![
        (State::Unscanned, State::Scanned, Transition::Scan),
        (State::Unscanned, State::Fail, Transition::Scan),
        (State::NotMounted, State::Mounted, Transition::Mount),
        (State::NotMounted, State::MountFailed, Transition::Mount),
        (State::MountFailed, State::Corrupt, Transition::CheckForCorruption),
        (State::Scanned, State::Good, Transition::Eval),
        (State::Scanned, State::NotMounted, Transition::Eval),
        (State::Scanned, State::WriteFailed, Transition::Eval),
        (State::Scanned, State::WornOut, Transition::CheckWearLeveling),
        (State::Mounted, State::Scanned, Transition::NoOp),
        (State::ReadOnly, State::Mounted, Transition::Remount),
        (State::ReadOnly, State::MountFailed, Transition::Remount),
        (State::Corrupt, State::Repaired, Transition::AttemptRepair),
        (State::Corrupt, State::RepairFailed, Transition::NoOp),
        (State::RepairFailed, State::Reformatted, Transition::Reformat),
        (State::RepairFailed, State::ReformatFailed, Transition::NoOp),
        (State::ReformatFailed, State::WaitingForReplacement, Transition::NoOp),
        (State::Reformatted, State::Unscanned, Transition::NoOp),
        (State::WornOut, State::WaitingForReplacement, Transition::MarkForReplacement),
        (State::Repaired, State::Unscanned, Transition::NoOp),
        (State::WaitingForReplacement, State::Replaced, Transition::Replace),
        (State::Replaced, State::Unscanned, Transition::NoOp),
        (State::WriteFailed, State::ReadOnly, Transition::CheckReadOnly),
        (State::WriteFailed, State::Corrupt, Transition::CheckForCorruption),
    ]
}

/// The table as stored in the graph.
pub open spec fn encoded_table() -> Seq<(u8, u8, u8)> {
    transition_table().map_values(|e: (State, State, Transition)| encode_edge(e))
}

/// The edge list after adding each of `es` in turn.
pub open spec fn add_all(s: Seq<(u8, u8, u8)>, es: Seq<(u8, u8, u8)>) -> Seq<(u8, u8, u8)>
    decreases es.len(),
{
    if es.len() == 0 {
        s
    } else {
        let e = es.last();
        after_add_edge(add_all(s, es.drop_last()), e.0, e.1, e.2)
    }
}

/// Where a run stands: the disk's state, whether the run goes on, the state
/// the current round began in, the edges of that round and the next one to try.
pub struct RunView {
    pub state: State,
    pub running: bool,
    pub beginning: State,
    pub round: Seq<(u8, u8, u8)>,
    pub next: int,
}

/// A round of attempts from `s`: its edges, tried from the first; a state
/// with no edges ends the run.
pub open spec fn round_from(g: Seq<(u8, u8, u8)>, s: State) -> RunView {
    let round = edges_leaving(g, state_code(s));
    RunView { state: s, running: round.len() > 0, beginning: s, round, next: 0 }
}

/// How a run begins: a disk found good is scanned again.
pub open spec fn run_start(g: Seq<(u8, u8, u8)>, s: State) -> RunView {
    if s == State::Good {
        round_from(g, State::Unscanned)
    } else {
        round_from(g, s)
    }
}

/// Give up on the current edge and move to the next one; a round with no
/// edges left ends the run in the state it began in.
pub open spec fn skip_edge(r: RunView) -> RunView {
    if r.next + 1 < r.round.len() {
        RunView { next: r.next + 1, ..r }
    } else {
        RunView { running: false, ..r }
    }
}

/// What a run does with the state the attempted move reached:
/// - `Fail`: the next edge is tried;
/// - `Good` or `WaitingForReplacement`: the disk takes that state and the run ends;
/// - the edge's own target: the disk takes it and a new round starts there;
/// - anything else: the next edge is tried.
pub open spec fn run_step(g: Seq<(u8, u8, u8)>, r: RunView, outcome: State) -> RunView {
    let target = code_state(r.round[r.next].1).unwrap();
    if outcome == State::Fail {
        skip_edge(r)
    } else if outcome == State::WaitingForReplacement || outcome == State::Good {
        RunView { state: outcome, running: false, ..r }
    } else if outcome == target {
        if outcome == r.beginning {
            RunView { running: false, ..r }
        } else {
            round_from(g, outcome)
        }
    } else {
        skip_edge(r)
    }
}

impl State {
    /// The code this state is stored under.
    pub fn code(&self) -> (c: u8)
        ensures
            c == state_code(*self),
    {
        match self {
            State::Corrupt => 0,
            State::Fail => 1,
            State::Good => 2,
            State::Mounted => 3,
            State::MountFailed => 4,
            State::NotMounted => 5,
            State::ReadOnly => 6,
            State::ReformatFailed => 7,
            State::Reformatted => 8,
            State::RepairFailed => 9,
            State::Repaired => 10,
            State::Replaced => 11,
            State::Scanned => 12,
            State::Unscanned => 13,
            State::WaitingForReplacement => 14,
            State::WornOut => 15,
            State::WriteFailed => 16,
        }
    }

    /// The state stored under a code.
    pub fn from_code(c: u8) -> (res: Option<State>)
        ensures
            res == code_state(c),
    {
        match c {
            0 => Some(State::Corrupt),
            1 => Some(State::Fail),
            2 => Some(State::Good),
            3 => Some(State::Mounted),
            4 => Some(State::MountFailed),
            5 => Some(State::NotMounted),
            6 => Some(State::ReadOnly),
            7 => Some(State::ReformatFailed),
            8 => Some(State::Reformatted),
            9 => Some(State::RepairFailed),
            10 => Some(State::Repaired),
            11 => Some(State::Replaced),
            12 => Some(State::Scanned),
            13 => Some(State::Unscanned),
            14 => Some(State::WaitingForReplacement),
            15 => Some(State::WornOut),
            16 => Some(State::WriteFailed),
            _ => None,
        }
    }
}

impl Transition {
    /// The code this transition is stored under.
    pub fn code(&self) -> (c: u8)
        ensures
            c == transition_code(*self),
    {
        match self {
            Transition::AttemptRepair => 0,
            Transition::CheckForCorruption => 1,
            Transition::CheckReadOnly => 2,
            Transition::CheckWearLeveling => 3,
            Transition::Eval => 4,
            Transition::MarkForReplacement => 5,
            Transition::Mount => 6,
            Transition::NoOp => 7,
            Transition::Reformat => 8,
            Transition::Remount => 9,
            Transition::Replace => 10,
            Transition::Scan => 11,
        }
    }

    /// The transition stored under a code.
    pub fn from_code(c: u8) -> (res: Option<Transition>)
        ensures
            res == code_transition(c),
    {
        match c {
            0 => Some(Transition::AttemptRepair),
            1 => Some(Transition::CheckForCorruption),
            2 => Some(Transition::CheckReadOnly),
            3 => Some(Transition::CheckWearLeveling),
            4 => Some(Transition::Eval),
            5 => Some(Transition::MarkForReplacement),
            6 => Some(Transition::Mount),
            7 => Some(Transition::NoOp),
            8 => Some(Transition::Reformat),
            9 => Some(Transition::Remount),
            10 => Some(Transition::Replace),
            11 => Some(Transition::Scan),
            _ => None,
        }
    }

    /// The label of this transition.
    pub fn label(&self) -> (res: &'static str)
        ensures
            res@ == transition_label(*self),
    {
        match self {
            Transition::AttemptRepair => "AttemptRepair",
            Transition::CheckForCorruption => "CheckForCorruption",
            Transition::CheckReadOnly => "CheckReadOnly",
            Transition::CheckWearLeveling => "CheckWearLeveling",
            Transition::Eval => "Eval",
            Transition::MarkForReplacement => "MarkForReplacement",
            Transition::Mount => "Mount",
            Transition::NoOp => "NoOp",
            Transition::Reformat => "Reformat",
            Transition::Remount => "Remount",
            Transition::Replace => "Replace",
            Transition::Scan => "Scan",
        }
    }
}

/// Every state comes back from its code.
pub proof fn lemma_state_code_roundtrip(s: State)
    ensures
        code_state(state_code(s)) == Some(s),
        state_code(s) < 17,
{
}

/// Every transition comes back from its code.
pub proof fn lemma_transition_code_roundtrip(t: Transition)
    ensures
        code_transition(transition_code(t)) == Some(t),
        transition_code(t) < 12,
{
}


/// No two edges of the table join the same pair of states.
#[verifier::rlimit(50)]
proof fn lemma_table_pairs_fresh()
    ensures
        encoded_table().len() == 24,
        forall|i: int, j: int|
            0 <= j < i < 24 ==> !(#[trigger] encoded_table()[j].0 == #[trigger] encoded_table()[i].0
                && encoded_table()[j].1 == encoded_table()[i].1),
{
    let t = transition_table();
    assert forall|i: int, j: int| 0 <= j < i < 24 implies !(#[trigger] encoded_table()[j].0
        == #[trigger] encoded_table()[i].0 && encoded_table()[j].1 == encoded_table()[i].1) by {
        assert(encoded_table()[i] == encode_edge(t[i]));
        assert(encoded_table()[j] == encode_edge(t[j]));
    }
}

/// Adding the first `i` edges of the table to an empty graph gives exactly
/// those edges.
proof fn lemma_add_table_prefix(i: int)
    requires
        0 <= i <= 24,
    ensures
        add_all(Seq::empty(), encoded_table().take(i)) == encoded_table().take(i),
    decreases i,
{
    let t = encoded_table();
    lemma_table_pairs_fresh();
    if i > 0 {
        lemma_add_table_prefix(i - 1);
        assert(t.take(i).drop_last() =~= t.take(i - 1));
        let e = t[i - 1];
        if has_pair(t.take(i - 1), e.0, e.1) {
            let k = choose|k: int| #[trigger] pair_at(t.take(i - 1), k, e.0, e.1);
            assert(t.take(i - 1)[k] == t[k]);
            assert(false);
        }
        assert(t.take(i - 1).push(e) =~= t.take(i));
    }
}

/// Code validity survives adding an edge of valid codes.
proof fn lemma_add_keeps_valid(s: Seq<(u8, u8, u8)>, a: u8, b: u8, w: u8)
    requires
        valid_codes(s),
        a < 17,
        b < 17,
        w < 12,
    ensures
        valid_codes(after_add_edge(s, a, b, w)),
{
    let r = after_add_edge(s, a, b, w);
    if has_pair(s, a, b) {
        let k = choose|k: int| #[trigger] pair_at(s, k, a, b);
        assert forall|i: int| 0 <= i < r.len() implies #[trigger] r[i].0 < 17 && r[i].1 < 17
            && r[i].2 < 12 by {
            if i != k {
                assert(r[i] == s[i]);
            }
        }
    } else {
        assert forall|i: int| 0 <= i < r.len() implies #[trigger] r[i].0 < 17 && r[i].1 < 17
            && r[i].2 < 12 by {
            if i < s.len() {
                assert(r[i] == s[i]);
            }
        }
    }
}

/// Walks a disk through its states.
pub struct StateMachine {
    /// The transitions added, with their labels, for drawing the graph
    dot_graph: Vec<(State, State, String)>,
    /// The allowed moves: `from -> to`, weighted by the transition that makes the move
    graph: CodeGraph,
    pub block_device: BlockDevice,
    /// What is known of this device and of its SCSI host, if anything; used to
    /// tell whether the device sits behind a RAID controller
    pub scsi_info: Option<(ScsiInfo, Option<ScsiInfo>)>,
    simulate: bool,
    running: bool,
    beginning: State,
    round: Vec<(u8, u8, u8)>,
    next: usize,
}

impl StateMachine {
    /// The stored edges of the graph.
    pub closed spec fn edges(&self) -> Seq<(u8, u8, u8)> {
        graph_edges(self.graph)
    }

    /// Where the current run stands.
    pub closed spec fn run_view(&self) -> RunView {
        RunView {
            state: self.block_device.state,
            running: self.running,
            beginning: self.beginning,
            round: self.round@,
            next: self.next as int,
        }
    }

    /// The transitions recorded for drawing, in the order they were added.
    pub closed spec fn recorded(&self) -> Seq<(State, State, Seq<char>)> {
        self.dot_graph@.map_values(|e: (State, State, String)| (e.0, e.1, e.2@))
    }

    /// The device being walked.
    pub closed spec fn device(&self) -> BlockDevice {
        self.block_device
    }

    /// What is known of the device's SCSI placement.
    pub closed spec fn scsi(&self) -> Option<(ScsiInfo, Option<ScsiInfo>)> {
        self.scsi_info
    }

    /// Whether side effects are skipped.
    pub closed spec fn simulating(&self) -> bool {
        self.simulate
    }

    /// The graph holds only valid codes and no pair twice.
    closed spec fn graph_ok(&self) -> bool {
        &&& valid_codes(graph_edges(self.graph))
        &&& pairs_unique(graph_edges(self.graph))
    }

    /// The graph holds only valid codes, no pair twice, and a run in progress
    /// is working through the edges leaving the state it began in.
    pub closed spec fn wf(&self) -> bool {
        &&& valid_codes(graph_edges(self.graph))
        &&& pairs_unique(graph_edges(self.graph))
        &&& self.running ==> {
            &&& self.next < self.round@.len()
            &&& self.round@ == edges_leaving(graph_edges(self.graph), state_code(self.beginning))
            &&& self.block_device.state == self.beginning
        }
    }

    /// A machine for `block_device` with no transitions yet.
    pub fn new(
        block_device: BlockDevice,
        scsi_info: Option<(ScsiInfo, Option<ScsiInfo>)>,
        simulate: bool,
    ) -> (res: StateMachine)
        ensures
            res.wf(),
            res.edges() == Seq::<(u8, u8, u8)>::empty(),
            res.recorded() == Seq::<(State, State, Seq<char>)>::empty(),
            res.device() == block_device,
            res.scsi() == scsi_info,
            res.simulating() == simulate,
            !res.run_view().running,
    {
        let state = block_device.state;
        let res = StateMachine {
            dot_graph: Vec::new(),
            graph: new_code_graph(),
            block_device,
            scsi_info,
            simulate,
            running: false,
            beginning: state,
            round: Vec::new(),
            next: 0,
        };
        assert(res.recorded() =~= Seq::<(State, State, Seq<char>)>::empty());
        res
    }

    /// Whether side effects are skipped.
    pub fn simulate(&self) -> (res: bool)
        ensures
            res == self.simulating(),
    {
        self.simulate
    }

    /// The transitions added, with their labels, in order.
    pub fn dot_graph(&self) -> (res: &Vec<(State, State, String)>)
        ensures
            res@.map_values(|e: (State, State, String)| (e.0, e.1, e.2@)) == self.recorded(),
    {
        &self.dot_graph
    }

    /// Allow the move `from -> to`, made by `transition`; a move already
    /// allowed takes the new transition and keeps its place. Ends any run.
    pub fn add_transition(
        &mut self,
        from_state: State,
        to_state: State,
        transition: Transition,
        transition_label: &str,
    )
        requires
            old(self).wf(),
        ensures
            final(self).wf(),
            final(self).edges() == after_add_edge(
                old(self).edges(),
                state_code(from_state),
                state_code(to_state),
                transition_code(transition),
            ),
            final(self).recorded() == old(self).recorded().push(
                (from_state, to_state, transition_label@),
            ),
            final(self).device() == old(self).device(),
            final(self).scsi() == old(self).scsi(),
            final(self).simulating() == old(self).simulating(),
            !final(self).run_view().running,
    {
        proof {
            lemma_state_code_roundtrip(from_state);
            lemma_state_code_roundtrip(to_state);
            lemma_transition_code_roundtrip(transition);
        }
        let ghost old_recorded = self.recorded();
        self.dot_graph.push((from_state, to_state, String::from_str(transition_label)));
        let ghost g0 = graph_edges(self.graph);
        add_code_edge(&mut self.graph, from_state.code(), to_state.code(), transition.code());
        proof {
            lemma_add_keeps_valid(
                g0,
                state_code(from_state),
                state_code(to_state),
                transition_code(transition),
            );
        }
        self.running = false;
        assert(self.recorded() =~= old_recorded.push((from_state, to_state, transition_label@)));
    }

    /// Allow every move of the transition table, in order. On a machine with
    /// no transitions yet, the graph then holds exactly the table.
    pub fn setup_state_machine(&mut self)
        requires
            old(self).wf(),
        ensures
            final(self).wf(),
            final(self).edges() == add_all(old(self).edges(), encoded_table()),
            old(self).edges().len() == 0 ==> final(self).edges() == encoded_table(),
            final(self).recorded() == old(self).recorded() + labelled_table(),
            final(self).device() == old(self).device(),
            final(self).scsi() == old(self).scsi(),
            final(self).simulating() == old(self).simulating(),
            !final(self).run_view().running,
    {
        let table = table_entries();
        let ghost g0 = self.edges();
        let ghost r0 = self.recorded();
        self.running = false;
        let mut i: usize = 0;
        while i < table.len()
            invariant
                self.wf(),
                table@ == transition_table(),
                0 <= i <= table@.len(),
                self.edges() == add_all(g0, encoded_table().take(i as int)),
                self.recorded() == r0 + labelled_table().take(i as int),
                self.device() == old(self).device(),
                self.scsi() == old(self).scsi(),
                self.simulating() == old(self).simulating(),
                !self.run_view().running,
            decreases table.len() - i,
        {
            let e = table[i];
            self.add_transition(e.0, e.1, e.2, e.2.label());
            proof {
                let t = encoded_table();
                assert(t.take(i + 1).drop_last() =~= t.take(i as int));
                assert(t.take(i + 1).last() == encode_edge(e));
                assert(labelled_table().take(i + 1) =~= labelled_table().take(i as int).push(
                    (e.0, e.1, transition_label(e.2)),
                ));
                assert(r0 + labelled_table().take(i + 1) =~= (r0 + labelled_table().take(
                    i as int,
                )).push((e.0, e.1, transition_label(e.2))));
            }
            i = i + 1;
        }
        proof {
            assert(encoded_table().take(24) =~= encoded_table());
            assert(labelled_table().take(24) =~= labelled_table());
            if g0.len() == 0 {
                assert(g0 =~= Seq::<(u8, u8, u8)>::empty());
                lemma_add_table_prefix(24);
            }
        }
    }

    /// Begin a round of attempts from the disk's current state.
    fn begin_round(&mut self)
        requires
            old(self).graph_ok(),
        ensures
            final(self).wf(),
            final(self).run_view() == round_from(old(self).edges(), old(self).run_view().state),
            final(self).edges() == old(self).edges(),
            final(self).device() == old(self).device(),
            final(self).scsi() == old(self).scsi(),
            final(self).simulating() == old(self).simulating(),
            final(self).recorded() == old(self).recorded(),
    {
        let state = self.block_device.state;
        self.round = code_edges_from(&self.graph, state.code());
        self.beginning = state;
        self.next = 0;
        self.running = self.round.len() > 0;
    }

    /// Start a run from the disk's current state; a disk found good is
    /// scanned again.
    pub fn start_run(&mut self)
        requires
            old(self).wf(),
        ensures
            final(self).wf(),
            final(self).run_view() == run_start(old(self).edges(), old(self).run_view().state),
            same_but_state(final(self).device(), old(self).device()),
            final(self).device().state == final(self).run_view().state,
            final(self).edges() == old(self).edges(),
            final(self).scsi() == old(self).scsi(),
            final(self).simulating() == old(self).simulating(),
            final(self).recorded() == old(self).recorded(),
    {
        self.running = false;
        if self.block_device.state == State::Good {
            self.block_device.state = State::Unscanned;
        }
        self.begin_round();
    }

    /// The move to attempt next, `None` once the run has ended. A move to
    /// attempt always leaves the disk's current state and is an edge of the
    /// graph.
    pub fn current_attempt(&self) -> (res: Option<(State, State, Transition)>)
        requires
            self.wf(),
        ensures
            !self.run_view().running ==> res is None,
            self.run_view().running ==> res == Some(
                decode_edge(self.run_view().round[self.run_view().next]),
            ),
            res matches Some(e) ==> e.0 == self.run_view().state && self.edges().contains(
                encode_edge(e),
            ),
    {
        if !self.running {
            return None;
        }
        let e = self.round[self.next];
        proof {
            self.lemma_next_edge();
        }
        let from = State::from_code(e.0);
        let to = State::from_code(e.1);
        let t = Transition::from_code(e.2);
        match (from, to, t) {
            (Some(a), Some(b), Some(c)) => Some((a, b, c)),
            _ => None,
        }
    }

    /// The edge to try next leaves the state the round began in, is an edge
    /// of the graph, and holds valid codes.
    proof fn lemma_next_edge(&self)
        requires
            self.wf(),
            self.running,
        ensures
            self.round@[self.next as int].0 == state_code(self.beginning),
            graph_edges(self.graph).contains(self.round@[self.next as int]),
            encode_edge(decode_edge(self.round@[self.next as int])) == self.round@[self.next as int],
            code_state(self.round@[self.next as int].1) is Some,
            decode_edge(self.round@[self.next as int]).0 == self.beginning,
    {
        let e = self.round@[self.next as int];
        let g = graph_edges(self.graph);
        let pred = leaves(state_code(self.beginning));
        g.lemma_filter_pred(pred, self.next as int);
        assert(self.round@.contains(e));
        g.lemma_filter_contains_rev(pred, e);
        let k = choose|k: int| 0 <= k < g.len() && g[k] == e;
        assert(g[k].0 < 17 && g[k].1 < 17 && g[k].2 < 12);
        lemma_state_code_roundtrip(self.beginning);
        lemma_decode_encode(e);
    }

    /// Take the next edge of the round, or end the run when none is left.
    fn skip_edge(&mut self)
        requires
            old(self).wf(),
            old(self).run_view().running,
        ensures
            final(self).wf(),
            final(self).run_view() == skip_edge(old(self).run_view()),
            final(self).edges() == old(self).edges(),
            final(self).device() == old(self).device(),
            final(self).scsi() == old(self).scsi(),
            final(self).simulating() == old(self).simulating(),
            final(self).recorded() == old(self).recorded(),
    {
        let n = self.round.len();
        if self.next + 1 < n {
            self.next = self.next + 1;
        } else {
            self.running = false;
        }
    }

    /// Tell the machine which state the attempted move reached, and let it
    /// decide where the disk stands and whether the run goes on.
    pub fn report_outcome(&mut self, outcome: State)
        requires
            old(self).wf(),
            old(self).run_view().running,
        ensures
            final(self).wf(),
            final(self).run_view() == run_step(old(self).edges(), old(self).run_view(), outcome),
            same_but_state(final(self).device(), old(self).device()),
            final(self).device().state == final(self).run_view().state,
            final(self).edges() == old(self).edges(),
            final(self).scsi() == old(self).scsi(),
            final(self).simulating() == old(self).simulating(),
            final(self).recorded() == old(self).recorded(),
    {
        let e = self.round[self.next];
        proof {
            self.lemma_next_edge();
        }
        let target = State::from_code(e.1);
        match outcome {
            State::Fail => {
                self.skip_edge();
            },
            State::WaitingForReplacement | State::Good => {
                self.block_device.state = outcome;
                self.running = false;
            },
            _ => {
                if target == Some(outcome) {
                    if outcome == self.beginning {
                        self.running = false;
                    } else {
                        self.running = false;
                        self.block_device.state = outcome;
                        self.begin_round();
                    }
                } else {
                    self.skip_edge();
                }
            },
        }
    }
}

/// Two devices agree on everything but their state.
pub open spec fn same_but_state(a: BlockDevice, b: BlockDevice) -> bool {
    &&& a.device == b.device
    &&& a.dev_path == b.dev_path
    &&& a.device_database_id == b.device_database_id
    &&& a.mount_point == b.mount_point
    &&& a.partitions == b.partitions
    &&& a.scsi_info == b.scsi_info
    &&& a.storage_detail_id == b.storage_detail_id
    &&& a.operation_id == b.operation_id
}

/// A stored edge of valid codes reads back as itself.
pub proof fn lemma_decode_encode(e: (u8, u8, u8))
    requires
        e.0 < 17,
        e.1 < 17,
        e.2 < 12,
    ensures
        encode_edge(decode_edge(e)) == e,
        code_state(e.0) is Some,
        code_state(e.1) is Some,
        code_transition(e.2) is Some,
{
}

/// The table with each transition's label in place of the transition.
pub open spec fn labelled_table() -> Seq<(State, State, Seq<char>)> {
    transition_table().map_values(
        |e: (State, State, Transition)| (e.0, e.1, transition_label(e.2)),
    )
}

/// The transition table as a vector.
fn table_entries() -> (v: Vec<(State, State, Transition)>)
    ensures
        v@ == transition_table(),
{
    let mut v: Vec<(State, State, Transition)> = Vec::new();
    v.push((State::Unscanned, State::Scanned, Transition::Scan));
    v.push((State::Unscanned, State::Fail, Transition::Scan));
    v.push((State::NotMounted, State::Mounted, Transition::Mount));
    v.push((State::NotMounted, State::MountFailed, Transition::Mount));
    v.push((State::MountFailed, State::Corrupt, Transition::CheckForCorruption));
    v.push((State::Scanned, State::Good, Transition::Eval));
    v.push((State::Scanned, State::NotMounted, Transition::Eval));
    v.push((State::Scanned, State::WriteFailed, Transition::Eval));
    v.push((State::Scanned, State::WornOut, Transition::CheckWearLeveling));
    v.push((State::Mounted, State::Scanned, Transition::NoOp));
    v.push((State::ReadOnly, State::Mounted, Transition::Remount));
    v.push((State::ReadOnly, State::MountFailed, Transition::Remount));
    v.push((State::Corrupt, State::Repaired, Transition::AttemptRepair));
    v.push((State::Corrupt, State::RepairFailed, Transition::NoOp));
    v.push((State::RepairFailed, State::Reformatted, Transition::Reformat));
    v.push((State::RepairFailed, State::ReformatFailed, Transition::NoOp));
    v.push((State::ReformatFailed, State::WaitingForReplacement, Transition::NoOp));
    v.push((State::Reformatted, State::Unscanned, Transition::NoOp));
    v.push((State::WornOut, State::WaitingForReplacement, Transition::MarkForReplacement));
    v.push((State::Repaired, State::Unscanned, Transition::NoOp));
    v.push((State::WaitingForReplacement, State::Replaced, Transition::Replace));
    v.push((State::Replaced, State::Unscanned, Transition::NoOp));
    v.push((State::WriteFailed, State::ReadOnly, Transition::CheckReadOnly));
    v.push((State::WriteFailed, State::Corrupt, Transition::CheckForCorruption));
    assert(v@ =~= transition_table());
    v
}


/// A move that ends in `Good` or `WaitingForReplacement` leaves the disk in
/// that state and ends the run.
pub proof fn lemma_final_outcomes_end_run(g: Seq<(u8, u8, u8)>, r: RunView, outcome: State)
    requires
        outcome == State::Good || outcome == State::WaitingForReplacement,
    ensures
        run_step(g, r, outcome).state == outcome,
        !run_step(g, r, outcome).running,
{
}

/// A failed move never changes the disk's state.
pub proof fn lemma_failed_move_keeps_state(g: Seq<(u8, u8, u8)>, r: RunView)
    ensures
        run_step(g, r, State::Fail).state == r.state,
{
}

/// A run only ever moves the disk to the state a move reported.
pub proof fn lemma_state_changes_only_to_outcome(g: Seq<(u8, u8, u8)>, r: RunView, outcome: State)
    ensures
        run_step(g, r, outcome).state == r.state || run_step(g, r, outcome).state == outcome,
{
}

/// A run never leaves a disk in the `Fail` state it was not already in.
pub proof fn lemma_run_never_enters_fail(g: Seq<(u8, u8, u8)>, r: RunView, outcome: State)
    requires
        r.state != State::Fail,
    ensures
        run_step(g, r, outcome).state != State::Fail,
{
}

/// A run that goes on after a move is working through the edges leaving the
/// disk's state, from the first; a move to a new state starts its round.
pub proof fn lemma_new_round_after_move(g: Seq<(u8, u8, u8)>, r: RunView, outcome: State)
    requires
        0 <= r.next < r.round.len(),
        outcome != State::Fail,
        outcome != State::Good,
        outcome != State::WaitingForReplacement,
        outcome == code_state(r.round[r.next].1).unwrap(),
        outcome != r.beginning,
    ensures
        run_step(g, r, outcome) == round_from(g, outcome),
        run_step(g, r, outcome).running <==> edges_leaving(g, state_code(outcome)).len() > 0,
{
}

/// A run starting on a good disk scans it again; any other disk starts
/// where it stands.
pub proof fn lemma_run_start_state(g: Seq<(u8, u8, u8)>, s: State)
    ensures
        s == State::Good ==> run_start(g, s).state == State::Unscanned,
        s != State::Good ==> run_start(g, s).state == s,
{
}

} // verus!
