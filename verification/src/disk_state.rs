//! The states a disk moves through while it is checked and repaired.
use vstd::prelude::*;
use crate::error::BynarError;
use crate::text::str_eq;

verus! {

/// Where a disk stands in the check / repair cycle.
#[derive(Debug, Clone, Copy, PartialEq, Eq, Structural)]
pub enum State {
    /// If the disk is in the corrupted state repairs are attempted
    Corrupt,
    Fail,
    Good,
    Mounted,
    MountFailed,
    /// Should be mounted but isn't
    NotMounted,
    /// Device is mounted read only
    ReadOnly,
    /// Tried to reformat but failed
    ReformatFailed,
    Reformatted,
    /// Tried to repair corruption and failed
    RepairFailed,
    Repaired,
    Replaced,
    Scanned,
    Unscanned,
    /// The disk could not be repaired and needs to be replaced
    WaitingForReplacement,
    WornOut,
    /// Write test failed
    WriteFailed,
}

/// The name a state is written as.
pub open spec fn state_name(s: State) -> Seq<char> {
    match s {
        State::Corrupt => "corrupt"@,
        State::Fail => "fail"@,
        State::Good => "good"@,
        State::Mounted => "mounted"@,
        State::MountFailed => "mount_failed"@,
        State::NotMounted => "not_mounted"@,
        State::ReadOnly => "readonly"@,
        State::RepairFailed => "repair_failed"@,
        State::ReformatFailed => "reformat_failed"@,
        State::Reformatted => "reformatted"@,
        State::Repaired => "repaired"@,
        State::Replaced => "replaced"@,
        State::Scanned => "scanned"@,
        State::Unscanned => "unscanned"@,
        State::WaitingForReplacement => "waiting_for_replacement"@,
        State::WriteFailed => "write_failed"@,
        State::WornOut => "worn_out"@,
    }
}

/// The state a name is read as; `not_mounted` and `write_failed` are not
/// accepted.
pub open spec fn parse_state(s: Seq<char>) -> Option<State> {
    if s == "corrupt"@ {
        Some(State::Corrupt)
    } else if s == "fail"@ {
        Some(State::Fail)
    } else if s == "good"@ {
        Some(State::Good)
    } else if s == "mounted"@ {
        Some(State::Mounted)
    } else if s == "mount_failed"@ {
        Some(State::MountFailed)
    } else if s == "readonly"@ {
        Some(State::ReadOnly)
    } else if s == "reformatted"@ {
        Some(State::Reformatted)
    } else if s == "reformat_failed"@ {
        Some(State::ReformatFailed)
    } else if s == "repaired"@ {
        Some(State::Repaired)
    } else if s == "repair_failed"@ {
        Some(State::RepairFailed)
    } else if s == "replaced"@ {
        Some(State::Replaced)
    } else if s == "scanned"@ {
        Some(State::Scanned)
    } else if s == "unscanned"@ {
        Some(State::Unscanned)
    } else if s == "waiting_for_replacement"@ {
        Some(State::WaitingForReplacement)
    } else if s == "worn_out"@ {
        Some(State::WornOut)
    } else {
        None
    }
}

impl State {
    /// The name of this state.
    pub fn to_string(&self) -> (res: String)
        ensures
            res@ == state_name(*self),
    {
        let s: &str = match self {
            State::Corrupt => "corrupt",
            State::Fail => "fail",
            State::Good => "good",
            State::Mounted => "mounted",
            State::MountFailed => "mount_failed",
            State::NotMounted => "not_mounted",
            State::ReadOnly => "readonly",
            State::RepairFailed => "repair_failed",
            State::ReformatFailed => "reformat_failed",
            State::Reformatted => "reformatted",
            State::Repaired => "repaired",
            State::Replaced => "replaced",
            State::Scanned => "scanned",
            State::Unscanned => "unscanned",
            State::WaitingForReplacement => "waiting_for_replacement",
            State::WriteFailed => "write_failed",
            State::WornOut => "worn_out",
        };
        String::from_str(s)
    }

    /// Read a state from its name.
    pub fn from_str(s: &str) -> (res: Result<State, BynarError>)
        ensures
            parse_state(s@) matches Some(st) ==> res == Ok::<State, BynarError>(st),
            parse_state(s@) is None ==> (res matches Err(BynarError::Error(m))
                && m@ == "Unknown state: "@ + s@),
    {
        if str_eq(s, "corrupt") {
            Ok(State::Corrupt)
        } else if str_eq(s, "fail") {
            Ok(State::Fail)
        } else if str_eq(s, "good") {
            Ok(State::Good)
        } else if str_eq(s, "mounted") {
            Ok(State::Mounted)
        } else if str_eq(s, "mount_failed") {
            Ok(State::MountFailed)
        } else if str_eq(s, "readonly") {
            Ok(State::ReadOnly)
        } else if str_eq(s, "reformatted") {
            Ok(State::Reformatted)
        } else if str_eq(s, "reformat_failed") {
            Ok(State::ReformatFailed)
        } else if str_eq(s, "repaired") {
            Ok(State::Repaired)
        } else if str_eq(s, "repair_failed") {
            Ok(State::RepairFailed)
        } else if str_eq(s, "replaced") {
            Ok(State::Replaced)
        } else if str_eq(s, "scanned") {
            Ok(State::Scanned)
        } else if str_eq(s, "unscanned") {
            Ok(State::Unscanned)
        } else if str_eq(s, "waiting_for_replacement") {
            Ok(State::WaitingForReplacement)
        } else if str_eq(s, "worn_out") {
            Ok(State::WornOut)
        } else {
            Err(BynarError::Error(crate::text::concat2("Unknown state: ", s)))
        }
    }
}

/// Length and leading characters of a name; enough to tell the names apart.
pub open spec fn name_key(s: Seq<char>) -> (int, char, char, char, char) {
    (s.len() as int, s[0], s[1], s[2], s[3])
}

proof fn lemma_name_keys()
    ensures
        name_key("corrupt"@) == (7int, 'c', 'o', 'r', 'r'),
        name_key("fail"@) == (4int, 'f', 'a', 'i', 'l'),
        name_key("good"@) == (4int, 'g', 'o', 'o', 'd'),
        name_key("mounted"@) == (7int, 'm', 'o', 'u', 'n'),
        name_key("mount_failed"@) == (12int, 'm', 'o', 'u', 'n'),
        name_key("readonly"@) == (8int, 'r', 'e', 'a', 'd'),
        name_key("reformatted"@) == (11int, 'r', 'e', 'f', 'o'),
        name_key("reformat_failed"@) == (15int, 'r', 'e', 'f', 'o'),
        name_key("repaired"@) == (8int, 'r', 'e', 'p', 'a'),
        name_key("repair_failed"@) == (13int, 'r', 'e', 'p', 'a'),
        name_key("replaced"@) == (8int, 'r', 'e', 'p', 'l'),
        name_key("scanned"@) == (7int, 's', 'c', 'a', 'n'),
        name_key("unscanned"@) == (9int, 'u', 'n', 's', 'c'),
        name_key("waiting_for_replacement"@) == (23int, 'w', 'a', 'i', 't'),
        name_key("worn_out"@) == (8int, 'w', 'o', 'r', 'n'),
        name_key("not_mounted"@) == (11int, 'n', 'o', 't', '_'),
        name_key("write_failed"@) == (12int, 'w', 'r', 'i', 't'),
{
    reveal_strlit("corrupt");
    reveal_strlit("fail");
    reveal_strlit("good");
    reveal_strlit("mounted");
    reveal_strlit("mount_failed");
    reveal_strlit("readonly");
    reveal_strlit("reformatted");
    reveal_strlit("reformat_failed");
    reveal_strlit("repaired");
    reveal_strlit("repair_failed");
    reveal_strlit("replaced");
    reveal_strlit("scanned");
    reveal_strlit("unscanned");
    reveal_strlit("waiting_for_replacement");
    reveal_strlit("worn_out");
    reveal_strlit("not_mounted");
    reveal_strlit("write_failed");
}

/// Reading back the name of any state other than `NotMounted` and
/// `WriteFailed` gives that state again.
pub proof fn lemma_state_name_roundtrip(s: State)
    requires
        s != State::NotMounted,
        s != State::WriteFailed,
    ensures
        parse_state(state_name(s)) == Some(s),
{
    lemma_name_keys();
}

/// The names `not_mounted` and `write_failed` are not read back.
pub proof fn lemma_unreadable_state_names()
    ensures
        parse_state(state_name(State::NotMounted)) is None,
        parse_state(state_name(State::WriteFailed)) is None,
{
    lemma_name_keys();
}

} // verus!
