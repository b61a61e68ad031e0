//! The protocol buffers wire format of the messages exchanged with the disk
//! manager: varints, tags and length-delimited fields, and the reading and
//! writing of each message from and to its fields.
use vstd::prelude::*;
use crate::error::BynarError;
use crate::ops::{Op, OpOutcome, OpOutcomeResult, Operation, ResultType};
use crate::service::{Disk, DiskType, Disks};
use crate::text::opt_view;
use vstd::string::StringSliceAdditionalSpecFns;
use vstd::utf8::{valid_utf8, decode_utf8, encode_utf8, encode_utf8_valid_utf8, encode_utf8_decode_utf8};

verus! {

/// The value of one field as it stands on the wire.
#[derive(Debug)]
pub enum WireValue {
    Varint(u64),
    Fixed64(Vec<u8>),
    Bytes(Vec<u8>),
    Fixed32(Vec<u8>),
}

/// The value of a field, as a mathematical value.
pub enum WireVal {
    Varint(u64),
    Fixed64(Seq<u8>),
    Bytes(Seq<u8>),
    Fixed32(Seq<u8>),
}

impl View for WireValue {
    type V = WireVal;

    open spec fn view(&self) -> WireVal {
        match self {
            WireValue::Varint(v) => WireVal::Varint(*v),
            WireValue::Fixed64(b) => WireVal::Fixed64(b@),
            WireValue::Bytes(b) => WireVal::Bytes(b@),
            WireValue::Fixed32(b) => WireVal::Fixed32(b@),
        }
    }
}

/// The fields of a message, as mathematical values.
pub open spec fn fields_view(fs: Seq<(u32, WireValue)>) -> Seq<(u32, WireVal)> {
    fs.map_values(|f: (u32, WireValue)| (f.0, f.1@))
}

/// The varint whose byte `k` stands at `i + k`: value and end. Byte `last`
/// is the final one a varint may have, and may be at most `last_max`.
pub open spec fn varint_rest(b: Seq<u8>, i: int, k: int, last: int, last_max: int) -> Option<(int, int)>
    decreases last - k,
{
    if k < 0 || i < 0 || i + k >= b.len() {
        None
    } else {
        let c = b[i + k] as int;
        if k >= last {
            if c > last_max {
                None
            } else {
                Some((c, i + k + 1))
            }
        } else if c < 128 {
            Some((c, i + k + 1))
        } else {
            match varint_rest(b, i, k + 1, last, last_max) {
                Some(p) => Some((c - 128 + 128 * p.0, p.1)),
                None => None,
            }
        }
    }
}

/// The 64-bit varint at `i`: at most ten bytes, the tenth at most 1.
pub open spec fn varint64_at(b: Seq<u8>, i: int) -> Option<(int, int)> {
    varint_rest(b, i, 0, 9, 1)
}

/// The 32-bit varint at `i`: at most five bytes, the fifth at most 15.
pub open spec fn varint32_at(b: Seq<u8>, i: int) -> Option<(int, int)> {
    varint_rest(b, i, 0, 4, 15)
}

/// The values a varint read from byte `k` on stays below.
pub open spec fn varint_bound(k: int, last: int, last_max: int) -> int
    decreases last - k,
{
    if k >= last {
        last_max + 1
    } else {
        128 * varint_bound(k + 1, last, last_max)
    }
}

proof fn lemma_varint_rest(b: Seq<u8>, i: int, k: int, last: int, last_max: int)
    requires
        0 <= k <= last,
        0 <= last_max,
    ensures
        varint_rest(b, i, k, last, last_max) matches Some(p) ==> 0 <= p.0 < varint_bound(k, last, last_max) && i
            + k < p.1 <= b.len(),
        varint_bound(k, last, last_max) >= 1,
    decreases last - k,
{
    if k < last {
        lemma_varint_rest(b, i, k + 1, last, last_max);
    }
}

proof fn lemma_varint_bounds()
    ensures
        varint_bound(0, 9, 1) == 0x1_0000_0000_0000_0000,
        varint_bound(0, 4, 15) == 0x1_0000_0000,
{
    reveal_with_fuel(varint_bound, 11);
}

proof fn lemma_bound_mono(k: int, last: int, last_max: int)
    requires
        0 <= k <= last,
        0 <= last_max,
    ensures
        varint_bound(k, last, last_max) <= varint_bound(0, last, last_max),
    decreases k,
{
    if k > 0 {
        lemma_bound_mono(k - 1, last, last_max);
        lemma_varint_rest(Seq::empty(), 0, k, last, last_max);
    }
}

fn read_varint_rest(b: &[u8], i: usize, k: usize, last: usize, last_max: u8) -> (res: Option<(u64, usize)>)
    requires
        k <= last <= 9,
        varint_bound(0, last as int, last_max as int) <= 0x1_0000_0000_0000_0000,
    ensures
        match varint_rest(b@, i as int, k as int, last as int, last_max as int) {
            Some(p) => res matches Some(r) && r.0 == p.0 && r.1 == p.1,
            None => res is None,
        },
    decreases last - k,
{
    proof {
        lemma_varint_rest(b@, i as int, k as int, last as int, last_max as int);
    }
    if i >= b.len() || k >= b.len() - i {
        return None;
    }
    let c = b[i + k];
    if k >= last {
        if c > last_max {
            None
        } else {
            Some((c as u64, i + k + 1))
        }
    } else if c < 128 {
        Some((c as u64, i + k + 1))
    } else {
        match read_varint_rest(b, i, k + 1, last, last_max) {
            Some((v, e)) => {
                proof {
                    lemma_varint_rest(b@, i as int, k + 1, last as int, last_max as int);
                    lemma_bound_mono(k as int, last as int, last_max as int);
                    assert(varint_bound(k as int, last as int, last_max as int) == 128 * varint_bound(
                        k + 1,
                        last as int,
                        last_max as int,
                    ));
                    assert(128 * v + 127 < varint_bound(k as int, last as int, last_max as int)) by (nonlinear_arith)
                        requires
                            v < varint_bound(k + 1, last as int, last_max as int),
                            varint_bound(k as int, last as int, last_max as int) == 128 * varint_bound(
                                k + 1,
                                last as int,
                                last_max as int,
                            ),
                    ;
                }
                Some(((c - 128) as u64 + 128 * v, e))
            },
            None => None,
        }
    }
}

/// Read the 64-bit varint at `i`.
fn read_varint64(b: &[u8], i: usize) -> (res: Option<(u64, usize)>)
    ensures
        match varint64_at(b@, i as int) {
            Some(p) => res matches Some(r) && r.0 == p.0 && r.1 == p.1,
            None => res is None,
        },
{
    proof {
        lemma_varint_bounds();
        lemma_varint_rest(b@, i as int, 0, 9, 1);
    }
    read_varint_rest(b, i, 0, 9, 1)
}

/// Read the 32-bit varint at `i`.
fn read_varint32(b: &[u8], i: usize) -> (res: Option<(u64, usize)>)
    ensures
        match varint32_at(b@, i as int) {
            Some(p) => res matches Some(r) && r.0 == p.0 && r.1 == p.1 && p.0 < 0x1_0000_0000,
            None => res is None,
        },
{
    proof {
        lemma_varint_bounds();
        lemma_varint_rest(b@, i as int, 0, 4, 15);
    }
    read_varint_rest(b, i, 0, 4, 15)
}

/// The field at `i`: its number, its value and where it ends. A tag is a
/// 32-bit varint holding the field number (not 0) and the wire type:
/// 0 a 64-bit varint, 1 eight bytes, 2 a 32-bit varint length and that many
/// bytes, 5 four bytes. Other wire types (groups among them) are refused.
pub open spec fn field_at(b: Seq<u8>, i: int) -> Option<(u32, WireVal, int)> {
    match varint32_at(b, i) {
        None => None,
        Some(t) => {
            let n = t.0 / 8;
            let w = t.0 % 8;
            let e = t.1;
            if n == 0 {
                None
            } else if w == 0 {
                match varint64_at(b, e) {
                    Some(v) => Some((n as u32, WireVal::Varint(v.0 as u64), v.1)),
                    None => None,
                }
            } else if w == 1 {
                if e + 8 <= b.len() {
                    Some((n as u32, WireVal::Fixed64(b.subrange(e, e + 8)), e + 8))
                } else {
                    None
                }
            } else if w == 2 {
                match varint32_at(b, e) {
                    Some(l) => if l.1 + l.0 <= b.len() {
                        Some((n as u32, WireVal::Bytes(b.subrange(l.1, l.1 + l.0)), l.1 + l.0))
                    } else {
                        None
                    },
                    None => None,
                }
            } else if w == 5 {
                if e + 4 <= b.len() {
                    Some((n as u32, WireVal::Fixed32(b.subrange(e, e + 4)), e + 4))
                } else {
                    None
                }
            } else {
                None
            }
        },
    }
}

/// The fields from `i` to the end of `b`, in order; `None` when they do not
/// read as fields.
pub open spec fn fields_from(b: Seq<u8>, i: int) -> Option<Seq<(u32, WireVal)>>
    decreases b.len() - i,
{
    if i < 0 {
        None
    } else if i >= b.len() {
        Some(Seq::empty())
    } else {
        match field_at(b, i) {
            None => None,
            Some(f) => if f.2 <= i || f.2 > b.len() {
                None
            } else {
                match fields_from(b, f.2) {
                    Some(rest) => Some(seq![(f.0, f.1)] + rest),
                    None => None,
                }
            },
        }
    }
}

/// The fields of a message, in order; `None` when the bytes are not one.
pub open spec fn wire_fields(b: Seq<u8>) -> Option<Seq<(u32, WireVal)>> {
    fields_from(b, 0)
}

fn copy_bytes(b: &[u8], from: usize, to: usize) -> (res: Vec<u8>)
    requires
        from <= to <= b@.len(),
    ensures
        res@ == b@.subrange(from as int, to as int),
{
    let mut v: Vec<u8> = Vec::new();
    let mut k = from;
    while k < to
        invariant
            from <= k <= to <= b@.len(),
            v@ == b@.subrange(from as int, k as int),
        decreases to - k,
    {
        v.push(b[k]);
        proof {
            assert(b@.subrange(from as int, k + 1) =~= b@.subrange(from as int, k as int).push(b@[k as int]));
        }
        k = k + 1;
    }
    v
}

fn read_field(b: &[u8], i: usize) -> (res: Option<(u32, WireValue, usize)>)
    ensures
        match field_at(b@, i as int) {
            Some(f) => res matches Some(g) && g.0 == f.0 && g.1@ == f.1 && g.2 == f.2,
            None => res is None,
        },
{
    let (t, e) = match read_varint32(b, i) {
        Some(p) => p,
        None => return None,
    };
    let n = t / 8;
    let w = t % 8;
    proof {
        lemma_varint_rest(b@, i as int, 0, 4, 15);
    }
    if n == 0 {
        None
    } else if w == 0 {
        proof {
            lemma_varint_rest(b@, e as int, 0, 9, 1);
        }
        match read_varint64(b, e) {
            Some((v, e2)) => {
                Some((n as u32, WireValue::Varint(v), e2))
            },
            None => None,
        }
    } else if w == 1 {
        if e <= b.len() && 8 <= b.len() - e {
            Some((n as u32, WireValue::Fixed64(copy_bytes(b, e, e + 8)), e + 8))
        } else {
            None
        }
    } else if w == 2 {
        match read_varint32(b, e) {
            Some((l, e2)) => {
                proof {
                    lemma_varint_rest(b@, e as int, 0, 4, 15);
                }
                if l as usize <= b.len() - e2 {
                    Some((n as u32, WireValue::Bytes(copy_bytes(b, e2, e2 + l as usize)), e2 + l as usize))
                } else {
                    None
                }
            },
            None => None,
        }
    } else if w == 5 {
        if e <= b.len() && 4 <= b.len() - e {
            Some((n as u32, WireValue::Fixed32(copy_bytes(b, e, e + 4)), e + 4))
        } else {
            None
        }
    } else {
        None
    }
}

/// Read the fields of a message, in order; `None` when the bytes are not one.
pub fn read_fields(b: &[u8]) -> (res: Option<Vec<(u32, WireValue)>>)
    ensures
        match wire_fields(b@) {
            Some(fs) => res matches Some(v) && fields_view(v@) == fs,
            None => res is None,
        },
{
    let mut fs: Vec<(u32, WireValue)> = Vec::new();
    let mut pos: usize = 0;
    while pos < b.len()
        invariant
            pos <= b@.len(),
            wire_fields(b@) == match fields_from(b@, pos as int) {
                Some(r) => Some(fields_view(fs@) + r),
                None => None::<Seq<(u32, WireVal)>>,
            },
        decreases b@.len() - pos,
    {
        match read_field(b, pos) {
            Some((n, v, e)) => {
                if e <= pos || e > b.len() {
                    return None;
                }
                let ghost before = fs@;
                fs.push((n, v));
                proof {
                    assert(fields_view(fs@) =~= fields_view(before) + seq![(n, v@)]);
                    match fields_from(b@, e as int) {
                        Some(r) => {
                            assert(fields_view(before) + (seq![(n, v@)] + r) =~= fields_view(fs@) + r);
                        },
                        None => {},
                    }
                }
                pos = e;
            },
            None => return None,
        }
    }
    assert(fields_view(fs@) + Seq::<(u32, WireVal)>::empty() =~= fields_view(fs@));
    Some(fs)
}

/// The text whose UTF-8 encoding the bytes are; `None` when they are not
/// valid UTF-8.
pub open spec fn utf8_text(b: Seq<u8>) -> Option<Seq<char>> {
    if valid_utf8(b) {
        Some(decode_utf8(b))
    } else {
        None
    }
}

/// The UTF-8 encoding of a text.
pub open spec fn utf8_bytes_of(s: Seq<char>) -> Seq<u8> {
    encode_utf8(s)
}

/// `String::from_utf8`: the text the bytes encode when they are valid UTF-8,
/// `None` when they are not.
#[verifier::external_body]
fn text_from_utf8(b: &[u8]) -> (res: Option<String>)
    ensures
        opt_view(res) == utf8_text(b@),
{
    String::from_utf8(b.to_vec()).ok()
}

/// The UTF-8 encoding of `s`; it reads back as `s`.
fn text_bytes(s: &str) -> (res: Vec<u8>)
    ensures
        res@ == utf8_bytes_of(s@),
        utf8_text(res@) == Some(s@),
{
    let b = s.as_bytes();
    let v = copy_bytes(b, 0, b.len());
    proof {
        assert(b@.subrange(0, b@.len() as int) =~= b@);
        lemma_text_reads_back(s@);
    }
    v
}

/// The UTF-8 encoding of a text reads back as the text.
pub proof fn lemma_text_reads_back(t: Seq<char>)
    ensures
        utf8_text(utf8_bytes_of(t)) == Some(t),
{
    encode_utf8_valid_utf8(t);
    encode_utf8_decode_utf8(t);
}

/// Fold the fields of a message into a value, from `init`, one `step` per
/// field in order; `None` once a step refuses a field.
pub open spec fn fold_fields<A>(
    fs: Seq<(u32, WireVal)>,
    init: A,
    step: spec_fn(A, (u32, WireVal)) -> Option<A>,
) -> Option<A>
    decreases fs.len(),
{
    if fs.len() == 0 {
        Some(init)
    } else {
        match fold_fields(fs.drop_last(), init, step) {
            Some(a) => step(a, fs.last()),
            None => None,
        }
    }
}

proof fn lemma_fold_refused<A>(fs: Seq<(u32, WireVal)>, i: int, init: A, step: spec_fn(A, (u32, WireVal)) -> Option<A>)
    requires
        0 <= i <= fs.len(),
        fold_fields(fs.take(i), init, step) is None,
    ensures
        fold_fields(fs, init, step) is None,
    decreases fs.len(),
{
    if i == fs.len() {
        assert(fs.take(i) =~= fs);
    } else {
        assert(fs.take(i) =~= fs.drop_last().take(i));
        lemma_fold_refused(fs.drop_last(), i, init, step);
    }
}

proof fn lemma_fold_next<A>(fs: Seq<(u32, WireVal)>, i: int, init: A, step: spec_fn(A, (u32, WireVal)) -> Option<A>)
    requires
        0 <= i < fs.len(),
    ensures
        fold_fields(fs.take(i + 1), init, step) == match fold_fields(fs.take(i), init, step) {
            Some(a) => step(a, fs[i]),
            None => None,
        },
{
    assert(fs.take(i + 1).drop_last() =~= fs.take(i));
    assert(fs.take(i + 1).last() == fs[i]);
}

/// The error for bytes that are not the message expected.
pub open spec fn malformed_text() -> Seq<char> {
    "malformed message"@
}

fn malformed() -> (res: BynarError)
    ensures
        res == BynarError::Error(res->Error_0) && res->Error_0@ == malformed_text(),
{
    BynarError::from_str_msg("malformed message")
}

/// Whether a varint read as an `int32` fits one.
pub open spec fn fits_i32(v: u64) -> bool {
    v < 0x8000_0000 || v >= 0xFFFF_FFFF_8000_0000
}

/// The request kind a code stands for.
pub open spec fn op_of_code(v: u64) -> Option<Op> {
    if v == 0 {
        Some(Op::Add)
    } else if v == 1 {
        Some(Op::AddPartition)
    } else if v == 2 {
        Some(Op::List)
    } else if v == 3 {
        Some(Op::Remove)
    } else if v == 4 {
        Some(Op::SafeToRemove)
    } else if v == 5 {
        Some(Op::GetCreatedTickets)
    } else {
        None
    }
}

/// The code of a request kind.
pub open spec fn op_code(op: Op) -> u64 {
    match op {
        Op::Add => 0,
        Op::AddPartition => 1,
        Op::List => 2,
        Op::Remove => 3,
        Op::SafeToRemove => 4,
        Op::GetCreatedTickets => 5,
    }
}

fn op_from_code(v: u64) -> (res: Option<Op>)
    ensures
        res == op_of_code(v),
{
    if v == 0 {
        Some(Op::Add)
    } else if v == 1 {
        Some(Op::AddPartition)
    } else if v == 2 {
        Some(Op::List)
    } else if v == 3 {
        Some(Op::Remove)
    } else if v == 4 {
        Some(Op::SafeToRemove)
    } else if v == 5 {
        Some(Op::GetCreatedTickets)
    } else {
        None
    }
}

fn code_of_op(op: Op) -> (res: u64)
    ensures
        res == op_code(op),
{
    match op {
        Op::Add => 0,
        Op::AddPartition => 1,
        Op::List => 2,
        Op::Remove => 3,
        Op::SafeToRemove => 4,
        Op::GetCreatedTickets => 5,
    }
}

/// A request, as mathematical values.
pub struct OperationView {
    pub op_type: Op,
    pub disk: Seq<char>,
    pub osd_id: Option<u64>,
    pub simulate: Option<bool>,
}

pub open spec fn operation_view(o: Operation) -> OperationView {
    OperationView { op_type: o.op_type, disk: o.disk@, osd_id: o.osd_id, simulate: o.simulate }
}

/// A request with no field read: kind `Add`, no disk.
pub open spec fn operation_init() -> OperationView {
    OperationView { op_type: Op::Add, disk: Seq::empty(), osd_id: None, simulate: None }
}

/// A request after one more field: field 1 is the kind (a known code, else
/// refused), 2 the disk (UTF-8, else refused), 3 the dry-run flag, 4 the
/// OSD id; a later field overrides an earlier one, and other fields, or
/// fields of an unexpected wire type, are skipped.
pub open spec fn operation_step(o: OperationView, f: (u32, WireVal)) -> Option<OperationView> {
    match f.1 {
        WireVal::Varint(v) => if f.0 == 1 {
            match op_of_code(v) {
                Some(t) => Some(OperationView { op_type: t, ..o }),
                None => None,
            }
        } else if f.0 == 3 {
            Some(OperationView { simulate: Some(v != 0), ..o })
        } else if f.0 == 4 {
            Some(OperationView { osd_id: Some(v), ..o })
        } else {
            Some(o)
        },
        WireVal::Bytes(b) => if f.0 == 2 {
            match utf8_text(b) {
                Some(t) => Some(OperationView { disk: t, ..o }),
                None => None,
            }
        } else {
            Some(o)
        },
        _ => Some(o),
    }
}

/// The request the fields make.
pub open spec fn operation_of_fields(fs: Seq<(u32, WireVal)>) -> Option<OperationView> {
    fold_fields(fs, operation_init(), operation_stepper())
}

/// `operation_step` as a function value.
pub open spec fn operation_stepper() -> spec_fn(OperationView, (u32, WireVal)) -> Option<OperationView> {
    |o: OperationView, f: (u32, WireVal)| operation_step(o, f)
}

fn operation_apply(o: &mut Operation, f: &(u32, WireValue)) -> (ok: bool)
    ensures
        ok == operation_step(operation_view(*old(o)), (f.0, f.1@)) is Some,
        ok ==> operation_step(operation_view(*old(o)), (f.0, f.1@)) == Some(operation_view(*final(o))),
{
    match &f.1 {
        WireValue::Varint(v) => {
            if f.0 == 1 {
                match op_from_code(*v) {
                    Some(t) => {
                        o.op_type = t;
                        true
                    },
                    None => false,
                }
            } else if f.0 == 3 {
                o.simulate = Some(*v != 0);
                true
            } else if f.0 == 4 {
                o.osd_id = Some(*v);
                true
            } else {
                true
            }
        },
        WireValue::Bytes(b) => {
            if f.0 == 2 {
                match text_from_utf8(b.as_slice()) {
                    Some(t) => {
                        o.disk = t;
                        true
                    },
                    None => false,
                }
            } else {
                true
            }
        },
        _ => true,
    }
}

/// Read a request from its wire form: the request its fields make, or an
/// error when the bytes are not fields or a field is refused.
pub fn decode_operation(bytes: &[u8]) -> (res: Result<Operation, BynarError>)
    ensures
        match wire_fields(bytes@) {
            None => res matches Err(BynarError::Error(m)) && m@ == malformed_text(),
            Some(fs) => match operation_of_fields(fs) {
                Some(v) => res matches Ok(o) && operation_view(o) == v,
                None => res matches Err(BynarError::Error(m)) && m@ == malformed_text(),
            },
        },
{
    let fs = match read_fields(bytes) {
        Some(fs) => fs,
        None => return Err(malformed()),
    };
    let ghost fv = fields_view(fs@);
    let ghost step = operation_stepper();
    let mut o = Operation { op_type: Op::Add, disk: String::new(), osd_id: None, simulate: None };
    let mut i: usize = 0;
    assert(fv.take(0) =~= Seq::<(u32, WireVal)>::empty());
    while i < fs.len()
        invariant
            i <= fs@.len(),
            fv == fields_view(fs@),
            wire_fields(bytes@) == Some(fv),
            step == operation_stepper(),
            fold_fields(fv.take(i as int), operation_init(), step) == Some(operation_view(o)),
        decreases fs@.len() - i,
    {
        proof {
            lemma_fold_next(fv, i as int, operation_init(), step);
            assert(fv[i as int] == (fs@[i as int].0, fs@[i as int].1@));
        }
        if !operation_apply(&mut o, &fs[i]) {
            proof {
                lemma_fold_refused(fv, i + 1, operation_init(), step);
            }
            return Err(malformed());
        }
        i = i + 1;
    }
    assert(fv.take(fs@.len() as int) =~= fv);
    Ok(o)
}

/// A result code read as an `int32`: 1 is an error, any other code success.
pub open spec fn result_of_code(v: u64) -> ResultType {
    if v == 1 {
        ResultType::ERR
    } else {
        ResultType::OK
    }
}

/// The outcome a code stands for; `None` for an unknown code.
pub open spec fn outcome_of_code(v: u64) -> Option<OpOutcome> {
    if v == 0 {
        Some(OpOutcome::Success)
    } else if v == 1 {
        Some(OpOutcome::Skipped)
    } else if v == 2 {
        Some(OpOutcome::SkipRepeat)
    } else {
        None
    }
}

/// The disk kind a code stands for; unknown for any other code.
pub open spec fn disk_type_of_code(v: u64) -> DiskType {
    if v == 0 {
        DiskType::SOLID_STATE
    } else if v == 1 {
        DiskType::ROTATIONAL
    } else {
        DiskType::UNKNOWN
    }
}

fn fits_i32_exec(v: u64) -> (res: bool)
    ensures
        res == fits_i32(v),
{
    v < 0x8000_0000 || v >= 0xFFFF_FFFF_8000_0000
}

/// A disk, as mathematical values.
pub struct DiskView {
    pub field_type: Option<DiskType>,
    pub dev_path: Option<Seq<char>>,
    pub serial_number: Option<Seq<char>>,
}

pub open spec fn disk_view(d: Disk) -> DiskView {
    DiskView { field_type: d.field_type, dev_path: opt_view(d.dev_path), serial_number: opt_view(d.serial_number) }
}

pub open spec fn disk_init() -> DiskView {
    DiskView { field_type: None, dev_path: None, serial_number: None }
}

/// A disk after one more field: 1 its kind (an `int32`, else refused),
/// 2 its device path and 3 its serial number (UTF-8, else refused).
pub open spec fn disk_step(d: DiskView, f: (u32, WireVal)) -> Option<DiskView> {
    match f.1 {
        WireVal::Varint(v) => if f.0 == 1 {
            if fits_i32(v) {
                Some(DiskView { field_type: Some(disk_type_of_code(v)), ..d })
            } else {
                None
            }
        } else {
            Some(d)
        },
        WireVal::Bytes(b) => if f.0 == 2 || f.0 == 3 {
            match utf8_text(b) {
                Some(t) => if f.0 == 2 {
                    Some(DiskView { dev_path: Some(t), ..d })
                } else {
                    Some(DiskView { serial_number: Some(t), ..d })
                },
                None => None,
            }
        } else {
            Some(d)
        },
        _ => Some(d),
    }
}

pub open spec fn disk_stepper() -> spec_fn(DiskView, (u32, WireVal)) -> Option<DiskView> {
    |d: DiskView, f: (u32, WireVal)| disk_step(d, f)
}

/// The disk the fields make.
pub open spec fn disk_of_fields(fs: Seq<(u32, WireVal)>) -> Option<DiskView> {
    fold_fields(fs, disk_init(), disk_stepper())
}

/// The disk the bytes hold.
pub open spec fn disk_of_bytes(b: Seq<u8>) -> Option<DiskView> {
    match wire_fields(b) {
        Some(fs) => disk_of_fields(fs),
        None => None,
    }
}

fn disk_apply(d: &mut Disk, f: &(u32, WireValue)) -> (ok: bool)
    ensures
        ok == disk_step(disk_view(*old(d)), (f.0, f.1@)) is Some,
        ok ==> disk_step(disk_view(*old(d)), (f.0, f.1@)) == Some(disk_view(*final(d))),
{
    match &f.1 {
        WireValue::Varint(v) => {
            if f.0 == 1 {
                if fits_i32_exec(*v) {
                    d.field_type = Some(
                        if *v == 0 {
                            DiskType::SOLID_STATE
                        } else if *v == 1 {
                            DiskType::ROTATIONAL
                        } else {
                            DiskType::UNKNOWN
                        },
                    );
                    true
                } else {
                    false
                }
            } else {
                true
            }
        },
        WireValue::Bytes(b) => {
            if f.0 == 2 || f.0 == 3 {
                match text_from_utf8(b.as_slice()) {
                    Some(t) => {
                        if f.0 == 2 {
                            d.dev_path = Some(t);
                        } else {
                            d.serial_number = Some(t);
                        }
                        true
                    },
                    None => false,
                }
            } else {
                true
            }
        },
        _ => true,
    }
}

/// Read a disk from its wire form.
pub fn decode_disk(bytes: &[u8]) -> (res: Result<Disk, BynarError>)
    ensures
        match disk_of_bytes(bytes@) {
            Some(v) => res matches Ok(d) && disk_view(d) == v,
            None => res matches Err(BynarError::Error(m)) && m@ == malformed_text(),
        },
{
    let fs = match read_fields(bytes) {
        Some(fs) => fs,
        None => return Err(malformed()),
    };
    let ghost fv = fields_view(fs@);
    let ghost step = disk_stepper();
    let mut d = Disk { field_type: None, dev_path: None, serial_number: None };
    let mut i: usize = 0;
    assert(fv.take(0) =~= Seq::<(u32, WireVal)>::empty());
    while i < fs.len()
        invariant
            i <= fs@.len(),
            fv == fields_view(fs@),
            wire_fields(bytes@) == Some(fv),
            step == disk_stepper(),
            fold_fields(fv.take(i as int), disk_init(), step) == Some(disk_view(d)),
        decreases fs@.len() - i,
    {
        proof {
            lemma_fold_next(fv, i as int, disk_init(), step);
            assert(fv[i as int] == (fs@[i as int].0, fs@[i as int].1@));
        }
        if !disk_apply(&mut d, &fs[i]) {
            proof {
                lemma_fold_refused(fv, i + 1, disk_init(), step);
            }
            return Err(malformed());
        }
        i = i + 1;
    }
    assert(fv.take(fs@.len() as int) =~= fv);
    Ok(d)
}

/// The disks of a list, as mathematical values.
pub open spec fn disks_view(d: Disks) -> Seq<DiskView> {
    d.disk@.map_values(|x: Disk| disk_view(x))
}

/// A disk list after one more field: each field 1 is a disk, in order
/// (refused when it is not one); other fields are skipped.
pub open spec fn disks_step(ds: Seq<DiskView>, f: (u32, WireVal)) -> Option<Seq<DiskView>> {
    match f.1 {
        WireVal::Bytes(b) => if f.0 == 1 {
            match disk_of_bytes(b) {
                Some(d) => Some(ds.push(d)),
                None => None,
            }
        } else {
            Some(ds)
        },
        _ => Some(ds),
    }
}

pub open spec fn disks_stepper() -> spec_fn(Seq<DiskView>, (u32, WireVal)) -> Option<Seq<DiskView>> {
    |ds: Seq<DiskView>, f: (u32, WireVal)| disks_step(ds, f)
}

/// The disk list the fields make.
pub open spec fn disks_of_fields(fs: Seq<(u32, WireVal)>) -> Option<Seq<DiskView>> {
    fold_fields(fs, Seq::empty(), disks_stepper())
}

fn disks_apply(ds: &mut Disks, f: &(u32, WireValue)) -> (ok: bool)
    ensures
        ok == disks_step(disks_view(*old(ds)), (f.0, f.1@)) is Some,
        ok ==> disks_step(disks_view(*old(ds)), (f.0, f.1@)) == Some(disks_view(*final(ds))),
{
    match &f.1 {
        WireValue::Bytes(b) => {
            if f.0 == 1 {
                match decode_disk(b.as_slice()) {
                    Ok(d) => {
                        let ghost before = ds.disk@;
                        ds.disk.push(d);
                        proof {
                            assert(ds.disk@.map_values(|x: Disk| disk_view(x)) =~= before.map_values(
                                |x: Disk| disk_view(x),
                            ).push(disk_view(d)));
                        }
                        true
                    },
                    Err(_) => false,
                }
            } else {
                true
            }
        },
        _ => true,
    }
}

/// Read a disk list from its wire form.
pub fn decode_disks(bytes: &[u8]) -> (res: Result<Disks, BynarError>)
    ensures
        match wire_fields(bytes@) {
            None => res matches Err(BynarError::Error(m)) && m@ == malformed_text(),
            Some(fs) => match disks_of_fields(fs) {
                Some(v) => res matches Ok(d) && disks_view(d) == v,
                None => res matches Err(BynarError::Error(m)) && m@ == malformed_text(),
            },
        },
{
    let fs = match read_fields(bytes) {
        Some(fs) => fs,
        None => return Err(malformed()),
    };
    let ghost fv = fields_view(fs@);
    let ghost step = disks_stepper();
    let mut ds = Disks { disk: Vec::new() };
    let mut i: usize = 0;
    assert(fv.take(0) =~= Seq::<(u32, WireVal)>::empty());
    assert(disks_view(ds) =~= Seq::<DiskView>::empty());
    while i < fs.len()
        invariant
            i <= fs@.len(),
            fv == fields_view(fs@),
            wire_fields(bytes@) == Some(fv),
            step == disks_stepper(),
            fold_fields(fv.take(i as int), Seq::<DiskView>::empty(), step) == Some(disks_view(ds)),
        decreases fs@.len() - i,
    {
        proof {
            lemma_fold_next(fv, i as int, Seq::<DiskView>::empty(), step);
            assert(fv[i as int] == (fs@[i as int].0, fs@[i as int].1@));
        }
        if !disks_apply(&mut ds, &fs[i]) {
            proof {
                lemma_fold_refused(fv, i + 1, Seq::<DiskView>::empty(), step);
            }
            return Err(malformed());
        }
        i = i + 1;
    }
    assert(fv.take(fs@.len() as int) =~= fv);
    Ok(ds)
}

/// An operation result read so far: the request kind is `None` until a
/// field gives it.
pub struct ResultView {
    pub disk: Seq<char>,
    pub op_type: Option<Op>,
    pub result: ResultType,
    pub outcome: Option<OpOutcome>,
    pub value: Option<bool>,
    pub error_msg: Option<Seq<char>>,
}

pub open spec fn result_view(r: OpOutcomeResult, has_op: bool) -> ResultView {
    ResultView {
        disk: r.disk@,
        op_type: if has_op {
            Some(r.op_type)
        } else {
            None
        },
        result: r.result,
        outcome: r.outcome,
        value: r.value,
        error_msg: opt_view(r.error_msg),
    }
}

pub open spec fn result_init() -> ResultView {
    ResultView {
        disk: Seq::empty(),
        op_type: None,
        result: ResultType::OK,
        outcome: None,
        value: None,
        error_msg: None,
    }
}

/// An operation result after one more field: 1 the result and 2 the
/// outcome (each an `int32`, else refused; an unknown outcome code unsets
/// the outcome), 3 the answer, 4 the error message and 6 the disk (UTF-8,
/// else refused), 5 the request kind (a known code, else refused).
pub open spec fn result_step(r: ResultView, f: (u32, WireVal)) -> Option<ResultView> {
    match f.1 {
        WireVal::Varint(v) => if f.0 == 1 {
            if fits_i32(v) {
                Some(ResultView { result: result_of_code(v), ..r })
            } else {
                None
            }
        } else if f.0 == 2 {
            if fits_i32(v) {
                Some(ResultView { outcome: outcome_of_code(v), ..r })
            } else {
                None
            }
        } else if f.0 == 3 {
            Some(ResultView { value: Some(v != 0), ..r })
        } else if f.0 == 5 {
            match op_of_code(v) {
                Some(t) => Some(ResultView { op_type: Some(t), ..r }),
                None => None,
            }
        } else {
            Some(r)
        },
        WireVal::Bytes(b) => if f.0 == 4 || f.0 == 6 {
            match utf8_text(b) {
                Some(t) => if f.0 == 4 {
                    Some(ResultView { error_msg: Some(t), ..r })
                } else {
                    Some(ResultView { disk: t, ..r })
                },
                None => None,
            }
        } else {
            Some(r)
        },
        _ => Some(r),
    }
}

pub open spec fn result_stepper() -> spec_fn(ResultView, (u32, WireVal)) -> Option<ResultView> {
    |r: ResultView, f: (u32, WireVal)| result_step(r, f)
}

/// The operation result the fields make.
pub open spec fn result_of_fields(fs: Seq<(u32, WireVal)>) -> Option<ResultView> {
    fold_fields(fs, result_init(), result_stepper())
}

fn result_apply(r: &mut OpOutcomeResult, has_op: &mut bool, f: &(u32, WireValue)) -> (ok: bool)
    ensures
        ok == result_step(result_view(*old(r), *old(has_op)), (f.0, f.1@)) is Some,
        ok ==> result_step(result_view(*old(r), *old(has_op)), (f.0, f.1@)) == Some(
            result_view(*final(r), *final(has_op)),
        ),
{
    match &f.1 {
        WireValue::Varint(v) => {
            if f.0 == 1 {
                if fits_i32_exec(*v) {
                    r.result = if *v == 1 {
                        ResultType::ERR
                    } else {
                        ResultType::OK
                    };
                    true
                } else {
                    false
                }
            } else if f.0 == 2 {
                if fits_i32_exec(*v) {
                    r.outcome = if *v == 0 {
                        Some(OpOutcome::Success)
                    } else if *v == 1 {
                        Some(OpOutcome::Skipped)
                    } else if *v == 2 {
                        Some(OpOutcome::SkipRepeat)
                    } else {
                        None
                    };
                    true
                } else {
                    false
                }
            } else if f.0 == 3 {
                r.value = Some(*v != 0);
                true
            } else if f.0 == 5 {
                match op_from_code(*v) {
                    Some(t) => {
                        r.op_type = t;
                        *has_op = true;
                        true
                    },
                    None => false,
                }
            } else {
                true
            }
        },
        WireValue::Bytes(b) => {
            if f.0 == 4 || f.0 == 6 {
                match text_from_utf8(b.as_slice()) {
                    Some(t) => {
                        if f.0 == 4 {
                            r.error_msg = Some(t);
                        } else {
                            r.disk = t;
                        }
                        true
                    },
                    None => false,
                }
            } else {
                true
            }
        },
        _ => true,
    }
}

/// Read an operation result from its wire form: the result its fields make,
/// or an error when the bytes are not fields, a field is refused, or no
/// field gives the request kind.
pub fn decode_op_result(bytes: &[u8]) -> (res: Result<OpOutcomeResult, BynarError>)
    ensures
        match wire_fields(bytes@) {
            None => res matches Err(BynarError::Error(m)) && m@ == malformed_text(),
            Some(fs) => match result_of_fields(fs) {
                Some(v) => if v.op_type is Some {
                    res matches Ok(r) && result_view(r, true) == v
                } else {
                    res matches Err(BynarError::Error(m)) && m@ == malformed_text()
                },
                None => res matches Err(BynarError::Error(m)) && m@ == malformed_text(),
            },
        },
{
    let fs = match read_fields(bytes) {
        Some(fs) => fs,
        None => return Err(malformed()),
    };
    let ghost fv = fields_view(fs@);
    let ghost step = result_stepper();
    let mut r = OpOutcomeResult {
        disk: String::new(),
        op_type: Op::Add,
        result: ResultType::OK,
        outcome: None,
        value: None,
        error_msg: None,
    };
    let mut has_op = false;
    let mut i: usize = 0;
    assert(fv.take(0) =~= Seq::<(u32, WireVal)>::empty());
    while i < fs.len()
        invariant
            i <= fs@.len(),
            fv == fields_view(fs@),
            wire_fields(bytes@) == Some(fv),
            step == result_stepper(),
            fold_fields(fv.take(i as int), result_init(), step) == Some(result_view(r, has_op)),
        decreases fs@.len() - i,
    {
        proof {
            lemma_fold_next(fv, i as int, result_init(), step);
            assert(fv[i as int] == (fs@[i as int].0, fs@[i as int].1@));
        }
        if !result_apply(&mut r, &mut has_op, &fs[i]) {
            proof {
                lemma_fold_refused(fv, i + 1, result_init(), step);
            }
            return Err(malformed());
        }
        i = i + 1;
    }
    assert(fv.take(fs@.len() as int) =~= fv);
    if !has_op {
        return Err(malformed());
    }
    Ok(r)
}

/// A repair ticket the disk manager knows of, and the server it is for.
#[derive(Debug)]
pub struct JiraInfo {
    pub ticket_id: String,
    pub server_name: String,
}

/// The answer to a request for the repair tickets.
#[derive(Debug)]
pub struct OpJiraTicketsResult {
    pub result: ResultType,
    pub tickets: Vec<JiraInfo>,
    pub error_msg: Option<String>,
}

/// A ticket, as mathematical values.
pub struct JiraView {
    pub ticket_id: Seq<char>,
    pub server_name: Seq<char>,
}

pub open spec fn jira_view(j: JiraInfo) -> JiraView {
    JiraView { ticket_id: j.ticket_id@, server_name: j.server_name@ }
}

/// A ticket after one more field: 1 its id and 2 its server (UTF-8, else
/// refused).
pub open spec fn jira_step(j: JiraView, f: (u32, WireVal)) -> Option<JiraView> {
    match f.1 {
        WireVal::Bytes(b) => if f.0 == 1 || f.0 == 2 {
            match utf8_text(b) {
                Some(t) => if f.0 == 1 {
                    Some(JiraView { ticket_id: t, ..j })
                } else {
                    Some(JiraView { server_name: t, ..j })
                },
                None => None,
            }
        } else {
            Some(j)
        },
        _ => Some(j),
    }
}

pub open spec fn jira_stepper() -> spec_fn(JiraView, (u32, WireVal)) -> Option<JiraView> {
    |j: JiraView, f: (u32, WireVal)| jira_step(j, f)
}

/// The ticket the bytes hold.
pub open spec fn jira_of_bytes(b: Seq<u8>) -> Option<JiraView> {
    match wire_fields(b) {
        Some(fs) => fold_fields(fs, JiraView { ticket_id: Seq::empty(), server_name: Seq::empty() }, jira_stepper()),
        None => None,
    }
}

fn jira_apply(j: &mut JiraInfo, f: &(u32, WireValue)) -> (ok: bool)
    ensures
        ok == jira_step(jira_view(*old(j)), (f.0, f.1@)) is Some,
        ok ==> jira_step(jira_view(*old(j)), (f.0, f.1@)) == Some(jira_view(*final(j))),
{
    match &f.1 {
        WireValue::Bytes(b) => {
            if f.0 == 1 || f.0 == 2 {
                match text_from_utf8(b.as_slice()) {
                    Some(t) => {
                        if f.0 == 1 {
                            j.ticket_id = t;
                        } else {
                            j.server_name = t;
                        }
                        true
                    },
                    None => false,
                }
            } else {
                true
            }
        },
        _ => true,
    }
}

/// Read a ticket from its wire form.
pub fn decode_jira(bytes: &[u8]) -> (res: Result<JiraInfo, BynarError>)
    ensures
        match jira_of_bytes(bytes@) {
            Some(v) => res matches Ok(j) && jira_view(j) == v,
            None => res matches Err(BynarError::Error(m)) && m@ == malformed_text(),
        },
{
    let fs = match read_fields(bytes) {
        Some(fs) => fs,
        None => return Err(malformed()),
    };
    let ghost fv = fields_view(fs@);
    let ghost step = jira_stepper();
    let ghost init = JiraView { ticket_id: Seq::empty(), server_name: Seq::empty() };
    let mut j = JiraInfo { ticket_id: String::new(), server_name: String::new() };
    let mut i: usize = 0;
    assert(fv.take(0) =~= Seq::<(u32, WireVal)>::empty());
    while i < fs.len()
        invariant
            i <= fs@.len(),
            fv == fields_view(fs@),
            wire_fields(bytes@) == Some(fv),
            step == jira_stepper(),
            init == (JiraView { ticket_id: Seq::empty(), server_name: Seq::empty() }),
            fold_fields(fv.take(i as int), init, step) == Some(jira_view(j)),
        decreases fs@.len() - i,
    {
        proof {
            lemma_fold_next(fv, i as int, init, step);
            assert(fv[i as int] == (fs@[i as int].0, fs@[i as int].1@));
        }
        if !jira_apply(&mut j, &fs[i]) {
            proof {
                lemma_fold_refused(fv, i + 1, init, step);
            }
            return Err(malformed());
        }
        i = i + 1;
    }
    assert(fv.take(fs@.len() as int) =~= fv);
    Ok(j)
}

/// A ticket list, as mathematical values.
pub struct TicketsView {
    pub result: ResultType,
    pub tickets: Seq<JiraView>,
    pub error_msg: Option<Seq<char>>,
}

pub open spec fn tickets_view(t: OpJiraTicketsResult) -> TicketsView {
    TicketsView {
        result: t.result,
        tickets: t.tickets@.map_values(|j: JiraInfo| jira_view(j)),
        error_msg: opt_view(t.error_msg),
    }
}

pub open spec fn tickets_init() -> TicketsView {
    TicketsView { result: ResultType::OK, tickets: Seq::empty(), error_msg: None }
}

/// A ticket list after one more field: 1 the result (an `int32`, else
/// refused), each field 2 a ticket, in order (refused when it is not one),
/// 3 the error message (UTF-8, else refused).
pub open spec fn tickets_step(t: TicketsView, f: (u32, WireVal)) -> Option<TicketsView> {
    match f.1 {
        WireVal::Varint(v) => if f.0 == 1 {
            if fits_i32(v) {
                Some(TicketsView { result: result_of_code(v), ..t })
            } else {
                None
            }
        } else {
            Some(t)
        },
        WireVal::Bytes(b) => if f.0 == 2 {
            match jira_of_bytes(b) {
                Some(j) => Some(TicketsView { tickets: t.tickets.push(j), ..t }),
                None => None,
            }
        } else if f.0 == 3 {
            match utf8_text(b) {
                Some(m) => Some(TicketsView { error_msg: Some(m), ..t }),
                None => None,
            }
        } else {
            Some(t)
        },
        _ => Some(t),
    }
}

pub open spec fn tickets_stepper() -> spec_fn(TicketsView, (u32, WireVal)) -> Option<TicketsView> {
    |t: TicketsView, f: (u32, WireVal)| tickets_step(t, f)
}

/// The ticket list the fields make.
pub open spec fn tickets_of_fields(fs: Seq<(u32, WireVal)>) -> Option<TicketsView> {
    fold_fields(fs, tickets_init(), tickets_stepper())
}

fn tickets_apply(t: &mut OpJiraTicketsResult, f: &(u32, WireValue)) -> (ok: bool)
    ensures
        ok == tickets_step(tickets_view(*old(t)), (f.0, f.1@)) is Some,
        ok ==> tickets_step(tickets_view(*old(t)), (f.0, f.1@)) == Some(tickets_view(*final(t))),
{
    match &f.1 {
        WireValue::Varint(v) => {
            if f.0 == 1 {
                if fits_i32_exec(*v) {
                    t.result = if *v == 1 {
                        ResultType::ERR
                    } else {
                        ResultType::OK
                    };
                    true
                } else {
                    false
                }
            } else {
                true
            }
        },
        WireValue::Bytes(b) => {
            if f.0 == 2 {
                match decode_jira(b.as_slice()) {
                    Ok(j) => {
                        let ghost before = t.tickets@;
                        t.tickets.push(j);
                        proof {
                            assert(t.tickets@.map_values(|x: JiraInfo| jira_view(x)) =~= before.map_values(
                                |x: JiraInfo| jira_view(x),
                            ).push(jira_view(j)));
                        }
                        true
                    },
                    Err(_) => false,
                }
            } else if f.0 == 3 {
                match text_from_utf8(b.as_slice()) {
                    Some(m) => {
                        t.error_msg = Some(m);
                        true
                    },
                    None => false,
                }
            } else {
                true
            }
        },
        _ => true,
    }
}

/// Read a ticket list from its wire form.
pub fn decode_tickets(bytes: &[u8]) -> (res: Result<OpJiraTicketsResult, BynarError>)
    ensures
        match wire_fields(bytes@) {
            None => res matches Err(BynarError::Error(m)) && m@ == malformed_text(),
            Some(fs) => match tickets_of_fields(fs) {
                Some(v) => res matches Ok(t) && tickets_view(t) == v,
                None => res matches Err(BynarError::Error(m)) && m@ == malformed_text(),
            },
        },
{
    let fs = match read_fields(bytes) {
        Some(fs) => fs,
        None => return Err(malformed()),
    };
    let ghost fv = fields_view(fs@);
    let ghost step = tickets_stepper();
    let mut t = OpJiraTicketsResult { result: ResultType::OK, tickets: Vec::new(), error_msg: None };
    let mut i: usize = 0;
    assert(fv.take(0) =~= Seq::<(u32, WireVal)>::empty());
    assert(t.tickets@.map_values(|j: JiraInfo| jira_view(j)) =~= Seq::<JiraView>::empty());
    assert(tickets_view(t) == tickets_init());
    while i < fs.len()
        invariant
            i <= fs@.len(),
            fv == fields_view(fs@),
            wire_fields(bytes@) == Some(fv),
            step == tickets_stepper(),
            fold_fields(fv.take(i as int), tickets_init(), step) == Some(tickets_view(t)),
        decreases fs@.len() - i,
    {
        proof {
            lemma_fold_next(fv, i as int, tickets_init(), step);
            assert(fv[i as int] == (fs@[i as int].0, fs@[i as int].1@));
        }
        if !tickets_apply(&mut t, &fs[i]) {
            proof {
                lemma_fold_refused(fv, i + 1, tickets_init(), step);
            }
            return Err(malformed());
        }
        i = i + 1;
    }
    assert(fv.take(fs@.len() as int) =~= fv);
    Ok(t)
}

/// The varint encoding of `v`: seven bits a byte, least significant first,
/// the top bit set on every byte but the last.
pub open spec fn varint_bytes(v: nat) -> Seq<u8>
    decreases v,
{
    if v < 128 {
        seq![v as u8]
    } else {
        seq![(v % 128 + 128) as u8] + varint_bytes(v / 128)
    }
}

/// The bytes of one field: its tag, then its value.
pub open spec fn field_bytes(f: (u32, WireVal)) -> Seq<u8> {
    match f.1 {
        WireVal::Varint(v) => varint_bytes(f.0 as nat * 8) + varint_bytes(v as nat),
        WireVal::Fixed64(b) => varint_bytes(f.0 as nat * 8 + 1) + b,
        WireVal::Bytes(b) => varint_bytes(f.0 as nat * 8 + 2) + varint_bytes(b.len()) + b,
        WireVal::Fixed32(b) => varint_bytes(f.0 as nat * 8 + 5) + b,
    }
}

/// The bytes of a message with these fields, in order.
pub open spec fn fields_bytes(fs: Seq<(u32, WireVal)>) -> Seq<u8>
    decreases fs.len(),
{
    if fs.len() == 0 {
        Seq::empty()
    } else {
        fields_bytes(fs.drop_last()) + field_bytes(fs.last())
    }
}

fn push_varint(buf: &mut Vec<u8>, v: u64)
    ensures
        final(buf)@ == old(buf)@ + varint_bytes(v as nat),
{
    let mut x = v;
    while x >= 128
        invariant
            old(buf)@ + varint_bytes(v as nat) == buf@ + varint_bytes(x as nat),
        decreases x,
    {
        let ghost before = buf@;
        buf.push((x % 128 + 128) as u8);
        proof {
            assert(varint_bytes(x as nat) == seq![(x % 128 + 128) as u8] + varint_bytes((x / 128) as nat));
            assert(before + varint_bytes(x as nat) =~= buf@ + varint_bytes((x / 128) as nat));
        }
        x = x / 128;
    }
    let ghost before = buf@;
    buf.push(x as u8);
    assert(before + varint_bytes(x as nat) =~= buf@);
}

fn push_bytes(buf: &mut Vec<u8>, b: &Vec<u8>)
    ensures
        final(buf)@ == old(buf)@ + b@,
{
    let mut k: usize = 0;
    while k < b.len()
        invariant
            k <= b@.len(),
            buf@ == old(buf)@ + b@.take(k as int),
        decreases b@.len() - k,
    {
        buf.push(b[k]);
        proof {
            assert(b@.take(k + 1) =~= b@.take(k as int).push(b@[k as int]));
        }
        k = k + 1;
    }
    assert(b@.take(b@.len() as int) =~= b@);
}

fn push_field(buf: &mut Vec<u8>, f: &(u32, WireValue))
    ensures
        final(buf)@ == old(buf)@ + field_bytes((f.0, f.1@)),
{
    let tag = f.0 as u64 * 8;
    match &f.1 {
        WireValue::Varint(v) => {
            push_varint(buf, tag);
            push_varint(buf, *v);
        },
        WireValue::Fixed64(b) => {
            push_varint(buf, tag + 1);
            push_bytes(buf, b);
        },
        WireValue::Bytes(b) => {
            push_varint(buf, tag + 2);
            push_varint(buf, b.len() as u64);
            push_bytes(buf, b);
        },
        WireValue::Fixed32(b) => {
            push_varint(buf, tag + 5);
            push_bytes(buf, b);
        },
    }
    assert(final(buf)@ =~= old(buf)@ + field_bytes((f.0, f.1@)));
}

/// Whether every field can be written so that it reads back.
pub open spec fn fields_encodable(fs: Seq<(u32, WireVal)>) -> bool {
    forall|j: int| 0 <= j < fs.len() ==> field_encodable(#[trigger] fs[j])
}

/// Write fields, in order, as a message; fields that can be written read
/// back as themselves.
pub fn write_fields(fs: &Vec<(u32, WireValue)>) -> (res: Vec<u8>)
    ensures
        res@ == fields_bytes(fields_view(fs@)),
        fields_encodable(fields_view(fs@)) ==> wire_fields(res@) == Some(fields_view(fs@)),
{
    proof {
        if fields_encodable(fields_view(fs@)) {
            lemma_fields_read_back(fields_view(fs@));
        }
    }
    let mut buf: Vec<u8> = Vec::new();
    let mut i: usize = 0;
    assert(fields_view(fs@).take(0) =~= Seq::<(u32, WireVal)>::empty());
    while i < fs.len()
        invariant
            i <= fs@.len(),
            buf@ == fields_bytes(fields_view(fs@).take(i as int)),
        decreases fs@.len() - i,
    {
        push_field(&mut buf, &fs[i]);
        proof {
            let fv = fields_view(fs@);
            assert(fv.take(i + 1).drop_last() =~= fv.take(i as int));
            assert(fv.take(i + 1).last() == (fs@[i as int].0, fs@[i as int].1@));
        }
        i = i + 1;
    }
    assert(fields_view(fs@).take(fs@.len() as int) =~= fields_view(fs@));
    buf
}

/// The fields of a request: its kind, its disk unless empty, then the
/// dry-run flag and the OSD id where set.
pub open spec fn operation_fields(o: OperationView) -> Seq<(u32, WireVal)> {
    seq![(1u32, WireVal::Varint(op_code(o.op_type)))] + (if o.disk.len() > 0 {
        seq![(2u32, WireVal::Bytes(utf8_bytes_of(o.disk)))]
    } else {
        Seq::empty()
    }) + (match o.simulate {
        Some(b) => seq![(3u32, WireVal::Varint(if b { 1u64 } else { 0u64 }))],
        None => Seq::empty(),
    }) + (match o.osd_id {
        Some(id) => seq![(4u32, WireVal::Varint(id))],
        None => Seq::empty(),
    })
}

fn push_text_field(fs: &mut Vec<(u32, WireValue)>, n: u32, t: &str)
    ensures
        fields_view(final(fs)@) == fields_view(old(fs)@).push((n, WireVal::Bytes(utf8_bytes_of(t@)))),
{
    let b = text_bytes(t);
    fs.push((n, WireValue::Bytes(b)));
    assert(fields_view(final(fs)@) =~= fields_view(old(fs)@).push((n, WireVal::Bytes(utf8_bytes_of(t@)))));
}

fn push_varint_field(fs: &mut Vec<(u32, WireValue)>, n: u32, v: u64)
    ensures
        fields_view(final(fs)@) == fields_view(old(fs)@).push((n, WireVal::Varint(v))),
{
    fs.push((n, WireValue::Varint(v)));
    assert(fields_view(final(fs)@) =~= fields_view(old(fs)@).push((n, WireVal::Varint(v))));
}

/// The wire form of a request.
pub fn encode_operation(op: &Operation) -> (res: Vec<u8>)
    ensures
        res@ == fields_bytes(operation_fields(operation_view(*op))),
        fields_encodable(operation_fields(operation_view(*op))) ==> wire_fields(res@) == Some(operation_fields(operation_view(*op))),
{
    let mut fs: Vec<(u32, WireValue)> = Vec::new();
    push_varint_field(&mut fs, 1, code_of_op(op.op_type));
    if op.disk.unicode_len() > 0 {
        push_text_field(&mut fs, 2, op.disk.as_str());
    }
    match op.simulate {
        Some(b) => push_varint_field(&mut fs, 3, if b { 1 } else { 0 }),
        None => {},
    }
    match op.osd_id {
        Some(id) => push_varint_field(&mut fs, 4, id),
        None => {},
    }
    assert(fields_view(fs@) =~= operation_fields(operation_view(*op)));
    write_fields(&fs)
}

/// The code of a result.
pub open spec fn result_code(r: ResultType) -> u64 {
    match r {
        ResultType::OK => 0,
        ResultType::ERR => 1,
    }
}

/// The code of an outcome.
pub open spec fn outcome_code(o: OpOutcome) -> u64 {
    match o {
        OpOutcome::Success => 0,
        OpOutcome::Skipped => 1,
        OpOutcome::SkipRepeat => 2,
    }
}

/// The code of a disk kind.
pub open spec fn disk_type_code(t: DiskType) -> u64 {
    match t {
        DiskType::SOLID_STATE => 0,
        DiskType::ROTATIONAL => 1,
        DiskType::UNKNOWN => 2,
    }
}

fn code_of_result(r: ResultType) -> (res: u64)
    ensures
        res == result_code(r),
{
    match r {
        ResultType::OK => 0,
        ResultType::ERR => 1,
    }
}

/// The fields of an operation result: its result, its outcome, answer and
/// error message where set, its request kind and its disk.
pub open spec fn result_fields(r: OpOutcomeResult) -> Seq<(u32, WireVal)> {
    seq![(1u32, WireVal::Varint(result_code(r.result)))] + (match r.outcome {
        Some(o) => seq![(2u32, WireVal::Varint(outcome_code(o)))],
        None => Seq::empty(),
    }) + (match r.value {
        Some(b) => seq![(3u32, WireVal::Varint(if b { 1u64 } else { 0u64 }))],
        None => Seq::empty(),
    }) + (match r.error_msg {
        Some(m) => seq![(4u32, WireVal::Bytes(utf8_bytes_of(m@)))],
        None => Seq::empty(),
    }) + seq![(5u32, WireVal::Varint(op_code(r.op_type))), (6u32, WireVal::Bytes(utf8_bytes_of(r.disk@)))]
}

/// The wire form of an operation result.
pub fn encode_op_result(r: &OpOutcomeResult) -> (res: Vec<u8>)
    ensures
        res@ == fields_bytes(result_fields(*r)),
        fields_encodable(result_fields(*r)) ==> wire_fields(res@) == Some(result_fields(*r)),
{
    let mut fs: Vec<(u32, WireValue)> = Vec::new();
    push_varint_field(&mut fs, 1, code_of_result(r.result));
    match r.outcome {
        Some(o) => push_varint_field(
            &mut fs,
            2,
            match o {
                OpOutcome::Success => 0,
                OpOutcome::Skipped => 1,
                OpOutcome::SkipRepeat => 2,
            },
        ),
        None => {},
    }
    match r.value {
        Some(b) => push_varint_field(&mut fs, 3, if b { 1 } else { 0 }),
        None => {},
    }
    match &r.error_msg {
        Some(m) => push_text_field(&mut fs, 4, m.as_str()),
        None => {},
    }
    push_varint_field(&mut fs, 5, code_of_op(r.op_type));
    push_text_field(&mut fs, 6, r.disk.as_str());
    assert(fields_view(fs@) =~= result_fields(*r));
    write_fields(&fs)
}

/// The fields of a disk: its kind, device path and serial number, each
/// where set.
pub open spec fn disk_fields(d: Disk) -> Seq<(u32, WireVal)> {
    (match d.field_type {
        Some(t) => seq![(1u32, WireVal::Varint(disk_type_code(t)))],
        None => Seq::empty(),
    }) + (match d.dev_path {
        Some(p) => seq![(2u32, WireVal::Bytes(utf8_bytes_of(p@)))],
        None => Seq::empty(),
    }) + (match d.serial_number {
        Some(n) => seq![(3u32, WireVal::Bytes(utf8_bytes_of(n@)))],
        None => Seq::empty(),
    })
}

/// The wire form of a disk.
pub fn encode_disk(d: &Disk) -> (res: Vec<u8>)
    ensures
        res@ == fields_bytes(disk_fields(*d)),
        fields_encodable(disk_fields(*d)) ==> wire_fields(res@) == Some(disk_fields(*d)),
{
    let mut fs: Vec<(u32, WireValue)> = Vec::new();
    match d.field_type {
        Some(t) => push_varint_field(
            &mut fs,
            1,
            match t {
                DiskType::SOLID_STATE => 0,
                DiskType::ROTATIONAL => 1,
                DiskType::UNKNOWN => 2,
            },
        ),
        None => {},
    }
    match &d.dev_path {
        Some(p) => push_text_field(&mut fs, 2, p.as_str()),
        None => {},
    }
    match &d.serial_number {
        Some(n) => push_text_field(&mut fs, 3, n.as_str()),
        None => {},
    }
    assert(fields_view(fs@) =~= disk_fields(*d));
    write_fields(&fs)
}

/// The fields of a disk list: one field 1 for each disk, in order.
pub open spec fn disks_fields(ds: Seq<Disk>) -> Seq<(u32, WireVal)> {
    ds.map_values(|d: Disk| (1u32, WireVal::Bytes(fields_bytes(disk_fields(d)))))
}

/// The wire form of a disk list.
pub fn encode_disks(disks: &Disks) -> (res: Vec<u8>)
    ensures
        res@ == fields_bytes(disks_fields(disks.disk@)),
        fields_encodable(disks_fields(disks.disk@)) ==> wire_fields(res@) == Some(disks_fields(disks.disk@)),
{
    let mut fs: Vec<(u32, WireValue)> = Vec::new();
    let mut i: usize = 0;
    while i < disks.disk.len()
        invariant
            i <= disks.disk@.len(),
            fields_view(fs@) == disks_fields(disks.disk@.take(i as int)),
        decreases disks.disk@.len() - i,
    {
        let b = encode_disk(&disks.disk[i]);
        let ghost before = fs@;
        fs.push((1, WireValue::Bytes(b)));
        proof {
            assert(disks.disk@.take(i + 1) =~= disks.disk@.take(i as int).push(disks.disk@[i as int]));
            assert(fields_view(fs@) =~= fields_view(before).push((1u32, WireVal::Bytes(b@))));
            assert(disks_fields(disks.disk@.take(i + 1)) =~= disks_fields(disks.disk@.take(i as int)).push(
                (1u32, WireVal::Bytes(fields_bytes(disk_fields(disks.disk@[i as int])))),
            ));
        }
        i = i + 1;
    }
    assert(disks.disk@.take(disks.disk@.len() as int) =~= disks.disk@);
    write_fields(&fs)
}

/// The fields of a ticket: its id and its server.
pub open spec fn jira_fields(j: JiraInfo) -> Seq<(u32, WireVal)> {
    seq![(1u32, WireVal::Bytes(utf8_bytes_of(j.ticket_id@))), (2u32, WireVal::Bytes(utf8_bytes_of(j.server_name@)))]
}

/// The wire form of a ticket.
pub fn encode_jira(j: &JiraInfo) -> (res: Vec<u8>)
    ensures
        res@ == fields_bytes(jira_fields(*j)),
        fields_encodable(jira_fields(*j)) ==> wire_fields(res@) == Some(jira_fields(*j)),
{
    let mut fs: Vec<(u32, WireValue)> = Vec::new();
    push_text_field(&mut fs, 1, j.ticket_id.as_str());
    push_text_field(&mut fs, 2, j.server_name.as_str());
    assert(fields_view(fs@) =~= jira_fields(*j));
    write_fields(&fs)
}

/// The fields of a ticket list: its result, one field 2 for each ticket in
/// order, then its error message where set.
pub open spec fn tickets_fields(t: OpJiraTicketsResult) -> Seq<(u32, WireVal)> {
    seq![(1u32, WireVal::Varint(result_code(t.result)))] + t.tickets@.map_values(
        |j: JiraInfo| (2u32, WireVal::Bytes(fields_bytes(jira_fields(j)))),
    ) + (match t.error_msg {
        Some(m) => seq![(3u32, WireVal::Bytes(utf8_bytes_of(m@)))],
        None => Seq::empty(),
    })
}

/// The wire form of a ticket list.
pub fn encode_tickets(t: &OpJiraTicketsResult) -> (res: Vec<u8>)
    ensures
        res@ == fields_bytes(tickets_fields(*t)),
        fields_encodable(tickets_fields(*t)) ==> wire_fields(res@) == Some(tickets_fields(*t)),
{
    let mut fs: Vec<(u32, WireValue)> = Vec::new();
    push_varint_field(&mut fs, 1, code_of_result(t.result));
    let mut i: usize = 0;
    while i < t.tickets.len()
        invariant
            i <= t.tickets@.len(),
            fields_view(fs@) == seq![(1u32, WireVal::Varint(result_code(t.result)))] + t.tickets@.take(
                i as int,
            ).map_values(|j: JiraInfo| (2u32, WireVal::Bytes(fields_bytes(jira_fields(j))))),
        decreases t.tickets@.len() - i,
    {
        let b = encode_jira(&t.tickets[i]);
        let ghost before = fs@;
        fs.push((2, WireValue::Bytes(b)));
        proof {
            assert(t.tickets@.take(i + 1) =~= t.tickets@.take(i as int).push(t.tickets@[i as int]));
            assert(fields_view(fs@) =~= fields_view(before).push((2u32, WireVal::Bytes(b@))));
            assert(t.tickets@.take(i + 1).map_values(|j: JiraInfo| (2u32, WireVal::Bytes(fields_bytes(jira_fields(j)))))
                =~= t.tickets@.take(i as int).map_values(|j: JiraInfo| (2u32, WireVal::Bytes(fields_bytes(jira_fields(j))))).push(
                (2u32, WireVal::Bytes(fields_bytes(jira_fields(t.tickets@[i as int]))))));
            assert(fields_view(fs@) =~= seq![(1u32, WireVal::Varint(result_code(t.result)))] + t.tickets@.take(
                i + 1,
            ).map_values(|j: JiraInfo| (2u32, WireVal::Bytes(fields_bytes(jira_fields(j))))));
        }
        i = i + 1;
    }
    assert(t.tickets@.take(t.tickets@.len() as int) =~= t.tickets@);
    match &t.error_msg {
        Some(m) => push_text_field(&mut fs, 3, m.as_str()),
        None => {},
    }
    assert(fields_view(fs@) =~= tickets_fields(*t));
    write_fields(&fs)
}

proof fn lemma_varint_bytes(v: nat)
    ensures
        varint_bytes(v).len() >= 1,
        v < 128 ==> varint_bytes(v) == seq![v as u8],
        v >= 128 ==> varint_bytes(v)[0] == (v % 128 + 128) as u8 && varint_bytes(v).drop_first() == varint_bytes(v / 128),
{
    if v >= 128 {
        assert((seq![(v % 128 + 128) as u8] + varint_bytes(v / 128)).drop_first() =~= varint_bytes(v / 128));
    }
}

proof fn lemma_varint_reads_back(b: Seq<u8>, i: int, k: int, v: nat, last: int, last_max: int)
    requires
        0 <= i,
        0 <= k <= last,
        0 <= last_max < 128,
        v < varint_bound(k, last, last_max),
        i + k + varint_bytes(v).len() <= b.len(),
        b.subrange(i + k, i + k + varint_bytes(v).len()) == varint_bytes(v),
    ensures
        varint_rest(b, i, k, last, last_max) == Some((v as int, i + k + varint_bytes(v).len())),
    decreases v,
{
    lemma_varint_bytes(v);
    assert(b[i + k] == b.subrange(i + k, i + k + varint_bytes(v).len())[0]);
    if v >= 128 {
        if k >= last {
            assert(false);
        }
        let w = v / 128;
        lemma_varint_bytes(w);
        assert(w < varint_bound(k + 1, last, last_max)) by (nonlinear_arith)
            requires
                v < varint_bound(k, last, last_max),
                varint_bound(k, last, last_max) == 128 * varint_bound(k + 1, last, last_max),
                w == v / 128,
        ;
        assert(b.subrange(i + k + 1, i + k + 1 + varint_bytes(w).len()) =~= b.subrange(
            i + k,
            i + k + varint_bytes(v).len(),
        ).drop_first());
        lemma_varint_reads_back(b, i, k + 1, w, last, last_max);
        assert(v % 128 + 128 * w == v);
    }
}

/// Whether a field can be written so that it reads back: its number is a
/// valid field number and its bytes have a length a 32-bit varint holds.
pub open spec fn field_encodable(f: (u32, WireVal)) -> bool {
    &&& 1 <= f.0 < 0x2000_0000
    &&& match f.1 {
        WireVal::Varint(_) => true,
        WireVal::Fixed64(b) => b.len() == 8,
        WireVal::Bytes(b) => b.len() < 0x1_0000_0000,
        WireVal::Fixed32(b) => b.len() == 4,
    }
}

proof fn lemma_field_reads_back(b: Seq<u8>, i: int, f: (u32, WireVal))
    requires
        0 <= i,
        field_encodable(f),
        i + field_bytes(f).len() <= b.len(),
        b.subrange(i, i + field_bytes(f).len()) == field_bytes(f),
    ensures
        field_at(b, i) == Some((f.0, f.1, i + field_bytes(f).len())),
{
    lemma_varint_bounds();
    let w: nat = match f.1 {
        WireVal::Varint(_) => 0,
        WireVal::Fixed64(_) => 1,
        WireVal::Bytes(_) => 2,
        WireVal::Fixed32(_) => 5,
    };
    let t: nat = f.0 as nat * 8 + w;
    let tb = varint_bytes(t);
    let rest = field_bytes(f).skip(tb.len() as int);
    assert(field_bytes(f) =~= tb + rest);
    assert(b.subrange(i, i + tb.len()) =~= tb);
    lemma_varint_reads_back(b, i, 0, t, 4, 15);
    let e = i + tb.len();
    assert(t / 8 == f.0 && t % 8 == w);
    assert(b.subrange(e, e + rest.len()) =~= rest);
    match f.1 {
        WireVal::Varint(v) => {
            assert(rest =~= varint_bytes(v as nat));
            lemma_varint_reads_back(b, e, 0, v as nat, 9, 1);
        },
        WireVal::Fixed64(x) => {
            assert(rest =~= x);
        },
        WireVal::Bytes(x) => {
            let lb = varint_bytes(x.len());
            assert(rest =~= lb + x);
            assert(b.subrange(e, e + lb.len()) =~= lb);
            lemma_varint_reads_back(b, e, 0, x.len(), 4, 15);
            assert(b.subrange(e + lb.len(), e + lb.len() + x.len()) =~= b.subrange(e, e + rest.len()).skip(
                lb.len() as int,
            ));
            assert((lb + x).skip(lb.len() as int) =~= x);
        },
        WireVal::Fixed32(x) => {
            assert(rest =~= x);
        },
    }
}

proof fn lemma_fields_bytes_front(f: (u32, WireVal), fs: Seq<(u32, WireVal)>)
    ensures
        fields_bytes(seq![f] + fs) == field_bytes(f) + fields_bytes(fs),
    decreases fs.len(),
{
    if fs.len() == 0 {
        assert(fields_bytes(fs) =~= Seq::<u8>::empty());
        assert(fields_bytes(Seq::<(u32, WireVal)>::empty()) =~= Seq::<u8>::empty());
        assert(seq![f] + fs =~= seq![f]);
        assert(seq![f].drop_last() =~= Seq::<(u32, WireVal)>::empty());
        assert(field_bytes(f) + Seq::<u8>::empty() =~= field_bytes(f));
        assert(Seq::<u8>::empty() + field_bytes(f) =~= field_bytes(f));
    } else {
        lemma_fields_bytes_front(f, fs.drop_last());
        assert((seq![f] + fs).drop_last() =~= seq![f] + fs.drop_last());
        assert((seq![f] + fs).last() == fs.last());
        assert(fields_bytes(seq![f] + fs) =~= field_bytes(f) + fields_bytes(fs));
    }
}

proof fn lemma_fields_from_bytes(b: Seq<u8>, i: int, fs: Seq<(u32, WireVal)>)
    requires
        0 <= i <= b.len(),
        forall|j: int| 0 <= j < fs.len() ==> field_encodable(#[trigger] fs[j]),
        b.skip(i) == fields_bytes(fs),
    ensures
        fields_from(b, i) == Some(fs),
    decreases fs.len(),
{
    if fs.len() == 0 {
        assert(b.skip(i).len() == 0);
    } else {
        let f = fs[0];
        let rest = fs.drop_first();
        assert(fs =~= seq![f] + rest);
        lemma_fields_bytes_front(f, rest);
        let n = field_bytes(f).len();
        assert(field_encodable(fs[0]));
        assert(b.skip(i) == field_bytes(f) + fields_bytes(rest));
        assert(b.skip(i).len() == b.len() - i);
        assert(i + n <= b.len());
        assert(b.subrange(i, i + n) =~= b.skip(i).take(n as int));
        assert(field_bytes(f) =~= (field_bytes(f) + fields_bytes(rest)).take(n as int));
        lemma_field_reads_back(b, i, f);
        lemma_varint_bytes(f.0 as nat * 8);
        assert(b.skip(i + n) =~= b.skip(i).skip(n as int));
        assert(fields_bytes(rest) =~= (field_bytes(f) + fields_bytes(rest)).skip(n as int));
        assert forall|j: int| 0 <= j < rest.len() implies field_encodable(#[trigger] rest[j]) by {
            assert(rest[j] == fs[j + 1]);
        }
        lemma_fields_from_bytes(b, i + n, rest);
        assert(seq![(f.0, f.1)] + rest =~= fs);
    }
}

/// Written fields read back: the bytes of fields that can be written read
/// as those fields, in order.
pub proof fn lemma_fields_read_back(fs: Seq<(u32, WireVal)>)
    requires
        forall|j: int| 0 <= j < fs.len() ==> field_encodable(#[trigger] fs[j]),
    ensures
        wire_fields(fields_bytes(fs)) == Some(fs),
{
    let b = fields_bytes(fs);
    assert(b.skip(0) =~= b);
    lemma_fields_from_bytes(b, 0, fs);
}

proof fn lemma_fold_push<A>(fs: Seq<(u32, WireVal)>, f: (u32, WireVal), init: A, step: spec_fn(A, (u32, WireVal)) -> Option<A>)
    ensures
        fold_fields(fs.push(f), init, step) == match fold_fields(fs, init, step) {
            Some(a) => step(a, f),
            None => None,
        },
{
    assert(fs.push(f).drop_last() =~= fs);
}

proof fn lemma_op_code(t: Op)
    ensures
        op_of_code(op_code(t)) == Some(t),
{
}

/// A request written and read back is the request: the bytes written for
/// it read as its fields, and those fields make it again (where its disk's
/// UTF-8 form is short enough for a length field).
pub proof fn lemma_operation_reads_back(o: OperationView)
    requires
        o.disk.len() > 0 ==> utf8_bytes_of(o.disk).len() < 0x1_0000_0000,
    ensures
        wire_fields(fields_bytes(operation_fields(o))) == Some(operation_fields(o)),
        operation_of_fields(operation_fields(o)) == Some(o),
{
    lemma_text_reads_back(o.disk);
    let step = operation_stepper();
    let init = operation_init();
    let f1 = (1u32, WireVal::Varint(op_code(o.op_type)));
    let s1 = seq![f1];
    lemma_op_code(o.op_type);
    lemma_fold_push(Seq::empty(), f1, init, step);
    assert(Seq::<(u32, WireVal)>::empty().push(f1) =~= s1);
    let v1 = OperationView { op_type: o.op_type, ..init };
    assert(fold_fields(s1, init, step) == Some(v1));
    let s2 = if o.disk.len() > 0 {
        s1.push((2u32, WireVal::Bytes(utf8_bytes_of(o.disk))))
    } else {
        s1
    };
    let v2 = OperationView { disk: o.disk, ..v1 };
    if o.disk.len() > 0 {
        lemma_fold_push(s1, (2u32, WireVal::Bytes(utf8_bytes_of(o.disk))), init, step);
    } else {
        assert(o.disk =~= Seq::<char>::empty());
    }
    assert(fold_fields(s2, init, step) == Some(v2));
    let s3 = match o.simulate {
        Some(b) => s2.push((3u32, WireVal::Varint(if b { 1u64 } else { 0u64 }))),
        None => s2,
    };
    let v3 = OperationView { simulate: o.simulate, ..v2 };
    match o.simulate {
        Some(b) => {
            lemma_fold_push(s2, (3u32, WireVal::Varint(if b { 1u64 } else { 0u64 })), init, step);
        },
        None => {},
    }
    assert(fold_fields(s3, init, step) == Some(v3));
    let s4 = match o.osd_id {
        Some(id) => s3.push((4u32, WireVal::Varint(id))),
        None => s3,
    };
    match o.osd_id {
        Some(id) => {
            lemma_fold_push(s3, (4u32, WireVal::Varint(id)), init, step);
        },
        None => {},
    }
    assert(fold_fields(s4, init, step) == Some(o));
    assert(operation_fields(o) =~= s4);
    assert(fields_encodable(operation_fields(o))) by {
        assert forall|j: int| 0 <= j < s4.len() implies field_encodable(#[trigger] s4[j]) by {
            if o.disk.len() > 0 && j == 1 {
                assert(s4[j] == (2u32, WireVal::Bytes(utf8_bytes_of(o.disk))));
            }
        }
    }
    lemma_fields_read_back(operation_fields(o));
}

/// Whether a text's UTF-8 encoding is short enough for a length field.
pub open spec fn text_writable(t: Seq<char>) -> bool {
    utf8_bytes_of(t).len() < 0x1_0000_0000
}

/// Whether an optional text is writable where set.
pub open spec fn opt_text_writable(t: Option<Seq<char>>) -> bool {
    t matches Some(v) ==> text_writable(v)
}

/// A disk written and read back is the disk: its bytes read as its fields,
/// and those make it again.
pub proof fn lemma_disk_reads_back(d: Disk)
    requires
        opt_text_writable(opt_view(d.dev_path)),
        opt_text_writable(opt_view(d.serial_number)),
    ensures
        wire_fields(fields_bytes(disk_fields(d))) == Some(disk_fields(d)),
        disk_of_fields(disk_fields(d)) == Some(disk_view(d)),
{
    match d.dev_path {
        Some(p) => lemma_text_reads_back(p@),
        None => {},
    }
    match d.serial_number {
        Some(n) => lemma_text_reads_back(n@),
        None => {},
    }
    let step = disk_stepper();
    let init = disk_init();
    let s0 = Seq::<(u32, WireVal)>::empty();
    let s1 = match d.field_type {
        Some(t) => s0.push((1u32, WireVal::Varint(disk_type_code(t)))),
        None => s0,
    };
    let v1 = DiskView { field_type: d.field_type, ..init };
    match d.field_type {
        Some(t) => {
            lemma_fold_push(s0, (1u32, WireVal::Varint(disk_type_code(t))), init, step);
        },
        None => {},
    }
    assert(fold_fields(s1, init, step) == Some(v1));
    let s2 = match d.dev_path {
        Some(p) => s1.push((2u32, WireVal::Bytes(utf8_bytes_of(p@)))),
        None => s1,
    };
    let v2 = DiskView { dev_path: opt_view(d.dev_path), ..v1 };
    match d.dev_path {
        Some(p) => {
            lemma_fold_push(s1, (2u32, WireVal::Bytes(utf8_bytes_of(p@))), init, step);
        },
        None => {},
    }
    assert(fold_fields(s2, init, step) == Some(v2));
    let s3 = match d.serial_number {
        Some(n) => s2.push((3u32, WireVal::Bytes(utf8_bytes_of(n@)))),
        None => s2,
    };
    match d.serial_number {
        Some(n) => {
            lemma_fold_push(s2, (3u32, WireVal::Bytes(utf8_bytes_of(n@))), init, step);
        },
        None => {},
    }
    assert(fold_fields(s3, init, step) == Some(disk_view(d)));
    assert(disk_fields(d) =~= s3);
    assert(fields_encodable(s3)) by {
        assert forall|j: int| 0 <= j < s3.len() implies field_encodable(#[trigger] s3[j]) by {
        }
    }
    lemma_fields_read_back(disk_fields(d));
}

/// An operation result written and read back is the result: its bytes
/// read as its fields, and those make it again, request kind included.
pub proof fn lemma_op_result_reads_back(r: OpOutcomeResult)
    requires
        text_writable(r.disk@),
        opt_text_writable(opt_view(r.error_msg)),
    ensures
        wire_fields(fields_bytes(result_fields(r))) == Some(result_fields(r)),
        result_of_fields(result_fields(r)) == Some(result_view(r, true)),
{
    lemma_text_reads_back(r.disk@);
    match r.error_msg {
        Some(m) => lemma_text_reads_back(m@),
        None => {},
    }
    let step = result_stepper();
    let init = result_init();
    let s0 = Seq::<(u32, WireVal)>::empty();
    let f1 = (1u32, WireVal::Varint(result_code(r.result)));
    let s1 = s0.push(f1);
    lemma_fold_push(s0, f1, init, step);
    let v1 = ResultView { result: r.result, ..init };
    assert(fold_fields(s1, init, step) == Some(v1));
    let s2 = match r.outcome {
        Some(o) => s1.push((2u32, WireVal::Varint(outcome_code(o)))),
        None => s1,
    };
    let v2 = ResultView { outcome: r.outcome, ..v1 };
    match r.outcome {
        Some(o) => {
            lemma_fold_push(s1, (2u32, WireVal::Varint(outcome_code(o))), init, step);
        },
        None => {},
    }
    assert(fold_fields(s2, init, step) == Some(v2));
    let s3 = match r.value {
        Some(b) => s2.push((3u32, WireVal::Varint(if b { 1u64 } else { 0u64 }))),
        None => s2,
    };
    let v3 = ResultView { value: r.value, ..v2 };
    match r.value {
        Some(b) => {
            lemma_fold_push(s2, (3u32, WireVal::Varint(if b { 1u64 } else { 0u64 })), init, step);
        },
        None => {},
    }
    assert(fold_fields(s3, init, step) == Some(v3));
    let s4 = match r.error_msg {
        Some(m) => s3.push((4u32, WireVal::Bytes(utf8_bytes_of(m@)))),
        None => s3,
    };
    let v4 = ResultView { error_msg: opt_view(r.error_msg), ..v3 };
    match r.error_msg {
        Some(m) => {
            lemma_fold_push(s3, (4u32, WireVal::Bytes(utf8_bytes_of(m@))), init, step);
        },
        None => {},
    }
    assert(fold_fields(s4, init, step) == Some(v4));
    let f5 = (5u32, WireVal::Varint(op_code(r.op_type)));
    let s5 = s4.push(f5);
    lemma_fold_push(s4, f5, init, step);
    lemma_op_code(r.op_type);
    let v5 = ResultView { op_type: Some(r.op_type), ..v4 };
    assert(fold_fields(s5, init, step) == Some(v5));
    let f6 = (6u32, WireVal::Bytes(utf8_bytes_of(r.disk@)));
    let s6 = s5.push(f6);
    lemma_fold_push(s5, f6, init, step);
    assert(fold_fields(s6, init, step) == Some(result_view(r, true)));
    assert(result_fields(r) =~= s6);
    assert(fields_encodable(s6)) by {
        assert forall|j: int| 0 <= j < s6.len() implies field_encodable(#[trigger] s6[j]) by {
        }
    }
    lemma_fields_read_back(result_fields(r));
}

/// Whether every text of an operation result has a UTF-8 form short
/// enough for a length field.
pub open spec fn result_writable(r: OpOutcomeResult) -> bool {
    text_writable(r.disk@) && opt_text_writable(opt_view(r.error_msg))
}

proof fn lemma_result_fields_of_view(a: OpOutcomeResult, b: OpOutcomeResult)
    requires
        result_view(a, true) == result_view(b, true),
    ensures
        result_fields(a) == result_fields(b),
{
    match (a.error_msg, b.error_msg) {
        (Some(x), Some(y)) => {
            assert(x@ == y@);
        },
        _ => {},
    }
}

proof fn lemma_fields_bytes_nonempty(fs: Seq<(u32, WireVal)>)
    requires
        fs.len() > 0,
    ensures
        fields_bytes(fs).len() > 0,
{
    let f = fs.last();
    let w: nat = match f.1 {
        WireVal::Varint(_) => 0,
        WireVal::Fixed64(_) => 1,
        WireVal::Bytes(_) => 2,
        WireVal::Fixed32(_) => 5,
    };
    lemma_varint_bytes(f.0 as nat * 8 + w);
    lemma_varint_bytes(f.0 as nat * 8);
}

fn bytes_prefix(p: &Vec<u8>, m: &[u8]) -> (res: bool)
    ensures
        res == (p@.len() <= m@.len() && m@.subrange(0, p@.len() as int) == p@),
{
    if p.len() > m.len() {
        return false;
    }
    let mut i: usize = 0;
    while i < p.len()
        invariant
            p@.len() <= m@.len(),
            i <= p@.len(),
            forall|j: int| 0 <= j < i ==> m@[j] == p@[j],
        decreases p@.len() - i,
    {
        if m[i] != p[i] {
            assert(m@.subrange(0, p@.len() as int)[i as int] != p@[i as int]);
            return false;
        }
        i = i + 1;
    }
    assert(m@.subrange(0, p@.len() as int) =~= p@);
    true
}

/// The first operation result at the start of `message`, as several may
/// arrive in one read, and the number of bytes it takes. Prefixes are tried
/// from the longest down; the first that reads as a result whose encoding
/// starts `message` gives it. `None` when no prefix is the encoding of a
/// result (one whose texts fit a length field).
pub fn first_op_result(message: &[u8]) -> (res: Option<(OpOutcomeResult, usize)>)
    ensures
        res matches Some(p) ==> 0 < p.1 <= message@.len() && fields_bytes(result_fields(p.0)) == message@.subrange(
            0,
            p.1 as int,
        ),
        res is None ==> forall|k: int, r: OpOutcomeResult|
            #![trigger fields_bytes(result_fields(r)), message@.subrange(0, k)]
            0 < k <= message@.len() && result_writable(r) ==> fields_bytes(result_fields(r)) != message@.subrange(0, k),
{
    let mut k: usize = message.len();
    while k > 0
        invariant
            k <= message@.len(),
            forall|k2: int, r: OpOutcomeResult|
                #![trigger fields_bytes(result_fields(r)), message@.subrange(0, k2)]
                k < k2 <= message@.len() && result_writable(r) ==> fields_bytes(result_fields(r)) != message@.subrange(
                    0,
                    k2,
                ),
        decreases k,
    {
        let prefix = vstd::slice::slice_subrange(message, 0, k);
        let decoded = decode_op_result(prefix);
        match decoded {
            Ok(r) => {
                let e = encode_op_result(&r);
                if bytes_prefix(&e, message) {
                    proof {
                        lemma_fields_bytes_nonempty(result_fields(r));
                    }
                    return Some((r, e.len()));
                }
            },
            Err(_) => {},
        }
        proof {
            assert forall|r0: OpOutcomeResult|
                result_writable(r0) implies #[trigger] fields_bytes(result_fields(r0)) != message@.subrange(0, k as int) by {
                if fields_bytes(result_fields(r0)) == message@.subrange(0, k as int) {
                    lemma_op_result_reads_back(r0);
                    assert(prefix@ == fields_bytes(result_fields(r0)));
                    match decoded {
                        Ok(r) => {
                            lemma_result_fields_of_view(r, r0);
                        },
                        Err(_) => {},
                    }
                }
            }
        }
        k = k - 1;
    }
    None
}

} // verus!
