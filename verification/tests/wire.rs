use bynar::ops::{Op, OpOutcome, OpOutcomeResult, Operation, ResultType};
use bynar::service::{Disk, DiskType, Disks};
use bynar::wire::{
    decode_disk, decode_disks, first_op_result, decode_op_result, decode_operation, decode_tickets, encode_disk, encode_disks,
    encode_op_result, encode_operation, encode_tickets, read_fields, write_fields, JiraInfo, OpJiraTicketsResult,
    WireValue,
};
use protobuf::CodedOutputStream;

fn with_protobuf<F: FnOnce(&mut CodedOutputStream)>(f: F) -> Vec<u8> {
    let mut buf = Vec::new();
    {
        let mut os = CodedOutputStream::vec(&mut buf);
        f(&mut os);
        os.flush().unwrap();
    }
    buf
}

fn op(op_type: Op, disk: &str, osd_id: Option<u64>, simulate: Option<bool>) -> Operation {
    Operation { op_type, disk: disk.to_string(), osd_id, simulate }
}

#[test]
fn operation_bytes_match_protobuf() {
    let o = op(Op::Remove, "/dev/sdb", Some(300), Some(true));
    let expected = with_protobuf(|os| {
        os.write_enum(1, 3).unwrap();
        os.write_string(2, "/dev/sdb").unwrap();
        os.write_bool(3, true).unwrap();
        os.write_uint64(4, 300).unwrap();
    });
    assert_eq!(encode_operation(&o), expected);
    assert_eq!(encode_operation(&op(Op::Add, "", None, None)), vec![0x08, 0x00]);
}

#[test]
fn operation_reads_back() {
    for o in [
        op(Op::Add, "/dev/sda", None, None),
        op(Op::SafeToRemove, "/dev/nvme0n1", Some(u64::MAX), Some(false)),
        op(Op::GetCreatedTickets, "", Some(0), None),
        op(Op::List, "é", None, Some(true)),
    ] {
        let back = decode_operation(&encode_operation(&o)).unwrap();
        assert_eq!(back.op_type, o.op_type);
        assert_eq!(back.disk, o.disk);
        assert_eq!(back.osd_id, o.osd_id);
        assert_eq!(back.simulate, o.simulate);
    }
}

#[test]
fn later_fields_override_and_absent_ones_keep_defaults() {
    let bytes = with_protobuf(|os| {
        os.write_string(2, "/dev/sda").unwrap();
        os.write_enum(1, 3).unwrap();
        os.write_string(2, "/dev/sdc").unwrap();
        os.write_uint64(9, 7).unwrap();
        os.write_fixed32(10, 1).unwrap();
        os.write_fixed64(11, 1).unwrap();
    });
    let o = decode_operation(&bytes).unwrap();
    assert_eq!(o.op_type, Op::Remove);
    assert_eq!(o.disk, "/dev/sdc");
    assert_eq!(o.osd_id, None);
    assert_eq!(o.simulate, None);
    let empty = decode_operation(&[]).unwrap();
    assert_eq!(empty.op_type, Op::Add);
    assert_eq!(empty.disk, "");
}

#[test]
fn malformed_bytes_are_refused() {
    // truncated varint
    assert_eq!(decode_operation(&[0x08, 0x80]).unwrap_err().to_string(), "malformed message");
    // length beyond the end
    assert!(decode_operation(&[0x12, 0x05, b'a']).is_err());
    // field number 0
    assert!(decode_operation(&[0x00, 0x01]).is_err());
    // group wire type
    assert!(decode_operation(&[0x0b]).is_err());
    // unknown request kind
    assert!(decode_operation(&[0x08, 0x09]).is_err());
    // disk that is not UTF-8
    assert!(decode_operation(&[0x12, 0x01, 0xff]).is_err());
    // ten-byte varint with a last byte above 1
    assert!(decode_operation(&[0x20, 0xff, 0xff, 0xff, 0xff, 0xff, 0xff, 0xff, 0xff, 0xff, 0x02]).is_err());
    let max = decode_operation(&[0x20, 0xff, 0xff, 0xff, 0xff, 0xff, 0xff, 0xff, 0xff, 0xff, 0x01]).unwrap();
    assert_eq!(max.osd_id, Some(u64::MAX));
}

#[test]
fn fields_read_back() {
    let fs = vec![
        (1u32, WireValue::Varint(150)),
        (2u32, WireValue::Bytes(b"testing".to_vec())),
        (536870911u32, WireValue::Varint(0)),
        (5u32, WireValue::Fixed32(vec![1, 2, 3, 4])),
        (6u32, WireValue::Fixed64(vec![1, 2, 3, 4, 5, 6, 7, 8])),
    ];
    let bytes = write_fields(&fs);
    assert_eq!(&bytes[0..3], &[0x08, 0x96, 0x01]);
    let back = read_fields(&bytes).unwrap();
    assert_eq!(format!("{:?}", back), format!("{:?}", fs));
}

#[test]
fn op_result_reads_back() {
    let r = OpOutcomeResult {
        disk: "/dev/sdd".to_string(),
        op_type: Op::SafeToRemove,
        result: ResultType::ERR,
        outcome: Some(OpOutcome::SkipRepeat),
        value: Some(true),
        error_msg: Some("busy".to_string()),
    };
    let back = decode_op_result(&encode_op_result(&r)).unwrap();
    assert_eq!(back.disk, r.disk);
    assert_eq!(back.op_type, r.op_type);
    assert_eq!(back.result, r.result);
    assert_eq!(back.outcome, r.outcome);
    assert_eq!(back.value, r.value);
    assert_eq!(back.error_msg, r.error_msg);
    // a result must name its request kind
    assert!(decode_op_result(&[0x08, 0x01]).is_err());
    // an unknown outcome code unsets the outcome
    let back = decode_op_result(&[0x10, 0x09, 0x28, 0x02]).unwrap();
    assert_eq!(back.outcome, None);
    assert_eq!(back.op_type, Op::List);
}

#[test]
fn disks_read_back() {
    let d1 = Disk { field_type: Some(DiskType::ROTATIONAL), dev_path: Some("/dev/sda".to_string()), serial_number: None };
    let d2 = Disk { field_type: None, dev_path: None, serial_number: Some("XYZ".to_string()) };
    let expected = with_protobuf(|os| {
        os.write_enum(1, 1).unwrap();
        os.write_string(2, "/dev/sda").unwrap();
    });
    assert_eq!(encode_disk(&d1), expected);
    let disks = Disks { disk: vec![d1, d2] };
    let back = decode_disks(&encode_disks(&disks)).unwrap();
    assert_eq!(back.disk.len(), 2);
    assert_eq!(back.disk[0].field_type, Some(DiskType::ROTATIONAL));
    assert_eq!(back.disk[0].dev_path.as_deref(), Some("/dev/sda"));
    assert_eq!(back.disk[1].serial_number.as_deref(), Some("XYZ"));
    assert_eq!(back.disk[1].field_type, None);
    assert_eq!(decode_disk(&[0x08, 0x07]).unwrap().field_type, Some(DiskType::UNKNOWN));
    assert!(decode_disks(&[0x0a, 0x02, 0x08]).is_err());
}

#[test]
fn tickets_read_back() {
    let t = OpJiraTicketsResult {
        result: ResultType::OK,
        tickets: vec![
            JiraInfo { ticket_id: "T-1".to_string(), server_name: "a".to_string() },
            JiraInfo { ticket_id: "T-2".to_string(), server_name: "b".to_string() },
        ],
        error_msg: None,
    };
    let back = decode_tickets(&encode_tickets(&t)).unwrap();
    assert_eq!(back.result, ResultType::OK);
    assert_eq!(back.tickets.len(), 2);
    assert_eq!(back.tickets[1].ticket_id, "T-2");
    assert_eq!(back.tickets[1].server_name, "b");
    assert_eq!(back.error_msg, None);
}

#[test]
fn results_split_from_one_read() {
    let a = OpOutcomeResult {
        disk: "/dev/sda".to_string(),
        op_type: Op::Add,
        result: ResultType::OK,
        outcome: Some(OpOutcome::Success),
        value: None,
        error_msg: None,
    };
    let b = OpOutcomeResult {
        disk: "/dev/sdb".to_string(),
        op_type: Op::Remove,
        result: ResultType::ERR,
        outcome: None,
        value: Some(false),
        error_msg: Some("failed".to_string()),
    };
    let ea = encode_op_result(&a);
    let eb = encode_op_result(&b);
    let mut message = ea.clone();
    message.extend_from_slice(&eb);
    let (first, size) = first_op_result(&message).unwrap();
    assert_eq!(size, ea.len());
    assert_eq!(first.disk, "/dev/sda");
    assert_eq!(first.op_type, Op::Add);
    message.drain(0..size);
    let (second, size) = first_op_result(&message).unwrap();
    assert_eq!(size, eb.len());
    assert_eq!(second.disk, "/dev/sdb");
    assert_eq!(second.error_msg.as_deref(), Some("failed"));
    assert!(first_op_result(&[0xff, 0x01]).is_none());
    assert!(first_op_result(&[]).is_none());
}
