# bynar

Bynar watches the disks and the hardware of a storage host, takes failing
disks out of their Ceph cluster, opens repair tickets and puts replaced disks
back.

## Layout

- `src/` is the verified library. Each function states what it does in
  `requires` / `ensures`, and Verus proves it. Where a result rests on the
  clock, as the current time does, the contract is on what is made of the
  clock's reading (`Timestamp::from_epoch`):
  - `state_machine`, `transitions`, `checks`, `disk_state`: the disk health
    state machine;
  - `message_map`, `request_map`, `repair_queue`, `assoc`: the bookkeeping of
    requests to the disk manager;
  - `wire`: the protocol buffers wire format of those requests and answers,
    written out as a grammar of varints, tags and length-delimited fields
    (the tests compare its bytes with the protobuf crate's);
  - `osd`, `backend`, `deploy`: the decisions of adding and removing OSDs and
    of planning a deployment;
  - `in_progress`: the database records and statements;
  - `hardware`, `host`, `device`, `disk_scan`, `paths`, `service`, `ops`:
    hardware findings, host facts, device paths and the API messages.
- `tests/` runs the library on concrete values.
- `app/` is the program around it: command line, ZeroMQ, PostgreSQL, Ceph,
  LVM and the other I/O. It hands the library plain values and acts on what
  comes back.
