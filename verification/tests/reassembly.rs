use u2f_nfc_bridge::reassembly::Reassembler;

fn init_frame(cid: u32, cmd_byte: u8, len: u16, payload: &[u8]) -> Vec<u8> {
    let mut f = vec![
        (cid >> 24) as u8,
        (cid >> 16) as u8,
        (cid >> 8) as u8,
        cid as u8,
        cmd_byte,
        (len >> 8) as u8,
        len as u8,
    ];
    f.extend_from_slice(payload);
    f.resize(64, 0);
    f
}

fn cont_frame(cid: u32, seq: u8, payload: &[u8]) -> Vec<u8> {
    let mut f = vec![(cid >> 24) as u8, (cid >> 16) as u8, (cid >> 8) as u8, cid as u8, seq];
    f.extend_from_slice(payload);
    f.resize(64, 0);
    f
}

#[test]
fn init_frame_with_full_payload_emits_immediately() {
    let mut engine = Reassembler::new();
    let frame = init_frame(0x11223344, 0x83, 5, &[0xaa, 0xbb, 0xcc, 0xdd, 0xee]);
    let msg = engine.process_frame(&frame).expect("message not emitted");
    assert_eq!(msg.cid, 0x11223344);
    assert_eq!(msg.cmd, 0x03, "top bit is the frame marker, not part of the command");
    assert_eq!(msg.data, vec![0xaa, 0xbb, 0xcc, 0xdd, 0xee]);
    assert!(!engine.has_pending());
}

#[test]
fn orphan_continuation_is_ignored() {
    let mut engine = Reassembler::new();
    let frame = cont_frame(0x11223344, 0, &[1, 2, 3]);
    assert!(engine.process_frame(&frame).is_none());
    assert!(!engine.has_pending());
}

#[test]
fn completion_exactly_at_declared_length() {
    let mut engine = Reassembler::new();
    let data: Vec<u8> = (0..60).collect();
    let out = engine.process_frame(&init_frame(7, 0x83, 60, &data[0..57]));
    assert!(out.is_none(), "57 of 60 bytes must not complete the message");
    assert!(engine.has_pending());
    let msg = engine
        .process_frame(&cont_frame(7, 0, &data[57..60]))
        .expect("60 of 60 bytes must complete the message");
    assert_eq!(msg.data, data);
    assert!(!engine.has_pending());
}

#[test]
fn buffer_never_exceeds_declared_length() {
    let mut engine = Reassembler::new();
    let data: Vec<u8> = (0..60).collect();
    engine.process_frame(&init_frame(7, 0x83, 60, &data[0..57]));
    // The continuation frame has 59 payload bytes of room; only the 3 still
    // owed may be taken, whatever follows them in the frame.
    let mut garbage = [0x55u8; 59];
    garbage[0] = data[57];
    garbage[1] = data[58];
    garbage[2] = data[59];
    let msg = engine.process_frame(&cont_frame(7, 0, &garbage)).expect("message not emitted");
    assert_eq!(msg.data.len(), 60);
    assert_eq!(msg.data, data);
}

#[test]
fn overlapping_init_discards_the_old_buffer() {
    let mut engine = Reassembler::new();
    let first: Vec<u8> = vec![0x11; 57];
    let out = engine.process_frame(&init_frame(0x42, 0x83, 100, &first));
    assert!(out.is_none());
    assert!(engine.has_pending());

    // A second init frame on the same channel: the old 57 bytes vanish.
    let msg = engine
        .process_frame(&init_frame(0x42, 0x83, 3, &[9, 8, 7]))
        .expect("fresh init frame must start and complete its own message");
    assert_eq!(msg.data, vec![9, 8, 7]);
    assert!(msg.data.iter().all(|&b| b != 0x11), "no byte of the discarded buffer leaks");
    assert!(!engine.has_pending());
}

#[test]
fn overlapping_init_starts_a_fresh_partial_buffer() {
    let mut engine = Reassembler::new();
    engine.process_frame(&init_frame(0x42, 0x83, 100, &[0x11; 57]));
    let out = engine.process_frame(&init_frame(0x43, 0x83, 60, &[0x22; 57]));
    assert!(out.is_none());
    let msg = engine
        .process_frame(&cont_frame(0x43, 0, &[0x22, 0x22, 0x22]))
        .expect("second message must complete from its own bytes alone");
    assert_eq!(msg.cid, 0x43);
    assert_eq!(msg.data, vec![0x22; 60]);
}

#[test]
fn sequence_numbers_are_accepted_positionally() {
    // The engine trusts the transport's ordering: a continuation frame is
    // appended whatever its sequence byte says, as long as it is not an
    // init frame.
    let mut engine = Reassembler::new();
    let data: Vec<u8> = (0..60).collect();
    engine.process_frame(&init_frame(7, 0x83, 60, &data[0..57]));
    let msg = engine
        .process_frame(&cont_frame(7, 5, &data[57..60]))
        .expect("message not emitted");
    assert_eq!(msg.data, data);
}
