use jotunheim::breakpoint::{cr0_without_wp, BreakpointTable, InsertPlan};
use jotunheim::hex::{from_hex, hex4, write_hex_u64};
use jotunheim::packet::{ack_action, checksum_of, frame_packet, stop_reply_payload, AckAction, PacketReceiver, RecvEvent};
use jotunheim::regs::{clear_tf, decode_le, read_g, set_tf, write_g, TrapFrame, G_HEX_LEN};
use jotunheim::rsp::{in_any_range, in_range, parse_addr_len, parse_hex_usize, starts_with, Outcome, RspServer, SectionMemory, Step};

fn mem() -> SectionMemory {
    SectionMemory {
        text: (0x1000, 0x2000),
        rodata: (0x2000, 0x3000),
        data: (0x3000, 0x4000),
        bss: (0x4000, 0x5000),
        heap: (0x10000, 0x20000),
    }
}

fn reply_bytes(s: &Step) -> Vec<u8> {
    match s {
        Step::Reply(v) => v.clone(),
        other => panic!("expected a reply, got {:?}", other),
    }
}

#[test]
fn hex_digits_and_values() {
    assert_eq!(hex4(0), b'0');
    assert_eq!(hex4(9), b'9');
    assert_eq!(hex4(10), b'a');
    assert_eq!(hex4(15), b'f');
    assert_eq!(from_hex(b'7'), Some(7));
    assert_eq!(from_hex(b'c'), Some(12));
    assert_eq!(from_hex(b'C'), Some(12));
    assert_eq!(from_hex(b'g'), None);
    for n in 0u8..16 {
        assert_eq!(from_hex(hex4(n)), Some(n));
    }
}

#[test]
fn hex_u64_has_no_leading_zeros() {
    assert_eq!(write_hex_u64(0), b"0".to_vec());
    assert_eq!(write_hex_u64(0x1f), b"1f".to_vec());
    assert_eq!(write_hex_u64(0xffff_ffff_ffff_ffff), b"ffffffffffffffff".to_vec());
    assert_eq!(write_hex_u64(0x1000), b"1000".to_vec());
}

#[test]
fn checksum_and_framing() {
    assert_eq!(checksum_of(b"OK"), 0x9a);
    assert_eq!(checksum_of(b""), 0);
    assert_eq!(frame_packet(b"OK"), b"$OK#9a".to_vec());
    assert_eq!(frame_packet(b""), b"$#00".to_vec());
}

#[test]
fn ack_handling() {
    assert_eq!(ack_action(b'+'), AckAction::Done);
    assert_eq!(ack_action(b'-'), AckAction::Resend);
    assert_eq!(ack_action(b'x'), AckAction::Wait);
}

fn feed_all(r: &mut PacketReceiver, bytes: &[u8], no_ack: bool) -> (Vec<RecvEvent>, Vec<u8>) {
    let mut events = Vec::new();
    let mut acks = Vec::new();
    for &b in bytes {
        let (e, a) = r.feed(b, no_ack);
        events.push(e);
        if let Some(a) = a {
            acks.push(a);
        }
    }
    (events, acks)
}

#[test]
fn receiver_takes_a_framed_packet() {
    let mut r = PacketReceiver::new();
    let framed = frame_packet(b"qSupported");
    let (events, acks) = feed_all(&mut r, &framed, false);
    assert!(matches!(events.last(), Some(RecvEvent::Packet(10))));
    assert!(events[..events.len() - 1].iter().all(|e| matches!(e, RecvEvent::Pending)));
    assert_eq!(acks, vec![b'+']);
    assert_eq!(&r.buffer()[..10], b"qSupported");
}

#[test]
fn receiver_refuses_a_bad_checksum() {
    let mut r = PacketReceiver::new();
    let (events, acks) = feed_all(&mut r, b"$OK#00", false);
    assert!(events.iter().all(|e| matches!(e, RecvEvent::Pending)));
    assert_eq!(acks, vec![b'-']);
}

#[test]
fn receiver_without_acks_stays_quiet() {
    let mut r = PacketReceiver::new();
    let (events, acks) = feed_all(&mut r, b"$OK#9a", true);
    assert!(matches!(events.last(), Some(RecvEvent::Packet(2))));
    assert!(acks.is_empty());
}

#[test]
fn receiver_takes_interrupt_byte() {
    let mut r = PacketReceiver::new();
    let (e, _) = r.feed(0x03, false);
    assert!(matches!(e, RecvEvent::Packet(1)));
    assert_eq!(r.buffer()[0], 0x03);
}

#[test]
fn stop_reply_text() {
    assert_eq!(stop_reply_payload(5, 1, 0x1234), b"T05;thread:1;pc:1234;".to_vec());
}

fn sample_tf() -> TrapFrame {
    let mut tf = TrapFrame::zeroed();
    tf.rax = 0x1122_3344_5566_7788;
    tf.rbx = 2;
    tf.rip = 0xffff_8000_0000_1000;
    tf.rflags = 0x202;
    tf.cs = 8;
    tf.ss = 16;
    tf.rsp = 0x7000;
    tf
}

#[test]
fn register_image_round_trip() {
    let tf = sample_tf();
    let mut out = vec![0u8; G_HEX_LEN];
    let w = write_g(&mut out, &tf);
    assert_eq!(w, G_HEX_LEN);
    assert_eq!(&out[..16], b"8877665544332211");
    let mut back = TrapFrame::zeroed();
    assert!(read_g(&mut back, &out));
    assert_eq!(back.rax, tf.rax);
    assert_eq!(back.rbx, tf.rbx);
    assert_eq!(back.rsp, tf.rsp);
    assert_eq!(back.rip, tf.rip);
    assert_eq!(back.rflags, tf.rflags);
}

#[test]
fn register_image_layout() {
    let mut tf = TrapFrame::zeroed();
    tf.rax = 1;
    tf.rip = 0x10;
    let mut out = vec![b'?'; G_HEX_LEN + 4];
    let w = write_g(&mut out, &tf);
    assert_eq!(w, 572);
    assert_eq!(&out[0..16], b"0100000000000000");
    assert_eq!(&out[256..272], b"1000000000000000");
    assert_eq!(&out[272..280], b"00000000");
    assert!(out[..w].iter().all(|b| b"0123456789abcdef".contains(b)));
    assert_eq!(&out[w..], b"????");
}

#[test]
fn register_image_rejects_bad_digits() {
    let mut tf = sample_tf();
    let mut payload = vec![b'0'; G_HEX_LEN];
    payload[0] = b'z';
    assert!(!read_g(&mut tf, &payload));
    assert_eq!(tf.rax, 0x1122_3344_5566_7788);
}

#[test]
fn little_endian_decoding() {
    assert_eq!(decode_le(b"78563412", 0, 4), Some(0x1234_5678));
    assert_eq!(decode_le(b"7x563412", 0, 4), None);
}

#[test]
fn trap_flag_edits() {
    let mut tf = sample_tf();
    set_tf(&mut tf);
    assert_eq!(tf.rflags, 0x302);
    clear_tf(&mut tf);
    assert_eq!(tf.rflags, 0x202);
}

#[test]
fn hex_and_range_parsing() {
    assert_eq!(parse_hex_usize(b"m1f,4", 1, 5), Some((0x1f, 2)));
    assert_eq!(parse_hex_usize(b"m,4", 1, 3), None);
    assert_eq!(parse_addr_len(b"m1000,10", 1, 8), Some((0x1000, 0x10, 7)));
    assert_eq!(parse_addr_len(b"m1000", 1, 5), None);
    assert!(starts_with(b"qSupported:x", 0, 12, b"qSupported"));
    assert!(!starts_with(b"qSup", 0, 4, b"qSupported"));
    assert!(in_range(0x1000, 0x10, 0x1000, 0x2000));
    assert!(!in_range(0x1ff8, 0x10, 0x1000, 0x2000));
    assert!(in_any_range(0x3010, 4, &[(0x1000, 0x2000), (0x3000, 0x4000)]));
    assert!(!in_any_range(0x2010, 4, &[(0x1000, 0x2000), (0x3000, 0x4000)]));
}

#[test]
fn server_answers_queries() {
    let mut s = RspServer::new();
    let mut t = BreakpointTable::new();
    let mut tf = sample_tf();
    let m = mem();
    let q = b"qSupported:multiprocess+";
    let r = s.handle(&mut t, q, q.len(), &mut tf, &m);
    assert_eq!(reply_bytes(&r), b"PacketSize=2000;QStartNoAckMode+".to_vec());
    let r = s.handle(&mut t, b"?", 1, &mut tf, &m);
    assert_eq!(reply_bytes(&r), b"S05".to_vec());
    let r = s.handle(&mut t, b"qAttached", 9, &mut tf, &m);
    assert_eq!(reply_bytes(&r), b"1".to_vec());
    let r = s.handle(&mut t, b"vCont?", 6, &mut tf, &m);
    assert_eq!(reply_bytes(&r), b"vCont;c;s".to_vec());
    let r = s.handle(&mut t, b"xyz", 3, &mut tf, &m);
    assert_eq!(reply_bytes(&r), Vec::<u8>::new());
}

#[test]
fn server_no_ack_mode() {
    let mut s = RspServer::new();
    let mut t = BreakpointTable::new();
    let mut tf = sample_tf();
    assert!(!s.no_ack());
    let q = b"QStartNoAckMode";
    let r = s.handle(&mut t, q, q.len(), &mut tf, &mem());
    assert_eq!(reply_bytes(&r), b"OK".to_vec());
    assert!(s.no_ack());
}

#[test]
fn server_reads_registers() {
    let mut s = RspServer::new();
    let mut t = BreakpointTable::new();
    let mut tf = sample_tf();
    let r = s.handle(&mut t, b"g", 1, &mut tf, &mem());
    let bytes = reply_bytes(&r);
    assert_eq!(bytes.len(), G_HEX_LEN);
    assert_eq!(&bytes[..16], b"8877665544332211");
}

#[test]
fn server_memory_requests() {
    let mut s = RspServer::new();
    let mut t = BreakpointTable::new();
    let mut tf = sample_tf();
    let m = mem();
    let r = s.handle(&mut t, b"m1000,4", 7, &mut tf, &m);
    assert!(matches!(r, Step::ReadMemory { addr: 0x1000, len: 4 }));
    let reply = s.finish_read(&[0xde, 0xad, 0xbe, 0xef]);
    assert_eq!(reply, b"deadbeef".to_vec());
    let r = s.handle(&mut t, b"m99999999,4", 11, &mut tf, &m);
    assert_eq!(reply_bytes(&r), b"E01".to_vec());
    let r = s.handle(&mut t, b"mzz", 3, &mut tf, &m);
    assert_eq!(reply_bytes(&r), b"E00".to_vec());
    // Near the stack pointer reads are allowed outside the sections, of any
    // length; inside the sections at most half the output buffer is read.
    let r = s.handle(&mut t, b"m6000,1001", 10, &mut tf, &m);
    assert!(matches!(r, Step::ReadMemory { addr: 0x6000, len: 0x1001 }));
    let mut far = sample_tf();
    far.rsp = 0x10_0000_0000;
    let r = s.handle(&mut t, b"m10000,1001", 11, &mut far, &m);
    assert_eq!(reply_bytes(&r), b"E01".to_vec());
    let r = s.handle(&mut t, b"m10000,1000", 11, &mut far, &m);
    assert!(matches!(r, Step::ReadMemory { addr: 0x10000, len: 0x1000 }));
    let reply = s.finish_read(&vec![0xab; 0x1001]);
    assert_eq!(reply.len(), 0x2002);
}

#[test]
fn server_resume_requests() {
    let mut s = RspServer::new();
    let mut t = BreakpointTable::new();
    let mut tf = sample_tf();
    tf.rflags = 0x302;
    let r = s.handle(&mut t, b"c", 1, &mut tf, &mem());
    assert!(matches!(r, Step::Resume { restore: None, outcome: Outcome::Continue }));
    assert_eq!(tf.rflags, 0x202);
    let r = s.handle(&mut t, b"s", 1, &mut tf, &mem());
    assert!(matches!(r, Step::Resume { restore: None, outcome: Outcome::SingleStep }));
    assert_eq!(tf.rflags, 0x302);
    let r = s.handle(&mut t, b"k", 1, &mut tf, &mem());
    assert!(matches!(r, Step::Resume { restore: None, outcome: Outcome::KillTask }));
    assert!(s.begin(&tf).is_some());
}

#[test]
fn fresh_server_sends_no_stop_reply() {
    let s = RspServer::new();
    assert!(s.begin(&sample_tf()).is_none());
}

#[test]
fn breakpoint_insert_hit_and_remove() {
    let mut t = BreakpointTable::new();
    let addr = 0x1000u64;
    let slot = match t.plan_insert(addr) {
        InsertPlan::Patch(i) => i,
        other => panic!("unexpected plan {:?}", other),
    };
    assert!(t.commit_insert(slot, addr, 0x55, true));
    assert_eq!(t.plan_insert(addr), InsertPlan::AlreadyArmed);
    let mut rip = addr + 1;
    let hit = t.on_breakpoint_enter(&mut rip);
    assert_eq!(hit, Some((addr, 0x55)));
    assert_eq!(rip, addr);
    let mut rip2 = 0x5000u64;
    assert_eq!(t.on_breakpoint_enter(&mut rip2), None);
    assert_eq!(rip2, 0x5000);
    assert_eq!(t.on_resume_continue(Some(addr)), Some((addr, InsertPlan::Patch(slot))));
    assert_eq!(t.on_resume_continue(None), None);
    assert_eq!(t.remove(addr), (true, None));
    assert_eq!(t.remove(addr), (false, None));
}

#[test]
fn breakpoint_failed_patch_changes_nothing() {
    let mut t = BreakpointTable::new();
    assert!(!t.commit_insert(0, 0x2000, 0x90, false));
    assert_eq!(t.find_slot(0x2000), Some(0));
    assert_eq!(t.remove(0x2000), (false, None));
}

#[test]
fn breakpoint_remove_gives_back_byte() {
    let mut t = BreakpointTable::new();
    assert!(t.can_commit(3, 0x3000));
    assert!(t.commit_insert(3, 0x3000, 0xcc, true));
    assert!(t.can_commit(3, 0x3000));
    assert!(!t.can_commit(4, 0x3000));
    assert!(!t.can_commit(64, 0x4000));
    assert_eq!(t.remove(0x3000), (true, Some((0x3000, 0xcc))));
    assert_eq!(t.remove(0x3000), (false, None));
}

#[test]
fn write_protect_bit() {
    assert_eq!(cr0_without_wp(0x8001_0033), Some(0x8000_0033));
    assert_eq!(cr0_without_wp(0x33), None);
}
