use gear_core::context::{ContextSettings, ContextStore, MessageContext};
use gear_core::errors::{ExtError, MemoryError, MessageError};
use gear_core::ids::{CodeId, MessageId, ProgramId};
use gear_core::message::{DispatchKind, HandlePacket, IncomingMessage, InitPacket, ReplyPacket};

fn incoming(id: u64, source: u64) -> IncomingMessage {
    IncomingMessage::new(
        MessageId::from(id),
        ProgramId::from(source),
        vec![1, 2],
        0,
        0,
        None,
    )
}

fn packet_for(dest: u64) -> InitPacket {
    InitPacket::new(CodeId::from([dest as u8; 32]), vec![], vec![], 0)
}

const OUT_3_0: [u8; 32] = [
    122, 87, 85, 190, 97, 141, 104, 116, 247, 3, 209, 97, 22, 68, 95, 107, 193, 118, 100, 232,
    106, 168, 129, 157, 162, 67, 196, 145, 151, 158, 161, 101,
];
const OUT_3_1: [u8; 32] = [
    186, 245, 152, 210, 41, 253, 200, 89, 139, 222, 92, 94, 233, 128, 214, 148, 167, 104, 228,
    22, 55, 158, 93, 38, 74, 75, 60, 197, 136, 86, 60, 141,
];
const REPLY_3_0: [u8; 32] = [
    201, 143, 231, 219, 33, 139, 168, 230, 252, 140, 194, 42, 100, 143, 67, 98, 223, 229, 171,
    73, 8, 193, 222, 1, 173, 9, 133, 214, 160, 103, 56, 83,
];
const REPLY_3_MINUS_1: [u8; 32] = [
    176, 242, 248, 240, 32, 136, 90, 79, 212, 142, 233, 97, 193, 189, 64, 144, 233, 252, 106, 21,
    15, 181, 217, 199, 97, 98, 50, 162, 29, 22, 65, 209,
];
const PROGRAM_7_123: [u8; 32] = [
    103, 223, 236, 211, 11, 214, 242, 128, 243, 66, 190, 81, 122, 142, 198, 30, 175, 4, 18, 46,
    149, 94, 243, 53, 1, 159, 61, 113, 242, 121, 177, 254,
];

#[test]
fn id_from_u64_is_little_endian() {
    let id = MessageId::from(0x0102_u64);
    let mut expected = [0u8; 32];
    expected[0] = 2;
    expected[1] = 1;
    assert_eq!(id.0, expected);
    assert_eq!(ProgramId::default().0, [0u8; 32]);
}

#[test]
fn outgoing_ids_are_blake2b_of_salted_input() {
    let origin = MessageId::from(3);
    assert_eq!(MessageId::generate_outgoing(origin, 0).0, OUT_3_0);
    assert_eq!(MessageId::generate_outgoing(origin, 1).0, OUT_3_1);
}

#[test]
fn reply_ids_are_blake2b_of_salted_input() {
    let origin = MessageId::from(3);
    assert_eq!(MessageId::generate_reply(origin, 0).0, REPLY_3_0);
    assert_eq!(MessageId::generate_reply(origin, -1).0, REPLY_3_MINUS_1);
}

#[test]
fn program_ids_are_blake2b_of_code_and_salt() {
    let code = CodeId::from(7u64);
    assert_eq!(ProgramId::generate(code, &[1, 2, 3]).0, PROGRAM_7_123);
    let packet = InitPacket::new(code, vec![1, 2, 3], vec![9], 5);
    assert_eq!(packet.destination().0, PROGRAM_7_123);
    assert_eq!(packet.payload(), &[9]);
    assert_eq!(packet.value(), 5);
}

#[test]
fn streaming_send_payload_reaches_dispatch() {
    let mut ctx = MessageContext::new(Default::default(), Default::default(), None);
    assert!(ctx.init_program(packet_for(1)).is_ok());
    assert_eq!(ctx.send_init(), Ok(1));
    assert_eq!(ctx.send_push(1, &[5, 7]), Ok(()));
    assert_eq!(ctx.send_push(1, &[9]), Ok(()));
    assert!(ctx.send_commit(1, HandlePacket::default()).is_ok());
    let (outcome, _) = ctx.drain();
    let (dispatches, awakening) = outcome.drain();
    assert_eq!(dispatches.len(), 2);
    assert_eq!(dispatches[1].message().payload(), &[5, 7, 9]);
    assert!(awakening.is_empty());
}

#[test]
fn committed_payload_precedes_packet_payload() {
    let mut ctx = MessageContext::new(incoming(3, 4), ProgramId::from(9), None);
    let h = ctx.send_init().unwrap();
    ctx.send_push(h, &[1]).unwrap();
    let id = ctx
        .send_commit(h, HandlePacket::new(ProgramId::from(5), vec![2, 3], 10))
        .unwrap();
    assert_eq!(id.0, OUT_3_0);
    let (outcome, _) = ctx.drain();
    let (dispatches, _) = outcome.drain();
    let m = dispatches[0].message();
    assert_eq!(dispatches[0].kind(), DispatchKind::Handle);
    assert_eq!(m.payload(), &[1, 2, 3]);
    assert_eq!(m.source(), ProgramId::from(9));
    assert_eq!(m.destination(), ProgramId::from(5));
    assert_eq!(m.value(), 10);
    assert_eq!(m.id().0, OUT_3_0);
}

#[test]
fn init_handle_is_born_closed() {
    let mut ctx = MessageContext::new(incoming(3, 4), ProgramId::from(9), None);
    let (pid, mid) = ctx.init_program(packet_for(1)).unwrap();
    assert_eq!(pid, packet_for(1).destination());
    assert_eq!(mid.0, OUT_3_0);
    assert_eq!(ctx.send_push(0, &[1]), Err(MessageError::LateAccess));
    assert_eq!(
        ctx.send_commit(0, HandlePacket::default()),
        Err(MessageError::LateAccess)
    );
    assert_eq!(ctx.send_push(1, &[1]), Err(MessageError::OutOfBounds));
}

#[test]
fn commit_succeeds_once_then_late_access() {
    let mut ctx = MessageContext::new(Default::default(), Default::default(), None);
    let h = ctx.send_init().unwrap();
    assert!(ctx.send_commit(h, HandlePacket::default()).is_ok());
    assert_eq!(ctx.send_push(h, &[1]), Err(MessageError::LateAccess));
    assert_eq!(
        ctx.send_commit(h, HandlePacket::default()),
        Err(MessageError::LateAccess)
    );
}

#[test]
fn slots_count_allocations() {
    let mut ctx = MessageContext::new_with_settings(
        Default::default(),
        Default::default(),
        None,
        ContextSettings::new(0, 3),
    );
    assert!(ctx.init_program(packet_for(1)).is_ok());
    assert_eq!(ctx.send_init(), Ok(1));
    assert_eq!(ctx.init_program(packet_for(1)), Err(MessageError::DuplicateInit));
    assert!(ctx.init_program(packet_for(2)).is_ok());
    assert_eq!(ctx.store().outgoing().len(), 3);
    assert_eq!(ctx.send_init(), Err(MessageError::LimitExceeded));
    assert_eq!(ctx.init_program(packet_for(3)), Err(MessageError::LimitExceeded));
    assert_eq!(ctx.store().outgoing().len(), 3);
}

#[test]
fn reply_without_pushes_uses_packet_payload() {
    let mut ctx = MessageContext::new(incoming(3, 4), ProgramId::from(9), None);
    let id = ctx.reply_commit(ReplyPacket::new(vec![4, 4], -1)).unwrap();
    assert_eq!(id.0, REPLY_3_MINUS_1);
    assert_eq!(ctx.reply_push(&[1]), Err(MessageError::LateAccess));
    assert_eq!(
        ctx.reply_commit(ReplyPacket::default()),
        Err(MessageError::DuplicateReply)
    );
    let (outcome, store) = ctx.drain();
    assert!(store.reply_sent());
    assert!(store.reply().is_none());
    let (dispatches, _) = outcome.drain();
    assert_eq!(dispatches.len(), 1);
    let m = dispatches[0].message();
    assert_eq!(dispatches[0].kind(), DispatchKind::Reply);
    assert_eq!(m.payload(), &[4, 4]);
    assert_eq!(m.destination(), ProgramId::from(4));
    assert_eq!(m.source(), ProgramId::from(9));
    assert_eq!(m.reply(), Some((MessageId::from(3), -1)));
}

#[test]
fn wake_detects_repeats() {
    let mut ctx = MessageContext::new(Default::default(), Default::default(), None);
    assert_eq!(ctx.wake(MessageId::from(7)), Ok(()));
    assert_eq!(ctx.wake(MessageId::from(8)), Ok(()));
    assert_eq!(ctx.wake(MessageId::from(7)), Err(MessageError::DuplicateWaking));
    assert_eq!(ctx.wake(MessageId::from(7)), Err(MessageError::DuplicateWaking));
    let (outcome, store) = ctx.drain();
    assert_eq!(store.awaken().len(), 2);
    let (_, awakening) = outcome.drain();
    assert_eq!(awakening, vec![MessageId::from(7), MessageId::from(8)]);
}

#[test]
fn drain_orders_inits_handles_reply() {
    let mut ctx = MessageContext::new(incoming(3, 4), ProgramId::from(9), None);
    let h = ctx.send_init().unwrap();
    assert!(ctx.reply_commit(ReplyPacket::default()).is_ok());
    assert!(ctx.send_commit(h, HandlePacket::default()).is_ok());
    assert!(ctx.init_program(packet_for(1)).is_ok());
    let (outcome, _) = ctx.drain();
    let (dispatches, _) = outcome.drain();
    let kinds: Vec<DispatchKind> = dispatches.iter().map(|d| d.kind()).collect();
    assert_eq!(
        kinds,
        vec![DispatchKind::Init, DispatchKind::Handle, DispatchKind::Reply]
    );
    assert_eq!(dispatches[0].message().id().0, OUT_3_1);
    assert_eq!(dispatches[1].message().id().0, OUT_3_0);
    assert_eq!(dispatches[2].message().id().0, REPLY_3_0);
}

#[test]
fn identical_runs_give_identical_ids() {
    let run = |program: u64, source: u64| {
        let mut ctx = MessageContext::new(incoming(3, source), ProgramId::from(program), None);
        let a = ctx.send_init().unwrap();
        let b = ctx.init_program(packet_for(2)).unwrap();
        let c = ctx.send_commit(a, HandlePacket::default()).unwrap();
        let d = ctx.reply_commit(ReplyPacket::default()).unwrap();
        (a, b, c, d)
    };
    let first = run(1, 4);
    let second = run(2, 5);
    assert_eq!(first, second);
    assert_eq!(first, run(1, 4));
}

#[test]
fn zero_limit_blocks_allocation_only() {
    let mut ctx = MessageContext::new_with_settings(
        Default::default(),
        Default::default(),
        None,
        ContextSettings::new(0, 0),
    );
    assert_eq!(ctx.send_init(), Err(MessageError::LimitExceeded));
    assert_eq!(ctx.init_program(packet_for(1)), Err(MessageError::LimitExceeded));
    assert_eq!(ctx.reply_push(&[1]), Ok(()));
    assert!(ctx.reply_commit(ReplyPacket::default()).is_ok());
    assert_eq!(ctx.wake(MessageId::from(1)), Ok(()));
}

#[test]
fn single_slot_limit() {
    let mut ctx = MessageContext::new_with_settings(
        Default::default(),
        Default::default(),
        None,
        ContextSettings::new(0, 1),
    );
    assert_eq!(ctx.send_init(), Ok(0));
    assert_eq!(ctx.send_init(), Err(MessageError::LimitExceeded));
    assert_eq!(ctx.init_program(packet_for(1)), Err(MessageError::LimitExceeded));
}

#[test]
fn default_settings() {
    let s = ContextSettings::default();
    assert_eq!(s.sending_fee, 0);
    assert_eq!(s.outgoing_limit, 1024);
}

#[test]
fn resumed_store_keeps_state() {
    let mut ctx = MessageContext::new(incoming(3, 4), ProgramId::from(9), None);
    let h = ctx.send_init().unwrap();
    ctx.send_push(h, &[1, 2]).unwrap();
    ctx.reply_push(&[8]).unwrap();
    ctx.wake(MessageId::from(5)).unwrap();
    let (_, store) = ctx.drain();
    let mut ctx = MessageContext::new(incoming(3, 4), ProgramId::from(9), Some(store));
    assert_eq!(ctx.wake(MessageId::from(5)), Err(MessageError::DuplicateWaking));
    assert_eq!(ctx.send_init(), Ok(1));
    ctx.send_push(h, &[3]).unwrap();
    ctx.send_commit(h, HandlePacket::default()).unwrap();
    ctx.reply_commit(ReplyPacket::new(vec![9], 0)).unwrap();
    assert_eq!(ctx.outcome().handle()[0].payload(), &[1, 2, 3]);
    assert_eq!(ctx.outcome().reply().unwrap().payload(), &[8, 9]);
}

#[test]
fn store_sets_are_sorted_and_checked() {
    let mut ctx = MessageContext::new(Default::default(), Default::default(), None);
    ctx.wake(MessageId::from(9)).unwrap();
    ctx.wake(MessageId::from(1)).unwrap();
    ctx.wake(MessageId::from(5)).unwrap();
    let (_, store) = ctx.drain();
    let keys: Vec<[u8; 32]> = store.awaken().to_vec();
    assert_eq!(
        keys,
        vec![MessageId::from(1).0, MessageId::from(5).0, MessageId::from(9).0]
    );
    let rebuilt =
        ContextStore::from_parts(vec![(0, None), (1, Some(vec![3]))], None, vec![], keys.clone(), false);
    let rebuilt = rebuilt.unwrap();
    assert_eq!(rebuilt.outgoing(), &[None, Some(vec![3])]);
    assert_eq!(rebuilt.awaken(), &keys[..]);
    let gap = ContextStore::from_parts(vec![(0, None), (2, None)], None, vec![], vec![], false);
    assert!(gap.is_none());
    let unsorted = vec![keys[1], keys[0]];
    assert!(ContextStore::from_parts(vec![], None, vec![], unsorted, false).is_none());
    let repeated = vec![keys[0], keys[0]];
    assert!(ContextStore::from_parts(vec![], None, repeated, vec![], false).is_none());
}

#[test]
fn ext_error_wraps_each_kind() {
    assert_eq!(
        ExtError::from(MessageError::LateAccess),
        ExtError::Message(MessageError::LateAccess)
    );
    assert_eq!(
        ExtError::from(MemoryError::InvalidFree(3)),
        ExtError::Memory(MemoryError::InvalidFree(3))
    );
}

#[test]
fn created_programs_match_init_messages() {
    let mut ctx = MessageContext::new(Default::default(), Default::default(), None);
    ctx.init_program(packet_for(2)).unwrap();
    ctx.init_program(packet_for(1)).unwrap();
    let dests: Vec<[u8; 32]> = ctx
        .outcome()
        .init()
        .iter()
        .map(|m| m.destination().0)
        .collect();
    assert_eq!(dests.len(), 2);
    let mut sorted = dests.clone();
    sorted.sort();
    assert_eq!(ctx.store().initialized(), &sorted[..]);
    assert!(ctx.outcome().reply().is_none());
    assert!(!ctx.store().reply_sent());
}

#[test]
fn default_store_is_empty() {
    let store = ContextStore::default();
    assert!(store.outgoing().is_empty());
    assert!(store.reply().is_none());
    assert!(store.initialized().is_empty());
    assert!(store.awaken().is_empty());
    assert!(!store.reply_sent());
}
