use gear_core::context::{ContextSettings, MessageContext, OUTGOING_LIMIT};
use gear_core::errors::MessageError as Error;
use gear_core::ids::{MessageId, ProgramId};
use gear_core::message::{HandlePacket, IncomingMessage, ReplyPacket};

#[test]
fn duplicated_init() {
    let mut message_context =
        MessageContext::new(Default::default(), Default::default(), Default::default());

    assert_eq!(message_context.settings().outgoing_limit, OUTGOING_LIMIT);

    let result = message_context.init_program(Default::default());

    assert!(result.is_ok());

    let duplicated_init = message_context.init_program(Default::default());

    assert_eq!(duplicated_init, Err(Error::DuplicateInit));
}

#[test]
fn outgoing_limit_exceeded() {
    let settings = ContextSettings::new(0, 0);

    let mut message_context = MessageContext::new_with_settings(
        Default::default(),
        Default::default(),
        Default::default(),
        settings,
    );

    let limit_exceeded = message_context.init_program(Default::default());

    assert_eq!(limit_exceeded, Err(Error::LimitExceeded));
}

#[test]
fn commit_out_of_bounds() {
    let mut message_context =
        MessageContext::new(Default::default(), Default::default(), Default::default());

    let out_of_bounds = message_context.send_commit(0, Default::default());

    assert_eq!(out_of_bounds, Err(Error::OutOfBounds));
}

#[test]
fn successful_commit() {
    let mut message_context =
        MessageContext::new(Default::default(), Default::default(), Default::default());

    let result = message_context.init_program(Default::default());
    assert!(result.is_ok());

    let result = message_context.send_init();
    assert!(result.is_ok());

    let handle = result.unwrap();

    let result = message_context.send_commit(handle, Default::default());
    assert!(result.is_ok());
}

#[test]
fn double_reply() {
    let mut message_context =
        MessageContext::new(Default::default(), Default::default(), Default::default());

    let result = message_context.init_program(Default::default());
    assert!(result.is_ok());

    let result = message_context.send_init();
    assert!(result.is_ok());

    let handle = result.unwrap();

    let result = message_context.send_commit(handle, Default::default());
    assert!(result.is_ok());

    let result = message_context.reply_commit(Default::default());
    assert!(result.is_ok());

    let result = message_context.reply_commit(Default::default());
    assert!(matches!(result, Err(Error::DuplicateReply)));
}

const INCOMING_MESSAGE_ID: u64 = 3;
const INCOMING_MESSAGE_SOURCE: u64 = 4;

#[test]
fn message_context_api() {
    let incoming_message = IncomingMessage::new(
        MessageId::from(INCOMING_MESSAGE_ID),
        ProgramId::from(INCOMING_MESSAGE_SOURCE),
        vec![1, 2].into(),
        0,
        0,
        None,
    );

    let mut context = MessageContext::new(
        incoming_message,
        ProgramId::from(INCOMING_MESSAGE_ID),
        None,
    );

    assert_eq!(context.current().id(), MessageId::from(INCOMING_MESSAGE_ID));
    assert!(context.store().reply().is_none());
    assert!(context.outcome().reply().is_none());

    let reply_packet = ReplyPacket::new(vec![0, 0], 0);

    assert!(context.reply_push(&[1, 2, 3]).is_ok());

    assert!(context.reply_commit(reply_packet.clone()).is_ok());

    assert_eq!(
        context.outcome().reply().unwrap().payload().to_vec(),
        vec![1, 2, 3, 0, 0],
    );

    assert!(context.reply_push(&[1]).is_err());
    assert_eq!(
        context.outcome().reply().unwrap().payload().to_vec(),
        vec![1, 2, 3, 0, 0],
    );

    assert!(context.reply_commit(reply_packet.clone()).is_err());

    assert!(context.outcome().handle().is_empty());

    let expected_handle = 0;

    assert_eq!(
        context.send_init().expect("Error initializing new message"),
        expected_handle
    );

    assert!(context
        .store()
        .outgoing()
        .get(expected_handle as usize)
        .expect("This key should be")
        .is_some());

    assert!(context.send_push(expected_handle, &[5, 7]).is_ok());
    assert!(context.send_push(expected_handle, &[9]).is_ok());

    let commit_packet = HandlePacket::default();

    assert!(context.send_commit(expected_handle, commit_packet).is_ok());

    assert!(context.send_push(0, &[5, 7]).is_err());
    assert!(context.send_push(expected_handle, &[5, 7]).is_err());
    assert!(context.send_commit(0, HandlePacket::default()).is_err());
    assert!(context
        .send_commit(expected_handle, HandlePacket::default())
        .is_err());

    assert!(context.send_push(15, &[0]).is_err());
    assert!(context.send_commit(15, HandlePacket::default()).is_err());

    let expected_handle = 1;

    assert_eq!(
        context.send_init().expect("Error initializing new message"),
        expected_handle
    );
    assert!(context.send_push(expected_handle, &[2, 2]).is_ok());

    assert!(context.outcome().reply().is_some());
    assert_eq!(context.outcome().reply().unwrap().payload(), vec![1, 2, 3, 0, 0]);

    let (expected_result, _) = context.drain();
    assert_eq!(expected_result.handle().len(), 1);
    assert_eq!(expected_result.handle()[0].payload(), vec![5, 7, 9]);
}
