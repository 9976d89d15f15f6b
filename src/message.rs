//! Packets, messages and dispatches: what a program sends and what the host
//! receives.

use crate::bytes::extend_bytes;
use crate::ids::{zero_key, CodeId, MessageId, ProgramId};
use vstd::prelude::*;

verus! {

/// Bytes carried by a message.
pub type Payload = Vec<u8>;

/// Exit code carried by a reply.
pub type ExitCode = i32;

/// Puts the bytes of `data` in front of `payload`.
fn prepend_bytes(payload: &mut Payload, data: Payload)
    ensures
        final(payload)@ == data@ + old(payload)@,
{
    let mut out = data;
    extend_bytes(&mut out, payload.as_slice());
    *payload = out;
}

/// What an init packet holds.
pub struct InitPacketView {
    pub program_id: ProgramId,
    pub code_id: CodeId,
    pub salt: Seq<u8>,
    pub payload: Seq<u8>,
    pub gas_limit: Option<u64>,
    pub value: u128,
}

/// A message that creates a program from `code_id` and `salt`.
#[derive(Clone, Debug, PartialEq, Eq)]
pub struct InitPacket {
    program_id: ProgramId,
    code_id: CodeId,
    salt: Vec<u8>,
    payload: Payload,
    gas_limit: Option<u64>,
    value: u128,
}

impl View for InitPacket {
    type V = InitPacketView;

    closed spec fn view(&self) -> InitPacketView {
        InitPacketView {
            program_id: self.program_id,
            code_id: self.code_id,
            salt: self.salt@,
            payload: self.payload@,
            gas_limit: self.gas_limit,
            value: self.value,
        }
    }
}

impl Default for InitPacket {
    fn default() -> (r: InitPacket)
        ensures
            r@ == (InitPacketView {
                program_id: ProgramId(zero_key()),
                code_id: CodeId(zero_key()),
                salt: Seq::empty(),
                payload: Seq::empty(),
                gas_limit: None,
                value: 0,
            }),
    {
        let r = InitPacket {
            program_id: ProgramId::default(),
            code_id: CodeId::default(),
            salt: Vec::new(),
            payload: Vec::new(),
            gas_limit: None,
            value: 0,
        };
        assert(r@.salt =~= Seq::empty());
        assert(r@.payload =~= Seq::empty());
        r
    }
}

impl InitPacket {
    /// Packet that creates a program from `code_id` and `salt`, with no gas limit.
    pub fn new(code_id: CodeId, salt: Vec<u8>, payload: Payload, value: u128) -> (r: InitPacket)
        ensures
            r@ == (InitPacketView {
                program_id: crate::ids::program_id_of(code_id, salt@),
                code_id,
                salt: salt@,
                payload: payload@,
                gas_limit: None,
                value,
            }),
    {
        let program_id = ProgramId::generate(code_id, salt.as_slice());
        InitPacket { program_id, code_id, salt, payload, gas_limit: None, value }
    }

    /// Packet that creates a program from `code_id` and `salt`, with a gas limit.
    pub fn new_with_gas(
        code_id: CodeId,
        salt: Vec<u8>,
        payload: Payload,
        gas_limit: u64,
        value: u128,
    ) -> (r: InitPacket)
        ensures
            r@ == (InitPacketView {
                program_id: crate::ids::program_id_of(code_id, salt@),
                code_id,
                salt: salt@,
                payload: payload@,
                gas_limit: Some(gas_limit),
                value,
            }),
    {
        let program_id = ProgramId::generate(code_id, salt.as_slice());
        InitPacket { program_id, code_id, salt, payload, gas_limit: Some(gas_limit), value }
    }

    /// Identifier of the program to be created.
    pub fn destination(&self) -> (r: ProgramId)
        ensures
            r == self@.program_id,
    {
        self.program_id
    }

    /// Code the program is created from.
    pub fn code_id(&self) -> (r: CodeId)
        ensures
            r == self@.code_id,
    {
        self.code_id
    }

    /// Salt of the program's identifier.
    pub fn salt(&self) -> (r: &[u8])
        ensures
            r@ == self@.salt,
    {
        self.salt.as_slice()
    }

    /// Payload of the packet.
    pub fn payload(&self) -> (r: &[u8])
        ensures
            r@ == self@.payload,
    {
        self.payload.as_slice()
    }

    /// Gas limit of the packet, if any.
    pub fn gas_limit(&self) -> (r: Option<u64>)
        ensures
            r == self@.gas_limit,
    {
        self.gas_limit
    }

    /// Value sent with the packet.
    pub fn value(&self) -> (r: u128)
        ensures
            r == self@.value,
    {
        self.value
    }

    /// Puts `data` in front of the payload.
    pub fn prepend(&mut self, data: Payload)
        ensures
            final(self)@ == (InitPacketView { payload: data@ + old(self)@.payload, ..old(self)@ }),
    {
        prepend_bytes(&mut self.payload, data);
    }
}

/// What a handle packet holds.
pub struct HandlePacketView {
    pub destination: ProgramId,
    pub payload: Seq<u8>,
    pub gas_limit: Option<u64>,
    pub value: u128,
}

/// A message to an existing program.
#[derive(Clone, Debug, PartialEq, Eq)]
pub struct HandlePacket {
    destination: ProgramId,
    payload: Payload,
    gas_limit: Option<u64>,
    value: u128,
}

impl View for HandlePacket {
    type V = HandlePacketView;

    closed spec fn view(&self) -> HandlePacketView {
        HandlePacketView {
            destination: self.destination,
            payload: self.payload@,
            gas_limit: self.gas_limit,
            value: self.value,
        }
    }
}

impl Default for HandlePacket {
    fn default() -> (r: HandlePacket)
        ensures
            r@ == (HandlePacketView {
                destination: ProgramId(zero_key()),
                payload: Seq::empty(),
                gas_limit: None,
                value: 0,
            }),
    {
        let r = HandlePacket {
            destination: ProgramId::default(),
            payload: Vec::new(),
            gas_limit: None,
            value: 0,
        };
        assert(r@.payload =~= Seq::empty());
        r
    }
}

impl HandlePacket {
    /// Packet to `destination`, with no gas limit.
    pub fn new(destination: ProgramId, payload: Payload, value: u128) -> (r: HandlePacket)
        ensures
            r@ == (HandlePacketView { destination, payload: payload@, gas_limit: None, value }),
    {
        HandlePacket { destination, payload, gas_limit: None, value }
    }

    /// Packet to `destination`, with a gas limit.
    pub fn new_with_gas(destination: ProgramId, payload: Payload, gas_limit: u64, value: u128) -> (r:
        HandlePacket)
        ensures
            r@ == (HandlePacketView {
                destination,
                payload: payload@,
                gas_limit: Some(gas_limit),
                value,
            }),
    {
        HandlePacket { destination, payload, gas_limit: Some(gas_limit), value }
    }

    /// Destination of the packet.
    pub fn destination(&self) -> (r: ProgramId)
        ensures
            r == self@.destination,
    {
        self.destination
    }

    /// Payload of the packet.
    pub fn payload(&self) -> (r: &[u8])
        ensures
            r@ == self@.payload,
    {
        self.payload.as_slice()
    }

    /// Gas limit of the packet, if any.
    pub fn gas_limit(&self) -> (r: Option<u64>)
        ensures
            r == self@.gas_limit,
    {
        self.gas_limit
    }

    /// Value sent with the packet.
    pub fn value(&self) -> (r: u128)
        ensures
            r == self@.value,
    {
        self.value
    }

    /// Puts `data` in front of the payload.
    pub fn prepend(&mut self, data: Payload)
        ensures
            final(self)@ == (HandlePacketView { payload: data@ + old(self)@.payload, ..old(self)@ }),
    {
        prepend_bytes(&mut self.payload, data);
    }
}

/// What a reply packet holds.
pub struct ReplyPacketView {
    pub payload: Seq<u8>,
    pub gas_limit: Option<u64>,
    pub value: u128,
    pub exit_code: ExitCode,
}

/// A reply to the message being handled.
#[derive(Clone, Debug, PartialEq, Eq)]
pub struct ReplyPacket {
    payload: Payload,
    gas_limit: Option<u64>,
    value: u128,
    exit_code: ExitCode,
}

impl View for ReplyPacket {
    type V = ReplyPacketView;

    closed spec fn view(&self) -> ReplyPacketView {
        ReplyPacketView {
            payload: self.payload@,
            gas_limit: self.gas_limit,
            value: self.value,
            exit_code: self.exit_code,
        }
    }
}

impl Default for ReplyPacket {
    fn default() -> (r: ReplyPacket)
        ensures
            r@ == (ReplyPacketView { payload: Seq::empty(), gas_limit: None, value: 0, exit_code: 0 }),
    {
        let r = ReplyPacket { payload: Vec::new(), gas_limit: None, value: 0, exit_code: 0 };
        assert(r@.payload =~= Seq::empty());
        r
    }
}

impl ReplyPacket {
    /// Reply with `exit_code`, no value and no gas limit.
    pub fn new(payload: Payload, exit_code: ExitCode) -> (r: ReplyPacket)
        ensures
            r@ == (ReplyPacketView { payload: payload@, gas_limit: None, value: 0, exit_code }),
    {
        ReplyPacket { payload, gas_limit: None, value: 0, exit_code }
    }

    /// Reply with `exit_code`, a value and a gas limit.
    pub fn new_with_gas(payload: Payload, gas_limit: u64, value: u128, exit_code: ExitCode) -> (r:
        ReplyPacket)
        ensures
            r@ == (ReplyPacketView {
                payload: payload@,
                gas_limit: Some(gas_limit),
                value,
                exit_code,
            }),
    {
        ReplyPacket { payload, gas_limit: Some(gas_limit), value, exit_code }
    }

    /// Payload of the packet.
    pub fn payload(&self) -> (r: &[u8])
        ensures
            r@ == self@.payload,
    {
        self.payload.as_slice()
    }

    /// Gas limit of the packet, if any.
    pub fn gas_limit(&self) -> (r: Option<u64>)
        ensures
            r == self@.gas_limit,
    {
        self.gas_limit
    }

    /// Value sent with the packet.
    pub fn value(&self) -> (r: u128)
        ensures
            r == self@.value,
    {
        self.value
    }

    /// Exit code of the reply.
    pub fn exit_code(&self) -> (r: ExitCode)
        ensures
            r == self@.exit_code,
    {
        self.exit_code
    }

    /// Puts `data` in front of the payload.
    pub fn prepend(&mut self, data: Payload)
        ensures
            final(self)@ == (ReplyPacketView { payload: data@ + old(self)@.payload, ..old(self)@ }),
    {
        prepend_bytes(&mut self.payload, data);
    }
}


/// Kind of a dispatch: which entry point of the destination handles it.
#[derive(Clone, Copy, Debug, PartialEq, Eq, Structural, Hash)]
pub enum DispatchKind {
    Init,
    Handle,
    Reply,
}

/// What a message holds.
pub struct MessageView {
    pub id: MessageId,
    pub source: ProgramId,
    pub destination: ProgramId,
    pub payload: Seq<u8>,
    pub gas_limit: Option<u64>,
    pub value: u128,
    pub reply: Option<(MessageId, ExitCode)>,
}

/// A message in the uniform form that the host queues.
#[derive(Clone, Debug, PartialEq, Eq)]
pub struct Message {
    id: MessageId,
    source: ProgramId,
    destination: ProgramId,
    payload: Payload,
    gas_limit: Option<u64>,
    value: u128,
    reply: Option<(MessageId, ExitCode)>,
}

impl View for Message {
    type V = MessageView;

    closed spec fn view(&self) -> MessageView {
        MessageView {
            id: self.id,
            source: self.source,
            destination: self.destination,
            payload: self.payload@,
            gas_limit: self.gas_limit,
            value: self.value,
            reply: self.reply,
        }
    }
}

impl Message {
    /// Message from its parts.
    pub fn new(
        id: MessageId,
        source: ProgramId,
        destination: ProgramId,
        payload: Payload,
        gas_limit: Option<u64>,
        value: u128,
        reply: Option<(MessageId, ExitCode)>,
    ) -> (r: Message)
        ensures
            r@ == (MessageView {
                id,
                source,
                destination,
                payload: payload@,
                gas_limit,
                value,
                reply,
            }),
    {
        Message { id, source, destination, payload, gas_limit, value, reply }
    }

    /// Identifier of the message.
    pub fn id(&self) -> (r: MessageId)
        ensures
            r == self@.id,
    {
        self.id
    }

    /// Sender of the message.
    pub fn source(&self) -> (r: ProgramId)
        ensures
            r == self@.source,
    {
        self.source
    }

    /// Receiver of the message.
    pub fn destination(&self) -> (r: ProgramId)
        ensures
            r == self@.destination,
    {
        self.destination
    }

    /// Payload of the message.
    pub fn payload(&self) -> (r: &[u8])
        ensures
            r@ == self@.payload,
    {
        self.payload.as_slice()
    }

    /// Gas limit of the message, if any.
    pub fn gas_limit(&self) -> (r: Option<u64>)
        ensures
            r == self@.gas_limit,
    {
        self.gas_limit
    }

    /// Value sent with the message.
    pub fn value(&self) -> (r: u128)
        ensures
            r == self@.value,
    {
        self.value
    }

    /// The message replied to and the exit code, for a reply.
    pub fn reply(&self) -> (r: Option<(MessageId, ExitCode)>)
        ensures
            r == self@.reply,
    {
        self.reply
    }
}

/// What a dispatch holds.
pub struct DispatchView {
    pub kind: DispatchKind,
    pub message: MessageView,
}

/// A message together with the entry point that handles it.
#[derive(Clone, Debug, PartialEq, Eq)]
pub struct Dispatch {
    kind: DispatchKind,
    message: Message,
}

impl View for Dispatch {
    type V = DispatchView;

    closed spec fn view(&self) -> DispatchView {
        DispatchView { kind: self.kind, message: self.message@ }
    }
}

impl Dispatch {
    /// Dispatch of `message` to the entry point `kind`.
    pub fn new(kind: DispatchKind, message: Message) -> (r: Dispatch)
        ensures
            r@ == (DispatchView { kind, message: message@ }),
    {
        Dispatch { kind, message }
    }

    /// Entry point of the dispatch.
    pub fn kind(&self) -> (r: DispatchKind)
        ensures
            r == self@.kind,
    {
        self.kind
    }

    /// Message of the dispatch.
    pub fn message(&self) -> (r: &Message)
        ensures
            r@ == self@.message,
    {
        &self.message
    }
}

/// What an init message holds.
pub struct InitMessageView {
    pub id: MessageId,
    pub packet: InitPacketView,
}

impl InitMessageView {
    /// The dispatch that `source` sends for this message.
    pub open spec fn into_dispatch(self, source: ProgramId) -> DispatchView {
        DispatchView {
            kind: DispatchKind::Init,
            message: MessageView {
                id: self.id,
                source,
                destination: self.packet.program_id,
                payload: self.packet.payload,
                gas_limit: self.packet.gas_limit,
                value: self.packet.value,
                reply: None,
            },
        }
    }
}

/// A formed message that creates a program.
#[derive(Clone, Debug, PartialEq, Eq)]
pub struct InitMessage {
    id: MessageId,
    packet: InitPacket,
}

impl View for InitMessage {
    type V = InitMessageView;

    closed spec fn view(&self) -> InitMessageView {
        InitMessageView { id: self.id, packet: self.packet@ }
    }
}

impl InitMessage {
    /// Message `id` formed from `packet`.
    pub fn from_packet(id: MessageId, packet: InitPacket) -> (r: InitMessage)
        ensures
            r@ == (InitMessageView { id, packet: packet@ }),
    {
        InitMessage { id, packet }
    }

    /// Identifier of the message.
    pub fn id(&self) -> (r: MessageId)
        ensures
            r == self@.id,
    {
        self.id
    }

    /// Identifier of the program to be created.
    pub fn destination(&self) -> (r: ProgramId)
        ensures
            r == self@.packet.program_id,
    {
        self.packet.destination()
    }

    /// Payload of the message.
    pub fn payload(&self) -> (r: &[u8])
        ensures
            r@ == self@.packet.payload,
    {
        self.packet.payload()
    }

    /// The dispatch that `source` sends for this message.
    pub fn into_dispatch(self, source: ProgramId) -> (r: Dispatch)
        ensures
            r@ == self@.into_dispatch(source),
    {
        let InitMessage { id, packet } = self;
        let InitPacket { program_id, payload, gas_limit, value, .. } = packet;
        Dispatch::new(
            DispatchKind::Init,
            Message::new(id, source, program_id, payload, gas_limit, value, None),
        )
    }
}

/// What a handle message holds.
pub struct HandleMessageView {
    pub id: MessageId,
    pub packet: HandlePacketView,
}

impl HandleMessageView {
    /// The dispatch that `source` sends for this message.
    pub open spec fn into_dispatch(self, source: ProgramId) -> DispatchView {
        DispatchView {
            kind: DispatchKind::Handle,
            message: MessageView {
                id: self.id,
                source,
                destination: self.packet.destination,
                payload: self.packet.payload,
                gas_limit: self.packet.gas_limit,
                value: self.packet.value,
                reply: None,
            },
        }
    }
}

/// A formed message to an existing program.
#[derive(Clone, Debug, PartialEq, Eq)]
pub struct HandleMessage {
    id: MessageId,
    packet: HandlePacket,
}

impl View for HandleMessage {
    type V = HandleMessageView;

    closed spec fn view(&self) -> HandleMessageView {
        HandleMessageView { id: self.id, packet: self.packet@ }
    }
}

impl HandleMessage {
    /// Message `id` formed from `packet`.
    pub fn from_packet(id: MessageId, packet: HandlePacket) -> (r: HandleMessage)
        ensures
            r@ == (HandleMessageView { id, packet: packet@ }),
    {
        HandleMessage { id, packet }
    }

    /// Identifier of the message.
    pub fn id(&self) -> (r: MessageId)
        ensures
            r == self@.id,
    {
        self.id
    }

    /// Receiver of the message.
    pub fn destination(&self) -> (r: ProgramId)
        ensures
            r == self@.packet.destination,
    {
        self.packet.destination()
    }

    /// Payload of the message.
    pub fn payload(&self) -> (r: &[u8])
        ensures
            r@ == self@.packet.payload,
    {
        self.packet.payload()
    }

    /// The dispatch that `source` sends for this message.
    pub fn into_dispatch(self, source: ProgramId) -> (r: Dispatch)
        ensures
            r@ == self@.into_dispatch(source),
    {
        let HandleMessage { id, packet } = self;
        let HandlePacket { destination, payload, gas_limit, value } = packet;
        Dispatch::new(
            DispatchKind::Handle,
            Message::new(id, source, destination, payload, gas_limit, value, None),
        )
    }
}

/// What a reply message holds.
pub struct ReplyMessageView {
    pub id: MessageId,
    pub packet: ReplyPacketView,
}

impl ReplyMessageView {
    /// The dispatch that `source` sends to `destination` for this reply to
    /// the message `origin_msg_id`.
    pub open spec fn into_dispatch(
        self,
        source: ProgramId,
        destination: ProgramId,
        origin_msg_id: MessageId,
    ) -> DispatchView {
        DispatchView {
            kind: DispatchKind::Reply,
            message: MessageView {
                id: self.id,
                source,
                destination,
                payload: self.packet.payload,
                gas_limit: self.packet.gas_limit,
                value: self.packet.value,
                reply: Some((origin_msg_id, self.packet.exit_code)),
            },
        }
    }
}

/// A formed reply to the message being handled.
#[derive(Clone, Debug, PartialEq, Eq)]
pub struct ReplyMessage {
    id: MessageId,
    packet: ReplyPacket,
}

impl View for ReplyMessage {
    type V = ReplyMessageView;

    closed spec fn view(&self) -> ReplyMessageView {
        ReplyMessageView { id: self.id, packet: self.packet@ }
    }
}

impl ReplyMessage {
    /// Reply `id` formed from `packet`.
    pub fn from_packet(id: MessageId, packet: ReplyPacket) -> (r: ReplyMessage)
        ensures
            r@ == (ReplyMessageView { id, packet: packet@ }),
    {
        ReplyMessage { id, packet }
    }

    /// Identifier of the reply.
    pub fn id(&self) -> (r: MessageId)
        ensures
            r == self@.id,
    {
        self.id
    }

    /// Payload of the reply.
    pub fn payload(&self) -> (r: &[u8])
        ensures
            r@ == self@.packet.payload,
    {
        self.packet.payload()
    }

    /// Exit code of the reply.
    pub fn exit_code(&self) -> (r: ExitCode)
        ensures
            r == self@.packet.exit_code,
    {
        self.packet.exit_code()
    }

    /// The dispatch that `source` sends to `destination` for this reply to
    /// the message `origin_msg_id`.
    pub fn into_dispatch(self, source: ProgramId, destination: ProgramId, origin_msg_id: MessageId) -> (r:
        Dispatch)
        ensures
            r@ == self@.into_dispatch(source, destination, origin_msg_id),
    {
        let ReplyMessage { id, packet } = self;
        let ReplyPacket { payload, gas_limit, value, exit_code } = packet;
        Dispatch::new(
            DispatchKind::Reply,
            Message::new(
                id,
                source,
                destination,
                payload,
                gas_limit,
                value,
                Some((origin_msg_id, exit_code)),
            ),
        )
    }
}

/// What an incoming message holds.
pub struct IncomingMessageView {
    pub id: MessageId,
    pub source: ProgramId,
    pub payload: Seq<u8>,
    pub gas_limit: u64,
    pub value: u128,
    pub reply: Option<(MessageId, ExitCode)>,
}

/// The message whose delivery started the current execution.
#[derive(Clone, Debug, PartialEq, Eq)]
pub struct IncomingMessage {
    id: MessageId,
    source: ProgramId,
    payload: Payload,
    gas_limit: u64,
    value: u128,
    reply: Option<(MessageId, ExitCode)>,
}

impl View for IncomingMessage {
    type V = IncomingMessageView;

    closed spec fn view(&self) -> IncomingMessageView {
        IncomingMessageView {
            id: self.id,
            source: self.source,
            payload: self.payload@,
            gas_limit: self.gas_limit,
            value: self.value,
            reply: self.reply,
        }
    }
}

impl Default for IncomingMessage {
    fn default() -> (r: IncomingMessage)
        ensures
            r@ == (IncomingMessageView {
                id: MessageId(zero_key()),
                source: ProgramId(zero_key()),
                payload: Seq::empty(),
                gas_limit: 0,
                value: 0,
                reply: None,
            }),
    {
        let r = IncomingMessage {
            id: MessageId::default(),
            source: ProgramId::default(),
            payload: Vec::new(),
            gas_limit: 0,
            value: 0,
            reply: None,
        };
        assert(r@.payload =~= Seq::empty());
        r
    }
}

impl IncomingMessage {
    /// Incoming message from its parts.
    pub fn new(
        id: MessageId,
        source: ProgramId,
        payload: Payload,
        gas_limit: u64,
        value: u128,
        reply: Option<(MessageId, ExitCode)>,
    ) -> (r: IncomingMessage)
        ensures
            r@ == (IncomingMessageView { id, source, payload: payload@, gas_limit, value, reply }),
    {
        IncomingMessage { id, source, payload, gas_limit, value, reply }
    }

    /// Identifier of the message.
    pub fn id(&self) -> (r: MessageId)
        ensures
            r == self@.id,
    {
        self.id
    }

    /// Sender of the message.
    pub fn source(&self) -> (r: ProgramId)
        ensures
            r == self@.source,
    {
        self.source
    }

    /// Payload of the message.
    pub fn payload(&self) -> (r: &[u8])
        ensures
            r@ == self@.payload,
    {
        self.payload.as_slice()
    }

    /// Gas limit of the message.
    pub fn gas_limit(&self) -> (r: u64)
        ensures
            r == self@.gas_limit,
    {
        self.gas_limit
    }

    /// Value sent with the message.
    pub fn value(&self) -> (r: u128)
        ensures
            r == self@.value,
    {
        self.value
    }

    /// The message replied to and the exit code, when this is a reply.
    pub fn reply(&self) -> (r: Option<(MessageId, ExitCode)>)
        ensures
            r == self@.reply,
    {
        self.reply
    }
}

} // verus!
