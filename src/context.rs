//! The message context: what one execution of a program sends, replies and
//! wakes, and the state that survives a wait.

use crate::bytes::extend_bytes;
use crate::errors::MessageError;
use crate::ids::{outgoing_id, reply_id, MessageId, ProgramId};
use crate::idset::{strictly_ascending, IdSet};
use crate::message::{
    Dispatch, DispatchView, HandleMessage, HandleMessageView, HandlePacket, HandlePacketView,
    IncomingMessage, IncomingMessageView, InitMessage, InitMessageView, InitPacket, InitPacketView,
    Payload, ReplyMessage, ReplyMessageView, ReplyPacket, ReplyPacketView,
};
use vstd::prelude::*;

verus! {

/// Default limit of outgoing messages within one execution.
pub const OUTGOING_LIMIT: u32 = 1024;

/// Tunables of a message context.
#[derive(Clone, Copy, Debug, PartialEq, Eq, Structural, Hash)]
pub struct ContextSettings {
    /// Gas that sending one message costs; recorded for the host.
    pub sending_fee: u64,
    /// Number of outgoing messages after which allocation fails.
    pub outgoing_limit: u32,
}

impl ContextSettings {
    /// Settings from their parts.
    pub fn new(sending_fee: u64, outgoing_limit: u32) -> (r: ContextSettings)
        ensures
            r == (ContextSettings { sending_fee, outgoing_limit }),
    {
        ContextSettings { sending_fee, outgoing_limit }
    }
}

impl Default for ContextSettings {
    fn default() -> (r: ContextSettings)
        ensures
            r == (ContextSettings { sending_fee: 0, outgoing_limit: OUTGOING_LIMIT }),
    {
        ContextSettings::new(0, OUTGOING_LIMIT)
    }
}

/// The payload of a slot, if it is open.
pub open spec fn slot_view(slot: Option<Payload>) -> Option<Seq<u8>> {
    match slot {
        Some(buf) => Some(buf@),
        None => None,
    }
}

/// The payloads of the open slots of `slots`.
pub open spec fn slot_views(slots: Seq<Option<Payload>>) -> Seq<Option<Seq<u8>>> {
    slots.map_values(|slot: Option<Payload>| slot_view(slot))
}

/// The payloads of the open slots of `entries`.
pub open spec fn entry_views(entries: Seq<(u32, Option<Payload>)>) -> Seq<Option<Seq<u8>>> {
    entries.map_values(|entry: (u32, Option<Payload>)| slot_view(entry.1))
}

/// Entry `k` of `entries` is for handle `k`, and every handle fits in `u32`.
pub open spec fn dense_handles(entries: Seq<(u32, Option<Payload>)>) -> bool {
    &&& entries.len() <= u32::MAX
    &&& forall|k: int| 0 <= k < entries.len() ==> (#[trigger] entries[k]).0 == k
}

/// What a store holds.
pub struct StoreView {
    /// One slot per handle: `Some` while open, `None` once formed.
    pub outgoing: Seq<Option<Seq<u8>>>,
    /// The reply payload pushed so far.
    pub reply: Option<Seq<u8>>,
    /// Programs whose creation was requested.
    pub initialized: Set<[u8; 32]>,
    /// Messages whose waking was requested.
    pub awaken: Set<[u8; 32]>,
    /// Whether the reply was formed.
    pub reply_sent: bool,
}

impl StoreView {
    /// The store of an execution that did nothing yet.
    pub open spec fn empty() -> StoreView {
        StoreView {
            outgoing: Seq::empty(),
            reply: None,
            initialized: Set::empty(),
            awaken: Set::empty(),
            reply_sent: false,
        }
    }
}

/// State of a context that survives a wait.
#[derive(Clone, Debug, PartialEq, Eq, Hash)]
pub struct ContextStore {
    outgoing: Vec<Option<Payload>>,
    reply: Option<Payload>,
    initialized: IdSet,
    awaken: IdSet,
    reply_sent: bool,
}

impl View for ContextStore {
    type V = StoreView;

    closed spec fn view(&self) -> StoreView {
        StoreView {
            outgoing: slot_views(self.outgoing@),
            reply: slot_view(self.reply),
            initialized: self.initialized@,
            awaken: self.awaken@,
            reply_sent: self.reply_sent,
        }
    }
}

impl Default for ContextStore {
    fn default() -> (r: ContextStore)
        ensures
            r.wf(),
            r@ == StoreView::empty(),
    {
        let r = ContextStore {
            outgoing: Vec::new(),
            reply: None,
            initialized: IdSet::new(),
            awaken: IdSet::new(),
            reply_sent: false,
        };
        assert(r@.outgoing =~= Seq::empty());
        r
    }
}

impl ContextStore {
    /// The sets are in ascending order and every handle fits in `u32`.
    pub closed spec fn wf(&self) -> bool {
        &&& self.initialized.wf()
        &&& self.awaken.wf()
        &&& self.outgoing@.len() <= u32::MAX
    }

    /// Store from its parts: the slots as `(handle, slot)` pairs, which must
    /// number the handles `0, 1, 2, ...` in order, and the set members in
    /// strictly ascending order; `None` when they do not, or when a handle
    /// would not fit in `u32`.
    pub fn from_parts(
        outgoing: Vec<(u32, Option<Payload>)>,
        reply: Option<Payload>,
        initialized: Vec<[u8; 32]>,
        awaken: Vec<[u8; 32]>,
        reply_sent: bool,
    ) -> (r: Option<ContextStore>)
        ensures
            r is Some <==> (dense_handles(outgoing@) && strictly_ascending(
                initialized@,
            ) && strictly_ascending(awaken@)),
            r matches Some(store) ==> store.wf() && store@ == (StoreView {
                outgoing: entry_views(outgoing@),
                reply: slot_view(reply),
                initialized: initialized@.to_set(),
                awaken: awaken@.to_set(),
                reply_sent,
            }),
    {
        let n = outgoing.len();
        if n > u32::MAX as usize {
            return None;
        }
        let mut slots: Vec<Option<Payload>> = Vec::new();
        for entry in it: outgoing.into_iter()
            invariant
                n == outgoing@.len(),
                n <= u32::MAX,
                it.seq() == outgoing@,
                slots@.len() == it.index(),
                forall|k: int| 0 <= k < it.index() ==> (#[trigger] outgoing@[k]).0 == k,
                slot_views(slots@) == entry_views(outgoing@.subrange(0, it.index() as int)),
        {
            let ghost i = it.index() as int;
            let ghost before = slots@;
            assert(entry == outgoing@[i]);
            let (handle, slot) = entry;
            if handle as usize != slots.len() {
                assert(outgoing@[i].0 != i);
                return None;
            }
            let ghost pushed = slot_view(slot);
            slots.push(slot);
            assert(slot_views(slots@) =~= slot_views(before).push(pushed));
            assert(entry_views(outgoing@.subrange(0, i + 1)) =~= entry_views(
                outgoing@.subrange(0, i),
            ).push(pushed));
            assert(slot_views(slots@) =~= entry_views(outgoing@.subrange(0, i + 1)));
        }
        assert(outgoing@.subrange(0, n as int) =~= outgoing@);
        let initialized = match IdSet::from_keys(initialized) {
            Some(set) => set,
            None => {
                return None;
            },
        };
        let awaken = match IdSet::from_keys(awaken) {
            Some(set) => set,
            None => {
                return None;
            },
        };
        Some(ContextStore { outgoing: slots, reply, initialized, awaken, reply_sent })
    }

    /// Slots of the outgoing messages, by handle.
    pub fn outgoing(&self) -> (r: &[Option<Payload>])
        ensures
            slot_views(r@) == self@.outgoing,
    {
        self.outgoing.as_slice()
    }

    /// The reply payload pushed so far.
    pub fn reply(&self) -> (r: Option<&Payload>)
        ensures
            r matches Some(buf) ==> self@.reply == Some(buf@),
            r is None ==> self@.reply is None,
    {
        self.reply.as_ref()
    }

    /// Programs whose creation was requested, in ascending order.
    pub fn initialized(&self) -> (r: &[[u8; 32]])
        requires
            self.wf(),
        ensures
            r@.to_set() == self@.initialized,
            strictly_ascending(r@),
    {
        self.initialized.keys()
    }

    /// Messages whose waking was requested, in ascending order.
    pub fn awaken(&self) -> (r: &[[u8; 32]])
        requires
            self.wf(),
        ensures
            r@.to_set() == self@.awaken,
            strictly_ascending(r@),
    {
        self.awaken.keys()
    }

    /// Whether the reply was formed.
    pub fn reply_sent(&self) -> (r: bool)
        ensures
            r == self@.reply_sent,
    {
        self.reply_sent
    }
}


/// The views of `s`.
pub open spec fn dispatch_views(s: Seq<Dispatch>) -> Seq<DispatchView> {
    s.map_values(|d: Dispatch| d@)
}

/// What an outcome holds.
pub struct OutcomeView {
    /// Program creations, in the order of the calls.
    pub init: Seq<InitMessageView>,
    /// Committed messages, in the order of the commits.
    pub handle: Seq<HandleMessageView>,
    /// The reply, once formed.
    pub reply: Option<ReplyMessageView>,
    /// Messages to wake, in the order of the calls.
    pub awakening: Seq<MessageId>,
    /// The executing program.
    pub program_id: ProgramId,
    /// Sender of the incoming message.
    pub source: ProgramId,
    /// Identifier of the incoming message.
    pub origin_msg_id: MessageId,
}

impl OutcomeView {
    /// The dispatches to queue: the program creations, then the committed
    /// messages, then the reply if there is one.
    pub open spec fn dispatches(self) -> Seq<DispatchView> {
        self.init.map_values(|m: InitMessageView| m.into_dispatch(self.program_id))
            + self.handle.map_values(|m: HandleMessageView| m.into_dispatch(self.program_id))
            + match self.reply {
            Some(m) => seq![m.into_dispatch(self.program_id, self.source, self.origin_msg_id)],
            None => Seq::empty(),
        }
    }
}

/// What one execution asks the host to do once it ends.
#[derive(Debug, PartialEq, Eq)]
pub struct ContextOutcome {
    init: Vec<InitMessage>,
    handle: Vec<HandleMessage>,
    reply: Option<ReplyMessage>,
    awakening: Vec<MessageId>,
    program_id: ProgramId,
    source: ProgramId,
    origin_msg_id: MessageId,
}

impl View for ContextOutcome {
    type V = OutcomeView;

    closed spec fn view(&self) -> OutcomeView {
        OutcomeView {
            init: self.init@.map_values(|m: InitMessage| m@),
            handle: self.handle@.map_values(|m: HandleMessage| m@),
            reply: match self.reply {
                Some(m) => Some(m@),
                None => None,
            },
            awakening: self.awakening@,
            program_id: self.program_id,
            source: self.source,
            origin_msg_id: self.origin_msg_id,
        }
    }
}

impl ContextOutcome {
    /// Empty outcome of the execution of `program_id` on the message
    /// `origin_msg_id` from `source`.
    pub fn new(program_id: ProgramId, source: ProgramId, origin_msg_id: MessageId) -> (r:
        ContextOutcome)
        ensures
            r@ == (OutcomeView {
                init: Seq::empty(),
                handle: Seq::empty(),
                reply: None,
                awakening: Seq::empty(),
                program_id,
                source,
                origin_msg_id,
            }),
    {
        let r = ContextOutcome {
            init: Vec::new(),
            handle: Vec::new(),
            reply: None,
            awakening: Vec::new(),
            program_id,
            source,
            origin_msg_id,
        };
        assert(r@.init =~= Seq::empty());
        assert(r@.handle =~= Seq::empty());
        assert(r@.awakening =~= Seq::empty());
        r
    }

    /// Program creations, in the order of the calls.
    pub fn init(&self) -> (r: &[InitMessage])
        ensures
            r@.map_values(|m: InitMessage| m@) == self@.init,
    {
        self.init.as_slice()
    }

    /// Committed messages, in the order of the commits.
    pub fn handle(&self) -> (r: &[HandleMessage])
        ensures
            r@.map_values(|m: HandleMessage| m@) == self@.handle,
    {
        self.handle.as_slice()
    }

    /// The reply, once formed.
    pub fn reply(&self) -> (r: Option<&ReplyMessage>)
        ensures
            r matches Some(m) ==> self@.reply == Some(m@),
            r is None ==> self@.reply is None,
    {
        self.reply.as_ref()
    }

    /// Messages to wake, in the order of the calls.
    pub fn awakening(&self) -> (r: &[MessageId])
        ensures
            r@ == self@.awakening,
    {
        self.awakening.as_slice()
    }

    /// Consumes the outcome: the dispatches to queue, in the order of
    /// `dispatches`, and the messages to wake.
    pub fn drain(self) -> (r: (Vec<Dispatch>, Vec<MessageId>))
        ensures
            dispatch_views(r.0@) == self@.dispatches(),
            r.1@ == self@.awakening,
    {
        let ghost whole = self@;
        let ContextOutcome { init, handle, reply, awakening, program_id, source, origin_msg_id } =
            self;
        let mut dispatches: Vec<Dispatch> = Vec::new();
        let ghost inits = whole.init.map_values(|m: InitMessageView| m.into_dispatch(program_id));
        let ghost handles = whole.handle.map_values(
            |m: HandleMessageView| m.into_dispatch(program_id),
        );
        let ghost n = whole.init.len();
        let ghost k = whole.handle.len();
        for m in it: init.into_iter()
            invariant
                n == whole.init.len(),
                inits == whole.init.map_values(|m: InitMessageView| m.into_dispatch(program_id)),
                it.seq().map_values(|m: InitMessage| m@) == whole.init,
                dispatch_views(dispatches@) == inits.subrange(0, it.index() as int),
        {
            let ghost i = it.index() as int;
            let ghost before = dispatches@;
            assert(m@ == whole.init[i]);
            let d = m.into_dispatch(program_id);
            dispatches.push(d);
            assert(dispatch_views(dispatches@) =~= dispatch_views(before).push(d@));
            assert(dispatch_views(dispatches@) =~= inits.subrange(0, i + 1));
        }
        assert(inits.subrange(0, n as int) =~= inits);
        for m in it: handle.into_iter()
            invariant
                k == whole.handle.len(),
                handles == whole.handle.map_values(
                    |m: HandleMessageView| m.into_dispatch(program_id),
                ),
                it.seq().map_values(|m: HandleMessage| m@) == whole.handle,
                dispatch_views(dispatches@) == inits + handles.subrange(
                    0,
                    it.index() as int,
                ),
        {
            let ghost i = it.index() as int;
            let ghost before = dispatches@;
            assert(m@ == whole.handle[i]);
            let d = m.into_dispatch(program_id);
            dispatches.push(d);
            assert(dispatch_views(dispatches@) =~= dispatch_views(before).push(d@));
            assert(dispatch_views(dispatches@) =~= inits + handles.subrange(0, i + 1));
        }
        assert(handles.subrange(0, k as int) =~= handles);
        if let Some(m) = reply {
            dispatches.push(m.into_dispatch(program_id, source, origin_msg_id));
        }
        assert(dispatch_views(dispatches@) =~= whole.dispatches());
        (dispatches, awakening)
    }
}


/// What a message context holds.
pub struct ContextView {
    pub current: IncomingMessageView,
    pub outcome: OutcomeView,
    pub store: StoreView,
    pub settings: ContextSettings,
}

impl ContextView {
    /// Every handle fits in `u32`, and the outcome names the incoming message
    /// and its sender.
    pub open spec fn wf(self) -> bool {
        &&& self.store.outgoing.len() <= u32::MAX
        &&& self.outcome.source == self.current.source
        &&& self.outcome.origin_msg_id == self.current.id
    }

    /// The context with `store` in place of its store.
    pub open spec fn with_store(self, store: StoreView) -> ContextView {
        ContextView { store, ..self }
    }

    /// The context with `store` and `outcome` in place of its own.
    pub open spec fn with_both(self, store: StoreView, outcome: OutcomeView) -> ContextView {
        ContextView { store, outcome, ..self }
    }

    /// `init_program`: fails with `DuplicateInit` when the destination was
    /// created before, else with `LimitExceeded` when the next handle reaches the
    /// limit; otherwise takes that handle as a formed slot, records the
    /// destination and the init message, and returns the destination and the
    /// message identifier derived from the incoming message and the handle.
    pub open spec fn init_program(self, packet: InitPacketView) -> (ContextView, Result<
        (ProgramId, MessageId),
        MessageError,
    >) {
        let dest = packet.program_id;
        let handle = self.store.outgoing.len();
        if self.store.initialized.contains(dest.0) {
            (self, Err(MessageError::DuplicateInit))
        } else if handle >= self.settings.outgoing_limit {
            (self, Err(MessageError::LimitExceeded))
        } else {
            let id = outgoing_id(self.current.id, handle as u32);
            (
                self.with_both(
                    StoreView {
                        outgoing: self.store.outgoing.push(None),
                        initialized: self.store.initialized.insert(dest.0),
                        ..self.store
                    },
                    OutcomeView {
                        init: self.outcome.init.push(InitMessageView { id, packet }),
                        ..self.outcome
                    },
                ),
                Ok((dest, id)),
            )
        }
    }

    /// `send_init`: fails with `LimitExceeded` when the next handle reaches the
    /// limit; otherwise opens it with an empty payload and returns it.
    pub open spec fn send_init(self) -> (ContextView, Result<u32, MessageError>) {
        let handle = self.store.outgoing.len();
        if handle < self.settings.outgoing_limit {
            (
                self.with_store(
                    StoreView {
                        outgoing: self.store.outgoing.push(Some(Seq::empty())),
                        ..self.store
                    },
                ),
                Ok(handle as u32),
            )
        } else {
            (self, Err(MessageError::LimitExceeded))
        }
    }

    /// `send_push`: fails with `OutOfBounds` for a handle never allocated and
    /// with `LateAccess` for a formed one; otherwise appends `bytes` to its
    /// payload.
    pub open spec fn send_push(self, handle: u32, bytes: Seq<u8>) -> (ContextView, Result<
        (),
        MessageError,
    >) {
        if handle >= self.store.outgoing.len() {
            (self, Err(MessageError::OutOfBounds))
        } else {
            match self.store.outgoing[handle as int] {
                Some(buf) => (
                    self.with_store(
                        StoreView {
                            outgoing: self.store.outgoing.update(handle as int, Some(buf + bytes)),
                            ..self.store
                        },
                    ),
                    Ok(()),
                ),
                None => (self, Err(MessageError::LateAccess)),
            }
        }
    }

    /// `send_commit`: fails as `send_push` does; otherwise closes the slot and
    /// records the message with the pushed payload in front of the packet's,
    /// returning the identifier derived from the incoming message and the handle.
    pub open spec fn send_commit(self, handle: u32, packet: HandlePacketView) -> (ContextView, Result<
        MessageId,
        MessageError,
    >) {
        if handle >= self.store.outgoing.len() {
            (self, Err(MessageError::OutOfBounds))
        } else {
            match self.store.outgoing[handle as int] {
                Some(buf) => {
                    let id = outgoing_id(self.current.id, handle);
                    let message = HandleMessageView {
                        id,
                        packet: HandlePacketView { payload: buf + packet.payload, ..packet },
                    };
                    (
                        self.with_both(
                            StoreView {
                                outgoing: self.store.outgoing.update(handle as int, None),
                                ..self.store
                            },
                            OutcomeView {
                                handle: self.outcome.handle.push(message),
                                ..self.outcome
                            },
                        ),
                        Ok(id),
                    )
                },
                None => (self, Err(MessageError::LateAccess)),
            }
        }
    }

    /// `reply_push`: fails with `LateAccess` once the reply is formed;
    /// otherwise appends `bytes` to the reply payload, which starts empty.
    pub open spec fn reply_push(self, bytes: Seq<u8>) -> (ContextView, Result<(), MessageError>) {
        if self.store.reply_sent {
            (self, Err(MessageError::LateAccess))
        } else {
            let buf = match self.store.reply {
                Some(buf) => buf,
                None => Seq::empty(),
            };
            (self.with_store(StoreView { reply: Some(buf + bytes), ..self.store }), Ok(()))
        }
    }

    /// `reply_commit`: fails with `DuplicateReply` once the reply is formed;
    /// otherwise records the reply with the pushed payload in front of the
    /// packet's, clears the buffer, sets the flag, and returns the identifier
    /// derived from the incoming message and the exit code.
    pub open spec fn reply_commit(self, packet: ReplyPacketView) -> (ContextView, Result<
        MessageId,
        MessageError,
    >) {
        if self.store.reply_sent {
            (self, Err(MessageError::DuplicateReply))
        } else {
            let buf = match self.store.reply {
                Some(buf) => buf,
                None => Seq::empty(),
            };
            let id = reply_id(self.current.id, packet.exit_code);
            let message = ReplyMessageView {
                id,
                packet: ReplyPacketView { payload: buf + packet.payload, ..packet },
            };
            (
                self.with_both(
                    StoreView { reply: None, reply_sent: true, ..self.store },
                    OutcomeView { reply: Some(message), ..self.outcome },
                ),
                Ok(id),
            )
        }
    }

    /// `wake`: fails with `DuplicateWaking` for a message already asked for;
    /// otherwise records it.
    pub open spec fn wake(self, waker_id: MessageId) -> (ContextView, Result<(), MessageError>) {
        if self.store.awaken.contains(waker_id.0) {
            (self, Err(MessageError::DuplicateWaking))
        } else {
            (
                self.with_both(
                    StoreView { awaken: self.store.awaken.insert(waker_id.0), ..self.store },
                    OutcomeView { awakening: self.outcome.awakening.push(waker_id), ..self.outcome },
                ),
                Ok(()),
            )
        }
    }
}

/// Context of the incoming message being handled.
#[derive(Debug, PartialEq, Eq)]
pub struct MessageContext {
    current: IncomingMessage,
    outcome: ContextOutcome,
    store: ContextStore,
    settings: ContextSettings,
}

impl View for MessageContext {
    type V = ContextView;

    closed spec fn view(&self) -> ContextView {
        ContextView {
            current: self.current@,
            outcome: self.outcome@,
            store: self.store@,
            settings: self.settings,
        }
    }
}

impl MessageContext {
    /// The store is well formed and so is the model.
    pub closed spec fn wf(&self) -> bool {
        self.store.wf() && self@.wf()
    }

    /// Context with the default settings.
    pub fn new(message: IncomingMessage, program_id: ProgramId, store: Option<ContextStore>) -> (r:
        MessageContext)
        requires
            store matches Some(s) ==> s.wf(),
        ensures
            r.wf(),
            r@ == new_context(message@, program_id, store, ContextSettings { sending_fee: 0, outgoing_limit: OUTGOING_LIMIT }),
    {
        MessageContext::new_with_settings(message, program_id, store, ContextSettings::default())
    }

    /// Context with the given settings.
    pub fn new_with_settings(
        message: IncomingMessage,
        program_id: ProgramId,
        store: Option<ContextStore>,
        settings: ContextSettings,
    ) -> (r: MessageContext)
        requires
            store matches Some(s) ==> s.wf(),
        ensures
            r.wf(),
            r@ == new_context(message@, program_id, store, settings),
    {
        let outcome = ContextOutcome::new(program_id, message.source(), message.id());
        let store = match store {
            Some(s) => s,
            None => ContextStore::default(),
        };
        MessageContext { current: message, outcome, store, settings }
    }

    /// Records the creation of the program `packet.destination()` with the
    /// initial message `packet`; returns the program and the message
    /// identifiers.
    pub fn init_program(&mut self, packet: InitPacket) -> (r: Result<(ProgramId, MessageId), MessageError>)
        requires
            old(self).wf(),
        ensures
            final(self).wf(),
            (final(self)@, r) == old(self)@.init_program(packet@),
    {
        let program_id = packet.destination();
        if self.store.initialized.contains(&program_id.0) {
            return Err(MessageError::DuplicateInit);
        }
        let last = self.store.outgoing.len() as u32;
        if last >= self.settings.outgoing_limit {
            return Err(MessageError::LimitExceeded);
        }
        let message_id = MessageId::generate_outgoing(self.current.id(), last);
        let ghost packet_view = packet@;
        let message = InitMessage::from_packet(message_id, packet);
        self.store.outgoing.push(None);
        self.store.initialized.insert(program_id.0);
        self.outcome.init.push(message);
        proof {
            let old_view = old(self)@;
            let expected = old_view.init_program(packet_view).0;
            assert(self.store@.outgoing =~= expected.store.outgoing);
            assert(self.outcome@.init =~= expected.outcome.init);
        }
        Ok((program_id, message_id))
    }

    /// Opens a new handle for a message whose payload is pushed in parts.
    pub fn send_init(&mut self) -> (r: Result<u32, MessageError>)
        requires
            old(self).wf(),
        ensures
            final(self).wf(),
            (final(self)@, r) == old(self)@.send_init(),
    {
        let last = self.store.outgoing.len() as u32;
        if last < self.settings.outgoing_limit {
            let empty: Payload = Vec::new();
            assert(empty@ =~= Seq::<u8>::empty());
            self.store.outgoing.push(Some(empty));
            proof {
                let expected = old(self)@.send_init().0;
                assert(self.store@.outgoing =~= expected.store.outgoing);
            }
            Ok(last)
        } else {
            Err(MessageError::LimitExceeded)
        }
    }

    /// Appends `buffer` to the payload of the open handle `handle`.
    pub fn send_push(&mut self, handle: u32, buffer: &[u8]) -> (r: Result<(), MessageError>)
        requires
            old(self).wf(),
        ensures
            final(self).wf(),
            (final(self)@, r) == old(self)@.send_push(handle, buffer@),
    {
        if handle as usize >= self.store.outgoing.len() {
            return Err(MessageError::OutOfBounds);
        }
        let h = handle as usize;
        if self.store.outgoing[h].is_none() {
            return Err(MessageError::LateAccess);
        }
        match &mut self.store.outgoing[h] {
            Some(data) => {
                extend_bytes(data, buffer);
            },
            None => {},
        }
        proof {
            let expected = old(self)@.send_push(handle, buffer@).0;
            assert(self.store@.outgoing =~= expected.store.outgoing);
        }
        Ok(())
    }

    /// Forms the message of the open handle `handle` from its pushed payload
    /// followed by `packet`; returns the message identifier.
    pub fn send_commit(&mut self, handle: u32, packet: HandlePacket) -> (r: Result<MessageId, MessageError>)
        requires
            old(self).wf(),
        ensures
            final(self).wf(),
            (final(self)@, r) == old(self)@.send_commit(handle, packet@),
    {
        if handle as usize >= self.store.outgoing.len() {
            return Err(MessageError::OutOfBounds);
        }
        let h = handle as usize;
        let ghost given = packet@;
        let taken = self.store.outgoing[h].take();
        match taken {
            Some(data) => {
                let mut full = packet;
                full.prepend(data);
                let message_id = MessageId::generate_outgoing(self.current.id(), handle);
                let message = HandleMessage::from_packet(message_id, full);
                self.outcome.handle.push(message);
                proof {
                    let expected = old(self)@.send_commit(handle, given).0;
                    assert(self.store@.outgoing =~= expected.store.outgoing);
                    assert(self.outcome@.handle =~= expected.outcome.handle);
                }
                Ok(message_id)
            },
            None => {
                proof {
                    assert(self.store.outgoing@ =~= old(self).store.outgoing@);
                }
                Err(MessageError::LateAccess)
            },
        }
    }

    /// Forms the reply from its pushed payload followed by `packet`; returns
    /// the reply identifier.
    pub fn reply_commit(&mut self, packet: ReplyPacket) -> (r: Result<MessageId, MessageError>)
        requires
            old(self).wf(),
        ensures
            final(self).wf(),
            (final(self)@, r) == old(self)@.reply_commit(packet@),
    {
        if self.store.reply_sent {
            return Err(MessageError::DuplicateReply);
        }
        let data = match self.store.reply.take() {
            Some(data) => data,
            None => Vec::new(),
        };
        let mut full = packet;
        full.prepend(data);
        let message_id = MessageId::generate_reply(self.current.id(), full.exit_code());
        let message = ReplyMessage::from_packet(message_id, full);
        self.outcome.reply = Some(message);
        self.store.reply_sent = true;
        Ok(message_id)
    }

    /// Appends `buffer` to the payload of the reply.
    pub fn reply_push(&mut self, buffer: &[u8]) -> (r: Result<(), MessageError>)
        requires
            old(self).wf(),
        ensures
            final(self).wf(),
            (final(self)@, r) == old(self)@.reply_push(buffer@),
    {
        if self.store.reply_sent {
            return Err(MessageError::LateAccess);
        }
        let mut data = match self.store.reply.take() {
            Some(data) => data,
            None => Vec::new(),
        };
        extend_bytes(&mut data, buffer);
        self.store.reply = Some(data);
        Ok(())
    }

    /// Records that the message `waker_id` is to be woken.
    pub fn wake(&mut self, waker_id: MessageId) -> (r: Result<(), MessageError>)
        requires
            old(self).wf(),
        ensures
            final(self).wf(),
            (final(self)@, r) == old(self)@.wake(waker_id),
    {
        if self.store.awaken.insert(waker_id.0) {
            self.outcome.awakening.push(waker_id);
            Ok(())
        } else {
            assert(self.store@.awaken =~= old(self).store@.awaken);
            Err(MessageError::DuplicateWaking)
        }
    }

    /// The incoming message being handled.
    pub fn current(&self) -> (r: &IncomingMessage)
        ensures
            r@ == self@.current,
    {
        &self.current
    }

    /// The executing program.
    pub fn program_id(&self) -> (r: ProgramId)
        ensures
            r == self@.outcome.program_id,
    {
        self.outcome.program_id
    }

    /// The settings of the context.
    pub fn settings(&self) -> (r: ContextSettings)
        ensures
            r == self@.settings,
    {
        self.settings
    }

    /// The outcome so far.
    pub fn outcome(&self) -> (r: &ContextOutcome)
        ensures
            r@ == self@.outcome,
    {
        &self.outcome
    }

    /// The store so far.
    pub fn store(&self) -> (r: &ContextStore)
        requires
            self.wf(),
        ensures
            r@ == self@.store,
            r.wf(),
    {
        &self.store
    }

    /// Consumes the context: its outcome and its store.
    pub fn drain(self) -> (r: (ContextOutcome, ContextStore))
        requires
            self.wf(),
        ensures
            r.0@ == self@.outcome,
            r.1@ == self@.store,
            r.1.wf(),
    {
        let MessageContext { outcome, store, .. } = self;
        (outcome, store)
    }
}

/// The context that `new_with_settings` makes.
pub open spec fn new_context(
    message: IncomingMessageView,
    program_id: ProgramId,
    store: Option<ContextStore>,
    settings: ContextSettings,
) -> ContextView {
    ContextView {
        current: message,
        outcome: OutcomeView {
            init: Seq::empty(),
            handle: Seq::empty(),
            reply: None,
            awakening: Seq::empty(),
            program_id,
            source: message.source,
            origin_msg_id: message.id,
        },
        store: match store {
            Some(s) => s@,
            None => StoreView::empty(),
        },
        settings,
    }
}

} // verus!
