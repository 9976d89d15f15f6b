//! Runs of operations on a context and what holds of every run.
//!
//! Each mutating method of `MessageContext` is specified by the step of
//! `ContextView` with the same name: the new view and the result are exactly
//! what that step gives. `apply` performs one such step and `state_after` a
//! sequence of them, so every law below holds of every sequence of calls on a
//! `MessageContext`.

use crate::context::{ContextView, StoreView};
use crate::errors::MessageError;
use crate::ids::{MessageId, ProgramId};
use crate::message::{
    DispatchKind, DispatchView, HandleMessageView, HandlePacketView, InitMessageView, InitPacketView,
    ReplyPacketView,
};
use vstd::prelude::*;

verus! {

/// An operation on a message context, with its arguments.
pub enum ContextOp {
    InitProgram(InitPacketView),
    SendInit,
    SendPush(u32, Seq<u8>),
    SendCommit(u32, HandlePacketView),
    ReplyPush(Seq<u8>),
    ReplyCommit(ReplyPacketView),
    Wake(MessageId),
}

/// What an operation returned.
pub enum OpResult {
    Program(Result<(ProgramId, MessageId), MessageError>),
    Handle(Result<u32, MessageError>),
    Done(Result<(), MessageError>),
    Sent(Result<MessageId, MessageError>),
}

impl OpResult {
    /// The operation succeeded.
    pub open spec fn is_ok(self) -> bool {
        match self {
            OpResult::Program(r) => r is Ok,
            OpResult::Handle(r) => r is Ok,
            OpResult::Done(r) => r is Ok,
            OpResult::Sent(r) => r is Ok,
        }
    }

    /// The error of the operation, if it failed.
    pub open spec fn error(self) -> Option<MessageError> {
        match self {
            OpResult::Program(Err(e)) => Some(e),
            OpResult::Handle(Err(e)) => Some(e),
            OpResult::Done(Err(e)) => Some(e),
            OpResult::Sent(Err(e)) => Some(e),
            _ => None,
        }
    }
}

impl ContextOp {
    /// The handle that a push or a commit names.
    pub open spec fn handle(self) -> Option<u32> {
        match self {
            ContextOp::SendPush(h, _) => Some(h),
            ContextOp::SendCommit(h, _) => Some(h),
            _ => None,
        }
    }

    /// The operation allocates a handle.
    pub open spec fn allocates(self) -> bool {
        self is InitProgram || self is SendInit
    }
}

/// The state after `op` and what `op` returns.
pub open spec fn apply(c: ContextView, op: ContextOp) -> (ContextView, OpResult) {
    match op {
        ContextOp::InitProgram(p) => (c.init_program(p).0, OpResult::Program(c.init_program(p).1)),
        ContextOp::SendInit => (c.send_init().0, OpResult::Handle(c.send_init().1)),
        ContextOp::SendPush(h, b) => (c.send_push(h, b).0, OpResult::Done(c.send_push(h, b).1)),
        ContextOp::SendCommit(h, p) => (
            c.send_commit(h, p).0,
            OpResult::Sent(c.send_commit(h, p).1),
        ),
        ContextOp::ReplyPush(b) => (c.reply_push(b).0, OpResult::Done(c.reply_push(b).1)),
        ContextOp::ReplyCommit(p) => (c.reply_commit(p).0, OpResult::Sent(c.reply_commit(p).1)),
        ContextOp::Wake(id) => (c.wake(id).0, OpResult::Done(c.wake(id).1)),
    }
}

/// The state after the first `n` operations of `ops`, from `start`.
pub open spec fn state_after(start: ContextView, ops: Seq<ContextOp>, n: nat) -> ContextView
    decreases n,
{
    if n == 0 {
        start
    } else {
        apply(state_after(start, ops, (n - 1) as nat), ops[n - 1]).0
    }
}

/// What operation `i` of `ops` returns, run from `start`.
pub open spec fn result_at(start: ContextView, ops: Seq<ContextOp>, i: nat) -> OpResult {
    apply(state_after(start, ops, i), ops[i as int]).1
}

/// Number of the first `n` operations that allocated a handle.
pub open spec fn allocations(start: ContextView, ops: Seq<ContextOp>, n: nat) -> nat
    decreases n,
{
    if n == 0 {
        0
    } else {
        let k = (n - 1) as nat;
        allocations(start, ops, k) + if ops[k as int].allocates() && result_at(
            start,
            ops,
            k,
        ).is_ok() {
            1nat
        } else {
            0nat
        }
    }
}

/// One of operations `lo + 1 .. hi` of `ops` commits `h`.
pub open spec fn committed_between(ops: Seq<ContextOp>, lo: nat, hi: nat, h: u32) -> bool {
    exists|k: int| lo < k < hi && #[trigger] ops[k] is SendCommit && ops[k].handle() == Some(h)
}

/// An operation keeps the identity of the run and the bounds of the store.
proof fn lemma_apply_keeps(c: ContextView, op: ContextOp)
    requires
        c.wf(),
    ensures
        apply(c, op).0.wf(),
        apply(c, op).0.settings == c.settings,
        apply(c, op).0.current == c.current,
        apply(c, op).0.store.outgoing.len() == c.store.outgoing.len() + if op.allocates()
            && apply(c, op).1.is_ok() {
            1int
        } else {
            0int
        },
        c.store.initialized.subset_of(apply(c, op).0.store.initialized),
        c.store.awaken.subset_of(apply(c, op).0.store.awaken),
        c.store.reply_sent ==> apply(c, op).0.store.reply_sent,
{
}

/// Runs keep the identity of the run and the bounds of the store.
pub proof fn lemma_run_keeps(start: ContextView, ops: Seq<ContextOp>, n: nat)
    requires
        start.wf(),
        n <= ops.len(),
    ensures
        state_after(start, ops, n).wf(),
        state_after(start, ops, n).settings == start.settings,
        state_after(start, ops, n).current == start.current,
        state_after(start, ops, n).store.outgoing.len() == start.store.outgoing.len()
            + allocations(start, ops, n),
        start.store.initialized.subset_of(state_after(start, ops, n).store.initialized),
        start.store.awaken.subset_of(state_after(start, ops, n).store.awaken),
        start.store.reply_sent ==> state_after(start, ops, n).store.reply_sent,
    decreases n,
{
    if n > 0 {
        let k = (n - 1) as nat;
        lemma_run_keeps(start, ops, k);
        lemma_apply_keeps(state_after(start, ops, k), ops[k as int]);
    }
}

/// Runs only ever add to the sets of the store and never clear the reply
/// flag.
pub proof fn lemma_run_grows(start: ContextView, ops: Seq<ContextOp>, a: nat, b: nat)
    requires
        start.wf(),
        a <= b <= ops.len(),
    ensures
        state_after(start, ops, a).store.initialized.subset_of(
            state_after(start, ops, b).store.initialized,
        ),
        state_after(start, ops, a).store.awaken.subset_of(state_after(start, ops, b).store.awaken),
        state_after(start, ops, a).store.reply_sent ==> state_after(start, ops, b).store.reply_sent,
        state_after(start, ops, a).store.outgoing.len() <= state_after(
            start,
            ops,
            b,
        ).store.outgoing.len(),
    decreases b - a,
{
    if a < b {
        let k = (b - 1) as nat;
        lemma_run_grows(start, ops, a, k);
        lemma_run_keeps(start, ops, k);
        lemma_apply_keeps(state_after(start, ops, k), ops[k as int]);
    }
}

/// At any point of a run, the handles allocated so far are the slots of the
/// store, and they never pass the limit when the run starts within it.
pub proof fn law_allocations_are_slots(start: ContextView, ops: Seq<ContextOp>, n: nat)
    requires
        start.wf(),
        n <= ops.len(),
    ensures
        state_after(start, ops, n).store.outgoing.len() == start.store.outgoing.len()
            + allocations(start, ops, n),
        start.store.outgoing.len() <= start.settings.outgoing_limit ==> state_after(
            start,
            ops,
            n,
        ).store.outgoing.len() <= start.settings.outgoing_limit,
    decreases n,
{
    lemma_run_keeps(start, ops, n);
    if n > 0 {
        let k = (n - 1) as nat;
        law_allocations_are_slots(start, ops, k);
        lemma_run_keeps(start, ops, k);
    }
}


/// Slot `h` of `c` exists and is open.
pub open spec fn slot_open(c: ContextView, h: u32) -> bool {
    h < c.store.outgoing.len() && c.store.outgoing[h as int] is Some
}

/// One operation closes slot `h` exactly when it commits `h` while open, and
/// leaves it as it was otherwise.
proof fn lemma_slot_step(c: ContextView, op: ContextOp, h: u32)
    requires
        c.wf(),
        h < c.store.outgoing.len(),
    ensures
        h < apply(c, op).0.store.outgoing.len(),
        op is SendCommit && op.handle() == Some(h) ==> !slot_open(apply(c, op).0, h),
        !(op is SendCommit && op.handle() == Some(h)) ==> (slot_open(apply(c, op).0, h)
            == slot_open(c, h)),
        op.handle() == Some(h) ==> (apply(c, op).1.is_ok() == slot_open(c, h)),
        op.handle() == Some(h) && !slot_open(c, h) ==> apply(c, op).1.error() == Some(
            MessageError::LateAccess,
        ),
{
    lemma_apply_keeps(c, op);
}

/// Slot `h` opened by operation `i` stays open until the first commit of
/// `h` after it, and is closed from then on.
proof fn lemma_slot_history(start: ContextView, ops: Seq<ContextOp>, i: nat, n: nat, h: u32)
    requires
        start.wf(),
        i < n <= ops.len(),
        ops[i as int] is SendInit,
        result_at(start, ops, i) == OpResult::Handle(Ok(h)),
    ensures
        h < state_after(start, ops, n).store.outgoing.len(),
        slot_open(state_after(start, ops, n), h) == !committed_between(ops, i, n, h),
    decreases n,
{
    lemma_run_keeps(start, ops, i);
    if n == i + 1 {
        assert(!committed_between(ops, i, n, h));
    } else {
        let k = (n - 1) as nat;
        lemma_slot_history(start, ops, i, k, h);
        lemma_run_keeps(start, ops, k);
        lemma_slot_step(state_after(start, ops, k), ops[k as int], h);
        if ops[k as int] is SendCommit && ops[k as int].handle() == Some(h) {
            assert(committed_between(ops, i, n, h));
        } else if committed_between(ops, i, n, h) {
            let w = choose|w: int|
                i < w < n && #[trigger] ops[w] is SendCommit && ops[w].handle() == Some(h);
            assert(committed_between(ops, i, k, h));
        } else {
            assert(!committed_between(ops, i, k, h));
        }
    }
}

/// A handle opened by `send_init` is committed successfully exactly once:
/// a later push or commit of it succeeds until it is committed, and fails
/// with `LateAccess` from then on.
pub proof fn law_handle_commits_once(
    start: ContextView,
    ops: Seq<ContextOp>,
    i: nat,
    j: nat,
    h: u32,
)
    requires
        start.wf(),
        i < j < ops.len(),
        ops[i as int] is SendInit,
        result_at(start, ops, i) == OpResult::Handle(Ok(h)),
        ops[j as int].handle() == Some(h),
    ensures
        !committed_between(ops, i, j, h) ==> result_at(start, ops, j).is_ok(),
        committed_between(ops, i, j, h) ==> result_at(start, ops, j).error() == Some(
            MessageError::LateAccess,
        ),
{
    lemma_slot_history(start, ops, i, j, h);
    lemma_run_keeps(start, ops, j);
    lemma_slot_step(state_after(start, ops, j), ops[j as int], h);
}


/// Once `init_program` succeeded for a destination, every later
/// `init_program` for that destination fails with `DuplicateInit`.
pub proof fn law_init_once_per_destination(
    start: ContextView,
    ops: Seq<ContextOp>,
    i: nat,
    j: nat,
    first: InitPacketView,
    again: InitPacketView,
)
    requires
        start.wf(),
        i < j < ops.len(),
        ops[i as int] == ContextOp::InitProgram(first),
        result_at(start, ops, i).is_ok(),
        ops[j as int] == ContextOp::InitProgram(again),
        again.program_id == first.program_id,
    ensures
        result_at(start, ops, j) == OpResult::Program(Err(MessageError::DuplicateInit)),
{
    lemma_run_keeps(start, ops, i);
    lemma_run_grows(start, ops, i + 1, j);
    assert(state_after(start, ops, i + 1).store.initialized.contains(first.program_id.0));
}

/// After a successful `reply_commit`, every later `reply_commit` fails with
/// `DuplicateReply` and every later `reply_push` with `LateAccess`; so at most
/// one `reply_commit` succeeds.
pub proof fn law_reply_once(start: ContextView, ops: Seq<ContextOp>, i: nat, j: nat)
    requires
        start.wf(),
        i < j < ops.len(),
        ops[i as int] is ReplyCommit,
        result_at(start, ops, i).is_ok(),
    ensures
        ops[j as int] is ReplyCommit ==> result_at(start, ops, j) == OpResult::Sent(
            Err(MessageError::DuplicateReply),
        ),
        ops[j as int] is ReplyPush ==> result_at(start, ops, j) == OpResult::Done(
            Err(MessageError::LateAccess),
        ),
{
    lemma_run_keeps(start, ops, i);
    lemma_run_grows(start, ops, i + 1, j);
}

/// A message that some operation asked to wake is in the store from then on.
pub proof fn law_wake_once(start: ContextView, ops: Seq<ContextOp>, i: nat, j: nat, id: MessageId)
    requires
        start.wf(),
        i < j < ops.len(),
        ops[i as int] == ContextOp::Wake(id),
        ops[j as int] == ContextOp::Wake(id),
    ensures
        result_at(start, ops, j) == OpResult::Done(Err(MessageError::DuplicateWaking)),
{
    lemma_run_keeps(start, ops, i);
    lemma_run_grows(start, ops, i + 1, j);
    assert(state_after(start, ops, i + 1).store.awaken.contains(id.0));
}

/// One of the first `n` operations of `ops` asks to wake `id`.
pub open spec fn woken_before(ops: Seq<ContextOp>, n: nat, id: MessageId) -> bool {
    exists|k: int| 0 <= k < n && #[trigger] ops[k] == ContextOp::Wake(id)
}

/// The messages in the store after `n` operations are those of the start and
/// those that the operations asked to wake.
proof fn lemma_awaken_origin(start: ContextView, ops: Seq<ContextOp>, n: nat, id: MessageId)
    requires
        start.wf(),
        n <= ops.len(),
        !start.store.awaken.contains(id.0),
        !woken_before(ops, n, id),
    ensures
        !state_after(start, ops, n).store.awaken.contains(id.0),
    decreases n,
{
    if n > 0 {
        let k = (n - 1) as nat;
        assert(!woken_before(ops, k, id)) by {
            if woken_before(ops, k, id) {
                let w = choose|w: int| 0 <= w < k && #[trigger] ops[w] == ContextOp::Wake(id);
                assert(ops[w] == ContextOp::Wake(id));
            }
        }
        lemma_awaken_origin(start, ops, k, id);
        lemma_run_keeps(start, ops, k);
        if let ContextOp::Wake(other) = ops[k as int] {
            assert(other != id);
            assert(other.0 != id.0);
        }
    }
}

/// The first request to wake a message that the store does not hold
/// succeeds; every later one fails with `DuplicateWaking`.
pub proof fn law_wake_first_succeeds(start: ContextView, ops: Seq<ContextOp>, j: nat, id: MessageId)
    requires
        start.wf(),
        j < ops.len(),
        ops[j as int] == ContextOp::Wake(id),
        !start.store.awaken.contains(id.0),
    ensures
        !woken_before(ops, j, id) ==> result_at(start, ops, j) == OpResult::Done(Ok(())),
        woken_before(ops, j, id) ==> result_at(start, ops, j) == OpResult::Done(
            Err(MessageError::DuplicateWaking),
        ),
{
    if woken_before(ops, j, id) {
        let i = choose|i: int| 0 <= i < j && #[trigger] ops[i] == ContextOp::Wake(id);
        law_wake_once(start, ops, i as nat, j, id);
    } else {
        lemma_awaken_origin(start, ops, j, id);
    }
}

/// One of the first `n` operations of `ops` is a `reply_commit`.
pub open spec fn reply_committed_before(ops: Seq<ContextOp>, n: nat) -> bool {
    exists|k: int| 0 <= k < n && #[trigger] ops[k] is ReplyCommit
}

/// Before any `reply_commit`, the reply flag stays as it started.
proof fn lemma_reply_open(start: ContextView, ops: Seq<ContextOp>, n: nat)
    requires
        start.wf(),
        n <= ops.len(),
        !start.store.reply_sent,
        !reply_committed_before(ops, n),
    ensures
        !state_after(start, ops, n).store.reply_sent,
    decreases n,
{
    if n > 0 {
        let k = (n - 1) as nat;
        assert(!reply_committed_before(ops, k)) by {
            if reply_committed_before(ops, k) {
                let w = choose|w: int| 0 <= w < k && #[trigger] ops[w] is ReplyCommit;
                assert(ops[w] is ReplyCommit);
            }
        }
        lemma_reply_open(start, ops, k);
        assert(!(ops[k as int] is ReplyCommit));
    }
}

/// Until the first `reply_commit`, reply pushes succeed, and that first
/// commit succeeds, when the reply was not sent at the start.
pub proof fn law_first_reply_succeeds(start: ContextView, ops: Seq<ContextOp>, j: nat)
    requires
        start.wf(),
        j < ops.len(),
        !start.store.reply_sent,
        !reply_committed_before(ops, j),
    ensures
        ops[j as int] is ReplyPush || ops[j as int] is ReplyCommit ==> result_at(
            start,
            ops,
            j,
        ).is_ok(),
{
    lemma_reply_open(start, ops, j);
}


/// Identifiers of the messages that the successful `init_program` calls
/// among the first `n` operations returned, in order.
pub open spec fn created_ids(start: ContextView, ops: Seq<ContextOp>, n: nat) -> Seq<MessageId>
    decreases n,
{
    if n == 0 {
        Seq::empty()
    } else {
        let k = (n - 1) as nat;
        match result_at(start, ops, k) {
            OpResult::Program(Ok((_, id))) => created_ids(start, ops, k).push(id),
            _ => created_ids(start, ops, k),
        }
    }
}

/// Identifiers that the successful `send_commit` calls among the first `n`
/// operations returned, in order.
pub open spec fn committed_ids(start: ContextView, ops: Seq<ContextOp>, n: nat) -> Seq<MessageId>
    decreases n,
{
    if n == 0 {
        Seq::empty()
    } else {
        let k = (n - 1) as nat;
        match (ops[k as int], result_at(start, ops, k)) {
            (ContextOp::SendCommit(_, _), OpResult::Sent(Ok(id))) => committed_ids(
                start,
                ops,
                k,
            ).push(id),
            _ => committed_ids(start, ops, k),
        }
    }
}

/// Identifiers that the successful `reply_commit` calls among the first `n`
/// operations returned, in order.
pub open spec fn replied_ids(start: ContextView, ops: Seq<ContextOp>, n: nat) -> Seq<MessageId>
    decreases n,
{
    if n == 0 {
        Seq::empty()
    } else {
        let k = (n - 1) as nat;
        match (ops[k as int], result_at(start, ops, k)) {
            (ContextOp::ReplyCommit(_), OpResult::Sent(Ok(id))) => replied_ids(start, ops, k).push(
                id,
            ),
            _ => replied_ids(start, ops, k),
        }
    }
}

/// Identifiers of init messages.
pub open spec fn init_ids(s: Seq<InitMessageView>) -> Seq<MessageId> {
    s.map_values(|m: InitMessageView| m.id)
}

/// Identifiers of handle messages.
pub open spec fn handle_ids(s: Seq<HandleMessageView>) -> Seq<MessageId> {
    s.map_values(|m: HandleMessageView| m.id)
}

/// Kind and message identifier of each dispatch.
pub open spec fn dispatch_keys(ds: Seq<DispatchView>) -> Seq<(DispatchKind, MessageId)> {
    ds.map_values(|d: DispatchView| (d.kind, d.message.id))
}

/// Each of `ids` with `kind`.
pub open spec fn keyed(kind: DispatchKind, ids: Seq<MessageId>) -> Seq<(DispatchKind, MessageId)> {
    ids.map_values(|id: MessageId| (kind, id))
}

/// The outcome after `n` operations lists the identifiers that the
/// successful operations returned.
proof fn lemma_outcome_ids(start: ContextView, ops: Seq<ContextOp>, n: nat)
    requires
        start.wf(),
        n <= ops.len(),
        start.outcome.init == Seq::<InitMessageView>::empty(),
        start.outcome.handle == Seq::<HandleMessageView>::empty(),
        start.outcome.reply is None,
    ensures
        init_ids(state_after(start, ops, n).outcome.init) == created_ids(start, ops, n),
        handle_ids(state_after(start, ops, n).outcome.handle) == committed_ids(start, ops, n),
        state_after(start, ops, n).outcome.reply is Some ==> state_after(
            start,
            ops,
            n,
        ).store.reply_sent,
        match state_after(start, ops, n).outcome.reply {
            Some(m) => replied_ids(start, ops, n) == seq![m.id],
            None => replied_ids(start, ops, n) == Seq::<MessageId>::empty(),
        },
    decreases n,
{
    if n == 0 {
        assert(init_ids(start.outcome.init) =~= Seq::empty());
        assert(handle_ids(start.outcome.handle) =~= Seq::empty());
    } else {
        let k = (n - 1) as nat;
        lemma_outcome_ids(start, ops, k);
        lemma_run_keeps(start, ops, k);
        let c = state_after(start, ops, k);
        let d = state_after(start, ops, n);
        assert(init_ids(d.outcome.init) =~= created_ids(start, ops, n));
        assert(handle_ids(d.outcome.handle) =~= committed_ids(start, ops, n));
    }
}

/// Draining after any run from a fresh outcome yields the program
/// creations in call order, then the committed messages in commit order,
/// then the reply if one was formed.
pub proof fn law_drain_order(start: ContextView, ops: Seq<ContextOp>, n: nat)
    requires
        start.wf(),
        n <= ops.len(),
        start.outcome.init == Seq::<InitMessageView>::empty(),
        start.outcome.handle == Seq::<HandleMessageView>::empty(),
        start.outcome.reply is None,
    ensures
        dispatch_keys(state_after(start, ops, n).outcome.dispatches()) == keyed(
            DispatchKind::Init,
            created_ids(start, ops, n),
        ) + keyed(DispatchKind::Handle, committed_ids(start, ops, n)) + keyed(
            DispatchKind::Reply,
            replied_ids(start, ops, n),
        ),
{
    lemma_outcome_ids(start, ops, n);
    let o = state_after(start, ops, n).outcome;
    let inits = o.init.map_values(|m: InitMessageView| m.into_dispatch(o.program_id));
    let handles = o.handle.map_values(|m: HandleMessageView| m.into_dispatch(o.program_id));
    let replies = match o.reply {
        Some(m) => seq![m.into_dispatch(o.program_id, o.source, o.origin_msg_id)],
        None => Seq::<DispatchView>::empty(),
    };
    assert(o.dispatches() == inits + handles + replies);
    assert(dispatch_keys(inits) =~= keyed(DispatchKind::Init, init_ids(o.init)));
    assert(dispatch_keys(handles) =~= keyed(DispatchKind::Handle, handle_ids(o.handle)));
    assert(dispatch_keys(replies) =~= keyed(DispatchKind::Reply, replied_ids(start, ops, n)));
    assert(dispatch_keys(inits + handles + replies) =~= dispatch_keys(inits) + dispatch_keys(
        handles,
    ) + dispatch_keys(replies));
}


/// `a` and `b` hold the same identifier of the incoming message, the same
/// store, the same settings and the same recorded effects; they may differ
/// in the executing program, the sender and the rest of the incoming message.
pub open spec fn same_inputs(a: ContextView, b: ContextView) -> bool {
    &&& a.current.id == b.current.id
    &&& a.store == b.store
    &&& a.settings == b.settings
    &&& a.outcome.init == b.outcome.init
    &&& a.outcome.handle == b.outcome.handle
    &&& a.outcome.reply == b.outcome.reply
    &&& a.outcome.awakening == b.outcome.awakening
}

/// Two runs of the same operations on contexts with the same inputs return
/// the same results, identifiers included, and end in the same store: the
/// identifiers depend on nothing outside the run.
pub proof fn law_runs_are_pure(a: ContextView, b: ContextView, ops: Seq<ContextOp>, n: nat)
    requires
        same_inputs(a, b),
        n <= ops.len(),
    ensures
        same_inputs(state_after(a, ops, n), state_after(b, ops, n)),
        n < ops.len() ==> result_at(a, ops, n) == result_at(b, ops, n),
    decreases n,
{
    if n > 0 {
        let k = (n - 1) as nat;
        law_runs_are_pure(a, b, ops, k);
        lemma_apply_same(state_after(a, ops, k), state_after(b, ops, k), ops[k as int]);
    }
    if n < ops.len() {
        lemma_apply_same(state_after(a, ops, n), state_after(b, ops, n), ops[n as int]);
    }
}

/// One operation on contexts with the same inputs returns the same result
/// and leaves them with the same inputs.
proof fn lemma_apply_same(a: ContextView, b: ContextView, op: ContextOp)
    requires
        same_inputs(a, b),
    ensures
        same_inputs(apply(a, op).0, apply(b, op).0),
        apply(a, op).1 == apply(b, op).1,
{
    match op {
        ContextOp::InitProgram(p) => {},
        ContextOp::SendInit => {},
        ContextOp::SendPush(h, bytes) => {},
        ContextOp::SendCommit(h, p) => {},
        ContextOp::ReplyPush(bytes) => {},
        ContextOp::ReplyCommit(p) => {},
        ContextOp::Wake(id) => {},
    }
}

/// Under a limit of zero, starting with no program created, every allocation
/// fails with `LimitExceeded`, while replies and wakes behave as under any
/// other limit.
pub proof fn law_zero_limit(start: ContextView, ops: Seq<ContextOp>, j: nat)
    requires
        start.wf(),
        start.settings.outgoing_limit == 0,
        start.store.initialized == Set::<[u8; 32]>::empty(),
        j < ops.len(),
    ensures
        ops[j as int].allocates() ==> result_at(start, ops, j).error() == Some(
            MessageError::LimitExceeded,
        ),
        (ops[j as int] is ReplyPush || ops[j as int] is ReplyCommit) && !start.store.reply_sent
            && !reply_committed_before(ops, j) ==> result_at(start, ops, j).is_ok(),
        ops[j as int] is Wake && !start.store.awaken.contains(ops[j as int]->Wake_0.0)
            && !woken_before(ops, j, ops[j as int]->Wake_0) ==> result_at(start, ops, j).is_ok(),
{
    lemma_no_creation_under_zero_limit(start, ops, j);
    lemma_run_keeps(start, ops, j);
    if (ops[j as int] is ReplyPush || ops[j as int] is ReplyCommit) && !start.store.reply_sent
        && !reply_committed_before(ops, j) {
        law_first_reply_succeeds(start, ops, j);
    }
    if let ContextOp::Wake(id) = ops[j as int] {
        if !start.store.awaken.contains(id.0) {
            law_wake_first_succeeds(start, ops, j, id);
        }
    }
}

/// Under a limit of zero no program creation is ever recorded.
proof fn lemma_no_creation_under_zero_limit(start: ContextView, ops: Seq<ContextOp>, n: nat)
    requires
        start.wf(),
        start.settings.outgoing_limit == 0,
        start.store.initialized == Set::<[u8; 32]>::empty(),
        n <= ops.len(),
    ensures
        state_after(start, ops, n).store.initialized == Set::<[u8; 32]>::empty(),
    decreases n,
{
    if n > 0 {
        let k = (n - 1) as nat;
        lemma_no_creation_under_zero_limit(start, ops, k);
        lemma_run_keeps(start, ops, k);
    }
}

/// Before any allocating operation, the slots and the created programs are
/// those of the start.
proof fn lemma_before_allocation(start: ContextView, ops: Seq<ContextOp>, n: nat)
    requires
        start.wf(),
        n <= ops.len(),
        forall|k: int| 0 <= k < n ==> !(#[trigger] ops[k]).allocates(),
    ensures
        state_after(start, ops, n).store.outgoing.len() == start.store.outgoing.len(),
        state_after(start, ops, n).store.initialized == start.store.initialized,
    decreases n,
{
    if n > 0 {
        let k = (n - 1) as nat;
        lemma_before_allocation(start, ops, k);
        lemma_run_keeps(start, ops, k);
        assert(!ops[k as int].allocates());
    }
}

/// Under a limit of one, starting with no slot and no program created, the
/// first allocation succeeds and every later one fails; a later `send_init`
/// fails with `LimitExceeded`.
pub proof fn law_single_slot(start: ContextView, ops: Seq<ContextOp>, i: nat, j: nat)
    requires
        start.wf(),
        start.settings.outgoing_limit == 1,
        start.store.outgoing.len() == 0,
        start.store.initialized == Set::<[u8; 32]>::empty(),
        i < j < ops.len(),
        forall|k: int| 0 <= k < i ==> !(#[trigger] ops[k]).allocates(),
        ops[i as int].allocates(),
        ops[j as int].allocates(),
    ensures
        result_at(start, ops, i).is_ok(),
        !result_at(start, ops, j).is_ok(),
        ops[j as int] is SendInit ==> result_at(start, ops, j).error() == Some(
            MessageError::LimitExceeded,
        ),
{
    lemma_before_allocation(start, ops, i);
    lemma_run_keeps(start, ops, i);
    lemma_apply_keeps(state_after(start, ops, i), ops[i as int]);
    lemma_run_grows(start, ops, i + 1, j);
    lemma_run_keeps(start, ops, j);
}


/// A context as `MessageContext::new` makes it without a stored state: an
/// empty store and nothing recorded.
pub open spec fn is_fresh(c: ContextView) -> bool {
    &&& c.store == StoreView::empty()
    &&& c.outcome.init.len() == 0
    &&& c.outcome.handle.len() == 0
    &&& c.outcome.reply is None
    &&& c.outcome.awakening.len() == 0
}

/// The programs that the init messages create.
pub open spec fn init_destinations(s: Seq<InitMessageView>) -> Seq<[u8; 32]> {
    s.map_values(|m: InitMessageView| m.packet.program_id.0)
}

/// The keys of the messages to wake.
pub open spec fn wake_keys(s: Seq<MessageId>) -> Seq<[u8; 32]> {
    s.map_values(|id: MessageId| id.0)
}

/// Along any run from a fresh context: the slots never pass the limit; the
/// created programs are exactly the destinations of the recorded init
/// messages, each once; the woken messages are exactly the recorded wakes,
/// each once; and a reply is recorded exactly when the reply flag is set.
pub proof fn law_fresh_run_invariants(start: ContextView, ops: Seq<ContextOp>, n: nat)
    requires
        start.wf(),
        is_fresh(start),
        n <= ops.len(),
    ensures
        state_after(start, ops, n).store.outgoing.len() <= start.settings.outgoing_limit,
        state_after(start, ops, n).store.initialized == init_destinations(
            state_after(start, ops, n).outcome.init,
        ).to_set(),
        init_destinations(state_after(start, ops, n).outcome.init).no_duplicates(),
        state_after(start, ops, n).store.awaken == wake_keys(
            state_after(start, ops, n).outcome.awakening,
        ).to_set(),
        wake_keys(state_after(start, ops, n).outcome.awakening).no_duplicates(),
        state_after(start, ops, n).outcome.reply is Some <==> state_after(
            start,
            ops,
            n,
        ).store.reply_sent,
    decreases n,
{
    law_allocations_are_slots(start, ops, n);
    if n == 0 {
        assert(init_destinations(start.outcome.init).to_set() =~= Set::empty());
        assert(wake_keys(start.outcome.awakening).to_set() =~= Set::empty());
    } else {
        let k = (n - 1) as nat;
        law_fresh_run_invariants(start, ops, k);
        lemma_run_keeps(start, ops, k);
        let c = state_after(start, ops, k);
        let d = state_after(start, ops, n);
        let dests = init_destinations(c.outcome.init);
        let keys = wake_keys(c.outcome.awakening);
        match ops[k as int] {
            ContextOp::InitProgram(p) => {
                if d.outcome.init != c.outcome.init {
                    assert(init_destinations(d.outcome.init) =~= dests.push(p.program_id.0));
                    dests.lemma_push_to_set_commute(p.program_id.0);
                    assert(!dests.contains(p.program_id.0));
                }
            },
            ContextOp::Wake(id) => {
                if d.outcome.awakening != c.outcome.awakening {
                    assert(wake_keys(d.outcome.awakening) =~= keys.push(id.0));
                    keys.lemma_push_to_set_commute(id.0);
                    assert(!keys.contains(id.0));
                }
            },
            _ => {},
        }
    }
}

} // verus!
