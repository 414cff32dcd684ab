//! The session loops of both sides as state machines. The program feeds in
//! what happened (a new external socket, a message a flow handler queued for
//! the peer, a message from the peer) and carries out what comes back.
use vstd::prelude::*;
use vstd::set_lib::lemma_len_subset;
use std::collections::HashSet;
use crate::error::ProtocolError;
use crate::protocol::{tag_of, Message, MessageView};
use crate::table::FlowTable;

verus! {

broadcast use vstd::std_specs::hash::group_hash_axioms;

/// What to do with a message that came from the peer.
pub enum Inbound<S> {
    /// Queue `Data { id, data }` on the inbox of flow `id`, which the table
    /// holds.
    Deliver { id: u32, data: Vec<u8> },
    /// Dial the backend for a new flow `id`, then register it (agent only).
    Open { id: u32 },
    /// The peer closed flow `id`: its entry is gone, and dropping `inbox`
    /// lets its handler drain what is queued and finish.
    Release { id: u32, inbox: Option<S> },
    /// The peer ends the session.
    Stop { message: Option<String> },
}

/// The flows of one session: the table of inboxes, and the flows whose
/// handlers are still running (they have not yet queued their close).
struct Flows<S> {
    table: FlowTable<S>,
    live: HashSet<u32>,
}

impl<S> Flows<S> {
    spec fn wf(&self) -> bool {
        &&& self.table@.dom().subset_of(self.live@)
        &&& self.live@.finite()
    }

    fn new() -> (r: Flows<S>)
        ensures
            r.wf(),
            r.table@ == Map::<u32, S>::empty(),
            r.live@ == Set::<u32>::empty(),
    {
        Flows { table: FlowTable::new(), live: HashSet::new() }
    }

    fn open(&mut self, id: u32, inbox: S)
        requires
            old(self).wf(),
            !old(self).live@.contains(id),
        ensures
            final(self).wf(),
            final(self).table@ == old(self).table@.insert(id, inbox),
            final(self).live@ == old(self).live@.insert(id),
    {
        self.table.insert(id, inbox);
        self.live.insert(id);
    }

    /// A handler queued its close: returns whether the flow was live.
    fn finish(&mut self, id: u32) -> (r: bool)
        requires
            old(self).wf(),
        ensures
            final(self).wf(),
            r == old(self).live@.contains(id),
            final(self).table@ == old(self).table@.remove(id),
            final(self).live@ == old(self).live@.remove(id),
    {
        let was = self.live.remove(&id);
        self.table.remove(id);
        was
    }

    /// What to do with a peer message that both sides treat alike, or the
    /// message back where this side has its own rule.
    fn common_inbound(&mut self, msg: Message) -> (r: Result<Result<Inbound<S>, ProtocolError>, Message>)
        requires
            old(self).wf(),
        ensures
            final(self).wf(),
            final(self).live@ == old(self).live@,
            inbound_common_spec(old(self).table@, msg@, r, final(self).table@),
    {
        match msg {
            Message::Data { id, data } => {
                if self.table.contains(id) {
                    Ok(Ok(Inbound::Deliver { id, data }))
                } else {
                    Ok(Err(ProtocolError::UnknownFlow { id }))
                }
            },
            Message::CloseConnection { id } => {
                let inbox = self.table.remove(id);
                Ok(Ok(Inbound::Release { id, inbox }))
            },
            Message::Shutdown { message } => Ok(Ok(Inbound::Stop { message })),
            other => Err(other),
        }
    }

    fn egress(&mut self, msg: Message) -> (r: Option<Message>)
        requires
            old(self).wf(),
        ensures
            final(self).wf(),
            egress_spec(old(self).table@, old(self).live@, msg@, r, final(self).table@, final(self).live@),
    {
        match msg {
            Message::CloseConnection { id } => {
                if self.finish(id) {
                    Some(Message::CloseConnection { id })
                } else {
                    None
                }
            },
            other => Some(other),
        }
    }
}

/// How a session answers a peer message that both sides treat alike: data
/// for a flow in the table is delivered, data for any other flow is a
/// protocol error, a close releases the flow's entry, a shutdown stops.
/// Other messages are left to the side's own rule (`Err` carries them back).
pub open spec fn inbound_common_spec<S>(
    table: Map<u32, S>,
    msg: MessageView,
    r: Result<Result<Inbound<S>, ProtocolError>, Message>,
    table2: Map<u32, S>,
) -> bool {
    match msg {
        MessageView::Data { id, data } => table2 == table && if table.contains_key(id) {
            r matches Ok(Ok(Inbound::Deliver { id: i, data: d })) && i == id && d@ == data
        } else {
            r == Ok::<Result<Inbound<S>, ProtocolError>, Message>(
                Err(ProtocolError::UnknownFlow { id }),
            )
        },
        MessageView::CloseConnection { id } => table2 == table.remove(id) && (r matches Ok(
            Ok(Inbound::Release { id: i, inbox }),
        ) && i == id && (if table.contains_key(id) {
            inbox == Some(table[id])
        } else {
            inbox is None
        })),
        MessageView::Shutdown { message } => table2 == table && (r matches Ok(
            Ok(Inbound::Stop { message: m }),
        ) && crate::protocol::opt_view(m) == message),
        _ => table2 == table && (r matches Err(m) && m@ == msg),
    }
}

/// How a session treats a message that one of its flow handlers queued for
/// the peer: a close ends the flow here (its entry goes) and is sent on if
/// the flow was live, and dropped as a repeat otherwise; anything else is
/// sent on as it is.
pub open spec fn egress_spec<S>(
    table: Map<u32, S>,
    live: Set<u32>,
    msg: MessageView,
    r: Option<Message>,
    table2: Map<u32, S>,
    live2: Set<u32>,
) -> bool {
    match msg {
        MessageView::CloseConnection { id } => {
            &&& table2 == table.remove(id)
            &&& live2 == live.remove(id)
            &&& if live.contains(id) {
                r matches Some(m) && m@ == msg
            } else {
                r is None
            }
        },
        _ => table2 == table && live2 == live && (r matches Some(m) && m@ == msg),
    }
}

/// The live flows after a handler's message passed the egress.
pub open spec fn live_after(live: Set<u32>, m: MessageView) -> Set<u32> {
    match m {
        MessageView::CloseConnection { id } => live.remove(id),
        _ => live,
    }
}

/// Whether the egress sends a close for `id` on to the peer for `m`.
pub open spec fn sends_close(live: Set<u32>, m: MessageView, id: u32) -> bool {
    m == (MessageView::CloseConnection { id }) && live.contains(id)
}

/// How many closes for `id` the egress sends on for the messages `msgs`,
/// starting from the live flows `live`.
pub open spec fn closes_sent(live: Set<u32>, msgs: Seq<MessageView>, id: u32) -> nat
    decreases msgs.len(),
{
    if msgs.len() == 0 {
        0
    } else {
        (if sends_close(live, msgs[0], id) {
            1nat
        } else {
            0nat
        }) + closes_sent(live_after(live, msgs[0]), msgs.drop_first(), id)
    }
}

/// One pass through the egress follows [`live_after`] and [`sends_close`].
pub proof fn lemma_egress_step<S>(
    table: Map<u32, S>,
    live: Set<u32>,
    m: MessageView,
    r: Option<Message>,
    table2: Map<u32, S>,
    live2: Set<u32>,
    id: u32,
)
    requires
        egress_spec(table, live, m, r, table2, live2),
    ensures
        live2 == live_after(live, m),
        sends_close(live, m, id) <==> (r matches Some(x) && x@ == (MessageView::CloseConnection {
            id,
        })),
{
}

/// Whatever the flow handlers queue, and however often, each side sends at
/// most one close per flow, and none for a flow that is not live.
pub proof fn lemma_one_close_per_flow(live: Set<u32>, msgs: Seq<MessageView>, id: u32)
    ensures
        closes_sent(live, msgs, id) <= (if live.contains(id) {
            1nat
        } else {
            0nat
        }),
    decreases msgs.len(),
{
    if msgs.len() > 0 {
        let next = live_after(live, msgs[0]);
        lemma_one_close_per_flow(next, msgs.drop_first(), id);
        if sends_close(live, msgs[0], id) {
            assert(!next.contains(id));
        }
    }
}

// ---------------------------------------------------------------- rendezvous

/// The rendezvous side of a session.
pub struct RendezvousSession<S> {
    flows: Flows<S>,
    next_id: u64,
    issued: Ghost<Seq<u32>>,
    closed: Ghost<Set<u32>>,
}

/// The state of a [`RendezvousSession`].
pub struct RendezvousView<S> {
    /// The flow table.
    pub table: Map<u32, S>,
    /// Flows whose handler has not yet queued its close.
    pub live: Set<u32>,
    /// The id the next external socket gets.
    pub next_id: int,
    /// The ids issued so far, in order.
    pub issued: Seq<u32>,
    /// Flows whose close has been sent to the peer.
    pub closed: Set<u32>,
}

impl<S> RendezvousView<S> {
    /// The consistency of a rendezvous session.
    pub open spec fn wf(self) -> bool {
        &&& self.table.dom().subset_of(self.live)
        &&& self.live.finite()
        &&& 1 <= self.next_id <= u32::MAX + 1
        &&& self.issued.len() == self.next_id - 1
        &&& forall|i: int| 0 <= i < self.issued.len() ==> #[trigger] self.issued[i] == i + 1
        &&& forall|id: u32|
            (#[trigger] self.live.contains(id) || #[trigger] self.closed.contains(id)) <==> 1 <= id
                < self.next_id
        &&& self.live.disjoint(self.closed)
    }
}

impl<S> View for RendezvousSession<S> {
    type V = RendezvousView<S>;

    closed spec fn view(&self) -> RendezvousView<S> {
        RendezvousView {
            table: self.flows.table@,
            live: self.flows.live@,
            next_id: self.next_id as int,
            issued: self.issued@,
            closed: self.closed@,
        }
    }
}

impl<S> RendezvousSession<S> {
    /// The consistency of this session, as its view states it.
    pub open spec fn wf(&self) -> bool {
        self@.wf()
    }

    /// A session with no flows; the first flow gets id 1.
    pub fn new() -> (r: RendezvousSession<S>)
        ensures
            r.wf(),
            r@.table == Map::<u32, S>::empty(),
            r@.live == Set::<u32>::empty(),
            r@.next_id == 1,
            r@.issued == Seq::<u32>::empty(),
            r@.closed == Set::<u32>::empty(),
    {
        RendezvousSession {
            flows: Flows::new(),
            next_id: 1,
            issued: Ghost(Seq::empty()),
            closed: Ghost(Set::empty()),
        }
    }

    /// A new external socket was accepted and will be served through
    /// `inbox`: it gets the next flow id, enters the table, and the
    /// `NewConnection` to send to the peer comes back.
    pub fn accept_flow(&mut self, inbox: S) -> (r: Result<Message, ProtocolError>)
        requires
            old(self).wf(),
        ensures
            final(self).wf(),
            old(self)@.next_id > u32::MAX ==> r == Err::<Message, ProtocolError>(
                ProtocolError::FlowIdsExhausted,
            ) && final(self)@ == old(self)@,
            old(self)@.next_id <= u32::MAX ==> {
                let id = old(self)@.next_id as u32;
                &&& r matches Ok(m) && m@ == (MessageView::NewConnection { id })
                &&& final(self)@.table == old(self)@.table.insert(id, inbox)
                &&& final(self)@.live == old(self)@.live.insert(id)
                &&& final(self)@.next_id == old(self)@.next_id + 1
                &&& final(self)@.issued == old(self)@.issued.push(id)
                &&& final(self)@.closed == old(self)@.closed
            },
    {
        if self.next_id > 4294967295u64 {
            return Err(ProtocolError::FlowIdsExhausted);
        }
        let id = self.next_id as u32;
        assert(!self.flows.live@.contains(id)) by {
            if self.flows.live@.contains(id) {
                assert(1 <= id < self.next_id);
            }
        }
        self.flows.open(id, inbox);
        self.next_id = self.next_id + 1;
        self.issued = Ghost(self.issued@.push(id));
        assert forall|x: u32|
            (#[trigger] self.flows.live@.contains(x) || #[trigger] self.closed@.contains(x)) <==> 1
                <= x < self.next_id by {
            if x == id {
            } else {
            }
        }
        Ok(Message::NewConnection { id })
    }

    /// A message queued by one of this session's flow handlers: what, if
    /// anything, to send to the peer.
    pub fn on_egress(&mut self, msg: Message) -> (r: Option<Message>)
        requires
            old(self).wf(),
        ensures
            final(self).wf(),
            egress_spec(
                old(self)@.table,
                old(self)@.live,
                msg@,
                r,
                final(self)@.table,
                final(self)@.live,
            ),
            final(self)@.next_id == old(self)@.next_id,
            final(self)@.issued == old(self)@.issued,
            final(self)@.closed == (if r is Some && msg@ is CloseConnection {
                old(self)@.closed.insert(msg@->CloseConnection_id)
            } else {
                old(self)@.closed
            }),
    {
        let ghost was_live = match msg@ {
            MessageView::CloseConnection { id } => self.flows.live@.contains(id),
            _ => false,
        };
        let ghost m = msg@;
        let r = self.flows.egress(msg);
        self.closed = Ghost(
            if was_live {
                self.closed@.insert(m->CloseConnection_id)
            } else {
                self.closed@
            },
        );
        assert(self.flows.live@.disjoint(self.closed@));
        r
    }

    /// A message from the agent. Data goes to its flow, a close releases its
    /// flow, a shutdown stops the session; any other message is a protocol
    /// error.
    pub fn on_inbound(&mut self, msg: Message) -> (r: Result<Inbound<S>, ProtocolError>)
        requires
            old(self).wf(),
        ensures
            final(self).wf(),
            final(self)@.live == old(self)@.live,
            final(self)@.next_id == old(self)@.next_id,
            final(self)@.issued == old(self)@.issued,
            final(self)@.closed == old(self)@.closed,
            match msg@ {
                MessageView::Data { .. } | MessageView::CloseConnection { .. }
                | MessageView::Shutdown { .. } => inbound_common_spec(
                    old(self)@.table,
                    msg@,
                    Ok(r),
                    final(self)@.table,
                ),
                _ => final(self)@.table == old(self)@.table && r == Err::<Inbound<S>, ProtocolError>(
                    ProtocolError::UnexpectedMessage { tag: tag_of(msg@) },
                ),
            },
    {
        match self.flows.common_inbound(msg) {
            Ok(r) => r,
            Err(other) => Err(ProtocolError::UnexpectedMessage { tag: other.tag() }),
        }
    }

    /// The inbox of flow `id`.
    pub fn inbox(&self, id: u32) -> (r: Option<&S>)
        ensures
            r matches Some(s) ==> self@.table.contains_key(id) && *s == self@.table[id],
            r is None ==> !self@.table.contains_key(id),
    {
        self.flows.table.inbox(id)
    }

    /// How many flows the table holds.
    pub fn flow_count(&self) -> (r: usize)
        ensures
            r == self@.table.len(),
    {
        self.flows.table.len()
    }

    /// The session ends: every inbox is dropped, so every handler finishes.
    pub fn close_all(&mut self)
        requires
            old(self).wf(),
        ensures
            final(self).wf(),
            final(self)@.table == Map::<u32, S>::empty(),
            final(self)@.live == old(self)@.live,
            final(self)@.next_id == old(self)@.next_id,
            final(self)@.issued == old(self)@.issued,
            final(self)@.closed == old(self)@.closed,
    {
        self.flows.table.clear();
    }
}

/// The flow table never holds more entries than there are running flow
/// handlers.
pub proof fn lemma_table_within_live<S>(v: RendezvousView<S>)
    requires
        v.wf(),
    ensures
        v.table.len() <= v.live.len(),
{
    lemma_len_subset(v.table.dom(), v.live);
}

/// The flow ids a session issues go up strictly, from 1.
pub proof fn lemma_ids_increasing<S>(v: RendezvousView<S>)
    requires
        v.wf(),
    ensures
        v.issued.len() > 0 ==> v.issued[0] == 1,
        forall|i: int, j: int| 0 <= i < j < v.issued.len() ==> v.issued[i] < v.issued[j],
{
}

/// Every flow the rendezvous opened is, at any moment, either still served
/// by a handler that owes its close, or closed, with its close sent to the
/// peer; never both.
pub proof fn lemma_opened_flows_close_once<S>(v: RendezvousView<S>, id: u32)
    requires
        v.wf(),
        v.issued.contains(id),
    ensures
        v.live.contains(id) != v.closed.contains(id),
{
    let i = choose|i: int| 0 <= i < v.issued.len() && v.issued[i] == id;
    assert(v.issued[i] == i + 1);
}

// ---------------------------------------------------------------- agent

/// The agent side of a session.
pub struct AgentSession<S> {
    flows: Flows<S>,
}

/// The state of an [`AgentSession`].
pub struct AgentView<S> {
    /// The flow table.
    pub table: Map<u32, S>,
    /// Flows whose handler has not yet queued its close.
    pub live: Set<u32>,
}

impl<S> AgentView<S> {
    /// The consistency of an agent session.
    pub open spec fn wf(self) -> bool {
        &&& self.table.dom().subset_of(self.live)
        &&& self.live.finite()
    }
}

impl<S> View for AgentSession<S> {
    type V = AgentView<S>;

    closed spec fn view(&self) -> AgentView<S> {
        AgentView { table: self.flows.table@, live: self.flows.live@ }
    }
}

impl<S> AgentSession<S> {
    /// The consistency of this session, as its view states it.
    pub open spec fn wf(&self) -> bool {
        self@.wf()
    }

    /// A session with no flows.
    pub fn new() -> (r: AgentSession<S>)
        ensures
            r.wf(),
            r@.table == Map::<u32, S>::empty(),
            r@.live == Set::<u32>::empty(),
    {
        AgentSession { flows: Flows::new() }
    }

    /// A message from the rendezvous. A new connection asks for a backend
    /// dial (a live id again is a protocol error); data goes to its flow, a
    /// close releases its flow, a shutdown stops the session; a hello is a
    /// protocol error.
    pub fn on_inbound(&mut self, msg: Message) -> (r: Result<Inbound<S>, ProtocolError>)
        requires
            old(self).wf(),
        ensures
            final(self).wf(),
            final(self)@.live == old(self)@.live,
            match msg@ {
                MessageView::NewConnection { id } => final(self)@.table == old(self)@.table && if old(
                    self,
                )@.live.contains(id) {
                    r == Err::<Inbound<S>, ProtocolError>(ProtocolError::DuplicateFlow { id })
                } else {
                    r matches Ok(Inbound::Open { id: i }) && i == id
                },
                MessageView::Data { .. } | MessageView::CloseConnection { .. }
                | MessageView::Shutdown { .. } => inbound_common_spec(
                    old(self)@.table,
                    msg@,
                    Ok(r),
                    final(self)@.table,
                ),
                _ => final(self)@.table == old(self)@.table && r == Err::<Inbound<S>, ProtocolError>(
                    ProtocolError::UnexpectedMessage { tag: tag_of(msg@) },
                ),
            },
    {
        match self.flows.common_inbound(msg) {
            Ok(r) => r,
            Err(Message::NewConnection { id }) => {
                if self.flows.live.contains(&id) {
                    Err(ProtocolError::DuplicateFlow { id })
                } else {
                    Ok(Inbound::Open { id })
                }
            },
            Err(other) => Err(ProtocolError::UnexpectedMessage { tag: other.tag() }),
        }
    }

    /// The backend for flow `id` was dialled and will be served through
    /// `inbox`. A live id is refused and nothing changes.
    pub fn open_flow(&mut self, id: u32, inbox: S) -> (r: Result<(), ProtocolError>)
        requires
            old(self).wf(),
        ensures
            final(self).wf(),
            old(self)@.live.contains(id) ==> r == Err::<(), ProtocolError>(
                ProtocolError::DuplicateFlow { id },
            ) && final(self)@ == old(self)@,
            !old(self)@.live.contains(id) ==> r is Ok && final(self)@.table == old(self)@.table.insert(
                id,
                inbox,
            ) && final(self)@.live == old(self)@.live.insert(id),
    {
        if self.flows.live.contains(&id) {
            return Err(ProtocolError::DuplicateFlow { id });
        }
        self.flows.open(id, inbox);
        Ok(())
    }

    /// The backend for flow `id` could not be dialled: no handler runs, and
    /// the close to send to the rendezvous comes back.
    pub fn refuse_flow(&self, id: u32) -> (r: Message)
        ensures
            r@ == (MessageView::CloseConnection { id }),
    {
        Message::CloseConnection { id }
    }

    /// A message queued by one of this session's flow handlers: what, if
    /// anything, to send to the rendezvous.
    pub fn on_egress(&mut self, msg: Message) -> (r: Option<Message>)
        requires
            old(self).wf(),
        ensures
            final(self).wf(),
            egress_spec(
                old(self)@.table,
                old(self)@.live,
                msg@,
                r,
                final(self)@.table,
                final(self)@.live,
            ),
    {
        self.flows.egress(msg)
    }

    /// The inbox of flow `id`.
    pub fn inbox(&self, id: u32) -> (r: Option<&S>)
        ensures
            r matches Some(s) ==> self@.table.contains_key(id) && *s == self@.table[id],
            r is None ==> !self@.table.contains_key(id),
    {
        self.flows.table.inbox(id)
    }

    /// How many flows the table holds.
    pub fn flow_count(&self) -> (r: usize)
        ensures
            r == self@.table.len(),
    {
        self.flows.table.len()
    }

    /// The session ends: every inbox is dropped, so every handler finishes.
    pub fn close_all(&mut self)
        requires
            old(self).wf(),
        ensures
            final(self).wf(),
            final(self)@.table == Map::<u32, S>::empty(),
            final(self)@.live == old(self)@.live,
    {
        self.flows.table.clear();
    }
}

} // verus!
