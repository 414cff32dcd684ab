//! The handler of one flow as a state machine: it bridges one TCP socket and
//! the control channel for one flow id. The program runs the socket and the
//! inbox, feeds in what they yield, and carries out what comes back. On every
//! way out, [`FlowHandler::teardown`] yields the flow's one close.
use vstd::prelude::*;
use crate::codec::{encode_view, lemma_decode_encode, parse_message};
use crate::protocol::{tag_of, Message, MessageView};

verus! {

/// The size of the buffer a flow reads its socket into: 8 KiB.
pub const READ_BUF_LEN: usize = 8192;

/// Why a flow ends.
#[derive(Debug, Clone, Copy, PartialEq, Eq)]
pub enum StopReason {
    /// The session sent a close or a shutdown.
    PeerClosed,
    /// The session dropped the inbox.
    InboxClosed,
    /// The socket reached end of file.
    SocketEof,
    /// The socket failed.
    SocketError,
    /// The inbox held a message a flow does not take; `tag` is its kind.
    Unexpected { tag: u32 },
    /// The flow had already ended.
    Finished,
}

/// What the program does next for a flow.
pub enum FlowAction {
    /// Write all of `data` to the socket (nothing, if it is empty).
    Write { data: Vec<u8> },
    /// Queue `message` for the peer.
    Send { message: Message },
    /// Leave the loop; then call [`FlowHandler::teardown`].
    Stop { reason: StopReason },
}

/// One flow's handler.
pub struct FlowHandler {
    id: u32,
    stopped: bool,
    close_queued: bool,
    closes: Ghost<nat>,
}

/// The state of a [`FlowHandler`].
pub struct FlowView {
    pub id: u32,
    /// The loop has been told to stop.
    pub stopped: bool,
    /// The close has been handed out.
    pub close_queued: bool,
    /// How many closes the handler has handed out, over its whole life.
    pub closes: nat,
}

impl FlowView {
    /// The consistency of a handler: it has handed out a close exactly when
    /// it has queued it, and has stopped by then.
    pub open spec fn wf(self) -> bool {
        &&& self.closes == (if self.close_queued {
            1nat
        } else {
            0nat
        })
        &&& self.close_queued ==> self.stopped
    }
}

impl View for FlowHandler {
    type V = FlowView;

    closed spec fn view(&self) -> FlowView {
        FlowView {
            id: self.id,
            stopped: self.stopped,
            close_queued: self.close_queued,
            closes: self.closes@,
        }
    }
}

/// The message a flow hands the peer for bytes read from its socket: none
/// for end of file.
pub open spec fn read_message(id: u32, bytes: Seq<u8>) -> Option<MessageView> {
    if bytes.len() == 0 {
        None
    } else {
        Some(MessageView::Data { id, data: bytes })
    }
}

/// The bytes a flow writes to its socket for a message from its inbox.
pub open spec fn written_bytes(m: MessageView) -> Option<Seq<u8>> {
    match m {
        MessageView::Data { data, .. } => Some(data),
        _ => None,
    }
}

impl FlowHandler {
    /// A running handler for flow `id`.
    pub fn new(id: u32) -> (r: FlowHandler)
        ensures
            r@.wf(),
            r@ == (FlowView { id, stopped: false, close_queued: false, closes: 0 }),
    {
        FlowHandler { id, stopped: false, close_queued: false, closes: Ghost(0) }
    }

    /// The flow id.
    pub fn id(&self) -> (r: u32)
        ensures
            r == self@.id,
    {
        self.id
    }

    /// The inbox yielded `msg` (`None`: the session dropped it). Data is
    /// written to the socket, even when empty; a close or a shutdown ends
    /// the flow, as does a closed inbox or any other message.
    pub fn on_inbox(&mut self, msg: Option<Message>) -> (r: FlowAction)
        requires
            old(self)@.wf(),
        ensures
            final(self)@.wf(),
            final(self)@.id == old(self)@.id,
            final(self)@.close_queued == old(self)@.close_queued,
            final(self)@.closes == old(self)@.closes,
            old(self)@.stopped ==> r == (FlowAction::Stop { reason: StopReason::Finished })
                && final(self)@ == old(self)@,
            !old(self)@.stopped ==> match msg {
                None => r == (FlowAction::Stop { reason: StopReason::InboxClosed })
                    && final(self)@.stopped,
                Some(m) => match m@ {
                    MessageView::Data { data, .. } => (r matches FlowAction::Write { data: d }
                        && d@ == data) && !final(self)@.stopped,
                    MessageView::CloseConnection { .. } | MessageView::Shutdown { .. } => r == (
                    FlowAction::Stop { reason: StopReason::PeerClosed }) && final(self)@.stopped,
                    _ => r == (FlowAction::Stop {
                        reason: StopReason::Unexpected { tag: tag_of(m@) },
                    }) && final(self)@.stopped,
                },
            },
    {
        if self.stopped {
            return FlowAction::Stop { reason: StopReason::Finished };
        }
        match msg {
            None => {
                self.stopped = true;
                FlowAction::Stop { reason: StopReason::InboxClosed }
            },
            Some(Message::Data { data, .. }) => FlowAction::Write { data },
            Some(Message::CloseConnection { .. }) | Some(Message::Shutdown { .. }) => {
                self.stopped = true;
                FlowAction::Stop { reason: StopReason::PeerClosed }
            },
            Some(other) => {
                self.stopped = true;
                FlowAction::Stop { reason: StopReason::Unexpected { tag: other.tag() } }
            },
        }
    }

    /// The socket yielded `bytes` (empty: end of file), at most one read
    /// buffer's worth. Bytes go to the peer as data of this flow; end of file
    /// ends the flow.
    pub fn on_read(&mut self, bytes: Vec<u8>) -> (r: FlowAction)
        requires
            old(self)@.wf(),
            bytes@.len() <= READ_BUF_LEN,
        ensures
            r matches FlowAction::Send { message } ==> (message@ matches MessageView::Data {
                id,
                data,
            } && id == old(self)@.id && 1 <= data.len() <= READ_BUF_LEN),
            final(self)@.wf(),
            final(self)@.id == old(self)@.id,
            final(self)@.close_queued == old(self)@.close_queued,
            final(self)@.closes == old(self)@.closes,
            old(self)@.stopped ==> r == (FlowAction::Stop { reason: StopReason::Finished })
                && final(self)@ == old(self)@,
            !old(self)@.stopped ==> match read_message(old(self)@.id, bytes@) {
                None => r == (FlowAction::Stop { reason: StopReason::SocketEof }) && final(self)@
                    == after_eof(old(self)@),
                Some(v) => (r matches FlowAction::Send { message } && message@ == v)
                    && !final(self)@.stopped,
            },
    {
        if self.stopped {
            return FlowAction::Stop { reason: StopReason::Finished };
        }
        if bytes.len() == 0 {
            self.stopped = true;
            return FlowAction::Stop { reason: StopReason::SocketEof };
        }
        FlowAction::Send { message: Message::Data { id: self.id, data: bytes } }
    }

    /// The socket failed: the flow ends.
    pub fn on_socket_error(&mut self) -> (r: FlowAction)
        requires
            old(self)@.wf(),
        ensures
            final(self)@.wf(),
            final(self)@.id == old(self)@.id,
            final(self)@.close_queued == old(self)@.close_queued,
            final(self)@.closes == old(self)@.closes,
            final(self)@.stopped,
            r == (FlowAction::Stop {
                reason: if old(self)@.stopped {
                    StopReason::Finished
                } else {
                    StopReason::SocketError
                },
            }),
    {
        if self.stopped {
            return FlowAction::Stop { reason: StopReason::Finished };
        }
        self.stopped = true;
        FlowAction::Stop { reason: StopReason::SocketError }
    }

    /// The flow is being torn down, whatever the cause: the close to queue
    /// for the peer the first time, nothing after that.
    pub fn teardown(&mut self) -> (r: Option<Message>)
        requires
            old(self)@.wf(),
        ensures
            final(self)@.wf(),
            final(self)@.id == old(self)@.id,
            final(self)@.stopped,
            final(self)@.close_queued,
            !old(self)@.close_queued ==> (r matches Some(m) && m@ == (MessageView::CloseConnection {
                id: old(self)@.id,
            })) && final(self)@.closes == old(self)@.closes + 1,
            old(self)@.close_queued ==> r is None && final(self)@.closes == old(self)@.closes,
            final(self)@ == after_teardown(old(self)@),
            r matches Some(m) ==> teardown_output(old(self)@) == Some(m@),
            r is None ==> teardown_output(old(self)@) is None,
    {
        self.stopped = true;
        if self.close_queued {
            return None;
        }
        self.close_queued = true;
        self.closes = Ghost(self.closes@ + 1);
        Some(Message::CloseConnection { id: self.id })
    }
}

/// A handler hands out at most one close over its whole life, whatever
/// happened to it and however often it was torn down.
pub proof fn lemma_at_most_one_close(v: FlowView)
    requires
        v.wf(),
    ensures
        v.closes <= 1,
{
}

/// A handler's state after a teardown.
pub open spec fn after_teardown(v: FlowView) -> FlowView {
    FlowView {
        id: v.id,
        stopped: true,
        close_queued: true,
        closes: if v.close_queued {
            v.closes
        } else {
            v.closes + 1
        },
    }
}

/// What a teardown hands out.
pub open spec fn teardown_output(v: FlowView) -> Option<MessageView> {
    if v.close_queued {
        None
    } else {
        Some(MessageView::CloseConnection { id: v.id })
    }
}

/// A handler's state after its socket reached end of file.
pub open spec fn after_eof(v: FlowView) -> FlowView {
    FlowView { id: v.id, stopped: true, close_queued: v.close_queued, closes: v.closes }
}

/// How many closes `k` teardowns in a row hand out, from state `v`.
pub open spec fn closes_over(v: FlowView, k: nat) -> nat
    decreases k,
{
    if k == 0 {
        0
    } else {
        (if teardown_output(v) is Some {
            1nat
        } else {
            0nat
        }) + closes_over(after_teardown(v), (k - 1) as nat)
    }
}

proof fn lemma_no_close_after_teardown(v: FlowView, k: nat)
    requires
        v.close_queued,
    ensures
        closes_over(v, k) == 0,
    decreases k,
{
    if k > 0 {
        lemma_no_close_after_teardown(after_teardown(v), (k - 1) as nat);
    }
}

/// End of file on a flow's socket, followed by any number (at least one) of
/// teardowns, hands out exactly one close for the flow.
pub proof fn lemma_eof_closes_once(v: FlowView, k: nat)
    requires
        v.wf(),
        !v.close_queued,
        k >= 1,
    ensures
        read_message(v.id, Seq::<u8>::empty()) is None,
        closes_over(after_eof(v), k) == 1,
        teardown_output(after_eof(v)) == Some(MessageView::CloseConnection { id: v.id }),
{
    lemma_no_close_after_teardown(after_teardown(after_eof(v)), (k - 1) as nat);
}

/// The chunks of a stream, joined in order.
pub open spec fn joined(chunks: Seq<Seq<u8>>) -> Seq<u8>
    decreases chunks.len(),
{
    if chunks.len() == 0 {
        Seq::empty()
    } else {
        joined(chunks.drop_last()) + chunks.last()
    }
}

/// What the far handler of flow `id` writes for one chunk that the near
/// handler read: the chunk's message, encoded and decoded, then written.
pub open spec fn relayed(id: u32, chunk: Seq<u8>) -> Seq<u8> {
    match read_message(id, chunk) {
        None => Seq::empty(),
        Some(v) => match parse_message(encode_view(v)) {
            Some(w) => match written_bytes(w) {
                Some(b) => b,
                None => Seq::empty(),
            },
            None => Seq::empty(),
        },
    }
}

/// What the far handler writes for all the chunks, in order.
pub open spec fn delivered(id: u32, chunks: Seq<Seq<u8>>) -> Seq<u8>
    decreases chunks.len(),
{
    if chunks.len() == 0 {
        Seq::empty()
    } else {
        delivered(id, chunks.drop_last()) + relayed(id, chunks.last())
    }
}

/// The bytes written to one end of a flow are the bytes read from the other
/// end, in order, however the reads were cut.
pub proof fn lemma_flow_bytes_preserved(id: u32, chunks: Seq<Seq<u8>>)
    requires
        forall|i: int| 0 <= i < chunks.len() ==> (#[trigger] chunks[i]).len() <= u64::MAX,
    ensures
        delivered(id, chunks) == joined(chunks),
    decreases chunks.len(),
{
    if chunks.len() > 0 {
        let c = chunks.last();
        assert(c.len() <= u64::MAX) by {
            assert(chunks[chunks.len() - 1] == c);
        }
        assert forall|i: int| 0 <= i < chunks.drop_last().len() implies (
        #[trigger] chunks.drop_last()[i]).len() <= u64::MAX by {
            assert(chunks.drop_last()[i] == chunks[i]);
        }
        lemma_flow_bytes_preserved(id, chunks.drop_last());
        if c.len() > 0 {
            lemma_decode_encode(MessageView::Data { id, data: c });
        } else {
            assert(c =~= Seq::<u8>::empty());
        }
    }
}

} // verus!
