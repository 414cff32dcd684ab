//! The control channel's two directions: a [`Sealer`] turns messages into
//! enciphered frames, an [`Opener`] deciphers what arrives and cuts it into
//! messages.
use vstd::prelude::*;
use crate::bytes::copy_range;
use crate::cipher::{keystream_xor, lemma_xor_involution, lemma_xor_split, CipherError, CipherStream, KEYSTREAM_LIMIT};
use crate::codec::{encode_view, lemma_decode_encode, parse_message};
use crate::error::ProtocolError;
use crate::frame::{be32_value, decode_frame, encode_frame, frame_of, lemma_frame_round_trip, FrameDecode, FrameError, MAX_FRAME_LEN};
use crate::protocol::{Message, MessageView};

verus! {

/// The sending direction of a control channel.
pub struct Sealer {
    cipher: CipherStream,
}

impl View for Sealer {
    type V = crate::cipher::CipherView;

    closed spec fn view(&self) -> crate::cipher::CipherView {
        self.cipher@
    }
}

impl Sealer {
    /// A sender at the start of the keystream of `key` and `nonce`.
    pub fn new(key: [u8; 32], nonce: [u8; 12]) -> (r: Sealer)
        ensures
            r@.key == key@,
            r@.nonce == nonce@,
            r@.offset == 0,
    {
        Sealer { cipher: CipherStream::new(key, nonce) }
    }

    /// The wire bytes of `msg`: its encoding, framed, then enciphered at the
    /// current offset. A message too large for a frame, or past the
    /// keystream, is refused and nothing changes.
    pub fn seal(&mut self, msg: &Message) -> (r: Result<Vec<u8>, ProtocolError>)
        ensures
            final(self)@.key == old(self)@.key,
            final(self)@.nonce == old(self)@.nonce,
            ({
                let plain = frame_of(encode_view(msg@));
                &&& encode_view(msg@).len() > MAX_FRAME_LEN ==> r == Err::<Vec<u8>, ProtocolError>(
                    ProtocolError::FrameTooLarge,
                ) && final(self)@.offset == old(self)@.offset
                &&& encode_view(msg@).len() <= MAX_FRAME_LEN && old(self)@.offset + plain.len()
                    > KEYSTREAM_LIMIT ==> r == Err::<Vec<u8>, ProtocolError>(
                    ProtocolError::KeystreamExhausted,
                ) && final(self)@.offset == old(self)@.offset
                &&& encode_view(msg@).len() <= MAX_FRAME_LEN && old(self)@.offset + plain.len()
                    <= KEYSTREAM_LIMIT ==> (r matches Ok(w) && w@ == keystream_xor(
                    old(self)@.key,
                    old(self)@.nonce,
                    old(self)@.offset,
                    plain,
                )) && final(self)@.offset == old(self)@.offset + plain.len()
            }),
    {
        let bytes = msg.encode();
        let mut wire = match encode_frame(bytes.as_slice()) {
            Ok(w) => w,
            Err(FrameError::TooLarge) => return Err(ProtocolError::FrameTooLarge),
        };
        match self.cipher.apply(&mut wire) {
            Ok(()) => Ok(wire),
            Err(CipherError::KeystreamExhausted) => Err(ProtocolError::KeystreamExhausted),
        }
    }
}

/// The receiving direction of a control channel: its cipher, and the
/// deciphered bytes not yet cut into messages.
pub struct Opener {
    cipher: CipherStream,
    buf: Vec<u8>,
}

/// The state of an [`Opener`].
pub struct OpenerView {
    pub key: Seq<u8>,
    pub nonce: Seq<u8>,
    pub offset: int,
    /// Deciphered bytes waiting to be cut into frames.
    pub pending: Seq<u8>,
}

impl View for Opener {
    type V = OpenerView;

    closed spec fn view(&self) -> OpenerView {
        OpenerView {
            key: self.cipher@.key,
            nonce: self.cipher@.nonce,
            offset: self.cipher@.offset,
            pending: self.buf@,
        }
    }
}

impl Opener {
    /// A receiver at the start of the keystream of `key` and `nonce`.
    pub fn new(key: [u8; 32], nonce: [u8; 12]) -> (r: Opener)
        ensures
            r@.key == key@,
            r@.nonce == nonce@,
            r@.offset == 0,
            r@.pending == Seq::<u8>::empty(),
    {
        Opener { cipher: CipherStream::new(key, nonce), buf: Vec::new() }
    }

    /// Deciphers bytes read from the channel and keeps them. Bytes past the
    /// keystream are refused and nothing changes.
    pub fn feed(&mut self, wire: Vec<u8>) -> (r: Result<(), ProtocolError>)
        ensures
            final(self)@.key == old(self)@.key,
            final(self)@.nonce == old(self)@.nonce,
            old(self)@.offset + wire@.len() <= KEYSTREAM_LIMIT ==> r is Ok && final(self)@.pending
                == old(self)@.pending + keystream_xor(
                old(self)@.key,
                old(self)@.nonce,
                old(self)@.offset,
                wire@,
            ) && final(self)@.offset == old(self)@.offset + wire@.len(),
            old(self)@.offset + wire@.len() > KEYSTREAM_LIMIT ==> r == Err::<(), ProtocolError>(
                ProtocolError::KeystreamExhausted,
            ) && final(self)@ == old(self)@,
    {
        let mut data = wire;
        match self.cipher.apply(&mut data) {
            Ok(()) => {
                self.buf.append(&mut data);
                Ok(())
            },
            Err(CipherError::KeystreamExhausted) => Err(ProtocolError::KeystreamExhausted),
        }
    }

    /// The next whole message, if one has arrived. A frame above the size
    /// cap, or one that does not hold exactly one message, is a protocol
    /// error.
    pub fn next_message(&mut self) -> (r: Result<Option<Message>, ProtocolError>)
        ensures
            final(self)@.key == old(self)@.key,
            final(self)@.nonce == old(self)@.nonce,
            final(self)@.offset == old(self)@.offset,
            ({
                let b = old(self)@.pending;
                let n = be32_value(b) as int;
                &&& b.len() < 4 ==> r == Ok::<Option<Message>, ProtocolError>(None)
                    && final(self)@.pending == b
                &&& b.len() >= 4 && n > MAX_FRAME_LEN ==> r == Err::<Option<Message>, ProtocolError>(
                    ProtocolError::FrameTooLarge,
                )
                &&& b.len() >= 4 && n <= MAX_FRAME_LEN && b.len() < 4 + n ==> r == Ok::<
                    Option<Message>,
                    ProtocolError,
                >(None) && final(self)@.pending == b
                &&& b.len() >= 4 && n <= MAX_FRAME_LEN && b.len() >= 4 + n ==> {
                    &&& final(self)@.pending == b.subrange(4 + n, b.len() as int)
                    &&& match parse_message(b.subrange(4, 4 + n)) {
                        Some(v) => r matches Ok(Some(m)) && m@ == v,
                        None => r == Err::<Option<Message>, ProtocolError>(
                            ProtocolError::Undecodable,
                        ),
                    }
                }
            }),
    {
        match decode_frame(self.buf.as_slice()) {
            FrameDecode::NeedMore => Ok(None),
            FrameDecode::TooLarge => Err(ProtocolError::FrameTooLarge),
            FrameDecode::Frame { payload, consumed } => {
                let len = self.buf.len();
                self.buf = copy_range(self.buf.as_slice(), consumed, len);
                match Message::decode(payload.as_slice()) {
                    Some(m) => Ok(Some(m)),
                    None => Err(ProtocolError::Undecodable),
                }
            },
        }
    }
}

/// What one side seals, the other opens: a message sealed at some offset,
/// deciphered by a receiver at the same offset (however the wire bytes were
/// cut when read), is the frame of that message, and the receiver's next
/// message is the one that was sent.
pub proof fn lemma_seal_open(
    key: Seq<u8>,
    nonce: Seq<u8>,
    offset: int,
    v: MessageView,
    first: Seq<u8>,
    second: Seq<u8>,
)
    requires
        v.wf(),
        encode_view(v).len() <= MAX_FRAME_LEN,
        first + second == keystream_xor(key, nonce, offset, frame_of(encode_view(v))),
    ensures
        ({
            let got = keystream_xor(key, nonce, offset, first) + keystream_xor(
                key,
                nonce,
                offset + first.len(),
                second,
            );
            let n = be32_value(got) as int;
            &&& got == frame_of(encode_view(v))
            &&& got.len() >= 4 && n <= MAX_FRAME_LEN && got.len() >= 4 + n
            &&& got.subrange(4 + n, got.len() as int) == Seq::<u8>::empty()
            &&& parse_message(got.subrange(4, 4 + n)) == Some(v)
        }),
{
    let plain = frame_of(encode_view(v));
    lemma_xor_split(key, nonce, offset, first, second);
    lemma_xor_involution(key, nonce, offset, plain);
    lemma_frame_round_trip(encode_view(v), Seq::empty());
    assert(plain + Seq::<u8>::empty() == plain);
    lemma_decode_encode(v);
}

} // verus!
