//! The stream cipher under the framing: ChaCha20 keystream XOR, keyed by a
//! 32-byte key and a 12-byte nonce. Each direction of a session has its own
//! [`CipherStream`], which tracks the absolute byte offset reached in that
//! direction; ciphertext and plaintext have the same length.
//!
//! Caveats of this design: one nonce serves every session under a key, so
//! keystream is reused across sessions; and nothing authenticates the
//! ciphertext, so flipped bits go unnoticed until the frame or message
//! decoding trips over them.
use vstd::prelude::*;
use chacha20::cipher::{KeyIvInit, StreamCipher, StreamCipherSeek};

verus! {

/// How many keystream bytes one key and nonce provide: ChaCha20's 32-bit
/// block counter times its 64-byte block.
pub const KEYSTREAM_LIMIT: u64 = 274877906880;

/// The ChaCha20 keystream byte at absolute `offset` under `key` and `nonce`.
pub uninterp spec fn chacha20_keystream(key: Seq<u8>, nonce: Seq<u8>, offset: int) -> u8;

/// `data` XORed with the keystream from `offset` on.
pub open spec fn keystream_xor(key: Seq<u8>, nonce: Seq<u8>, offset: int, data: Seq<u8>) -> Seq<
    u8,
> {
    Seq::new(data.len(), |i: int| data[i] ^ chacha20_keystream(key, nonce, offset + i))
}

/// Relies on chacha20's `ChaCha20` (`KeyIvInit::new`, `StreamCipherSeek::seek`
/// and `StreamCipher::apply_keystream`): each byte is XORed with the keystream
/// byte at its absolute position. Those calls panic once the 32-bit block
/// counter would run out, which the bound on `offset` rules out.
#[verifier::external_body]
fn chacha20_apply(key: &[u8; 32], nonce: &[u8; 12], offset: u64, data: &mut Vec<u8>)
    requires
        offset + old(data)@.len() <= KEYSTREAM_LIMIT,
    ensures
        final(data)@.len() == old(data)@.len(),
        forall|i: int|
            0 <= i < old(data)@.len() ==> #[trigger] final(data)@[i] == old(data)@[i]
                ^ chacha20_keystream(key@, nonce@, offset + i),
{
    let mut c = chacha20::ChaCha20::new(
        chacha20::Key::from_slice(key),
        chacha20::Nonce::from_slice(nonce),
    );
    c.seek(offset);
    c.apply_keystream(data.as_mut_slice());
}

/// Why a buffer could not be enciphered.
#[derive(Debug, Clone, Copy, PartialEq, Eq)]
pub enum CipherError {
    /// The buffer would run past the keystream that one key and nonce give.
    KeystreamExhausted,
}

/// One direction of the cipher: key, nonce and the offset reached.
pub struct CipherStream {
    key: [u8; 32],
    nonce: [u8; 12],
    offset: u64,
}

/// The state of a [`CipherStream`].
pub struct CipherView {
    pub key: Seq<u8>,
    pub nonce: Seq<u8>,
    pub offset: int,
}

impl View for CipherStream {
    type V = CipherView;

    closed spec fn view(&self) -> CipherView {
        CipherView { key: self.key@, nonce: self.nonce@, offset: self.offset as int }
    }
}

impl CipherStream {
    /// A cipher at the start of its keystream.
    pub fn new(key: [u8; 32], nonce: [u8; 12]) -> (r: CipherStream)
        ensures
            r@.key == key@,
            r@.nonce == nonce@,
            r@.offset == 0,
    {
        CipherStream { key, nonce, offset: 0 }
    }

    /// The absolute offset reached.
    pub fn offset(&self) -> (r: u64)
        ensures
            r == self@.offset,
    {
        self.offset
    }

    /// Enciphers (or deciphers: the two are the same) `data` in place at the
    /// current offset, then moves the offset past it. Where the keystream
    /// would run out, nothing changes.
    pub fn apply(&mut self, data: &mut Vec<u8>) -> (r: Result<(), CipherError>)
        ensures
            final(self)@.key == old(self)@.key,
            final(self)@.nonce == old(self)@.nonce,
            r is Ok <==> old(self)@.offset + old(data)@.len() <= KEYSTREAM_LIMIT,
            r is Ok ==> final(data)@ == keystream_xor(
                old(self)@.key,
                old(self)@.nonce,
                old(self)@.offset,
                old(data)@,
            ) && final(self)@.offset == old(self)@.offset + old(data)@.len(),
            r is Err ==> final(data)@ == old(data)@ && final(self)@.offset == old(self)@.offset,
    {
        if data.len() as u64 > KEYSTREAM_LIMIT || self.offset > KEYSTREAM_LIMIT - data.len() as u64 {
            return Err(CipherError::KeystreamExhausted);
        }
        chacha20_apply(&self.key, &self.nonce, self.offset, data);
        assert(data@ =~= keystream_xor(self.key@, self.nonce@, self.offset as int, old(data)@));
        self.offset = self.offset + data.len() as u64;
        Ok(())
    }
}

/// Deciphering with the same key, nonce and offset gives back the plaintext.
pub proof fn lemma_xor_involution(key: Seq<u8>, nonce: Seq<u8>, offset: int, data: Seq<u8>)
    ensures
        keystream_xor(key, nonce, offset, keystream_xor(key, nonce, offset, data)) == data,
{
    let once = keystream_xor(key, nonce, offset, data);
    let twice = keystream_xor(key, nonce, offset, once);
    assert forall|i: int| 0 <= i < data.len() implies twice[i] == data[i] by {
        let k = chacha20_keystream(key, nonce, offset + i);
        let d = data[i];
        assert((d ^ k) ^ k == d) by (bit_vector);
    }
    assert(twice =~= data);
}

/// The cipher does not depend on how a stream is cut into buffers: the two
/// pieces enciphered one after the other give the whole enciphered at once.
pub proof fn lemma_xor_split(key: Seq<u8>, nonce: Seq<u8>, offset: int, a: Seq<u8>, b: Seq<u8>)
    ensures
        keystream_xor(key, nonce, offset, a + b) == keystream_xor(key, nonce, offset, a)
            + keystream_xor(key, nonce, offset + a.len(), b),
{
    assert(keystream_xor(key, nonce, offset, a + b) =~= keystream_xor(key, nonce, offset, a)
        + keystream_xor(key, nonce, offset + a.len(), b));
}

/// A stream enciphered on one side in any cuts and deciphered on the other in
/// any other cuts, each side starting from the same key, nonce and offset,
/// is the stream that was sent.
pub proof fn lemma_stream_round_trip(
    key: Seq<u8>,
    nonce: Seq<u8>,
    offset: int,
    a: Seq<u8>,
    b: Seq<u8>,
)
    ensures
        ({
            let wire = keystream_xor(key, nonce, offset, a) + keystream_xor(
                key,
                nonce,
                offset + a.len(),
                b,
            );
            keystream_xor(key, nonce, offset, wire) == a + b
        }),
{
    lemma_xor_split(key, nonce, offset, a, b);
    lemma_xor_involution(key, nonce, offset, a + b);
}

} // verus!
