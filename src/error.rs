//! The ways a session or a flow can fail.
use vstd::prelude::*;

verus! {

/// A breach of the protocol by the peer; it ends the session.
#[derive(Debug, Clone, Copy, PartialEq, Eq)]
pub enum ProtocolError {
    /// A frame refers to a flow id that has no entry in the flow table.
    UnknownFlow { id: u32 },
    /// A flow was opened under an id that is already live.
    DuplicateFlow { id: u32 },
    /// A message of a kind that this side does not take here; `tag` is its
    /// variant tag on the wire.
    UnexpectedMessage { tag: u32 },
    /// Every flow id of the session has been issued.
    FlowIdsExhausted,
    /// A frame announces a payload above the size cap.
    FrameTooLarge,
    /// A frame's payload is not the encoding of one message.
    Undecodable,
    /// The session has used up the keystream of its key and nonce.
    KeystreamExhausted,
}

/// The opening exchange went wrong; it ends the session.
#[derive(Debug, Clone, Copy, PartialEq, Eq)]
pub enum HandshakeError {
    /// The rendezvous's first frame was not a `ClientHello`; `tag` is what it was.
    ExpectedClientHello { tag: u32 },
    /// The agent's first frame back was not a `ServerHello`; `tag` is what it was.
    ExpectedServerHello { tag: u32 },
}

/// Key material could not be read.
#[derive(Debug, Clone, Copy, PartialEq, Eq)]
pub enum ConfigError {
    /// The key is not valid base64.
    KeyNotBase64,
    /// The nonce is not valid base64.
    NonceNotBase64,
    /// The key decodes to fewer than 32 bytes.
    KeyTooShort,
    /// The nonce decodes to fewer than 12 bytes.
    NonceTooShort,
}

} // verus!
