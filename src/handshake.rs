//! The opening exchange: the agent names its `(domain, path)` in a
//! `ClientHello`, and the rendezvous answers with a `ServerHello`.
use vstd::prelude::*;
use crate::error::HandshakeError;
use crate::protocol::{opt_view, tag_of, Message, MessageView};

verus! {

/// The agent's first frame.
pub fn client_hello(domain: String, path: Option<String>) -> (r: Message)
    ensures
        r@ == (MessageView::ClientHello { domain: domain@, path: opt_view(path) }),
{
    Message::ClientHello { domain, path }
}

/// The rendezvous reads the agent's first frame: a `ClientHello` gives the
/// session's `(domain, path)`, an absent path read as the empty string;
/// anything else ends the session.
pub fn accept_client_hello(msg: Message) -> (r: Result<(String, String), HandshakeError>)
    ensures
        match msg@ {
            MessageView::ClientHello { domain, path } => r matches Ok((d, p)) && d@ == domain
                && p@ == (match path {
                Some(s) => s,
                None => Seq::<char>::empty(),
            }),
            _ => r == Err::<(String, String), HandshakeError>(
                HandshakeError::ExpectedClientHello { tag: tag_of(msg@) },
            ),
        },
{
    match msg {
        Message::ClientHello { domain, path } => {
            let path = match path {
                Some(p) => p,
                None => String::new(),
            };
            Ok((domain, path))
        },
        other => Err(HandshakeError::ExpectedClientHello { tag: other.tag() }),
    }
}

/// The rendezvous's answer, echoing the session's `(domain, path)`.
pub fn server_hello(domain: String, path: String) -> (r: Message)
    ensures
        r@ == (MessageView::ServerHello { domain: domain@, path: path@ }),
{
    Message::ServerHello { domain, path }
}

/// The agent reads the rendezvous's answer: a `ServerHello` completes the
/// handshake with its `(domain, path)`; anything else ends the session.
pub fn accept_server_hello(msg: Message) -> (r: Result<(String, String), HandshakeError>)
    ensures
        match msg@ {
            MessageView::ServerHello { domain, path } => r matches Ok((d, p)) && d@ == domain && p@
                == path,
            _ => r == Err::<(String, String), HandshakeError>(
                HandshakeError::ExpectedServerHello { tag: tag_of(msg@) },
            ),
        },
{
    match msg {
        Message::ServerHello { domain, path } => Ok((domain, path)),
        other => Err(HandshakeError::ExpectedServerHello { tag: other.tag() }),
    }
}

} // verus!
