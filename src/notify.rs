//! The control-plane notifications of the rendezvous: the identity of a
//! session, the events posted about it, and the guard that owes the
//! shutdown notice once the opening notice went through.
use vstd::prelude::*;
use crate::protocol::ExternalMessage;

verus! {

/// The lower-case hex digit of `d` (below 16).
pub open spec fn hex_digit(d: u8) -> char {
    if d < 10 {
        (('0' as u8) + d) as char
    } else {
        (('a' as u8) + (d - 10)) as char
    }
}

/// `b` in lower-case hex, two digits per byte, high digit first.
pub open spec fn hex_lower(b: Seq<u8>) -> Seq<char> {
    Seq::new(
        2 * b.len(),
        |i: int|
            if i % 2 == 0 {
                hex_digit(b[i / 2] / 16)
            } else {
                hex_digit(b[i / 2] % 16)
            },
    )
}

/// The connection uid built from sixteen uuid bytes.
pub open spec fn conn_uid_of(b: Seq<u8>) -> Seq<char> {
    seq!['c', 'o', 'n', 'n', '-'] + hex_lower(b)
}

/// Relies on hex's `encode`: lower-case hex, two digits per byte.
#[verifier::external_body]
fn hex_encode(b: &[u8]) -> (r: String)
    ensures
        r@ == hex_lower(b@),
{
    hex::encode(b)
}

/// Relies on uuid's `Uuid::new_v4` and `as_bytes`: random bytes, with the
/// version nibble set to 4 and the variant bits to `10`.
#[verifier::external_body]
fn uuid_v4_bytes() -> (r: [u8; 16])
    ensures
        r@[6] & 0xf0u8 == 0x40u8,
        r@[8] & 0xc0u8 == 0x80u8,
{
    *uuid::Uuid::new_v4().as_bytes()
}

/// The connection uid for the uuid bytes `b`: `conn-` and the bytes in hex.
pub fn conn_uid_from_bytes(b: &[u8; 16]) -> (r: String)
    ensures
        r@ == conn_uid_of(b@),
{
    let mut s = String::from_str("conn-");
    let h = hex_encode(b.as_slice());
    s.append(h.as_str());
    proof {
        reveal_strlit("conn-");
    }
    assert(s@ =~= conn_uid_of(b@));
    s
}

/// A fresh connection uid: `conn-` and the 32 hex digits of a random
/// version-4 uuid, whose version nibble is 4 and whose variant bits are `10`.
pub fn new_conn_uid() -> (r: String)
    ensures
        exists|b: Seq<u8>|
            b.len() == 16 && b[6] & 0xf0u8 == 0x40u8 && b[8] & 0xc0u8 == 0x80u8 && r@
                == conn_uid_of(b),
        r@.len() == 37,
{
    let b = uuid_v4_bytes();
    let r = conn_uid_from_bytes(&b);
    assert(r@ == conn_uid_of(b@));
    r
}

/// Who a session is, as the control plane is told.
pub struct ConnectionIdentity {
    pub conn_id: String,
    pub domain: String,
    pub path: String,
    pub port: u16,
}

/// The notice that a session is up.
pub fn new_connection_event(id: &ConnectionIdentity) -> (r: ExternalMessage)
    ensures
        r matches ExternalMessage::NewConnection { conn_id, domain, path, port } && conn_id@
            == id.conn_id@ && domain@ == id.domain@ && path@ == id.path@ && port == id.port,
{
    ExternalMessage::NewConnection {
        conn_id: id.conn_id.clone(),
        domain: id.domain.clone(),
        path: id.path.clone(),
        port: id.port,
    }
}

/// The notice that a session is over.
pub fn shutdown_event(id: &ConnectionIdentity) -> (r: ExternalMessage)
    ensures
        r matches ExternalMessage::ShutdownConnection { conn_id, domain, path, port } && conn_id@
            == id.conn_id@ && domain@ == id.domain@ && path@ == id.path@ && port == id.port,
{
    ExternalMessage::ShutdownConnection {
        conn_id: id.conn_id.clone(),
        domain: id.domain.clone(),
        path: id.path.clone(),
        port: id.port,
    }
}

/// What the session owes the control plane at its end: the shutdown notice
/// to post to `callback`.
pub struct ShutdownGuard {
    pub callback: String,
    pub identity: ConnectionIdentity,
}

/// After the opening notice was posted to `callback`: the guard that owes
/// the shutdown notice if the post went through, none if it failed.
pub fn arm_shutdown_guard(callback: String, identity: ConnectionIdentity, posted: bool) -> (r:
    Option<ShutdownGuard>)
    ensures
        posted ==> (r matches Some(g) && g.callback@ == callback@ && g.identity.conn_id@
            == identity.conn_id@ && g.identity.domain@ == identity.domain@ && g.identity.path@
            == identity.path@ && g.identity.port == identity.port),
        !posted ==> r is None,
{
    if posted {
        Some(ShutdownGuard { callback, identity })
    } else {
        None
    }
}

impl ShutdownGuard {
    /// The shutdown notice this guard owes.
    pub fn event(&self) -> (r: ExternalMessage)
        ensures
            r matches ExternalMessage::ShutdownConnection { conn_id, domain, path, port }
                && conn_id@ == self.identity.conn_id@ && domain@ == self.identity.domain@ && path@
                == self.identity.path@ && port == self.identity.port,
    {
        shutdown_event(&self.identity)
    }
}

} // verus!
