//! The messages exchanged on the control channel and with the control plane.
use vstd::prelude::*;

verus! {

/// One message of the control channel.
///
/// Wire shape: `ClientHello` carries a required `domain` and an optional
/// `path`; an absent path is normalised to the empty string by the
/// rendezvous.
pub enum Message {
    ClientHello { domain: String, path: Option<String> },
    ServerHello { domain: String, path: String },
    NewConnection { id: u32 },
    Data { id: u32, data: Vec<u8> },
    CloseConnection { id: u32 },
    Shutdown { message: Option<String> },
}

/// The mathematical value of a [`Message`]: strings as characters, payloads
/// as bytes.
pub enum MessageView {
    ClientHello { domain: Seq<char>, path: Option<Seq<char>> },
    ServerHello { domain: Seq<char>, path: Seq<char> },
    NewConnection { id: u32 },
    Data { id: u32, data: Seq<u8> },
    CloseConnection { id: u32 },
    Shutdown { message: Option<Seq<char>> },
}

/// The characters of an optional string.
pub open spec fn opt_view(o: Option<String>) -> Option<Seq<char>> {
    match o {
        Some(s) => Some(s@),
        None => None,
    }
}

impl View for Message {
    type V = MessageView;

    open spec fn view(&self) -> MessageView {
        match self {
            Message::ClientHello { domain, path } => MessageView::ClientHello {
                domain: domain@,
                path: opt_view(*path),
            },
            Message::ServerHello { domain, path } => MessageView::ServerHello {
                domain: domain@,
                path: path@,
            },
            Message::NewConnection { id } => MessageView::NewConnection { id: *id },
            Message::Data { id, data } => MessageView::Data { id: *id, data: data@ },
            Message::CloseConnection { id } => MessageView::CloseConnection { id: *id },
            Message::Shutdown { message } => MessageView::Shutdown { message: opt_view(*message) },
        }
    }
}

/// A lifecycle event posted as JSON to the control-plane callback.
pub enum ExternalMessage {
    NewConnection { conn_id: String, domain: String, path: String, port: u16 },
    ShutdownConnection { conn_id: String, domain: String, path: String, port: u16 },
}

/// The wire tag of each variant.
pub open spec fn tag_of(v: MessageView) -> u32 {
    match v {
        MessageView::ClientHello { .. } => 0,
        MessageView::ServerHello { .. } => 1,
        MessageView::NewConnection { .. } => 2,
        MessageView::Data { .. } => 3,
        MessageView::CloseConnection { .. } => 4,
        MessageView::Shutdown { .. } => 5,
    }
}

impl Message {
    /// The wire tag of this message's variant.
    pub fn tag(&self) -> (r: u32)
        ensures
            r == tag_of(self@),
    {
        match self {
            Message::ClientHello { .. } => 0,
            Message::ServerHello { .. } => 1,
            Message::NewConnection { .. } => 2,
            Message::Data { .. } => 3,
            Message::CloseConnection { .. } => 4,
            Message::Shutdown { .. } => 5,
        }
    }
}

// ---------------------------------------------------------------- text

/// The quoted, escaped form `{:?}` gives the text `s`.
pub uninterp spec fn debug_quoted(s: Seq<char>) -> Seq<char>;

/// Relies on `<str as Debug>::fmt`: the quoted form depends on the text alone.
#[verifier::external_body]
fn debug_str(s: &str) -> (r: String)
    ensures
        r@ == debug_quoted(s@),
{
    format!("{:?}", s)
}

/// The decimal digit `d` (below 10).
pub open spec fn digit_char(d: nat) -> char {
    (('0' as u8) + (d as u8)) as char
}

/// `n` in decimal.
pub open spec fn decimal_of(n: nat) -> Seq<char>
    decreases n,
{
    if n < 10 {
        seq![digit_char(n)]
    } else {
        decimal_of(n / 10) + seq![digit_char(n % 10)]
    }
}

/// An optional text as `{:?}` shows it.
pub open spec fn opt_debug(o: Option<Seq<char>>) -> Seq<char> {
    match o {
        Some(s) => "Some("@ + debug_quoted(s) + ")"@,
        None => "None"@,
    }
}

/// The one-line description of a message, as the logs show it.
pub open spec fn describe_view(v: MessageView) -> Seq<char> {
    match v {
        MessageView::ClientHello { domain, path } => "Message::ClientHello domain="@ + debug_quoted(
            domain,
        ) + ", path="@ + opt_debug(path),
        MessageView::ServerHello { domain, path } => "Message::ServerHello domain="@ + domain
            + ", path="@ + path,
        MessageView::NewConnection { id } => "Message::NewConnection id="@ + decimal_of(id as nat),
        MessageView::Data { id, data } => "Message::Data id="@ + decimal_of(id as nat) + ", bytes="@
            + decimal_of(data.len()),
        MessageView::CloseConnection { id } => "Message::CloseConnection id="@ + decimal_of(
            id as nat,
        ),
        MessageView::Shutdown { message } => "Message::Shutdown message="@ + opt_debug(message),
    }
}

fn digit(d: u64) -> (r: String)
    requires
        d < 10,
    ensures
        r@ == seq![digit_char(d as nat)],
{
    if d == 0 {
        proof {
            reveal_strlit("0");
        }
        String::from_str("0")
    } else if d == 1 {
        proof {
            reveal_strlit("1");
        }
        String::from_str("1")
    } else if d == 2 {
        proof {
            reveal_strlit("2");
        }
        String::from_str("2")
    } else if d == 3 {
        proof {
            reveal_strlit("3");
        }
        String::from_str("3")
    } else if d == 4 {
        proof {
            reveal_strlit("4");
        }
        String::from_str("4")
    } else if d == 5 {
        proof {
            reveal_strlit("5");
        }
        String::from_str("5")
    } else if d == 6 {
        proof {
            reveal_strlit("6");
        }
        String::from_str("6")
    } else if d == 7 {
        proof {
            reveal_strlit("7");
        }
        String::from_str("7")
    } else if d == 8 {
        proof {
            reveal_strlit("8");
        }
        String::from_str("8")
    } else {
        proof {
            reveal_strlit("9");
        }
        String::from_str("9")
    }
}

/// `n` in decimal.
pub fn decimal(n: u64) -> (r: String)
    ensures
        r@ == decimal_of(n as nat),
    decreases n,
{
    let d = digit(n % 10);
    if n < 10 {
        d
    } else {
        let mut s = decimal(n / 10);
        s.append(d.as_str());
        s
    }
}

fn opt_debug_str(o: &Option<String>) -> (r: String)
    ensures
        r@ == opt_debug(opt_view(*o)),
{
    match o {
        Some(s) => {
            let mut r = String::from_str("Some(");
            let q = debug_str(s.as_str());
            r.append(q.as_str());
            r.append(")");
            r
        },
        None => String::from_str("None"),
    }
}

impl Message {
    /// The one-line description of this message, as the logs show it.
    pub fn describe(&self) -> (r: String)
        ensures
            r@ == describe_view(self@),
    {
        match self {
            Message::ClientHello { domain, path } => {
                let mut r = String::from_str("Message::ClientHello domain=");
                let q = debug_str(domain.as_str());
                r.append(q.as_str());
                r.append(", path=");
                let p = opt_debug_str(path);
                r.append(p.as_str());
                r
            },
            Message::ServerHello { domain, path } => {
                let mut r = String::from_str("Message::ServerHello domain=");
                r.append(domain.as_str());
                r.append(", path=");
                r.append(path.as_str());
                r
            },
            Message::NewConnection { id } => {
                let mut r = String::from_str("Message::NewConnection id=");
                let n = decimal(*id as u64);
                r.append(n.as_str());
                r
            },
            Message::Data { id, data } => {
                let mut r = String::from_str("Message::Data id=");
                let n = decimal(*id as u64);
                r.append(n.as_str());
                r.append(", bytes=");
                let b = decimal(data.len() as u64);
                r.append(b.as_str());
                r
            },
            Message::CloseConnection { id } => {
                let mut r = String::from_str("Message::CloseConnection id=");
                let n = decimal(*id as u64);
                r.append(n.as_str());
                r
            },
            Message::Shutdown { message } => {
                let mut r = String::from_str("Message::Shutdown message=");
                let m = opt_debug_str(message);
                r.append(m.as_str());
                r
            },
        }
    }
}

} // verus!
