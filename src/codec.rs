//! The binary encoding of [`Message`]: a little-endian `u32` variant tag,
//! then the fields in declaration order. Integers are little-endian; strings
//! and byte payloads carry a little-endian `u64` length; an optional string
//! is a `0` byte when absent, or a `1` byte and the string when present.
//! A frame holds exactly one message: trailing bytes are refused.
use vstd::prelude::*;
use vstd::utf8::*;
use crate::bytes::{copy_range, push_all};
use crate::protocol::{opt_view, Message, MessageView};

verus! {

broadcast use {encode_utf8_valid_utf8, encode_utf8_decode_utf8};

pub const TAG_CLIENT_HELLO: u32 = 0;
pub const TAG_SERVER_HELLO: u32 = 1;
pub const TAG_NEW_CONNECTION: u32 = 2;
pub const TAG_DATA: u32 = 3;
pub const TAG_CLOSE_CONNECTION: u32 = 4;
pub const TAG_SHUTDOWN: u32 = 5;

// ---------------------------------------------------------------- encoding

/// The four little-endian bytes of `n`.
pub open spec fn le32_bytes(n: u32) -> Seq<u8> {
    seq![n as u8, (n >> 8u32) as u8, (n >> 16u32) as u8, (n >> 24u32) as u8]
}

/// The eight little-endian bytes of `n`.
pub open spec fn le64_bytes(n: u64) -> Seq<u8> {
    seq![
        n as u8,
        (n >> 8u64) as u8,
        (n >> 16u64) as u8,
        (n >> 24u64) as u8,
        (n >> 32u64) as u8,
        (n >> 40u64) as u8,
        (n >> 48u64) as u8,
        (n >> 56u64) as u8,
    ]
}

/// A byte payload with its length in front.
pub open spec fn enc_bytes(s: Seq<u8>) -> Seq<u8> {
    le64_bytes(s.len() as u64) + s
}

/// A string: its UTF-8 bytes with their length in front.
pub open spec fn enc_str(cs: Seq<char>) -> Seq<u8> {
    enc_bytes(encode_utf8(cs))
}

/// An optional string: a presence byte, then the string if present.
pub open spec fn enc_opt_str(o: Option<Seq<char>>) -> Seq<u8> {
    match o {
        Some(cs) => seq![1u8] + enc_str(cs),
        None => seq![0u8],
    }
}

/// The wire bytes of a message.
pub open spec fn encode_view(v: MessageView) -> Seq<u8> {
    match v {
        MessageView::ClientHello { domain, path } => le32_bytes(TAG_CLIENT_HELLO) + enc_str(domain)
            + enc_opt_str(path),
        MessageView::ServerHello { domain, path } => le32_bytes(TAG_SERVER_HELLO) + enc_str(domain)
            + enc_str(path),
        MessageView::NewConnection { id } => le32_bytes(TAG_NEW_CONNECTION) + le32_bytes(id),
        MessageView::Data { id, data } => le32_bytes(TAG_DATA) + le32_bytes(id) + enc_bytes(data),
        MessageView::CloseConnection { id } => le32_bytes(TAG_CLOSE_CONNECTION) + le32_bytes(id),
        MessageView::Shutdown { message } => le32_bytes(TAG_SHUTDOWN) + enc_opt_str(message),
    }
}

/// A string whose UTF-8 length fits the `u64` length prefix.
pub open spec fn str_fits(cs: Seq<char>) -> bool {
    encode_utf8(cs).len() <= u64::MAX
}

/// An optional string that fits the length prefix.
pub open spec fn opt_str_fits(o: Option<Seq<char>>) -> bool {
    match o {
        Some(cs) => str_fits(cs),
        None => true,
    }
}

impl MessageView {
    /// Every string and payload fits its `u64` length prefix.
    pub open spec fn wf(self) -> bool {
        match self {
            MessageView::ClientHello { domain, path } => str_fits(domain) && opt_str_fits(path),
            MessageView::ServerHello { domain, path } => str_fits(domain) && str_fits(path),
            MessageView::Data { id, data } => data.len() <= u64::MAX,
            MessageView::Shutdown { message } => opt_str_fits(message),
            _ => true,
        }
    }
}

// ---------------------------------------------------------------- decoding

/// The `u32` whose little-endian bytes start at `p`.
pub open spec fn le32_at(b: Seq<u8>, p: int) -> u32 {
    (b[p] as u32) | ((b[p + 1] as u32) << 8u32) | ((b[p + 2] as u32) << 16u32) | ((b[p + 3] as u32)
        << 24u32)
}

/// The `u64` whose little-endian bytes start at `p`.
pub open spec fn le64_at(b: Seq<u8>, p: int) -> u64 {
    (b[p] as u64) | ((b[p + 1] as u64) << 8u64) | ((b[p + 2] as u64) << 16u64) | ((b[p + 3] as u64)
        << 24u64) | ((b[p + 4] as u64) << 32u64) | ((b[p + 5] as u64) << 40u64) | ((b[p
        + 6] as u64) << 48u64) | ((b[p + 7] as u64) << 56u64)
}

/// A `u32` read at `p`, and the position after it.
pub open spec fn parse_u32(b: Seq<u8>, p: int) -> Option<(u32, int)> {
    if 0 <= p && p + 4 <= b.len() {
        Some((le32_at(b, p), p + 4))
    } else {
        None
    }
}

/// A length-prefixed byte payload read at `p`, and the position after it.
pub open spec fn parse_bytes(b: Seq<u8>, p: int) -> Option<(Seq<u8>, int)> {
    if 0 <= p && p + 8 <= b.len() {
        let n = le64_at(b, p) as int;
        if p + 8 + n <= b.len() {
            Some((b.subrange(p + 8, p + 8 + n), p + 8 + n))
        } else {
            None
        }
    } else {
        None
    }
}

/// A string read at `p`: a payload that is valid UTF-8.
pub open spec fn parse_str(b: Seq<u8>, p: int) -> Option<(Seq<char>, int)> {
    match parse_bytes(b, p) {
        Some((s, q)) => if valid_utf8(s) {
            Some((decode_utf8(s), q))
        } else {
            None
        },
        None => None,
    }
}

/// An optional string read at `p`.
pub open spec fn parse_opt_str(b: Seq<u8>, p: int) -> Option<(Option<Seq<char>>, int)> {
    if 0 <= p && p < b.len() {
        if b[p] == 0 {
            Some((None, p + 1))
        } else if b[p] == 1 {
            match parse_str(b, p + 1) {
                Some((cs, q)) => Some((Some(cs), q)),
                None => None,
            }
        } else {
            None
        }
    } else {
        None
    }
}

/// The fields of the variant `tag`, read from `p` on.
pub open spec fn parse_fields(b: Seq<u8>, tag: u32, p: int) -> Option<(MessageView, int)> {
    if tag == TAG_CLIENT_HELLO {
        match parse_str(b, p) {
            Some((domain, q)) => match parse_opt_str(b, q) {
                Some((path, r)) => Some((MessageView::ClientHello { domain, path }, r)),
                None => None,
            },
            None => None,
        }
    } else if tag == TAG_SERVER_HELLO {
        match parse_str(b, p) {
            Some((domain, q)) => match parse_str(b, q) {
                Some((path, r)) => Some((MessageView::ServerHello { domain, path }, r)),
                None => None,
            },
            None => None,
        }
    } else if tag == TAG_NEW_CONNECTION {
        match parse_u32(b, p) {
            Some((id, q)) => Some((MessageView::NewConnection { id }, q)),
            None => None,
        }
    } else if tag == TAG_DATA {
        match parse_u32(b, p) {
            Some((id, q)) => match parse_bytes(b, q) {
                Some((data, r)) => Some((MessageView::Data { id, data }, r)),
                None => None,
            },
            None => None,
        }
    } else if tag == TAG_CLOSE_CONNECTION {
        match parse_u32(b, p) {
            Some((id, q)) => Some((MessageView::CloseConnection { id }, q)),
            None => None,
        }
    } else if tag == TAG_SHUTDOWN {
        match parse_opt_str(b, p) {
            Some((message, q)) => Some((MessageView::Shutdown { message }, q)),
            None => None,
        }
    } else {
        None
    }
}

/// The message that the bytes `b` hold, if they hold exactly one.
pub open spec fn parse_message(b: Seq<u8>) -> Option<MessageView> {
    match parse_u32(b, 0) {
        Some((tag, p)) => match parse_fields(b, tag, p) {
            Some((v, q)) => if q == b.len() {
                Some(v)
            } else {
                None
            },
            None => None,
        },
        None => None,
    }
}

// ---------------------------------------------------------------- round trip

proof fn lemma_le32(n: u32)
    ensures
        le32_at(le32_bytes(n), 0) == n,
{
    let b = le32_bytes(n);
    let (b0, b1, b2, b3) = (b[0], b[1], b[2], b[3]);
    assert((b0 as u32) | ((b1 as u32) << 8u32) | ((b2 as u32) << 16u32) | ((b3 as u32) << 24u32)
        == n) by (bit_vector)
        requires
            b0 == n as u8,
            b1 == (n >> 8u32) as u8,
            b2 == (n >> 16u32) as u8,
            b3 == (n >> 24u32) as u8,
    ;
}

proof fn lemma_le64(n: u64)
    ensures
        le64_at(le64_bytes(n), 0) == n,
{
    let b = le64_bytes(n);
    let (b0, b1, b2, b3, b4, b5, b6, b7) = (b[0], b[1], b[2], b[3], b[4], b[5], b[6], b[7]);
    assert((b0 as u64) | ((b1 as u64) << 8u64) | ((b2 as u64) << 16u64) | ((b3 as u64) << 24u64)
        | ((b4 as u64) << 32u64) | ((b5 as u64) << 40u64) | ((b6 as u64) << 48u64) | ((b7 as u64)
        << 56u64) == n) by (bit_vector)
        requires
            b0 == n as u8,
            b1 == (n >> 8u64) as u8,
            b2 == (n >> 16u64) as u8,
            b3 == (n >> 24u64) as u8,
            b4 == (n >> 32u64) as u8,
            b5 == (n >> 40u64) as u8,
            b6 == (n >> 48u64) as u8,
            b7 == (n >> 56u64) as u8,
    ;
}

proof fn lemma_parse_u32(b: Seq<u8>, p: int, n: u32)
    requires
        0 <= p,
        p + 4 <= b.len(),
        b.subrange(p, p + 4) == le32_bytes(n),
    ensures
        parse_u32(b, p) == Some((n, p + 4)),
{
    lemma_le32(n);
    let e = le32_bytes(n);
    assert(b[p] == b.subrange(p, p + 4)[0]);
    assert(b[p + 1] == b.subrange(p, p + 4)[1]);
    assert(b[p + 2] == b.subrange(p, p + 4)[2]);
    assert(b[p + 3] == b.subrange(p, p + 4)[3]);
    assert(le32_at(b, p) == le32_at(e, 0));
}

proof fn lemma_parse_bytes(b: Seq<u8>, p: int, s: Seq<u8>)
    requires
        0 <= p,
        s.len() <= u64::MAX,
        p + 8 + s.len() <= b.len(),
        b.subrange(p, p + 8 + s.len()) == enc_bytes(s),
    ensures
        parse_bytes(b, p) == Some((s, p + 8 + s.len())),
{
    let n = s.len() as u64;
    lemma_le64(n);
    let e = enc_bytes(s);
    assert forall|i: int| 0 <= i < 8 implies b[p + i] == le64_bytes(n)[i] by {
        assert(b[p + i] == b.subrange(p, p + 8 + s.len())[i]);
        assert(e[i] == le64_bytes(n)[i]);
    }
    assert(le64_at(b, p) == le64_at(le64_bytes(n), 0));
    assert(b.subrange(p + 8, p + 8 + s.len()) =~= s) by {
        assert forall|i: int| 0 <= i < s.len() implies b.subrange(p + 8, p + 8 + s.len())[i]
            == s[i] by {
            assert(b[p + 8 + i] == b.subrange(p, p + 8 + s.len())[8 + i]);
            assert(e[8 + i] == s[i]);
        }
    }
}

proof fn lemma_parse_str(b: Seq<u8>, p: int, cs: Seq<char>)
    requires
        0 <= p,
        str_fits(cs),
        p + enc_str(cs).len() <= b.len(),
        b.subrange(p, p + enc_str(cs).len()) == enc_str(cs),
    ensures
        parse_str(b, p) == Some((cs, p + enc_str(cs).len())),
{
    lemma_parse_bytes(b, p, encode_utf8(cs));
}

proof fn lemma_parse_opt_str(b: Seq<u8>, p: int, o: Option<Seq<char>>)
    requires
        0 <= p,
        opt_str_fits(o),
        p + enc_opt_str(o).len() <= b.len(),
        b.subrange(p, p + enc_opt_str(o).len()) == enc_opt_str(o),
    ensures
        parse_opt_str(b, p) == Some((o, p + enc_opt_str(o).len())),
{
    let e = enc_opt_str(o);
    assert(b[p] == b.subrange(p, p + e.len())[0]);
    match o {
        Some(cs) => {
            let t = enc_str(cs);
            assert(b.subrange(p + 1, p + 1 + t.len()) =~= t) by {
                assert forall|i: int| 0 <= i < t.len() implies b.subrange(p + 1, p + 1 + t.len())[i]
                    == t[i] by {
                    assert(b[p + 1 + i] == b.subrange(p, p + e.len())[1 + i]);
                    assert(e[1 + i] == t[i]);
                }
            }
            lemma_parse_str(b, p + 1, cs);
        },
        None => {},
    }
}

/// Three consecutive pieces: the middle one can be read off the whole.
proof fn lemma_middle(x: Seq<u8>, y: Seq<u8>, z: Seq<u8>)
    ensures
        (x + y + z).subrange(x.len() as int, x.len() + y.len() as int) == y,
        (x + y).subrange(x.len() as int, x.len() + y.len() as int) == y,
{
    assert((x + y + z).subrange(x.len() as int, x.len() + y.len() as int) =~= y);
    assert((x + y).subrange(x.len() as int, x.len() + y.len() as int) =~= y);
}

/// Decoding the encoding of any message gives that message back.
pub proof fn lemma_decode_encode(v: MessageView)
    requires
        v.wf(),
    ensures
        parse_message(encode_view(v)) == Some(v),
{
    let b = encode_view(v);
    let tag_bytes = match v {
        MessageView::ClientHello { .. } => le32_bytes(TAG_CLIENT_HELLO),
        MessageView::ServerHello { .. } => le32_bytes(TAG_SERVER_HELLO),
        MessageView::NewConnection { .. } => le32_bytes(TAG_NEW_CONNECTION),
        MessageView::Data { .. } => le32_bytes(TAG_DATA),
        MessageView::CloseConnection { .. } => le32_bytes(TAG_CLOSE_CONNECTION),
        MessageView::Shutdown { .. } => le32_bytes(TAG_SHUTDOWN),
    };
    match v {
        MessageView::ClientHello { domain, path } => {
            let (x, y, z) = (tag_bytes, enc_str(domain), enc_opt_str(path));
            assert(b.subrange(0, 4) =~= x);
            assert(b == x + y + z);
            lemma_parse_u32(b, 0, TAG_CLIENT_HELLO);
            lemma_middle(x, y, z);
            lemma_parse_str(b, 4, domain);
            lemma_middle(x + y, z, seq![]);
            assert(x + y + z == x + y + z + seq![]);
            lemma_parse_opt_str(b, 4 + y.len() as int, path);
        },
        MessageView::ServerHello { domain, path } => {
            let (x, y, z) = (tag_bytes, enc_str(domain), enc_str(path));
            assert(b.subrange(0, 4) =~= x);
            assert(b == x + y + z);
            lemma_parse_u32(b, 0, TAG_SERVER_HELLO);
            lemma_middle(x, y, z);
            lemma_parse_str(b, 4, domain);
            lemma_middle(x + y, z, seq![]);
            lemma_parse_str(b, 4 + y.len() as int, path);
        },
        MessageView::NewConnection { id } => {
            let (x, y) = (tag_bytes, le32_bytes(id));
            lemma_middle(seq![], x, y);
            lemma_parse_u32(b, 0, TAG_NEW_CONNECTION);
            lemma_middle(x, y, seq![]);
            lemma_parse_u32(b, 4, id);
        },
        MessageView::Data { id, data } => {
            let (x, y, z) = (tag_bytes, le32_bytes(id), enc_bytes(data));
            assert(b.subrange(0, 4) =~= x);
            assert(b == x + y + z);
            lemma_parse_u32(b, 0, TAG_DATA);
            lemma_middle(x, y, z);
            lemma_parse_u32(b, 4, id);
            lemma_middle(x + y, z, seq![]);
            lemma_parse_bytes(b, 8, data);
        },
        MessageView::CloseConnection { id } => {
            let (x, y) = (tag_bytes, le32_bytes(id));
            lemma_middle(seq![], x, y);
            lemma_parse_u32(b, 0, TAG_CLOSE_CONNECTION);
            lemma_middle(x, y, seq![]);
            lemma_parse_u32(b, 4, id);
        },
        MessageView::Shutdown { message } => {
            let (x, y) = (tag_bytes, enc_opt_str(message));
            lemma_middle(seq![], x, y);
            lemma_parse_u32(b, 0, TAG_SHUTDOWN);
            lemma_middle(x, y, seq![]);
            lemma_parse_opt_str(b, 4, message);
        },
    }
}

// ---------------------------------------------------------------- exec

/// Relies on `String::from_utf8`: it accepts exactly the byte sequences that
/// are valid UTF-8, and the string then holds the characters they encode.
#[verifier::external_body]
fn string_from_utf8(bytes: Vec<u8>) -> (r: Option<String>)
    ensures
        r is Some <==> valid_utf8(bytes@),
        r matches Some(s) ==> s@ == decode_utf8(bytes@),
{
    String::from_utf8(bytes).ok()
}

fn push_u32_le(out: &mut Vec<u8>, n: u32)
    ensures
        final(out)@ == old(out)@ + le32_bytes(n),
{
    out.push(n as u8);
    out.push((n >> 8u32) as u8);
    out.push((n >> 16u32) as u8);
    out.push((n >> 24u32) as u8);
    assert(final(out)@ =~= old(out)@ + le32_bytes(n));
}

fn push_u64_le(out: &mut Vec<u8>, n: u64)
    ensures
        final(out)@ == old(out)@ + le64_bytes(n),
{
    out.push(n as u8);
    out.push((n >> 8u64) as u8);
    out.push((n >> 16u64) as u8);
    out.push((n >> 24u64) as u8);
    out.push((n >> 32u64) as u8);
    out.push((n >> 40u64) as u8);
    out.push((n >> 48u64) as u8);
    out.push((n >> 56u64) as u8);
    assert(final(out)@ =~= old(out)@ + le64_bytes(n));
}

fn push_bytes(out: &mut Vec<u8>, s: &[u8])
    ensures
        final(out)@ == old(out)@ + enc_bytes(s@),
        s@.len() <= u64::MAX,
{
    push_u64_le(out, s.len() as u64);
    push_all(out, s);
    assert(final(out)@ =~= old(out)@ + enc_bytes(s@));
}

fn push_str(out: &mut Vec<u8>, s: &String)
    ensures
        final(out)@ == old(out)@ + enc_str(s@),
        str_fits(s@),
{
    push_bytes(out, s.as_str().as_bytes());
}

fn push_opt_str(out: &mut Vec<u8>, o: &Option<String>)
    ensures
        final(out)@ == old(out)@ + enc_opt_str(opt_view(*o)),
        opt_str_fits(opt_view(*o)),
{
    match o {
        Some(s) => {
            out.push(1u8);
            push_str(out, s);
            assert(final(out)@ =~= old(out)@ + enc_opt_str(opt_view(*o)));
        },
        None => {
            out.push(0u8);
        },
    }
}

fn read_u32(b: &[u8], p: usize) -> (r: Option<(u32, usize)>)
    ensures
        r matches Some((v, q)) ==> parse_u32(b@, p as int) == Some((v, q as int)),
        r is None ==> parse_u32(b@, p as int) is None,
{
    if p > b.len() || b.len() - p < 4 {
        return None;
    }
    let v: u32 = (b[p] as u32) | ((b[p + 1] as u32) << 8u32) | ((b[p + 2] as u32) << 16u32) | ((b[p
        + 3] as u32) << 24u32);
    Some((v, p + 4))
}

fn read_bytes(b: &[u8], p: usize) -> (r: Option<(Vec<u8>, usize)>)
    ensures
        r matches Some((v, q)) ==> parse_bytes(b@, p as int) == Some((v@, q as int)),
        r is None ==> parse_bytes(b@, p as int) is None,
{
    if p > b.len() || b.len() - p < 8 {
        return None;
    }
    let n: u64 = (b[p] as u64) | ((b[p + 1] as u64) << 8u64) | ((b[p + 2] as u64) << 16u64) | ((b[p
        + 3] as u64) << 24u64) | ((b[p + 4] as u64) << 32u64) | ((b[p + 5] as u64) << 40u64) | ((b[p
        + 6] as u64) << 48u64) | ((b[p + 7] as u64) << 56u64);
    assert(n == le64_at(b@, p as int));
    if n > (b.len() - p - 8) as u64 {
        return None;
    }
    let start = p + 8;
    let end = start + n as usize;
    let v = copy_range(b, start, end);
    Some((v, end))
}

fn read_str(b: &[u8], p: usize) -> (r: Option<(String, usize)>)
    ensures
        r matches Some((s, q)) ==> parse_str(b@, p as int) == Some((s@, q as int)),
        r is None ==> parse_str(b@, p as int) is None,
{
    match read_bytes(b, p) {
        Some((v, q)) => match string_from_utf8(v) {
            Some(s) => Some((s, q)),
            None => None,
        },
        None => None,
    }
}

fn read_opt_str(b: &[u8], p: usize) -> (r: Option<(Option<String>, usize)>)
    ensures
        r matches Some((o, q)) ==> parse_opt_str(b@, p as int) == Some((opt_view(o), q as int)),
        r is None ==> parse_opt_str(b@, p as int) is None,
{
    if p >= b.len() {
        return None;
    }
    if b[p] == 0 {
        Some((None, p + 1))
    } else if b[p] == 1 {
        match read_str(b, p + 1) {
            Some((s, q)) => Some((Some(s), q)),
            None => None,
        }
    } else {
        None
    }
}

impl Message {
    /// The wire bytes of this message.
    pub fn encode(&self) -> (r: Vec<u8>)
        ensures
            r@ == encode_view(self@),
            self@.wf(),
    {
        let mut out: Vec<u8> = Vec::new();
        match self {
            Message::ClientHello { domain, path } => {
                push_u32_le(&mut out, TAG_CLIENT_HELLO);
                push_str(&mut out, domain);
                push_opt_str(&mut out, path);
            },
            Message::ServerHello { domain, path } => {
                push_u32_le(&mut out, TAG_SERVER_HELLO);
                push_str(&mut out, domain);
                push_str(&mut out, path);
            },
            Message::NewConnection { id } => {
                push_u32_le(&mut out, TAG_NEW_CONNECTION);
                push_u32_le(&mut out, *id);
            },
            Message::Data { id, data } => {
                push_u32_le(&mut out, TAG_DATA);
                push_u32_le(&mut out, *id);
                push_bytes(&mut out, data.as_slice());
            },
            Message::CloseConnection { id } => {
                push_u32_le(&mut out, TAG_CLOSE_CONNECTION);
                push_u32_le(&mut out, *id);
            },
            Message::Shutdown { message } => {
                push_u32_le(&mut out, TAG_SHUTDOWN);
                push_opt_str(&mut out, message);
            },
        }
        assert(out@ =~= encode_view(self@));
        out
    }

    /// The message held by `b`, or `None` where `b` is not exactly the
    /// encoding of one message.
    pub fn decode(b: &[u8]) -> (r: Option<Message>)
        ensures
            r matches Some(m) ==> parse_message(b@) == Some(m@),
            r is None ==> parse_message(b@) is None,
    {
        let (tag, p) = match read_u32(b, 0) {
            Some(x) => x,
            None => return None,
        };
        let (m, q) = if tag == TAG_CLIENT_HELLO {
            let (domain, q) = match read_str(b, p) {
                Some(x) => x,
                None => return None,
            };
            let (path, r) = match read_opt_str(b, q) {
                Some(x) => x,
                None => return None,
            };
            (Message::ClientHello { domain, path }, r)
        } else if tag == TAG_SERVER_HELLO {
            let (domain, q) = match read_str(b, p) {
                Some(x) => x,
                None => return None,
            };
            let (path, r) = match read_str(b, q) {
                Some(x) => x,
                None => return None,
            };
            (Message::ServerHello { domain, path }, r)
        } else if tag == TAG_NEW_CONNECTION {
            let (id, q) = match read_u32(b, p) {
                Some(x) => x,
                None => return None,
            };
            (Message::NewConnection { id }, q)
        } else if tag == TAG_DATA {
            let (id, q) = match read_u32(b, p) {
                Some(x) => x,
                None => return None,
            };
            let (data, r) = match read_bytes(b, q) {
                Some(x) => x,
                None => return None,
            };
            (Message::Data { id, data }, r)
        } else if tag == TAG_CLOSE_CONNECTION {
            let (id, q) = match read_u32(b, p) {
                Some(x) => x,
                None => return None,
            };
            (Message::CloseConnection { id }, q)
        } else if tag == TAG_SHUTDOWN {
            let (message, q) = match read_opt_str(b, p) {
                Some(x) => x,
                None => return None,
            };
            (Message::Shutdown { message }, q)
        } else {
            return None;
        };
        assert(parse_fields(b@, tag, p as int) == Some((m@, q as int)));
        if q != b.len() {
            return None;
        }
        Some(m)
    }
}

} // verus!
