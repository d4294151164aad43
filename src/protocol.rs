//! Mutation messages and their binary wire form.
//!
//! A message is written as a little-endian `u32` command tag, followed by
//! the key and the value, each as a little-endian `u64` byte length and
//! the UTF-8 bytes of the text.
use vstd::bytes::*;
use vstd::prelude::*;
use vstd::slice::*;
use vstd::string::*;
use vstd::utf8::*;

verus! {

broadcast use encode_utf8_decode_utf8, encode_utf8_valid_utf8;

/// The kinds of replicated operation.
#[derive(Clone, Copy, Debug, PartialEq, Eq, Structural)]
pub enum Command {
    /// A liveness probe; changes nothing.
    Ping,
    /// Insert or overwrite a key.
    Insert,
    /// Delete a key.
    Remove,
}

/// The unit of replication exchanged between nodes.
#[derive(Clone, Debug, PartialEq, Eq)]
pub struct Message {
    pub cmd: Command,
    pub key: String,
    /// Empty for `Ping` and `Remove`.
    pub value: String,
}

/// The mathematical value of a [`Message`].
pub struct MessageView {
    pub cmd: Command,
    pub key: Seq<char>,
    pub value: Seq<char>,
}

impl View for Message {
    type V = MessageView;

    open spec fn view(&self) -> MessageView {
        MessageView { cmd: self.cmd, key: self.key@, value: self.value@ }
    }
}

/// Why a byte sequence is not the encoding of a message.
#[derive(Clone, Copy, Debug, PartialEq, Eq, Structural)]
pub enum DecodeError {
    /// The bytes end before the message does.
    Truncated,
    /// The command tag names no command.
    UnknownCommand(u32),
    /// A key or value is not valid UTF-8.
    InvalidUtf8,
    /// Bytes remain after the message.
    TrailingBytes,
}

pub open spec fn command_tag(c: Command) -> u32 {
    match c {
        Command::Ping => 0,
        Command::Insert => 1,
        Command::Remove => 2,
    }
}

pub open spec fn command_of_tag(t: u32) -> Option<Command> {
    if t == 0 {
        Some(Command::Ping)
    } else if t == 1 {
        Some(Command::Insert)
    } else if t == 2 {
        Some(Command::Remove)
    } else {
        None
    }
}

/// A message whose key and value have byte lengths that a length prefix can hold.
pub open spec fn encodable(m: MessageView) -> bool {
    &&& encode_utf8(m.key).len() <= u64::MAX
    &&& encode_utf8(m.value).len() <= u64::MAX
}

/// The wire form of one text: its byte length, then its UTF-8 bytes.
pub open spec fn wire_text(s: Seq<char>) -> Seq<u8> {
    spec_u64_to_le_bytes(encode_utf8(s).len() as u64) + encode_utf8(s)
}

/// The wire form of a message.
pub open spec fn wire(m: MessageView) -> Seq<u8> {
    spec_u32_to_le_bytes(command_tag(m.cmd)) + wire_text(m.key) + wire_text(m.value)
}

/// Reads one text from the front of `b`, giving it and the bytes after it.
pub open spec fn parse_text(b: Seq<u8>) -> Result<(Seq<char>, Seq<u8>), DecodeError> {
    if b.len() < 8 {
        Err(DecodeError::Truncated)
    } else {
        let n = spec_u64_from_le_bytes(b.subrange(0, 8)) as int;
        if n > b.len() - 8 {
            Err(DecodeError::Truncated)
        } else if !valid_utf8(b.subrange(8, 8 + n)) {
            Err(DecodeError::InvalidUtf8)
        } else {
            Ok((decode_utf8(b.subrange(8, 8 + n)), b.subrange(8 + n, b.len() as int)))
        }
    }
}

/// What a byte sequence decodes to.
pub open spec fn parse(b: Seq<u8>) -> Result<MessageView, DecodeError> {
    if b.len() < 4 {
        Err(DecodeError::Truncated)
    } else {
        let tag = spec_u32_from_le_bytes(b.subrange(0, 4));
        match command_of_tag(tag) {
            None => Err(DecodeError::UnknownCommand(tag)),
            Some(cmd) => match parse_text(b.subrange(4, b.len() as int)) {
                Err(e) => Err(e),
                Ok((key, rest)) => match parse_text(rest) {
                    Err(e) => Err(e),
                    Ok((value, tail)) => if tail.len() == 0 {
                        Ok(MessageView { cmd, key, value })
                    } else {
                        Err(DecodeError::TrailingBytes)
                    },
                },
            },
        }
    }
}

fn command_code(c: Command) -> (r: u32)
    ensures
        r == command_tag(c),
{
    match c {
        Command::Ping => 0,
        Command::Insert => 1,
        Command::Remove => 2,
    }
}

fn push_text(out: &mut Vec<u8>, s: &str)
    ensures
        final(out)@ == old(out)@ + wire_text(s@),
{
    let b = s.as_bytes();
    let mut len = u64_to_le_bytes(b.len() as u64);
    out.append(&mut len);
    let mut body = slice_to_vec(b);
    out.append(&mut body);
}

/// Encodes a message into its wire form.
pub fn encode(msg: &Message) -> (r: Vec<u8>)
    ensures
        r@ == wire(msg@),
{
    let mut out = u32_to_le_bytes(command_code(msg.cmd));
    push_text(&mut out, msg.key.as_str());
    push_text(&mut out, msg.value.as_str());
    assert(out@ =~= wire(msg@));
    out
}

/// Relies on std::str::from_utf8: it accepts exactly the valid UTF-8
/// byte sequences, and the text it gives is made of those same bytes.
#[verifier::external_body]
fn utf8_text(b: &[u8]) -> (r: Option<String>)
    ensures
        r is Some <==> valid_utf8(b@),
        r matches Some(s) ==> encode_utf8(s@) == b@,
{
    std::str::from_utf8(b).ok().map(|s| s.to_string())
}

fn command_from_code(t: u32) -> (r: Option<Command>)
    ensures
        r == command_of_tag(t),
{
    if t == 0 {
        Some(Command::Ping)
    } else if t == 1 {
        Some(Command::Insert)
    } else if t == 2 {
        Some(Command::Remove)
    } else {
        None
    }
}

/// Reads the text that starts at `pos`, and the position just after it.
fn read_text(b: &[u8], pos: usize) -> (r: Result<(String, usize), DecodeError>)
    requires
        pos <= b@.len(),
    ensures
        match parse_text(b@.subrange(pos as int, b@.len() as int)) {
            Ok((s, rest)) => r matches Ok((t, p)) && t@ == s && pos <= p <= b@.len()
                && rest == b@.subrange(p as int, b@.len() as int),
            Err(e) => r == Err::<(String, usize), DecodeError>(e),
        },
{
    let ghost tail = b@.subrange(pos as int, b@.len() as int);
    let avail = b.len() - pos;
    if avail < 8 {
        return Err(DecodeError::Truncated);
    }
    let n = u64_from_le_bytes(slice_subrange(b, pos, pos + 8));
    assert(tail.subrange(0, 8) =~= b@.subrange(pos as int, pos + 8));
    if n as u128 > (avail - 8) as u128 {
        return Err(DecodeError::Truncated);
    }
    let start = pos + 8;
    let end = start + n as usize;
    let body = slice_subrange(b, start, end);
    assert(tail.subrange(8, 8 + n) =~= body@);
    match utf8_text(body) {
        None => Err(DecodeError::InvalidUtf8),
        Some(s) => {
            assert(tail.subrange(8 + n, tail.len() as int) =~= b@.subrange(
                end as int,
                b@.len() as int,
            ));
            Ok((s, end))
        },
    }
}

/// Decodes a message from its wire form.
pub fn decode(bytes: &[u8]) -> (r: Result<Message, DecodeError>)
    ensures
        match parse(bytes@) {
            Ok(v) => r matches Ok(m) && m@ == v,
            Err(e) => r == Err::<Message, DecodeError>(e),
        },
{
    if bytes.len() < 4 {
        return Err(DecodeError::Truncated);
    }
    let tag = u32_from_le_bytes(slice_subrange(bytes, 0, 4));
    let cmd = match command_from_code(tag) {
        None => return Err(DecodeError::UnknownCommand(tag)),
        Some(c) => c,
    };
    let (key, p) = match read_text(bytes, 4) {
        Err(e) => return Err(e),
        Ok(kp) => kp,
    };
    let (value, q) = match read_text(bytes, p) {
        Err(e) => return Err(e),
        Ok(vq) => vq,
    };
    if q < bytes.len() {
        return Err(DecodeError::TrailingBytes);
    }
    Ok(Message { cmd, key, value })
}

proof fn lemma_parse_wire_text(s: Seq<char>, rest: Seq<u8>)
    requires
        encode_utf8(s).len() <= u64::MAX,
    ensures
        parse_text(wire_text(s) + rest) == Ok::<(Seq<char>, Seq<u8>), DecodeError>((s, rest)),
{
    lemma_auto_spec_u64_to_from_le_bytes();
    let body = encode_utf8(s);
    let n = body.len() as int;
    let b = wire_text(s) + rest;
    let len_bytes = spec_u64_to_le_bytes(body.len() as u64);
    assert(b.subrange(0, 8) =~= len_bytes);
    assert(b.subrange(8, 8 + n) =~= body);
    assert(b.subrange(8 + n, b.len() as int) =~= rest);
}

proof fn lemma_wire_of_parse_text(b: Seq<u8>)
    requires
        parse_text(b) is Ok,
    ensures
        ({
            let (s, rest) = parse_text(b)->Ok_0;
            b == wire_text(s) + rest && encode_utf8(s).len() <= u64::MAX
        }),
{
    lemma_auto_spec_u64_to_from_le_bytes();
    let n = spec_u64_from_le_bytes(b.subrange(0, 8));
    let body = b.subrange(8, 8 + n);
    decode_utf8_encode_utf8(body);
    assert(spec_u64_to_le_bytes(n) == b.subrange(0, 8));
    assert(b =~= b.subrange(0, 8) + body + b.subrange(8 + n, b.len() as int));
}

/// Decoding the encoding of a message gives the message back.
pub proof fn lemma_round_trip(m: MessageView)
    requires
        encodable(m),
    ensures
        parse(wire(m)) == Ok::<MessageView, DecodeError>(m),
{
    lemma_auto_spec_u32_to_from_le_bytes();
    let b = wire(m);
    let tag_bytes = spec_u32_to_le_bytes(command_tag(m.cmd));
    assert(b.subrange(0, 4) =~= tag_bytes);
    assert(b.subrange(4, b.len() as int) =~= wire_text(m.key) + (wire_text(m.value) + Seq::<
        u8,
    >::empty()));
    lemma_parse_wire_text(m.key, wire_text(m.value) + Seq::<u8>::empty());
    lemma_parse_wire_text(m.value, Seq::<u8>::empty());
}

/// Decoding accepts only exact encodings: whatever a byte sequence decodes
/// to, encoding it again gives that byte sequence.
pub proof fn lemma_decode_exact(b: Seq<u8>)
    requires
        parse(b) is Ok,
    ensures
        encodable(parse(b)->Ok_0),
        wire(parse(b)->Ok_0) == b,
{
    lemma_auto_spec_u32_to_from_le_bytes();
    let m = parse(b)->Ok_0;
    let rest0 = b.subrange(4, b.len() as int);
    lemma_wire_of_parse_text(rest0);
    let rest1 = parse_text(rest0)->Ok_0.1;
    lemma_wire_of_parse_text(rest1);
    assert(spec_u32_to_le_bytes(command_tag(m.cmd)) == b.subrange(0, 4));
    assert(b =~= b.subrange(0, 4) + rest0);
    assert(wire(m) =~= b);
}

} // verus!
