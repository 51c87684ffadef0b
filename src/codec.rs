//! The request frame: a 17-byte header, then the key, then (for SET only)
//! the value.
//!
//! ```text
//! byte 0        command tag
//! bytes 1..9    key length, big-endian u64
//! bytes 9..17   value length, big-endian u64
//! ```

use vstd::prelude::*;

use crate::command::{Command, ProtocolError};

verus! {

/// Size of the fixed header that opens every request.
pub const HEADER_LEN: usize = 17;

/// The eight bytes of `n`, most significant first.
pub open spec fn be_bytes(n: u64) -> Seq<u8> {
    seq![
        (n >> 56u64) as u8,
        (n >> 48u64) as u8,
        (n >> 40u64) as u8,
        (n >> 32u64) as u8,
        (n >> 24u64) as u8,
        (n >> 16u64) as u8,
        (n >> 8u64) as u8,
        n as u8,
    ]
}

/// The number whose big-endian form is the first eight bytes of `b`.
pub open spec fn be_value(b: Seq<u8>) -> u64
    recommends
        b.len() >= 8,
{
    (b[0] as u64) << 56u64 | (b[1] as u64) << 48u64 | (b[2] as u64) << 40u64 | (b[3] as u64)
        << 32u64 | (b[4] as u64) << 24u64 | (b[5] as u64) << 16u64 | (b[6] as u64) << 8u64 | (
    b[7] as u64)
}

/// Reading back the big-endian form of a number gives the number.
pub proof fn lemma_be_round_trip(n: u64)
    ensures
        be_value(be_bytes(n)) == n,
{
    let b = be_bytes(n);
    assert((((n >> 56u64) as u8) as u64) << 56u64 | (((n >> 48u64) as u8) as u64) << 48u64 | (((n
        >> 40u64) as u8) as u64) << 40u64 | (((n >> 32u64) as u8) as u64) << 32u64 | (((n
        >> 24u64) as u8) as u64) << 24u64 | (((n >> 16u64) as u8) as u64) << 16u64 | (((n
        >> 8u64) as u8) as u64) << 8u64 | ((n as u8) as u64) == n) by (bit_vector);
}

/// The command whose tag is `t`, if any.
pub open spec fn tag_command(t: u8) -> Option<Command> {
    if t == 0 {
        Some(Command::SET)
    } else if t == 1 {
        Some(Command::GET)
    } else if t == 2 {
        Some(Command::DEL)
    } else {
        None
    }
}

/// A decoded request header.
#[derive(Copy, Clone, Debug, PartialEq, Eq, Structural)]
pub struct Header {
    pub command: Command,
    pub key_len: u64,
    pub val_len: u64,
}

impl Header {
    /// How many body bytes follow this header: the key, and the value for SET.
    pub open spec fn body_len(self) -> int {
        self.key_len + if self.command == Command::SET {
            self.val_len as int
        } else {
            0
        }
    }
}

/// What a 17-byte header says.
pub open spec fn header_spec(h: Seq<u8>) -> Result<Header, ProtocolError> {
    match tag_command(h[0]) {
        Some(c) => Ok(
            Header {
                command: c,
                key_len: be_value(h.subrange(1, 9)),
                val_len: be_value(h.subrange(9, 17)),
            },
        ),
        None => Err(ProtocolError::InvalidCommand),
    }
}

/// The bytes of the request `(cmd, key, value)`. The header always carries
/// the value's length; the value itself follows only for SET.
pub open spec fn frame(cmd: Command, key: Seq<u8>, value: Seq<u8>) -> Seq<u8> {
    seq![cmd.tag()] + be_bytes(key.len() as u64) + be_bytes(value.len() as u64) + key + if cmd
        == Command::SET {
        value
    } else {
        Seq::empty()
    }
}

/// What a request decodes to: its command, key and value, and the number of
/// bytes that it took up.
pub open spec fn decode_spec(b: Seq<u8>) -> Result<(Command, Seq<u8>, Seq<u8>, int), ProtocolError> {
    if b.len() < HEADER_LEN {
        Err(ProtocolError::Truncated)
    } else {
        match header_spec(b.subrange(0, HEADER_LEN as int)) {
            Err(e) => Err(e),
            Ok(h) => {
                let key_end = HEADER_LEN + h.key_len;
                let end = HEADER_LEN + h.body_len();
                if b.len() < end {
                    Err(ProtocolError::Truncated)
                } else {
                    Ok(
                        (
                            h.command,
                            b.subrange(HEADER_LEN as int, key_end),
                            b.subrange(key_end, end),
                            end,
                        ),
                    )
                }
            },
        }
    }
}

/// One request: the operation, its key, and its value (empty but for SET).
#[derive(Clone, Debug, PartialEq, Eq)]
pub struct Request {
    pub command: Command,
    pub key: Vec<u8>,
    pub value: Vec<u8>,
}

/// Appends the big-endian form of `n`.
fn put_u64_be(out: &mut Vec<u8>, n: u64)
    ensures
        final(out)@ == old(out)@ + be_bytes(n),
{
    out.push((n >> 56u64) as u8);
    out.push((n >> 48u64) as u8);
    out.push((n >> 40u64) as u8);
    out.push((n >> 32u64) as u8);
    out.push((n >> 24u64) as u8);
    out.push((n >> 16u64) as u8);
    out.push((n >> 8u64) as u8);
    out.push(n as u8);
    assert(out@ =~= old(out)@ + be_bytes(n));
}

/// Reads the big-endian number at `b[at..at + 8]`.
fn get_u64_be(b: &[u8], at: usize) -> (r: u64)
    requires
        at + 8 <= b@.len(),
    ensures
        r == be_value(b@.subrange(at as int, at + 8)),
{
    let s = Ghost(b@.subrange(at as int, at + 8));
    assert(s@[0] == b@[at as int] && s@[7] == b@[at + 7]);
    (b[at] as u64) << 56u64 | (b[at + 1] as u64) << 48u64 | (b[at + 2] as u64) << 40u64 | (b[at
        + 3] as u64) << 32u64 | (b[at + 4] as u64) << 24u64 | (b[at + 5] as u64) << 16u64 | (b[at
        + 6] as u64) << 8u64 | (b[at + 7] as u64)
}

/// Appends every byte of `src`.
pub(crate) fn put_bytes(out: &mut Vec<u8>, src: &[u8])
    ensures
        final(out)@ == old(out)@ + src@,
{
    let ghost start = out@;
    let mut i: usize = 0;
    while i < src.len()
        invariant
            i <= src@.len(),
            out@ == start + src@.subrange(0, i as int),
        decreases src@.len() - i,
    {
        out.push(src[i]);
        i += 1;
        assert(out@ =~= start + src@.subrange(0, i as int));
    }
    assert(src@.subrange(0, i as int) =~= src@);
}

/// A fresh vector holding `b[from..to]`.
pub fn copy_range(b: &[u8], from: usize, to: usize) -> (r: Vec<u8>)
    requires
        from <= to <= b@.len(),
    ensures
        r@ == b@.subrange(from as int, to as int),
{
    let mut r: Vec<u8> = Vec::new();
    let mut i: usize = from;
    while i < to
        invariant
            from <= i <= to <= b@.len(),
            r@ == b@.subrange(from as int, i as int),
        decreases to - i,
    {
        r.push(b[i]);
        i += 1;
        assert(r@ =~= b@.subrange(from as int, i as int));
    }
    r
}

/// Encodes the request `(cmd, key, value)`: the command tag, the key's
/// length, the value's length, the key, and for SET the value.
pub fn encode(cmd: Command, key: &[u8], value: &[u8]) -> (r: Vec<u8>)
    ensures
        r@ == frame(cmd, key@, value@),
{
    let mut out: Vec<u8> = Vec::new();
    out.push(Command::to_byte(cmd));
    put_u64_be(&mut out, key.len() as u64);
    put_u64_be(&mut out, value.len() as u64);
    put_bytes(&mut out, key);
    if cmd == Command::SET {
        put_bytes(&mut out, value);
    }
    assert(out@ =~= frame(cmd, key@, value@));
    out
}

/// Builds the request that the client sends for `cmd` on `key`: the value
/// travels, and is counted in the header, only for SET.
pub fn prepare_command(cmd: Command, key: &[u8], value: &[u8]) -> (r: Vec<u8>)
    ensures
        r@ == frame(
            cmd,
            key@,
            if cmd == Command::SET {
                value@
            } else {
                Seq::empty()
            },
        ),
{
    if cmd == Command::SET {
        encode(cmd, key, value)
    } else {
        let none: Vec<u8> = Vec::new();
        encode(cmd, key, none.as_slice())
    }
}

/// Decodes a request header: the command tag, the key length and the value
/// length. The body is not read here.
pub fn decode_header(h: &[u8]) -> (r: Result<Header, ProtocolError>)
    requires
        h@.len() == HEADER_LEN,
    ensures
        r == header_spec(h@),
{
    let command = match Command::from_byte(h[0]) {
        Ok(c) => c,
        Err(e) => return Err(e),
    };
    let key_len = get_u64_be(h, 1);
    let val_len = get_u64_be(h, 9);
    Ok(Header { command, key_len, val_len })
}

/// Decodes the request at the start of `b`, returning it with the number of
/// bytes that it took up. Bytes after the request are left alone.
pub fn decode(b: &[u8]) -> (r: Result<(Request, usize), ProtocolError>)
    ensures
        match r {
            Ok((req, n)) => decode_spec(b@) == Ok::<_, ProtocolError>(
                (req.command, req.key@, req.value@, n as int),
            ),
            Err(e) => decode_spec(b@) == Err::<(Command, Seq<u8>, Seq<u8>, int), _>(e),
        },
{
    if b.len() < HEADER_LEN {
        return Err(ProtocolError::Truncated);
    }
    let h = copy_range(b, 0, HEADER_LEN);
    let header = match decode_header(h.as_slice()) {
        Ok(hd) => hd,
        Err(e) => return Err(e),
    };
    let rest = b.len() - HEADER_LEN;
    if header.key_len > rest as u64 {
        return Err(ProtocolError::Truncated);
    }
    let key_end = HEADER_LEN + header.key_len as usize;
    let key = copy_range(b, HEADER_LEN, key_end);
    let mut end = key_end;
    if header.command == Command::SET {
        if header.val_len > (b.len() - key_end) as u64 {
            return Err(ProtocolError::Truncated);
        }
        end = key_end + header.val_len as usize;
    }
    let value = copy_range(b, key_end, end);
    Ok((Request { command: header.command, key, value }, end))
}

} // verus!
