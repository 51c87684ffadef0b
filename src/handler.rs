//! The per-connection request interpreter, as a state machine.
//!
//! The caller owns the stream. It starts by reading a header (up to
//! [`HEADER_LEN`] bytes, fewer only where the stream ended) and hands what it
//! read to [`step`]; from then on it does what each [`Action`] says and hands
//! the bytes that a read produced to the next call of [`step`].

use vstd::prelude::*;
use vstd::string::*;

use crate::codec::{copy_range, decode_header, header_spec, put_bytes, Header, HEADER_LEN};
use crate::command::{Command, ProtocolError};
use crate::store::Store;

verus! {

/// Where a connection stands between two reads.
#[derive(Clone, Debug, PartialEq, Eq)]
pub enum Phase {
    /// Waiting for the next request header.
    AwaitHeader,
    /// A header was read; its key comes next.
    AwaitKey { header: Header },
    /// The key of a SET was read; its value comes next.
    AwaitValue { key: Vec<u8>, val_len: u64 },
    /// The connection is over, cleanly or not.
    Closed,
}

/// What the caller is to do next with the stream.
#[derive(Clone, Debug, PartialEq, Eq)]
pub enum Action {
    /// Read exactly this many bytes (fewer only where the stream ends).
    ReadBody(u64),
    /// Write these bytes back, then read the next header.
    Reply(Vec<u8>),
    /// Write these bytes back, discard whatever is pending on the stream,
    /// then read the next header.
    ReplyAndDrain(Vec<u8>),
    /// The client closed the connection between two requests.
    Close,
    /// The connection failed and is to be torn down.
    Abort(ProtocolError),
}

/// The acknowledgment of a SET.
pub open spec fn insert_ack() -> Seq<u8> {
    "Insertion successful\n".spec_bytes()
}

/// The acknowledgment of a DEL that removed a key.
pub open spec fn delete_ack() -> Seq<u8> {
    "Deletion successful".spec_bytes()
}

/// The reply to a header whose command tag is unknown.
pub open spec fn invalid_command_reply() -> Seq<u8> {
    "An error occurred: Unknown command".spec_bytes()
}

/// The reply to a GET of a key that is not stored; it names the key.
pub open spec fn get_miss(key: Seq<u8>) -> Seq<u8> {
    "GET Error: No key matching \"".spec_bytes() + key + "\"\n".spec_bytes()
}

/// The reply to a DEL of a key that is not stored; it names the key.
pub open spec fn del_miss(key: Seq<u8>) -> Seq<u8> {
    "DEL Error: No key matching \"".spec_bytes() + key + "\"\n".spec_bytes()
}

/// The contents after `command` runs on `key` (and, for SET, `value`).
pub open spec fn apply(
    m: Map<Seq<u8>, Seq<u8>>,
    command: Command,
    key: Seq<u8>,
    value: Seq<u8>,
) -> Map<Seq<u8>, Seq<u8>> {
    match command {
        Command::SET => m.insert(key, value),
        Command::GET => m,
        Command::DEL => m.remove(key),
    }
}

/// The reply to `command` on `key` against the contents `m` as they were
/// before it ran.
pub open spec fn reply(m: Map<Seq<u8>, Seq<u8>>, command: Command, key: Seq<u8>) -> Seq<u8> {
    match command {
        Command::SET => insert_ack(),
        Command::GET => if m.contains_key(key) {
            m[key]
        } else {
            get_miss(key)
        },
        Command::DEL => if m.contains_key(key) {
            delete_ack()
        } else {
            del_miss(key)
        },
    }
}

/// The error text for an unknown command tag.
fn invalid_command_message() -> (r: Vec<u8>)
    ensures
        r@ == invalid_command_reply(),
{
    "An error occurred: Unknown command".as_bytes_vec()
}

/// The miss message of a GET or a DEL, naming the key.
fn miss_message(is_get: bool, key: &[u8]) -> (r: Vec<u8>)
    ensures
        r@ == if is_get {
            get_miss(key@)
        } else {
            del_miss(key@)
        },
{
    let mut r = if is_get {
        "GET Error: No key matching \"".as_bytes_vec()
    } else {
        "DEL Error: No key matching \"".as_bytes_vec()
    };
    put_bytes(&mut r, key);
    let tail = "\"\n".as_bytes_vec();
    put_bytes(&mut r, tail.as_slice());
    r
}

/// Runs one request against the store and builds the reply. For SET the
/// value is stored under the key; GET and DEL ignore `value`.
pub fn execute(store: &mut Store, command: Command, key: Vec<u8>, value: Vec<u8>) -> (r: Vec<u8>)
    requires
        old(store).wf(),
    ensures
        final(store).wf(),
        r@ == reply(old(store)@, command, key@),
        final(store)@ == apply(old(store)@, command, key@, value@),
{
    match command {
        Command::SET => {
            store.set(key, value);
            "Insertion successful\n".as_bytes_vec()
        },
        Command::GET => {
            match store.get(key.as_slice()) {
                Some(v) => copy_range(v.as_slice(), 0, v.len()),
                None => miss_message(true, key.as_slice()),
            }
        },
        Command::DEL => {
            if store.delete(key.as_slice()) {
                "Deletion successful".as_bytes_vec()
            } else {
                miss_message(false, key.as_slice())
            }
        },
    }
}

/// Moves a connection on by one read. `input` holds the bytes that the last
/// read produced: a header read in phase `AwaitHeader`, else a body read.
/// Only the first header's or body's worth of `input` is looked at.
pub fn step(phase: Phase, store: &mut Store, input: Vec<u8>) -> (r: (Phase, Action))
    requires
        old(store).wf(),
    ensures
        final(store).wf(),
        ({
            let b = input@;
            let m = old(store)@;
            let s = final(store)@;
            match phase {
                Phase::AwaitHeader => if b.len() == 0 {
                    r == (Phase::Closed, Action::Close) && s == m
                } else if b.len() < HEADER_LEN {
                    r == (Phase::Closed, Action::Abort(ProtocolError::Truncated)) && s == m
                } else {
                    match header_spec(b.subrange(0, HEADER_LEN as int)) {
                        Ok(h) => r == (Phase::AwaitKey { header: h }, Action::ReadBody(h.key_len))
                            && s == m,
                        Err(_) => r.0 == Phase::AwaitHeader && r.1 is ReplyAndDrain
                            && r.1->ReplyAndDrain_0@ == invalid_command_reply() && s == m,
                    }
                },
                Phase::AwaitKey { header: h } => if b.len() < h.key_len {
                    r == (Phase::Closed, Action::Abort(ProtocolError::Truncated)) && s == m
                } else {
                    let k = b.subrange(0, h.key_len as int);
                    match h.command {
                        Command::SET => r.0 is AwaitValue && r.0->AwaitValue_key@ == k
                            && r.0->AwaitValue_val_len == h.val_len && r.1 == Action::ReadBody(
                            h.val_len,
                        ) && s == m,
                        Command::GET => r.0 == Phase::AwaitHeader && r.1 is Reply
                            && r.1->Reply_0@ == reply(m, Command::GET, k) && s == m,
                        Command::DEL => r.0 == Phase::AwaitHeader && r.1 is Reply
                            && r.1->Reply_0@ == reply(m, Command::DEL, k) && s == m.remove(k),
                    }
                },
                Phase::AwaitValue { key, val_len } => if b.len() < val_len {
                    r == (Phase::Closed, Action::Abort(ProtocolError::Truncated)) && s == m
                } else {
                    r.0 == Phase::AwaitHeader && r.1 is Reply && r.1->Reply_0@ == insert_ack()
                        && s == m.insert(key@, b.subrange(0, val_len as int))
                },
                Phase::Closed => r == (Phase::Closed, Action::Close) && s == m,
            }
        }),
{
    match phase {
        Phase::AwaitHeader => {
            if input.len() == 0 {
                return (Phase::Closed, Action::Close);
            }
            if input.len() < HEADER_LEN {
                return (Phase::Closed, Action::Abort(ProtocolError::Truncated));
            }
            let h = copy_range(input.as_slice(), 0, HEADER_LEN);
            match decode_header(h.as_slice()) {
                Ok(header) => (Phase::AwaitKey { header }, Action::ReadBody(header.key_len)),
                Err(_) => (Phase::AwaitHeader, Action::ReplyAndDrain(invalid_command_message())),
            }
        },
        Phase::AwaitKey { header } => {
            if (input.len() as u64) < header.key_len {
                return (Phase::Closed, Action::Abort(ProtocolError::Truncated));
            }
            let key = copy_range(input.as_slice(), 0, header.key_len as usize);
            match header.command {
                Command::SET => (
                    Phase::AwaitValue { key, val_len: header.val_len },
                    Action::ReadBody(header.val_len),
                ),
                _ => {
                    let reply = execute(store, header.command, key, Vec::new());
                    (Phase::AwaitHeader, Action::Reply(reply))
                },
            }
        },
        Phase::AwaitValue { key, val_len } => {
            if (input.len() as u64) < val_len {
                return (Phase::Closed, Action::Abort(ProtocolError::Truncated));
            }
            let value = copy_range(input.as_slice(), 0, val_len as usize);
            let reply = execute(store, Command::SET, key, value);
            (Phase::AwaitHeader, Action::Reply(reply))
        },
        Phase::Closed => (Phase::Closed, Action::Close),
    }
}

} // verus!
