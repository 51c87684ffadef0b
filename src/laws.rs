//! Laws that relate the codec's functions to each other and the store's
//! operations to each other.

use vstd::prelude::*;
use vstd::string::StringSliceAdditionalSpecFns;

use crate::codec::{
    be_bytes, be_value, decode_spec, frame, header_spec, lemma_be_round_trip, tag_command,
    HEADER_LEN,
};
use crate::command::{Command, ProtocolError};
use crate::handler::{apply, del_miss, get_miss, reply};

verus! {

/// The contents after running `ops`, each a command, a key and a value, in
/// order.
pub open spec fn run(
    m: Map<Seq<u8>, Seq<u8>>,
    ops: Seq<(Command, Seq<u8>, Seq<u8>)>,
) -> Map<Seq<u8>, Seq<u8>>
    decreases ops.len(),
{
    if ops.len() == 0 {
        m
    } else {
        run(apply(m, ops[0].0, ops[0].1, ops[0].2), ops.drop_first())
    }
}

proof fn lemma_tag_command(c: Command)
    ensures
        tag_command(c.tag()) == Some(c),
{
}

/// Decoding an encoded request gives back its command, its key and, for SET,
/// its value (the value of GET and DEL does not travel), and takes up exactly
/// the encoded bytes. Empty keys and values included.
pub proof fn lemma_decode_encode(c: Command, k: Seq<u8>, v: Seq<u8>)
    requires
        k.len() <= u64::MAX,
        v.len() <= u64::MAX,
    ensures
        decode_spec(frame(c, k, v)) == Ok::<_, ProtocolError>(
            (
                c,
                k,
                if c == Command::SET {
                    v
                } else {
                    Seq::empty()
                },
                frame(c, k, v).len() as int,
            ),
        ),
{
    let f = frame(c, k, v);
    let kl = k.len() as u64;
    let vl = v.len() as u64;
    let h = f.subrange(0, HEADER_LEN as int);
    assert(h.subrange(1, 9) =~= be_bytes(kl));
    assert(h.subrange(9, 17) =~= be_bytes(vl));
    lemma_be_round_trip(kl);
    lemma_be_round_trip(vl);
    lemma_tag_command(c);
    assert(h[0] == c.tag());
    let key_end = HEADER_LEN + kl;
    assert(f.subrange(HEADER_LEN as int, key_end) =~= k);
    if c == Command::SET {
        assert(f.subrange(key_end, f.len() as int) =~= v);
    } else {
        assert(f.subrange(key_end, f.len() as int) =~= Seq::<u8>::empty());
    }
}

/// A header whose command tag is 3 or more is refused as an unknown command,
/// and so is any request that opens with such a header.
pub proof fn lemma_unknown_tag_refused(b: Seq<u8>)
    requires
        b.len() >= HEADER_LEN,
        b[0] >= 3,
    ensures
        header_spec(b.subrange(0, HEADER_LEN as int)) == Err::<
            crate::codec::Header,
            _,
        >(ProtocolError::InvalidCommand),
        decode_spec(b) == Err::<(Command, Seq<u8>, Seq<u8>, int), _>(
            ProtocolError::InvalidCommand,
        ),
{
}

/// Requests that are GETs or that name other keys leave the entry of `k`
/// as it was.
pub proof fn lemma_run_keeps_key(
    m: Map<Seq<u8>, Seq<u8>>,
    k: Seq<u8>,
    ops: Seq<(Command, Seq<u8>, Seq<u8>)>,
)
    requires
        forall|i: int| 0 <= i < ops.len() ==> (#[trigger] ops[i]).0 == Command::GET || ops[i].1 != k,
    ensures
        run(m, ops).contains_key(k) == m.contains_key(k),
        m.contains_key(k) ==> run(m, ops)[k] == m[k],
    decreases ops.len(),
{
    if ops.len() > 0 {
        let rest = ops.drop_first();
        assert forall|i: int| 0 <= i < rest.len() implies (#[trigger] rest[i]).0 == Command::GET
            || rest[i].1 != k by {
            assert(rest[i] == ops[i + 1]);
        }
        lemma_run_keeps_key(apply(m, ops[0].0, ops[0].1, ops[0].2), k, rest);
    }
}

/// After a SET of `k` to `v`, a GET of `k` answers `v`, whatever GETs and
/// whatever requests on other keys came between.
pub proof fn lemma_set_then_get(
    m: Map<Seq<u8>, Seq<u8>>,
    k: Seq<u8>,
    v: Seq<u8>,
    ops: Seq<(Command, Seq<u8>, Seq<u8>)>,
)
    requires
        forall|i: int| 0 <= i < ops.len() ==> (#[trigger] ops[i]).0 == Command::GET || ops[i].1 != k,
    ensures
        reply(run(apply(m, Command::SET, k, v), ops), Command::GET, k) == v,
{
    lemma_run_keeps_key(apply(m, Command::SET, k, v), k, ops);
}

/// A GET of a key that is not stored answers the miss message that names the
/// key, and changes nothing.
pub proof fn lemma_get_absent(m: Map<Seq<u8>, Seq<u8>>, k: Seq<u8>, v: Seq<u8>)
    requires
        !m.contains_key(k),
    ensures
        reply(m, Command::GET, k) == get_miss(k),
        exists|pre: Seq<u8>, post: Seq<u8>| get_miss(k) == pre + k + post,
        apply(m, Command::GET, k, v) == m,
{
    let pre = "GET Error: No key matching \"".spec_bytes();
    let post = "\"\n".spec_bytes();
    assert(get_miss(k) == pre + k + post);
}

/// A DEL of a key that is not stored answers the miss message that names the
/// key and changes nothing; a DEL of a stored key removes it, so that a GET
/// of it then misses.
pub proof fn lemma_delete(m: Map<Seq<u8>, Seq<u8>>, k: Seq<u8>, v: Seq<u8>)
    ensures
        !m.contains_key(k) ==> reply(m, Command::DEL, k) == del_miss(k) && apply(
            m,
            Command::DEL,
            k,
            v,
        ) == m,
        !apply(m, Command::DEL, k, v).contains_key(k),
        reply(apply(m, Command::DEL, k, v), Command::GET, k) == get_miss(k),
{
    if !m.contains_key(k) {
        assert(m.remove(k) =~= m);
    }
}

/// A second SET of a key replaces the first: a GET then answers the second
/// value.
pub proof fn lemma_set_overwrites(m: Map<Seq<u8>, Seq<u8>>, k: Seq<u8>, v1: Seq<u8>, v2: Seq<u8>)
    ensures
        reply(apply(apply(m, Command::SET, k, v1), Command::SET, k, v2), Command::GET, k) == v2,
{
}

} // verus!
