//! Chunk framing: a message payload travels as a run of
//! length-prefixed chunks closed by a zero-length terminator chunk.
//!
//! Each chunk is a two-byte big-endian length followed by that many
//! payload bytes; no data chunk exceeds [`crate::MAX_CHUNK_SIZE`] bytes.
//! An empty payload is a single terminator. [`lemma_chunk_conservation`]
//! shows that the chunk lengths add up to exactly the payload length and
//! that every frame ends with the terminator; [`lemma_unchunk_chunked`]
//! shows that reassembly inverts framing.
use vstd::prelude::*;
use vstd::string::StringExecFns;
use crate::codec::{be, be_val, lemma_be_len, lemma_be_val_be, lemma_pow256_values};
use crate::encode::push_be;
use crate::errors::Error;
use crate::MAX_CHUNK_SIZE;

verus! {

/// The payload lengths of the data chunks a payload is split into.
pub open spec fn chunk_sizes(p: Seq<u8>) -> Seq<nat>
    decreases p.len(),
{
    if p.len() == 0 {
        Seq::empty()
    } else if p.len() <= MAX_CHUNK_SIZE {
        seq![p.len()]
    } else {
        seq![MAX_CHUNK_SIZE as nat] + chunk_sizes(p.skip(MAX_CHUNK_SIZE as int))
    }
}

/// The sum of a sequence of lengths.
pub open spec fn sum_sizes(s: Seq<nat>) -> nat
    decreases s.len(),
{
    if s.len() == 0 {
        0
    } else {
        s.first() + sum_sizes(s.drop_first())
    }
}

/// The framed image of a payload: its data chunks, each with a two-byte
/// big-endian length prefix, closed by the zero-length terminator.
pub open spec fn chunked(p: Seq<u8>) -> Seq<u8>
    decreases p.len(),
{
    if p.len() == 0 {
        seq![0u8, 0u8]
    } else if p.len() <= MAX_CHUNK_SIZE {
        be(p.len(), 2) + p + seq![0u8, 0u8]
    } else {
        be(MAX_CHUNK_SIZE as nat, 2) + p.take(MAX_CHUNK_SIZE as int) + chunked(
            p.skip(MAX_CHUNK_SIZE as int),
        )
    }
}

/// Reassembles one message from the front of a chunk stream: the payload
/// and how many input bytes its frame took.
pub open spec fn unchunk(s: Seq<u8>) -> Option<(Seq<u8>, nat)>
    decreases s.len(),
{
    if s.len() < 2 {
        None
    } else {
        let n = be_val(s.take(2));
        if n == 0 {
            Some((Seq::empty(), 2))
        } else if s.len() >= 2 + n {
            match unchunk(s.skip(2 + n as int)) {
                Some((p, k)) => Some((s.subrange(2, 2 + n as int) + p, 2 + n + k)),
                None => None,
            }
        } else {
            None
        }
    }
}

/// No payload byte is lost or invented by framing: the chunk lengths of a
/// payload add up to exactly its length, and the frame closes with the
/// zero-length terminator.
pub proof fn lemma_chunk_conservation(p: Seq<u8>)
    ensures
        sum_sizes(chunk_sizes(p)) == p.len(),
        chunked(p).len() >= 2,
        chunked(p).subrange(chunked(p).len() - 2, chunked(p).len() as int) =~= seq![0u8, 0u8],
    decreases p.len(),
{
    lemma_be_len(p.len(), 2);
    lemma_be_len(MAX_CHUNK_SIZE as nat, 2);
    if p.len() == 0 {
    } else if p.len() <= MAX_CHUNK_SIZE {
        assert(chunk_sizes(p).first() == p.len());
        assert(chunk_sizes(p).drop_first() =~= Seq::<nat>::empty());
        assert(sum_sizes(Seq::<nat>::empty()) == 0);
    } else {
        lemma_chunk_conservation(p.skip(MAX_CHUNK_SIZE as int));
        assert(chunk_sizes(p).first() == MAX_CHUNK_SIZE as nat);
        assert(chunk_sizes(p).drop_first() =~= chunk_sizes(p.skip(MAX_CHUNK_SIZE as int)));
        let tail = chunked(p.skip(MAX_CHUNK_SIZE as int));
        assert(chunked(p).subrange(chunked(p).len() - 2, chunked(p).len() as int) =~= tail.subrange(
            tail.len() - 2,
            tail.len() as int,
        ));
    }
}

/// A payload of exactly one chunk's capacity travels as one data chunk;
/// one byte more takes a second chunk of one byte.
pub proof fn lemma_chunk_boundary(p: Seq<u8>)
    ensures
        p.len() == MAX_CHUNK_SIZE ==> chunk_sizes(p) =~= seq![MAX_CHUNK_SIZE as nat],
        p.len() == MAX_CHUNK_SIZE + 1 ==> chunk_sizes(p) =~= seq![MAX_CHUNK_SIZE as nat, 1nat],
{
    if p.len() == MAX_CHUNK_SIZE + 1 {
        assert(p.skip(MAX_CHUNK_SIZE as int).len() == 1);
        assert(chunk_sizes(p.skip(MAX_CHUNK_SIZE as int)) =~= seq![1nat]);
    }
}

/// Reassembly inverts framing: the frame of a payload, followed by
/// anything, reads back as that payload, consuming exactly the frame.
pub proof fn lemma_unchunk_chunked(p: Seq<u8>, rest: Seq<u8>)
    ensures
        unchunk(chunked(p) + rest) == Some((p, chunked(p).len() as nat)),
    decreases p.len(),
{
    let s = chunked(p) + rest;
    lemma_pow256_values();
    if p.len() == 0 {
        assert(s.take(2) =~= seq![0u8, 0u8]);
        assert(seq![0u8, 0u8].drop_last() =~= seq![0u8]);
        assert(seq![0u8].drop_last() =~= Seq::<u8>::empty());
        reveal_with_fuel(be_val, 3);
        assert(be_val(s.take(2)) == 0);
        assert(p =~= Seq::<u8>::empty());
    } else if p.len() <= MAX_CHUNK_SIZE {
        lemma_be_len(p.len(), 2);
        assert(s.take(2) =~= be(p.len(), 2));
        lemma_be_val_be(p.len(), 2);
        let n = p.len();
        assert(s.len() >= 2 + n);
        assert(s.skip(2 + n as int) =~= seq![0u8, 0u8] + rest);
        assert((seq![0u8, 0u8] + rest).take(2) =~= seq![0u8, 0u8]);
        assert(seq![0u8, 0u8].drop_last() =~= seq![0u8]);
        assert(seq![0u8].drop_last() =~= Seq::<u8>::empty());
        reveal_with_fuel(be_val, 3);
        assert(be_val((seq![0u8, 0u8] + rest).take(2)) == 0);
        assert(unchunk(s.skip(2 + n as int)) == Some((Seq::<u8>::empty(), 2nat)));
        assert(s.subrange(2, 2 + n as int) =~= p);
        assert(s.subrange(2, 2 + n as int) + Seq::<u8>::empty() =~= p);
    } else {
        let m = MAX_CHUNK_SIZE as nat;
        lemma_be_len(m, 2);
        assert(s.take(2) =~= be(m, 2));
        lemma_be_val_be(m, 2);
        lemma_chunk_conservation(p.skip(m as int));
        assert(s.len() >= 2 + m);
        assert(s.skip(2 + m as int) =~= chunked(p.skip(m as int)) + rest);
        lemma_unchunk_chunked(p.skip(m as int), rest);
        assert(s.subrange(2, 2 + m as int) =~= p.take(m as int));
        assert(p.take(m as int) + p.skip(m as int) =~= p);
    }
}

/// Frames a payload for the wire: exactly [`chunked`] of it.
#[verifier::loop_isolation(false)]
pub fn chunk_message(payload: &Vec<u8>) -> (out: Vec<u8>)
    ensures
        out@ == chunked(payload@),
{
    let mut out: Vec<u8> = Vec::new();
    let mut offset: usize = 0;
    assert(payload@.skip(0) =~= payload@);
    assert(out@ + chunked(payload@) =~= chunked(payload@));
    while payload.len() - offset > MAX_CHUNK_SIZE
        invariant
            offset <= payload.len(),
            chunked(payload@) == out@ + chunked(payload@.skip(offset as int)),
        decreases payload.len() - offset,
    {
        push_be(&mut out, MAX_CHUNK_SIZE as u64, 2);
        push_range(&mut out, payload, offset, MAX_CHUNK_SIZE);
        proof {
            let t = payload@.skip(offset as int);
            assert(t.take(MAX_CHUNK_SIZE as int) =~= payload@.subrange(
                offset as int,
                offset + MAX_CHUNK_SIZE,
            ));
            assert(t.skip(MAX_CHUNK_SIZE as int) =~= payload@.skip(
                offset + MAX_CHUNK_SIZE,
            ));
            assert(chunked(payload@) =~= out@ + chunked(
                payload@.skip(offset + MAX_CHUNK_SIZE),
            ));
        }
        offset = offset + MAX_CHUNK_SIZE;
    }
    let remaining = payload.len() - offset;
    if remaining > 0 {
        push_be(&mut out, remaining as u64, 2);
        push_range(&mut out, payload, offset, remaining);
        proof {
            let t = payload@.skip(offset as int);
            assert(t =~= payload@.subrange(offset as int, offset + remaining));
        }
    }
    out.push(0);
    out.push(0);
    proof {
        let t = payload@.skip(offset as int);
        if remaining == 0 {
            assert(t.len() == 0);
            assert(out@ =~= chunked(payload@));
        } else {
            assert(out@ =~= chunked(payload@));
        }
    }
    out
}

/// Appends the bytes of `src` from `pos` for `len`.
fn push_range(out: &mut Vec<u8>, src: &Vec<u8>, pos: usize, len: usize)
    requires
        pos + len <= src@.len(),
    ensures
        final(out)@ == old(out)@ + src@.subrange(pos as int, pos + len),
{
    let n = src.len();
    let mut i: usize = 0;
    while i < len
        invariant
            n == src@.len(),
            pos + len <= n,
            i <= len,
            out@ == old(out)@ + src@.subrange(pos as int, pos + i),
        decreases len - i,
    {
        out.push(src[pos + i]);
        proof {
            assert(out@ =~= old(out)@ + src@.subrange(pos as int, pos + i + 1));
        }
        i = i + 1;
    }
    assert(final(out)@ =~= old(out)@ + src@.subrange(pos as int, pos + len));
}

/// Reassembles one message frame starting at `pos`, exactly as
/// [`unchunk`] reads it: the payload and how many bytes the frame took.
/// A stream that ends inside a chunk is refused.
pub fn unchunk_message(s: &Vec<u8>, pos: usize) -> (r: Result<(Vec<u8>, usize), Error>)
    requires
        pos <= s@.len(),
    ensures
        ({
            match unchunk(s@.skip(pos as int)) {
                Some(p) => r matches Ok(q) && q.0@ == p.0 && q.1 == p.1 && pos + p.1 <= s@.len(),
                None => r matches Err(e) && e is DeserializationError,
            }
        }),
{
    let n = s.len();
    let mut acc: Vec<u8> = Vec::new();
    let mut cur: usize = pos;
    loop
        invariant
            n == s@.len(),
            pos <= cur <= n,
            ({
                match unchunk(s@.skip(cur as int)) {
                    Some(p2) => unchunk(s@.skip(pos as int)) == Some(
                        (acc@ + p2.0, ((cur - pos) + p2.1) as nat),
                    ),
                    None => unchunk(s@.skip(pos as int)) is None,
                }
            }),
        decreases n - cur,
    {
        if n - cur < 2 {
            return Err(
                Error::DeserializationError(
                    String::from_str("chunk stream ended inside a frame"),
                ),
            );
        }
        let len = read_be2(s, cur);
        proof {
            assert(s@.skip(cur as int).take(2) =~= s@.subrange(cur as int, cur + 2));
        }
        if len == 0 {
            proof {
                assert(acc@ + Seq::<u8>::empty() =~= acc@);
            }
            return Ok((acc, cur + 2 - pos));
        }
        let len = len as usize;
        if n - cur - 2 < len {
            return Err(
                Error::DeserializationError(
                    String::from_str("chunk stream ended inside a frame"),
                ),
            );
        }
        let ghost old_acc = acc@;
        push_range(&mut acc, s, cur + 2, len);
        proof {
            let t = s@.skip(cur as int);
            assert(t.subrange(2, 2 + len as int) =~= s@.subrange(cur + 2, cur + 2 + len));
            assert(t.skip(2 + len as int) =~= s@.skip(cur + 2 + len));
            match unchunk(s@.skip((cur + 2 + len) as int)) {
                Some(p2) => {
                    assert(old_acc + (t.subrange(2, 2 + len as int) + p2.0) =~= acc@ + p2.0);
                },
                None => {},
            }
        }
        cur = cur + 2 + len;
    }
}

/// Reads the two-byte big-endian chunk length standing at `pos`.
fn read_be2(s: &Vec<u8>, pos: usize) -> (r: u16)
    requires
        pos + 2 <= s@.len(),
    ensures
        r as nat == be_val(s@.subrange(pos as int, pos + 2)),
{
    let n = s.len();
    let hi = s[pos];
    let lo = s[pos + 1];
    proof {
        let t = s@.subrange(pos as int, pos + 2);
        assert(t.drop_last() =~= seq![hi]);
        assert(seq![hi].drop_last() =~= Seq::<u8>::empty());
        reveal_with_fuel(be_val, 3);
        assert(be_val(t) == hi * 256 + lo);
    }
    (hi as u16) * 256 + (lo as u16)
}

} // verus!
