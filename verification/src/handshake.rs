//! The version negotiation preamble: the client offers up to four
//! protocol versions after a fixed magic; the server answers with the one
//! it chose, or zero for none.
use vstd::prelude::*;
use vstd::string::StringExecFns;
use crate::codec::{be, be_val, lemma_be_val_bound, lemma_pow256_values};
use crate::decode::read_be;
use crate::encode::push_be;
use crate::errors::Error;

verus! {

/// The protocol versions this driver offers, newest first.
pub const VERSION_4_4: u32 = 0x0404;
pub const VERSION_4_3: u32 = 0x0304;
pub const VERSION_4_0: u32 = 0x0004;

/// Whether `v` is a version this driver offers.
pub open spec fn offered(v: u32) -> bool {
    v == VERSION_4_4 || v == VERSION_4_3 || v == VERSION_4_0
}

/// The twenty bytes that open every connection: the magic and the four
/// big-endian version proposals, unused slots zero.
pub open spec fn handshake_offer_bytes() -> Seq<u8> {
    seq![0x60u8, 0x60u8, 0xB0u8, 0x17u8] + be(VERSION_4_4 as nat, 4) + be(VERSION_4_3 as nat, 4)
        + be(VERSION_4_0 as nat, 4) + be(0, 4)
}

/// The handshake request: exactly [`handshake_offer_bytes`].
pub fn handshake_offer() -> (out: Vec<u8>)
    ensures
        out@ == handshake_offer_bytes(),
        out@.len() == 20,
{
    let mut out: Vec<u8> = Vec::new();
    out.push(0x60);
    out.push(0x60);
    out.push(0xB0);
    out.push(0x17);
    push_be(&mut out, VERSION_4_4 as u64, 4);
    push_be(&mut out, VERSION_4_3 as u64, 4);
    push_be(&mut out, VERSION_4_0 as u64, 4);
    push_be(&mut out, 0, 4);
    proof {
        crate::codec::lemma_be_len(VERSION_4_4 as nat, 4);
        crate::codec::lemma_be_len(VERSION_4_3 as nat, 4);
        crate::codec::lemma_be_len(VERSION_4_0 as nat, 4);
        crate::codec::lemma_be_len(0, 4);
        assert(out@ =~= handshake_offer_bytes());
    }
    out
}

/// Reads the server's four-byte handshake reply: the chosen version if it
/// is one this driver offered; otherwise, zero reply included, the
/// version is unsupported.
pub fn parse_handshake_reply(reply: &Vec<u8>) -> (r: Result<u32, Error>)
    requires
        reply@.len() == 4,
    ensures
        r matches Ok(v) ==> offered(v) && v as nat == be_val(reply@),
        r is Ok <==> offered(be_val(reply@) as u32) && be_val(reply@) < 0x1_0000_0000,
        r matches Err(e) ==> e is UnsupportedVersion,
{
    let v64 = read_be(reply, 0, 4);
    proof {
        assert(reply@.subrange(0, 4) =~= reply@);
        lemma_be_val_bound(reply@);
        lemma_pow256_values();
    }
    let v = v64 as u32;
    if v == VERSION_4_4 || v == VERSION_4_3 || v == VERSION_4_0 {
        Ok(v)
    } else {
        Err(
            Error::UnsupportedVersion(
                String::from_str("the server accepted none of the offered versions"),
            ),
        )
    }
}

} // verus!
