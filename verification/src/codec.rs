//! The typed-value encoding of the wire protocol, as mathematics.
//!
//! `enc` maps a value model to the byte sequence the wire carries; `dec`
//! reads one value back from the front of a byte sequence. The executable
//! encoder and decoder are proved against these functions, and
//! [`lemma_dec_enc`] shows that decoding inverts encoding for every value
//! the wire can legally carry.
use vstd::prelude::*;
use crate::value::ValueModel;

verus! {

// Type markers of the value encoding. A marker below 0x80, or at 0xF0 and
// above, is itself a tiny integer.
pub const M_TINY_STR: u8 = 0x80;
pub const M_TINY_LIST: u8 = 0x90;
pub const M_TINY_DICT: u8 = 0xA0;
pub const M_TINY_STRUCT: u8 = 0xB0;
pub const M_NULL: u8 = 0xC0;
pub const M_FLOAT: u8 = 0xC1;
pub const M_FALSE: u8 = 0xC2;
pub const M_TRUE: u8 = 0xC3;
pub const M_INT8: u8 = 0xC8;
pub const M_INT16: u8 = 0xC9;
pub const M_INT32: u8 = 0xCA;
pub const M_INT64: u8 = 0xCB;
pub const M_BYTES8: u8 = 0xCC;
pub const M_BYTES16: u8 = 0xCD;
pub const M_BYTES32: u8 = 0xCE;
pub const M_STR8: u8 = 0xD0;
pub const M_STR16: u8 = 0xD1;
pub const M_STR32: u8 = 0xD2;
pub const M_LIST8: u8 = 0xD4;
pub const M_LIST16: u8 = 0xD5;
pub const M_LIST32: u8 = 0xD6;
pub const M_DICT8: u8 = 0xD8;
pub const M_DICT16: u8 = 0xD9;
pub const M_DICT32: u8 = 0xDA;

/// Largest length of a string, byte string, list or map on the wire.
pub const MAX_PAYLOAD_LEN: usize = 0x7FFF_FFFF;

/// Largest number of fields of a structure on the wire.
pub const MAX_STRUCT_ARITY: usize = 15;

/// 256 to the power `k`: the number of values of `k` bytes.
pub open spec fn pow256(k: nat) -> nat
    decreases k,
{
    if k == 0 {
        1
    } else {
        256 * pow256((k - 1) as nat)
    }
}

/// 256^k is positive.
pub proof fn lemma_pow256_pos(k: nat)
    ensures
        pow256(k) >= 1,
    decreases k,
{
    if k > 0 {
        lemma_pow256_pos((k - 1) as nat);
    }
}

/// The powers of 256 the codec works with, as numbers.
pub proof fn lemma_pow256_values()
    ensures
        pow256(1) == 0x100,
        pow256(2) == 0x10000,
        pow256(3) == 0x100_0000,
        pow256(4) == 0x1_0000_0000,
        pow256(5) == 0x100_0000_0000,
        pow256(6) == 0x1_0000_0000_0000,
        pow256(7) == 0x100_0000_0000_0000,
        pow256(8) == 0x1_0000_0000_0000_0000,
{
    reveal_with_fuel(pow256, 9);
    assert(pow256(0) == 1);
    assert(pow256(1) == 0x100);
    assert(pow256(2) == 0x10000);
    assert(pow256(3) == 0x100_0000);
    assert(pow256(4) == 0x1_0000_0000);
    assert(pow256(5) == 0x100_0000_0000);
    assert(pow256(6) == 0x1_0000_0000_0000);
    assert(pow256(7) == 0x100_0000_0000_0000);
    assert(pow256(8) == 0x1_0000_0000_0000_0000);
}

/// For a number within `k`-byte two's-complement range, its image is
/// itself when it is not negative, else itself shifted up by 256^k.
pub proof fn lemma_twos_in_range(i: int, k: nat)
    requires
        -(pow256(k) as int) <= i < pow256(k),
    ensures
        i >= 0 ==> twos(i, k) == i,
        i < 0 ==> twos(i, k) == i + pow256(k),
{
    lemma_pow256_pos(k);
    let m = pow256(k) as int;
    if i >= 0 {
        vstd::arithmetic::div_mod::lemma_small_mod(i as nat, pow256(k));
    } else {
        vstd::arithmetic::div_mod::lemma_mod_multiples_vanish(1, i, m);
        vstd::arithmetic::div_mod::lemma_small_mod((i + m) as nat, pow256(k));
    }
}

/// The `k`-byte big-endian encoding of `n` (mod 256^k).
pub open spec fn be(n: nat, k: nat) -> Seq<u8>
    decreases k,
{
    if k == 0 {
        Seq::empty()
    } else {
        be(n / 256, (k - 1) as nat).push((n % 256) as u8)
    }
}

/// The number a big-endian byte sequence denotes.
pub open spec fn be_val(s: Seq<u8>) -> nat
    decreases s.len(),
{
    if s.len() == 0 {
        0
    } else {
        be_val(s.drop_last()) * 256 + s.last() as nat
    }
}

/// 256^a divides 256^b when a is not above b.
pub proof fn lemma_pow256_mono(a: nat, b: nat)
    requires
        a <= b,
    ensures
        pow256(a) <= pow256(b),
    decreases b,
{
    if a < b {
        lemma_pow256_mono(a, (b - 1) as nat);
        lemma_pow256_pos((b - 1) as nat);
    }
}

/// A big-endian encoding has exactly the asked-for number of bytes.
pub proof fn lemma_be_len(n: nat, k: nat)
    ensures
        be(n, k).len() == k,
    decreases k,
{
    if k > 0 {
        lemma_be_len(n / 256, (k - 1) as nat);
    }
}

/// A `k`-byte sequence denotes a number below 256^k.
pub proof fn lemma_be_val_bound(s: Seq<u8>)
    ensures
        be_val(s) < pow256(s.len()),
    decreases s.len(),
{
    if s.len() > 0 {
        lemma_be_val_bound(s.drop_last());
    }
}

/// Reading back a big-endian encoding gives the number encoded, for any
/// number the width can hold.
pub proof fn lemma_be_val_be(n: nat, k: nat)
    requires
        n < pow256(k),
    ensures
        be_val(be(n, k)) == n,
    decreases k,
{
    if k == 0 {
        assert(n == 0);
    } else {
        let prefix = be(n / 256, (k - 1) as nat);
        lemma_be_len(n / 256, (k - 1) as nat);
        assert(be(n, k).drop_last() =~= prefix);
        lemma_pow256_pos((k - 1) as nat);
        assert(n / 256 < pow256((k - 1) as nat)) by {
            vstd::arithmetic::div_mod::lemma_multiply_divide_lt(
                n as int,
                pow256((k - 1) as nat) as int,
                256,
            );
        }
        lemma_be_val_be(n / 256, (k - 1) as nat);
        vstd::arithmetic::div_mod::lemma_fundamental_div_mod(n as int, 256);
    }
}

/// The `k`-byte two's-complement image of a signed number.
pub open spec fn twos(i: int, k: nat) -> nat {
    (i % (pow256(k) as int)) as nat
}

/// The signed number a `k`-byte two's-complement sequence denotes.
pub open spec fn sint_val(s: Seq<u8>) -> int {
    if be_val(s) < pow256(s.len()) / 2 {
        be_val(s) as int
    } else {
        be_val(s) - pow256(s.len())
    }
}

/// The encoding of an integer: the narrowest form that holds it.
pub open spec fn enc_int(i: i64) -> Seq<u8> {
    if -16 <= i <= 127 {
        seq![(i as int % 256) as u8]
    } else if -128 <= i < 128 {
        seq![M_INT8].push((i as int % 256) as u8)
    } else if -32768 <= i < 32768 {
        seq![M_INT16] + be(twos(i as int, 2), 2)
    } else if -0x8000_0000 <= i < 0x8000_0000 {
        seq![M_INT32] + be(twos(i as int, 4), 4)
    } else {
        seq![M_INT64] + be(twos(i as int, 8), 8)
    }
}

/// The header announcing a string of `len` bytes.
pub open spec fn str_header(len: nat) -> Seq<u8> {
    if len <= 15 {
        seq![(M_TINY_STR + len) as u8]
    } else if len < 256 {
        seq![M_STR8, len as u8]
    } else if len < 65536 {
        seq![M_STR16] + be(len, 2)
    } else {
        seq![M_STR32] + be(len, 4)
    }
}

/// The header announcing a byte string of `len` bytes.
pub open spec fn bytes_header(len: nat) -> Seq<u8> {
    if len < 256 {
        seq![M_BYTES8, len as u8]
    } else if len < 65536 {
        seq![M_BYTES16] + be(len, 2)
    } else {
        seq![M_BYTES32] + be(len, 4)
    }
}

/// The header announcing a list of `len` entries.
pub open spec fn list_header(len: nat) -> Seq<u8> {
    if len <= 15 {
        seq![(M_TINY_LIST + len) as u8]
    } else if len < 256 {
        seq![M_LIST8, len as u8]
    } else if len < 65536 {
        seq![M_LIST16] + be(len, 2)
    } else {
        seq![M_LIST32] + be(len, 4)
    }
}

/// The header announcing a map of `len` entries.
pub open spec fn dict_header(len: nat) -> Seq<u8> {
    if len <= 15 {
        seq![(M_TINY_DICT + len) as u8]
    } else if len < 256 {
        seq![M_DICT8, len as u8]
    } else if len < 65536 {
        seq![M_DICT16] + be(len, 2)
    } else {
        seq![M_DICT32] + be(len, 4)
    }
}

/// Whether a value fits on the wire: strings, byte strings, lists and maps
/// hold at most 2^31 - 1 items, structures at most 15 fields.
pub open spec fn valid(v: ValueModel) -> bool
    decreases v,
{
    match v {
        ValueModel::Null => true,
        ValueModel::Bool(_) => true,
        ValueModel::Int(_) => true,
        ValueModel::Str(s) => s.len() <= MAX_PAYLOAD_LEN,
        ValueModel::Bytes(b) => b.len() <= MAX_PAYLOAD_LEN,
        ValueModel::List(items) => items.len() <= MAX_PAYLOAD_LEN && (forall|i: int|
            0 <= i < items.len() ==> valid(#[trigger] items[i])),
        ValueModel::Dictionary(pairs) => pairs.len() <= MAX_PAYLOAD_LEN && (forall|i: int|
            0 <= i < pairs.len() ==> (#[trigger] pairs[i]).0.len() <= MAX_PAYLOAD_LEN && valid(
                pairs[i].1,
            )),
        ValueModel::Struct(_, fields) => fields.len() <= MAX_STRUCT_ARITY && (forall|i: int|
            0 <= i < fields.len() ==> valid(#[trigger] fields[i])),
    }
}

/// The byte sequence a value becomes on the wire.
pub open spec fn enc(v: ValueModel) -> Seq<u8>
    decreases v,
{
    match v {
        ValueModel::Null => seq![M_NULL],
        ValueModel::Bool(b) => if b {
            seq![M_TRUE]
        } else {
            seq![M_FALSE]
        },
        ValueModel::Int(i) => enc_int(i),
        ValueModel::Str(s) => str_header(s.len()) + s,
        ValueModel::Bytes(b) => bytes_header(b.len()) + b,
        ValueModel::List(items) => list_header(items.len()) + enc_list(items),
        ValueModel::Dictionary(pairs) => dict_header(pairs.len()) + enc_pairs(pairs),
        ValueModel::Struct(sig, fields) => seq![(M_TINY_STRUCT + fields.len()) as u8, sig]
            + enc_list(fields),
    }
}

/// The concatenated encodings of a sequence of values.
pub open spec fn enc_list(items: Seq<ValueModel>) -> Seq<u8>
    decreases items,
{
    if items.len() == 0 {
        Seq::empty()
    } else {
        enc(items.first()) + enc_list(items.drop_first())
    }
}

/// The concatenated encodings of a sequence of key-value entries:
/// each key is a string, each value any value.
pub open spec fn enc_pairs(pairs: Seq<(Seq<u8>, ValueModel)>) -> Seq<u8>
    decreases pairs,
{
    if pairs.len() == 0 {
        Seq::empty()
    } else {
        str_header(pairs.first().0.len()) + pairs.first().0 + enc(pairs.first().1) + enc_pairs(
            pairs.drop_first(),
        )
    }
}

/// Why decoding stopped: the input ended before the announced value did,
/// a byte stood where no legal type marker may, or the marker names a
/// type this driver does not carry.
pub enum DecErr {
    Short,
    Bad,
    Unsupported,
}

/// Reads one string from the front of `s`: the string's bytes and how many
/// input bytes they and their header took.
pub open spec fn dec_str(s: Seq<u8>) -> Result<(Seq<u8>, nat), DecErr> {
    if s.len() == 0 {
        Err(DecErr::Short)
    } else {
        let m = s[0];
        if M_TINY_STR <= m < M_TINY_STR + 16 {
            let l = (m - M_TINY_STR) as nat;
            if s.len() >= 1 + l {
                Ok((s.subrange(1, 1 + l as int), (1 + l) as nat))
            } else {
                Err(DecErr::Short)
            }
        } else if m == M_STR8 {
            if s.len() < 2 {
                Err(DecErr::Short)
            } else {
                let l = s[1] as nat;
                if s.len() >= 2 + l {
                    Ok((s.subrange(2, 2 + l as int), (2 + l) as nat))
                } else {
                    Err(DecErr::Short)
                }
            }
        } else if m == M_STR16 {
            if s.len() < 3 {
                Err(DecErr::Short)
            } else {
                let l = be_val(s.subrange(1, 3));
                if s.len() >= 3 + l {
                    Ok((s.subrange(3, 3 + l as int), (3 + l) as nat))
                } else {
                    Err(DecErr::Short)
                }
            }
        } else if m == M_STR32 {
            if s.len() < 5 {
                Err(DecErr::Short)
            } else {
                let l = be_val(s.subrange(1, 5));
                if l > MAX_PAYLOAD_LEN {
                    Err(DecErr::Bad)
                } else if s.len() >= 5 + l {
                    Ok((s.subrange(5, 5 + l as int), (5 + l) as nat))
                } else {
                    Err(DecErr::Short)
                }
            }
        } else {
            Err(DecErr::Bad)
        }
    }
}

/// Reads one value from the front of `s`: the value and how many input
/// bytes it took.
pub open spec fn dec(s: Seq<u8>) -> Result<(ValueModel, nat), DecErr>
    decreases s.len(), 0nat, 0nat,
{
    if s.len() == 0 {
        Err(DecErr::Short)
    } else {
        let m = s[0];
        if m < 0x80 {
            Ok((ValueModel::Int(m as i64), 1))
        } else if m >= 0xF0 {
            Ok((ValueModel::Int((m - 256) as i64), 1))
        } else if M_TINY_STR <= m < M_TINY_STR + 16 || m == M_STR8 || m == M_STR16 || m == M_STR32 {
            match dec_str(s) {
                Ok((bytes, n)) => Ok((ValueModel::Str(bytes), n)),
                Err(e) => Err(e),
            }
        } else if M_TINY_LIST <= m < M_TINY_LIST + 16 {
            match dec_seq(s.skip(1), (m - M_TINY_LIST) as nat) {
                Ok((items, k)) => Ok((ValueModel::List(items), 1 + k)),
                Err(e) => Err(e),
            }
        } else if M_TINY_DICT <= m < M_TINY_DICT + 16 {
            match dec_pairs(s.skip(1), (m - M_TINY_DICT) as nat) {
                Ok((pairs, k)) => Ok((ValueModel::Dictionary(pairs), 1 + k)),
                Err(e) => Err(e),
            }
        } else if M_TINY_STRUCT <= m < M_TINY_STRUCT + 16 {
            if s.len() < 2 {
                Err(DecErr::Short)
            } else {
                match dec_seq(s.skip(2), (m - M_TINY_STRUCT) as nat) {
                    Ok((fields, k)) => Ok((ValueModel::Struct(s[1], fields), 2 + k)),
                    Err(e) => Err(e),
                }
            }
        } else if m == M_NULL {
            Ok((ValueModel::Null, 1))
        } else if m == M_FLOAT {
            Err(DecErr::Unsupported)
        } else if m == M_FALSE {
            Ok((ValueModel::Bool(false), 1))
        } else if m == M_TRUE {
            Ok((ValueModel::Bool(true), 1))
        } else if m == M_INT8 {
            if s.len() < 2 {
                Err(DecErr::Short)
            } else {
                Ok((ValueModel::Int(sint_val(s.subrange(1, 2)) as i64), 2))
            }
        } else if m == M_INT16 {
            if s.len() < 3 {
                Err(DecErr::Short)
            } else {
                Ok((ValueModel::Int(sint_val(s.subrange(1, 3)) as i64), 3))
            }
        } else if m == M_INT32 {
            if s.len() < 5 {
                Err(DecErr::Short)
            } else {
                Ok((ValueModel::Int(sint_val(s.subrange(1, 5)) as i64), 5))
            }
        } else if m == M_INT64 {
            if s.len() < 9 {
                Err(DecErr::Short)
            } else {
                Ok((ValueModel::Int(sint_val(s.subrange(1, 9)) as i64), 9))
            }
        } else if m == M_BYTES8 {
            if s.len() < 2 {
                Err(DecErr::Short)
            } else {
                let l = s[1] as nat;
                if s.len() >= 2 + l {
                    Ok((ValueModel::Bytes(s.subrange(2, 2 + l as int)), (2 + l) as nat))
                } else {
                    Err(DecErr::Short)
                }
            }
        } else if m == M_BYTES16 {
            if s.len() < 3 {
                Err(DecErr::Short)
            } else {
                let l = be_val(s.subrange(1, 3));
                if s.len() >= 3 + l {
                    Ok((ValueModel::Bytes(s.subrange(3, 3 + l as int)), (3 + l) as nat))
                } else {
                    Err(DecErr::Short)
                }
            }
        } else if m == M_BYTES32 {
            if s.len() < 5 {
                Err(DecErr::Short)
            } else {
                let l = be_val(s.subrange(1, 5));
                if l > MAX_PAYLOAD_LEN {
                    Err(DecErr::Bad)
                } else if s.len() >= 5 + l {
                    Ok((ValueModel::Bytes(s.subrange(5, 5 + l as int)), (5 + l) as nat))
                } else {
                    Err(DecErr::Short)
                }
            }
        } else if m == M_LIST8 {
            if s.len() < 2 {
                Err(DecErr::Short)
            } else {
                match dec_seq(s.skip(2), s[1] as nat) {
                    Ok((items, k)) => Ok((ValueModel::List(items), 2 + k)),
                    Err(e) => Err(e),
                }
            }
        } else if m == M_LIST16 {
            if s.len() < 3 {
                Err(DecErr::Short)
            } else {
                match dec_seq(s.skip(3), be_val(s.subrange(1, 3))) {
                    Ok((items, k)) => Ok((ValueModel::List(items), 3 + k)),
                    Err(e) => Err(e),
                }
            }
        } else if m == M_LIST32 {
            if s.len() < 5 {
                Err(DecErr::Short)
            } else {
                let c = be_val(s.subrange(1, 5));
                if c > MAX_PAYLOAD_LEN {
                    Err(DecErr::Bad)
                } else {
                    match dec_seq(s.skip(5), c) {
                        Ok((items, k)) => Ok((ValueModel::List(items), 5 + k)),
                        Err(e) => Err(e),
                    }
                }
            }
        } else if m == M_DICT8 {
            if s.len() < 2 {
                Err(DecErr::Short)
            } else {
                match dec_pairs(s.skip(2), s[1] as nat) {
                    Ok((pairs, k)) => Ok((ValueModel::Dictionary(pairs), 2 + k)),
                    Err(e) => Err(e),
                }
            }
        } else if m == M_DICT16 {
            if s.len() < 3 {
                Err(DecErr::Short)
            } else {
                match dec_pairs(s.skip(3), be_val(s.subrange(1, 3))) {
                    Ok((pairs, k)) => Ok((ValueModel::Dictionary(pairs), 3 + k)),
                    Err(e) => Err(e),
                }
            }
        } else if m == M_DICT32 {
            if s.len() < 5 {
                Err(DecErr::Short)
            } else {
                let c = be_val(s.subrange(1, 5));
                if c > MAX_PAYLOAD_LEN {
                    Err(DecErr::Bad)
                } else {
                    match dec_pairs(s.skip(5), c) {
                        Ok((pairs, k)) => Ok((ValueModel::Dictionary(pairs), 5 + k)),
                        Err(e) => Err(e),
                    }
                }
            }
        } else {
            Err(DecErr::Bad)
        }
    }
}

/// Reads `count` values in a row from the front of `s`.
pub open spec fn dec_seq(s: Seq<u8>, count: nat) -> Result<(Seq<ValueModel>, nat), DecErr>
    decreases s.len(), 1nat, count,
{
    if count == 0 {
        Ok((Seq::empty(), 0))
    } else {
        match dec(s) {
            Ok((v, k)) => if k < 1 || k > s.len() {
                Err(DecErr::Bad)
            } else {
                match dec_seq(s.skip(k as int), (count - 1) as nat) {
                    Ok((rest, k2)) => Ok((seq![v] + rest, k + k2)),
                    Err(e) => Err(e),
                }
            },
            Err(e) => Err(e),
        }
    }
}

/// Reads `count` key-value entries in a row from the front of `s`.
pub open spec fn dec_pairs(s: Seq<u8>, count: nat) -> Result<
    (Seq<(Seq<u8>, ValueModel)>, nat),
    DecErr,
>
    decreases s.len(), 1nat, count,
{
    if count == 0 {
        Ok((Seq::empty(), 0))
    } else {
        match dec_str(s) {
            Ok((key, k)) => if k < 1 || k > s.len() {
                Err(DecErr::Bad)
            } else {
                match dec(s.skip(k as int)) {
                    Ok((v, k2)) => if k2 < 1 || k + k2 > s.len() {
                        Err(DecErr::Bad)
                    } else {
                        match dec_pairs(s.skip((k + k2) as int), (count - 1) as nat) {
                            Ok((rest, k3)) => Ok((seq![(key, v)] + rest, k + k2 + k3)),
                            Err(e) => Err(e),
                        }
                    },
                    Err(e) => Err(e),
                }
            },
            Err(e) => Err(e),
        }
    }
}

} // verus!
