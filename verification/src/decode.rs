//! The executable decoder: reads a [`Value`] back from wire bytes,
//! exactly as the specification [`dec`] describes.
use vstd::prelude::*;
use vstd::string::StringExecFns;
use crate::codec::{
    be_val, dec, dec_pairs, dec_seq, dec_str, lemma_be_val_bound, lemma_pow256_values, pow256,
    sint_val, DecErr, MAX_PAYLOAD_LEN, M_BYTES16, M_BYTES32, M_BYTES8, M_DICT16, M_DICT32, M_DICT8,
    M_FALSE, M_FLOAT, M_INT16, M_INT32, M_INT64, M_INT8, M_LIST16, M_LIST32, M_LIST8, M_NULL,
    M_STR16, M_STR32, M_STR8, M_TINY_DICT, M_TINY_LIST, M_TINY_STR, M_TINY_STRUCT, M_TRUE,
};
use crate::errors::Error;
use crate::value::{models, pair_models, Value};

verus! {

/// The error for input that ends inside the value it announced.
fn err_short() -> (e: Error)
    ensures
        e is DeserializationError,
{
    Error::DeserializationError(String::from_str("input ended inside a value"))
}

/// The error for a byte where no legal type marker stands.
fn err_bad() -> (e: Error)
    ensures
        e is InvalidTypeMarker,
{
    Error::InvalidTypeMarker(String::from_str("no legal type marker"))
}

/// The error for a marker naming a kind of value this driver does not carry.
fn err_unsupported() -> (e: Error)
    ensures
        e is UnknownType,
{
    Error::UnknownType(String::from_str("type marker of an unsupported kind"))
}

/// Reads the `k`-byte big-endian number standing at `pos`.
pub(crate) fn read_be(s: &Vec<u8>, pos: usize, k: usize) -> (r: u64)
    requires
        k <= 8,
        pos + k <= s@.len(),
    ensures
        r as nat == be_val(s@.subrange(pos as int, pos + k)),
{
    let n = s.len();
    let mut acc: u64 = 0;
    let mut i: usize = 0;
    while i < k
        invariant
            k <= 8,
            n == s@.len(),
            pos + k <= n,
            i <= k,
            acc as nat == be_val(s@.subrange(pos as int, pos + i)),
        decreases k - i,
    {
        proof {
            lemma_be_val_bound(s@.subrange(pos as int, pos + i));
            crate::codec::lemma_pow256_mono(i as nat, 7);
            lemma_pow256_values();
        }
        acc = acc * 256 + (s[pos + i] as u64);
        proof {
            assert(s@.subrange(pos as int, pos + i + 1).drop_last() =~= s@.subrange(
                pos as int,
                pos + i,
            ));
        }
        i = i + 1;
    }
    acc
}

/// Copies the `len` bytes standing at `pos` out of the input.
fn read_slice(s: &Vec<u8>, pos: usize, len: usize) -> (r: Vec<u8>)
    requires
        pos + len <= s@.len(),
    ensures
        r@ == s@.subrange(pos as int, pos + len),
{
    let n = s.len();
    let mut out: Vec<u8> = Vec::new();
    let mut i: usize = 0;
    while i < len
        invariant
            n == s@.len(),
            pos + len <= n,
            i <= len,
            out@ == s@.subrange(pos as int, pos + i),
        decreases len - i,
    {
        out.push(s[pos + i]);
        proof {
            assert(out@ =~= s@.subrange(pos as int, pos + i + 1));
        }
        i = i + 1;
    }
    out
}

/// The signed reading of an unsigned `k`-byte number: values of the upper
/// half denote negatives.
fn sign_of(u: u64, k: usize) -> (r: i64)
    requires
        k == 1 || k == 2 || k == 4 || k == 8,
        (u as nat) < pow256(k as nat),
    ensures
        (u as nat) < pow256(k as nat) / 2 ==> r == u,
        (u as nat) >= pow256(k as nat) / 2 ==> r as int == u - pow256(k as nat),
{
    proof {
        lemma_pow256_values();
    }
    if k == 8 {
        if u < 0x8000_0000_0000_0000 {
            u as i64
        } else {
            ((u as i128) - 0x1_0000_0000_0000_0000i128) as i64
        }
    } else {
        let p: u64 = if k == 1 {
            0x100
        } else if k == 2 {
            0x10000
        } else {
            0x1_0000_0000
        };
        if u < p / 2 {
            u as i64
        } else {
            (u as i64) - (p as i64)
        }
    }
}

/// Reads the string standing at `pos`, exactly as [`dec_str`] reads it.
fn decode_str(s: &Vec<u8>, pos: usize) -> (r: Result<(Vec<u8>, usize), Error>)
    requires
        pos <= s@.len(),
    ensures
        ({
            let d = dec_str(s@.skip(pos as int));
            match d {
                Ok(p) => r matches Ok(q) && q.0@ == p.0 && q.1 == p.1 && 1 <= p.1 && pos + p.1
                    <= s@.len(),
                Err(DecErr::Short) => r matches Err(e) && e is DeserializationError,
                Err(DecErr::Bad) => r matches Err(e) && e is InvalidTypeMarker,
                Err(DecErr::Unsupported) => false,
            }
        }),
{
    let ghost t = s@.skip(pos as int);
    if pos >= s.len() {
        return Err(err_short());
    }
    let m = s[pos];
    assert(t[0] == m);
    if M_TINY_STR <= m && m < M_TINY_STR + 16 {
        let l = (m - M_TINY_STR) as usize;
        if s.len() - pos < 1 + l {
            return Err(err_short());
        }
        let bytes = read_slice(s, pos + 1, l);
        assert(t.subrange(1, 1 + l as int) =~= s@.subrange(pos + 1, pos + 1 + l));
        Ok((bytes, 1 + l))
    } else if m == M_STR8 {
        if s.len() - pos < 2 {
            return Err(err_short());
        }
        let l = s[pos + 1] as usize;
        assert(t[1] == s@[pos + 1]);
        if s.len() - pos < 2 || s.len() - pos - 2 < l {
            return Err(err_short());
        }
        let bytes = read_slice(s, pos + 2, l);
        assert(t.subrange(2, 2 + l as int) =~= s@.subrange(pos + 2, pos + 2 + l));
        Ok((bytes, 2 + l))
    } else if m == M_STR16 {
        if s.len() - pos < 3 {
            return Err(err_short());
        }
        let l = read_be(s, pos + 1, 2) as usize;
        assert(t.subrange(1, 3) =~= s@.subrange(pos + 1, pos + 3));
        proof {
            lemma_be_val_bound(t.subrange(1, 3));
            lemma_pow256_values();
        }
        if s.len() - pos - 3 < l {
            return Err(err_short());
        }
        let bytes = read_slice(s, pos + 3, l);
        assert(t.subrange(3, 3 + l as int) =~= s@.subrange(pos + 3, pos + 3 + l));
        Ok((bytes, 3 + l))
    } else if m == M_STR32 {
        if s.len() - pos < 5 {
            return Err(err_short());
        }
        let l64 = read_be(s, pos + 1, 4);
        assert(t.subrange(1, 5) =~= s@.subrange(pos + 1, pos + 5));
        proof {
            lemma_be_val_bound(t.subrange(1, 5));
            lemma_pow256_values();
        }
        if l64 > MAX_PAYLOAD_LEN as u64 {
            return Err(err_bad());
        }
        let l = l64 as usize;
        if s.len() - pos - 5 < l {
            return Err(err_short());
        }
        let bytes = read_slice(s, pos + 5, l);
        assert(t.subrange(5, 5 + l as int) =~= s@.subrange(pos + 5, pos + 5 + l));
        Ok((bytes, 5 + l))
    } else {
        Err(err_bad())
    }
}

/// Reads the value standing at `pos`, exactly as [`dec`] reads it.
#[verifier::rlimit(100)]
pub fn decode_value(s: &Vec<u8>, pos: usize) -> (r: Result<(Value, usize), Error>)
    requires
        pos <= s@.len(),
    ensures
        ({
            let d = dec(s@.skip(pos as int));
            match d {
                Ok(p) => r matches Ok(q) && q.0.model() == p.0 && q.1 == p.1 && 1 <= p.1 && pos
                    + p.1 <= s@.len(),
                Err(DecErr::Short) => r matches Err(e) && e is DeserializationError,
                Err(DecErr::Bad) => r matches Err(e) && e is InvalidTypeMarker,
                Err(DecErr::Unsupported) => r matches Err(e) && e is UnknownType,
            }
        }),
    decreases s@.len() - pos, 0nat, 0nat,
{
    let ghost t = s@.skip(pos as int);
    if pos >= s.len() {
        return Err(err_short());
    }
    let m = s[pos];
    assert(t[0] == m);
    if m < 0x80 {
        Ok((Value::Int(m as i64), 1))
    } else if m >= 0xF0 {
        Ok((Value::Int((m as i64) - 256), 1))
    } else if M_TINY_STR <= m && m < M_TINY_STR + 16 || m == M_STR8 || m == M_STR16 || m == M_STR32
     {
        match decode_str(s, pos) {
            Ok((bytes, n)) => Ok((Value::Str(bytes), n)),
            Err(e) => Err(e),
        }
    } else if M_TINY_LIST <= m && m < M_TINY_LIST + 16 {
        let c = (m - M_TINY_LIST) as usize;
        assert(t.skip(1) =~= s@.skip(pos + 1));
        match decode_seq(s, pos + 1, c) {
            Ok((items, k)) => Ok((Value::List(items), 1 + k)),
            Err(e) => Err(e),
        }
    } else if M_TINY_DICT <= m && m < M_TINY_DICT + 16 {
        let c = (m - M_TINY_DICT) as usize;
        assert(t.skip(1) =~= s@.skip(pos + 1));
        match decode_pairs(s, pos + 1, c) {
            Ok((pairs, k)) => Ok((Value::Dictionary(pairs), 1 + k)),
            Err(e) => Err(e),
        }
    } else if M_TINY_STRUCT <= m && m < M_TINY_STRUCT + 16 {
        if s.len() - pos < 2 {
            return Err(err_short());
        }
        let sig = s[pos + 1];
        assert(t[1] == sig);
        let c = (m - M_TINY_STRUCT) as usize;
        assert(t.skip(2) =~= s@.skip(pos + 2));
        match decode_seq(s, pos + 2, c) {
            Ok((fields, k)) => Ok((Value::Struct(sig, fields), 2 + k)),
            Err(e) => Err(e),
        }
    } else if m == M_NULL {
        Ok((Value::Null, 1))
    } else if m == M_FLOAT {
        Err(err_unsupported())
    } else if m == M_FALSE {
        Ok((Value::Bool(false), 1))
    } else if m == M_TRUE {
        Ok((Value::Bool(true), 1))
    } else if m == M_INT8 {
        if s.len() - pos < 2 {
            return Err(err_short());
        }
        let u = read_be(s, pos + 1, 1);
        assert(t.subrange(1, 2) =~= s@.subrange(pos + 1, pos + 2));
        proof {
            lemma_be_val_bound(t.subrange(1, 2));
            lemma_pow256_values();
        }
        Ok((Value::Int(sign_of(u, 1)), 2))
    } else if m == M_INT16 {
        if s.len() - pos < 3 {
            return Err(err_short());
        }
        let u = read_be(s, pos + 1, 2);
        assert(t.subrange(1, 3) =~= s@.subrange(pos + 1, pos + 3));
        proof {
            lemma_be_val_bound(t.subrange(1, 3));
            lemma_pow256_values();
        }
        Ok((Value::Int(sign_of(u, 2)), 3))
    } else if m == M_INT32 {
        if s.len() - pos < 5 {
            return Err(err_short());
        }
        let u = read_be(s, pos + 1, 4);
        assert(t.subrange(1, 5) =~= s@.subrange(pos + 1, pos + 5));
        proof {
            lemma_be_val_bound(t.subrange(1, 5));
            lemma_pow256_values();
        }
        Ok((Value::Int(sign_of(u, 4)), 5))
    } else if m == M_INT64 {
        if s.len() - pos < 9 {
            return Err(err_short());
        }
        let u = read_be(s, pos + 1, 8);
        assert(t.subrange(1, 9) =~= s@.subrange(pos + 1, pos + 9));
        proof {
            lemma_be_val_bound(t.subrange(1, 9));
            lemma_pow256_values();
        }
        Ok((Value::Int(sign_of(u, 8)), 9))
    } else if m == M_BYTES8 {
        if s.len() - pos < 2 {
            return Err(err_short());
        }
        let l = s[pos + 1] as usize;
        assert(t[1] == s@[pos + 1]);
        if s.len() - pos - 2 < l {
            return Err(err_short());
        }
        let bytes = read_slice(s, pos + 2, l);
        assert(t.subrange(2, 2 + l as int) =~= s@.subrange(pos + 2, pos + 2 + l));
        Ok((Value::Bytes(bytes), 2 + l))
    } else if m == M_BYTES16 {
        if s.len() - pos < 3 {
            return Err(err_short());
        }
        let l = read_be(s, pos + 1, 2) as usize;
        assert(t.subrange(1, 3) =~= s@.subrange(pos + 1, pos + 3));
        proof {
            lemma_be_val_bound(t.subrange(1, 3));
            lemma_pow256_values();
        }
        if s.len() - pos - 3 < l {
            return Err(err_short());
        }
        let bytes = read_slice(s, pos + 3, l);
        assert(t.subrange(3, 3 + l as int) =~= s@.subrange(pos + 3, pos + 3 + l));
        Ok((Value::Bytes(bytes), 3 + l))
    } else if m == M_BYTES32 {
        if s.len() - pos < 5 {
            return Err(err_short());
        }
        let l64 = read_be(s, pos + 1, 4);
        assert(t.subrange(1, 5) =~= s@.subrange(pos + 1, pos + 5));
        proof {
            lemma_be_val_bound(t.subrange(1, 5));
            lemma_pow256_values();
        }
        if l64 > MAX_PAYLOAD_LEN as u64 {
            return Err(err_bad());
        }
        let l = l64 as usize;
        if s.len() - pos - 5 < l {
            return Err(err_short());
        }
        let bytes = read_slice(s, pos + 5, l);
        assert(t.subrange(5, 5 + l as int) =~= s@.subrange(pos + 5, pos + 5 + l));
        Ok((Value::Bytes(bytes), 5 + l))
    } else if m == M_LIST8 {
        if s.len() - pos < 2 {
            return Err(err_short());
        }
        let c = s[pos + 1] as usize;
        assert(t[1] == s@[pos + 1]);
        assert(t.skip(2) =~= s@.skip(pos + 2));
        match decode_seq(s, pos + 2, c) {
            Ok((items, k)) => Ok((Value::List(items), 2 + k)),
            Err(e) => Err(e),
        }
    } else if m == M_LIST16 {
        if s.len() - pos < 3 {
            return Err(err_short());
        }
        let c = read_be(s, pos + 1, 2) as usize;
        assert(t.subrange(1, 3) =~= s@.subrange(pos + 1, pos + 3));
        proof {
            lemma_be_val_bound(t.subrange(1, 3));
            lemma_pow256_values();
        }
        assert(t.skip(3) =~= s@.skip(pos + 3));
        match decode_seq(s, pos + 3, c) {
            Ok((items, k)) => Ok((Value::List(items), 3 + k)),
            Err(e) => Err(e),
        }
    } else if m == M_LIST32 {
        if s.len() - pos < 5 {
            return Err(err_short());
        }
        let c64 = read_be(s, pos + 1, 4);
        assert(t.subrange(1, 5) =~= s@.subrange(pos + 1, pos + 5));
        proof {
            lemma_be_val_bound(t.subrange(1, 5));
            lemma_pow256_values();
        }
        if c64 > MAX_PAYLOAD_LEN as u64 {
            return Err(err_bad());
        }
        assert(t.skip(5) =~= s@.skip(pos + 5));
        match decode_seq(s, pos + 5, c64 as usize) {
            Ok((items, k)) => Ok((Value::List(items), 5 + k)),
            Err(e) => Err(e),
        }
    } else if m == M_DICT8 {
        if s.len() - pos < 2 {
            return Err(err_short());
        }
        let c = s[pos + 1] as usize;
        assert(t[1] == s@[pos + 1]);
        assert(t.skip(2) =~= s@.skip(pos + 2));
        match decode_pairs(s, pos + 2, c) {
            Ok((pairs, k)) => Ok((Value::Dictionary(pairs), 2 + k)),
            Err(e) => Err(e),
        }
    } else if m == M_DICT16 {
        if s.len() - pos < 3 {
            return Err(err_short());
        }
        let c = read_be(s, pos + 1, 2) as usize;
        assert(t.subrange(1, 3) =~= s@.subrange(pos + 1, pos + 3));
        proof {
            lemma_be_val_bound(t.subrange(1, 3));
            lemma_pow256_values();
        }
        assert(t.skip(3) =~= s@.skip(pos + 3));
        match decode_pairs(s, pos + 3, c) {
            Ok((pairs, k)) => Ok((Value::Dictionary(pairs), 3 + k)),
            Err(e) => Err(e),
        }
    } else if m == M_DICT32 {
        if s.len() - pos < 5 {
            return Err(err_short());
        }
        let c64 = read_be(s, pos + 1, 4);
        assert(t.subrange(1, 5) =~= s@.subrange(pos + 1, pos + 5));
        proof {
            lemma_be_val_bound(t.subrange(1, 5));
            lemma_pow256_values();
        }
        if c64 > MAX_PAYLOAD_LEN as u64 {
            return Err(err_bad());
        }
        assert(t.skip(5) =~= s@.skip(pos + 5));
        match decode_pairs(s, pos + 5, c64 as usize) {
            Ok((pairs, k)) => Ok((Value::Dictionary(pairs), 5 + k)),
            Err(e) => Err(e),
        }
    } else {
        Err(err_bad())
    }
}

/// Reads `count` values in a row starting at `pos`, as [`dec_seq`] reads
/// them.
fn decode_seq(s: &Vec<u8>, pos: usize, count: usize) -> (r: Result<(Vec<Value>, usize), Error>)
    requires
        pos <= s@.len(),
    ensures
        ({
            let d = dec_seq(s@.skip(pos as int), count as nat);
            match d {
                Ok(p) => r matches Ok(q) && models(q.0@) == p.0 && q.1 == p.1 && pos + p.1
                    <= s@.len(),
                Err(DecErr::Short) => r matches Err(e) && e is DeserializationError,
                Err(DecErr::Bad) => r matches Err(e) && e is InvalidTypeMarker,
                Err(DecErr::Unsupported) => r matches Err(e) && e is UnknownType,
            }
        }),
    decreases s@.len() - pos, 1nat, count,
{
    let n = s.len();
    let mut acc: Vec<Value> = Vec::new();
    let mut cur: usize = pos;
    let mut i: usize = 0;
    assert(models(acc@) =~= Seq::<crate::value::ValueModel>::empty());
    while i < count
        invariant
            n == s@.len(),
            pos <= cur <= n,
            i <= count,
            acc@.len() == i,
            ({
                let full = dec_seq(s@.skip(pos as int), count as nat);
                match dec_seq(s@.skip(cur as int), (count - i) as nat) {
                    Ok(p) => full == Ok::<_, DecErr>(
                        (models(acc@) + p.0, ((cur - pos) + p.1) as nat),
                    ),
                    Err(e) => full == Err::<(Seq<crate::value::ValueModel>, nat), _>(e),
                }
            }),
        decreases count - i,
    {
        match decode_value(s, cur) {
            Ok((val, k)) => {
                proof {
                    assert(s@.skip(cur as int).skip(k as int) =~= s@.skip(cur + k));
                    let ghost old_models = models(acc@);
                    assert(models(acc@.push(val)) =~= old_models.push(val.model()));
                }
                let ghost old_acc = acc@;
                acc.push(val);
                proof {
                    assert(models(acc@) =~= models(old_acc).push(val.model()));
                    match dec_seq(s@.skip((cur + k) as int), (count - i - 1) as nat) {
                        Ok(p2) => {
                            assert(models(old_acc) + (seq![val.model()] + p2.0) =~= models(acc@)
                                + p2.0);
                        },
                        Err(_) => {},
                    }
                }
                cur = cur + k;
                i = i + 1;
            },
            Err(e) => {
                return Err(e);
            },
        }
    }
    proof {
        assert(models(acc@) + Seq::<crate::value::ValueModel>::empty() =~= models(acc@));
    }
    Ok((acc, cur - pos))
}

/// Reads `count` key-value entries in a row starting at `pos`, as
/// [`dec_pairs`] reads them.
fn decode_pairs(s: &Vec<u8>, pos: usize, count: usize) -> (r: Result<
    (Vec<(Vec<u8>, Value)>, usize),
    Error,
>)
    requires
        pos <= s@.len(),
    ensures
        ({
            let d = dec_pairs(s@.skip(pos as int), count as nat);
            match d {
                Ok(p) => r matches Ok(q) && pair_models(q.0@) == p.0 && q.1 == p.1 && pos + p.1
                    <= s@.len(),
                Err(DecErr::Short) => r matches Err(e) && e is DeserializationError,
                Err(DecErr::Bad) => r matches Err(e) && e is InvalidTypeMarker,
                Err(DecErr::Unsupported) => r matches Err(e) && e is UnknownType,
            }
        }),
    decreases s@.len() - pos, 1nat, count,
{
    let n = s.len();
    let mut acc: Vec<(Vec<u8>, Value)> = Vec::new();
    let mut cur: usize = pos;
    let mut i: usize = 0;
    assert(pair_models(acc@) =~= Seq::<(Seq<u8>, crate::value::ValueModel)>::empty());
    while i < count
        invariant
            n == s@.len(),
            pos <= cur <= n,
            i <= count,
            acc@.len() == i,
            ({
                let full = dec_pairs(s@.skip(pos as int), count as nat);
                match dec_pairs(s@.skip(cur as int), (count - i) as nat) {
                    Ok(p) => full == Ok::<_, DecErr>(
                        (pair_models(acc@) + p.0, ((cur - pos) + p.1) as nat),
                    ),
                    Err(e) => full == Err::<(Seq<(Seq<u8>, crate::value::ValueModel)>, nat), _>(e),
                }
            }),
        decreases count - i,
    {
        let key = match decode_str(s, cur) {
            Ok((key, k1)) => {
                proof {
                    assert(s@.skip(cur as int).skip(k1 as int) =~= s@.skip(cur + k1));
                }
                (key, k1)
            },
            Err(e) => {
                return Err(e);
            },
        };
        let (key, k1) = key;
        match decode_value(s, cur + k1) {
            Ok((val, k2)) => {
                proof {
                    assert(s@.skip((cur + k1) as int).skip(k2 as int) =~= s@.skip(
                        cur + k1 + k2,
                    ));
                    assert(s@.skip(cur as int).skip((k1 + k2) as int) =~= s@.skip(
                        cur + k1 + k2,
                    ));
                    let ghost old_models = pair_models(acc@);
                    assert(pair_models(acc@.push((key, val))) =~= old_models.push(
                        (key@, val.model()),
                    ));
                }
                let ghost old_acc = acc@;
                acc.push((key, val));
                proof {
                    assert(pair_models(acc@) =~= pair_models(old_acc).push(
                        (acc@[i as int].0@, acc@[i as int].1.model()),
                    ));
                    match dec_pairs(s@.skip((cur + k1 + k2) as int), (count - i - 1) as nat) {
                        Ok(p2) => {
                            assert(pair_models(old_acc) + (seq![
                                (acc@[i as int].0@, acc@[i as int].1.model()),
                            ] + p2.0) =~= pair_models(acc@) + p2.0);
                        },
                        Err(_) => {},
                    }
                }
                cur = cur + k1 + k2;
                i = i + 1;
            },
            Err(e) => {
                return Err(e);
            },
        }
    }
    proof {
        assert(pair_models(acc@) + Seq::<(Seq<u8>, crate::value::ValueModel)>::empty()
            =~= pair_models(acc@));
    }
    Ok((acc, cur - pos))
}

/// Reads one value from the front of `bytes`: the value and how many bytes
/// it took. Input that ends early, a byte that is no type marker, and the
/// marker of an unsupported kind each give their own error.
pub fn decode(bytes: &Vec<u8>) -> (r: Result<(Value, usize), Error>)
    ensures
        ({
            let d = dec(bytes@);
            match d {
                Ok(p) => r matches Ok(q) && q.0.model() == p.0 && q.1 == p.1 && p.1 <= bytes@.len(),
                Err(DecErr::Short) => r matches Err(e) && e is DeserializationError,
                Err(DecErr::Bad) => r matches Err(e) && e is InvalidTypeMarker,
                Err(DecErr::Unsupported) => r matches Err(e) && e is UnknownType,
            }
        }),
{
    assert(bytes@.skip(0) =~= bytes@);
    decode_value(bytes, 0)
}

} // verus!
