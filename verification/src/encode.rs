//! The executable encoder: turns a [`Value`] into the bytes of the wire
//! encoding, exactly as the specification [`enc`] describes them.
use vstd::prelude::*;
use crate::codec::{
    be, dict_header, enc, enc_int, enc_list, enc_pairs, lemma_pow256_values, lemma_twos_in_range,
    list_header, str_header, twos, valid,
    MAX_PAYLOAD_LEN, MAX_STRUCT_ARITY, M_BYTES16, M_BYTES32, M_BYTES8, M_DICT16, M_DICT32, M_DICT8,
    M_FALSE, M_INT16, M_INT32, M_INT64, M_INT8, M_LIST16, M_LIST32, M_LIST8, M_NULL, M_STR16,
    M_STR32, M_STR8, M_TINY_DICT, M_TINY_LIST, M_TINY_STR, M_TINY_STRUCT, M_TRUE,
};
use crate::errors::Error;
use crate::value::{models, pair_models, Value, ValueModel};

verus! {

/// Appends the `k`-byte big-endian image of `n`.
pub(crate) fn push_be(out: &mut Vec<u8>, n: u64, k: usize)
    ensures
        final(out)@ == old(out)@ + be(n as nat, k as nat),
    decreases k,
{
    if k == 0 {
        assert(final(out)@ =~= old(out)@ + be(n as nat, 0));
    } else {
        push_be(out, n / 256, k - 1);
        out.push((n % 256) as u8);
        assert(final(out)@ =~= old(out)@ + be(n as nat, k as nat));
    }
}

/// Appends every byte of `data`.
pub(crate) fn push_bytes(out: &mut Vec<u8>, data: &Vec<u8>)
    ensures
        final(out)@ == old(out)@ + data@,
{
    let mut idx: usize = 0;
    while idx < data.len()
        invariant
            idx <= data.len(),
            out@ == old(out)@ + data@.subrange(0, idx as int),
        decreases data.len() - idx,
    {
        out.push(data[idx]);
        idx = idx + 1;
        assert(out@ =~= old(out)@ + data@.subrange(0, idx as int));
    }
    assert(final(out)@ =~= old(out)@ + data@);
}

/// Appends the encoding of one integer.
fn encode_int(i: i64, out: &mut Vec<u8>)
    ensures
        final(out)@ == old(out)@ + enc_int(i),
{
    if -16 <= i && i <= 127 {
        let b: u8 = if i >= 0 {
            i as u8
        } else {
            (i + 256) as u8
        };
        out.push(b);
        assert(final(out)@ =~= old(out)@ + enc_int(i));
    } else if -128 <= i && i < 128 {
        out.push(M_INT8);
        out.push((i + 256) as u8);
        assert(final(out)@ =~= old(out)@ + enc_int(i));
    } else if -32768 <= i && i < 32768 {
        out.push(M_INT16);
        let t: u32 = if i >= 0 {
            i as u32
        } else {
            (i + 65536) as u32
        };
        proof {
            lemma_pow256_values();
            lemma_twos_in_range(i as int, 2);
        }
        push_be(out, t as u64, 2);
        assert(final(out)@ =~= old(out)@ + enc_int(i));
    } else if -0x8000_0000 <= i && i < 0x8000_0000 {
        out.push(M_INT32);
        let t: u64 = if i >= 0 {
            i as u64
        } else {
            (i + 0x1_0000_0000) as u64
        };
        proof {
            lemma_pow256_values();
            lemma_twos_in_range(i as int, 4);
        }
        push_be(out, t, 4);
        assert(final(out)@ =~= old(out)@ + enc_int(i));
    } else {
        out.push(M_INT64);
        let t: u64 = if i >= 0 {
            i as u64
        } else {
            (((i as i128) + 0x1_0000_0000_0000_0000i128) as u64)
        };
        proof {
            lemma_pow256_values();
            lemma_twos_in_range(i as int, 8);
        }
        push_be(out, t, 8);
        assert(final(out)@ =~= old(out)@ + enc_int(i));
    }
}

/// Appends a length header whose tiny form starts at `tiny_base` (or has
/// none), with `m8`/`m16`/`m32` as the wider markers.
fn push_header(out: &mut Vec<u8>, tiny_base: Option<u8>, m8: u8, m16: u8, m32: u8, len: usize)
    requires
        len <= MAX_PAYLOAD_LEN,
        tiny_base matches Some(b) ==> b as nat + 15 < 256,
    ensures
        final(out)@ == old(out)@ + (match tiny_base {
            Some(b) => if len <= 15 {
                seq![(b + len) as u8]
            } else if len < 256 {
                seq![m8, len as u8]
            } else if len < 65536 {
                seq![m16] + be(len as nat, 2)
            } else {
                seq![m32] + be(len as nat, 4)
            },
            None => if len < 256 {
                seq![m8, len as u8]
            } else if len < 65536 {
                seq![m16] + be(len as nat, 2)
            } else {
                seq![m32] + be(len as nat, 4)
            },
        }),
{
    match tiny_base {
        Some(b) => {
            if len <= 15 {
                out.push(b + len as u8);
                assert(final(out)@ =~= old(out)@ + seq![(b + len) as u8]);
                return ;
            }
        },
        None => {},
    }
    if len < 256 {
        out.push(m8);
        out.push(len as u8);
        assert(final(out)@ =~= old(out)@ + seq![m8, len as u8]);
    } else if len < 65536 {
        out.push(m16);
        push_be(out, len as u64, 2);
        assert(final(out)@ =~= old(out)@ + (seq![m16] + be(len as nat, 2)));
    } else {
        out.push(m32);
        push_be(out, len as u64, 4);
        assert(final(out)@ =~= old(out)@ + (seq![m32] + be(len as nat, 4)));
    }
}

/// `enc_list` of a sequence grows by the encoding of a pushed element.
proof fn lemma_enc_list_push(items: Seq<ValueModel>, v: ValueModel)
    ensures
        enc_list(items.push(v)) == enc_list(items) + enc(v),
    decreases items.len(),
{
    if items.len() == 0 {
        assert(items.push(v).first() == v);
        assert(items.push(v).drop_first() =~= Seq::<ValueModel>::empty());
        assert(enc_list(items.push(v)) == enc(v) + enc_list(Seq::<ValueModel>::empty()));
        assert(enc_list(items.push(v)) =~= enc_list(items) + enc(v));
    } else {
        assert(items.push(v).first() == items.first());
        assert(items.push(v).drop_first() =~= items.drop_first().push(v));
        lemma_enc_list_push(items.drop_first(), v);
        assert(enc_list(items.push(v)) == enc(items.first()) + (enc_list(items.drop_first())
            + enc(v)));
        assert(enc_list(items.push(v)) =~= enc_list(items) + enc(v));
    }
}

/// `enc_pairs` of a sequence grows by the encoding of a pushed entry.
proof fn lemma_enc_pairs_push(pairs: Seq<(Seq<u8>, ValueModel)>, key: Seq<u8>, v: ValueModel)
    ensures
        enc_pairs(pairs.push((key, v))) == enc_pairs(pairs) + str_header(key.len()) + key + enc(v),
    decreases pairs.len(),
{
    if pairs.len() == 0 {
        assert(pairs.push((key, v)).first() == (key, v));
        assert(pairs.push((key, v)).drop_first() =~= Seq::<(Seq<u8>, ValueModel)>::empty());
        assert(enc_pairs(pairs.push((key, v))) == str_header(key.len()) + key + enc(v) + enc_pairs(
            Seq::<(Seq<u8>, ValueModel)>::empty(),
        ));
        assert(enc_pairs(pairs.push((key, v))) =~= enc_pairs(pairs) + str_header(key.len()) + key
            + enc(v));
    } else {
        assert(pairs.push((key, v)).first() == pairs.first());
        assert(pairs.push((key, v)).drop_first() =~= pairs.drop_first().push((key, v)));
        lemma_enc_pairs_push(pairs.drop_first(), key, v);
        assert(enc_pairs(pairs.push((key, v))) == str_header(pairs.first().0.len())
            + pairs.first().0 + enc(pairs.first().1) + (enc_pairs(pairs.drop_first())
            + str_header(key.len()) + key + enc(v)));
        assert(enc_pairs(pairs.push((key, v))) =~= enc_pairs(pairs) + str_header(key.len()) + key
            + enc(v));
    }
}

/// Appends the header and payload of one string value, or reports it
/// oversize.
pub(crate) fn encode_str_bytes(sb: &Vec<u8>, out: &mut Vec<u8>) -> (r: Result<(), Error>)
    ensures
        r is Ok <==> valid(ValueModel::Str(sb@)),
        r is Ok ==> final(out)@ == old(out)@ + enc(ValueModel::Str(sb@)),
        r matches Err(e) ==> e is StringTooLong,
{
    if sb.len() > MAX_PAYLOAD_LEN {
        return Err(Error::StringTooLong);
    }
    push_header(out, Some(M_TINY_STR), M_STR8, M_STR16, M_STR32, sb.len());
    push_bytes(out, sb);
    assert(final(out)@ =~= old(out)@ + enc(ValueModel::Str(sb@)));
    Ok(())
}

/// Appends the encoding of a list of values, header and elements, or
/// reports which size bound an oversize part breaks.
#[verifier::loop_isolation(false)]
pub(crate) fn encode_list(items: &Vec<Value>, out: &mut Vec<u8>) -> (r: Result<(), Error>)
    ensures
        r is Ok <==> valid(ValueModel::List(models(items@))),
        r is Ok ==> final(out)@ == old(out)@ + enc(ValueModel::List(models(items@))),
        r matches Err(e) ==> e is StringTooLong || e is BytesTooBig || e is ListTooLong
            || e is MapTooBig,
    decreases items,
{
    let ghost vm = ValueModel::List(models(items@));
    if items.len() > MAX_PAYLOAD_LEN {
        return Err(Error::ListTooLong);
    }
    push_header(out, Some(M_TINY_LIST), M_LIST8, M_LIST16, M_LIST32, items.len());
    let ghost done = old(out)@ + list_header(items@.len());
    assert(out@ == done);
    let mut idx: usize = 0;
    while idx < items.len()
        invariant
            idx <= items.len(),
            out@ == done + enc_list(models(items@.subrange(0, idx as int))),
            forall|j: int| 0 <= j < idx ==> valid(#[trigger] models(items@)[j]),
        decreases items.len() - idx,
    {
        match encode_value(&items[idx], out) {
            Ok(()) => {},
            Err(e) => {
                proof {
                    assert(models(items@)[idx as int] == items@[idx as int].model());
                    assert(!valid(vm));
                }
                return Err(e);
            },
        }
        proof {
            assert(models(items@)[idx as int] == items@[idx as int].model());
            lemma_enc_list_push(
                models(items@.subrange(0, idx as int)),
                items@[idx as int].model(),
            );
            assert(models(items@.subrange(0, idx + 1)) =~= models(
                items@.subrange(0, idx as int),
            ).push(items@[idx as int].model()));
            assert(out@ =~= done + enc_list(models(items@.subrange(0, idx + 1))));
        }
        idx = idx + 1;
    }
    proof {
        assert(items@.subrange(0, items@.len() as int) =~= items@);
        assert(valid(vm));
        assert(final(out)@ =~= old(out)@ + enc(vm));
    }
    Ok(())
}

/// Appends the encoding of a map, header and entries, or reports which
/// size bound an oversize part breaks.
#[verifier::loop_isolation(false)]
pub(crate) fn encode_dict(pairs: &Vec<(Vec<u8>, Value)>, out: &mut Vec<u8>) -> (r: Result<
    (),
    Error,
>)
    ensures
        r is Ok <==> valid(ValueModel::Dictionary(pair_models(pairs@))),
        r is Ok ==> final(out)@ == old(out)@ + enc(ValueModel::Dictionary(pair_models(pairs@))),
        r matches Err(e) ==> e is StringTooLong || e is BytesTooBig || e is ListTooLong
            || e is MapTooBig,
    decreases pairs,
{
    let ghost vm = ValueModel::Dictionary(pair_models(pairs@));
    if pairs.len() > MAX_PAYLOAD_LEN {
        return Err(Error::MapTooBig);
    }
    push_header(out, Some(M_TINY_DICT), M_DICT8, M_DICT16, M_DICT32, pairs.len());
    let ghost done = old(out)@ + dict_header(pairs@.len());
    assert(out@ == done);
    let mut idx: usize = 0;
    while idx < pairs.len()
        invariant
            idx <= pairs.len(),
            out@ == done + enc_pairs(pair_models(pairs@.subrange(0, idx as int))),
            forall|j: int| 0 <= j < idx ==> (#[trigger] pair_models(pairs@)[j]).0.len()
                <= MAX_PAYLOAD_LEN && valid(pair_models(pairs@)[j].1),
        decreases pairs.len() - idx,
    {
        let entry = &pairs[idx];
        if entry.0.len() > MAX_PAYLOAD_LEN {
            proof {
                assert(pair_models(pairs@)[idx as int].0 == pairs@[idx as int].0@);
                assert(!valid(vm));
            }
            return Err(Error::StringTooLong);
        }
        push_header(out, Some(M_TINY_STR), M_STR8, M_STR16, M_STR32, entry.0.len());
        push_bytes(out, &entry.0);
        match encode_value(&entry.1, out) {
            Ok(()) => {},
            Err(e) => {
                proof {
                    assert(pair_models(pairs@)[idx as int].1 == pairs@[idx as int]
                        .1.model());
                    assert(!valid(vm));
                }
                return Err(e);
            },
        }
        proof {
            assert(pair_models(pairs@)[idx as int] == (
                pairs@[idx as int].0@,
                pairs@[idx as int].1.model(),
            ));
            lemma_enc_pairs_push(
                pair_models(pairs@.subrange(0, idx as int)),
                pairs@[idx as int].0@,
                pairs@[idx as int].1.model(),
            );
            assert(pair_models(pairs@.subrange(0, idx + 1)) =~= pair_models(
                pairs@.subrange(0, idx as int),
            ).push((pairs@[idx as int].0@, pairs@[idx as int].1.model())));
            assert(out@ =~= done + enc_pairs(pair_models(pairs@.subrange(0, idx + 1))));
        }
        idx = idx + 1;
    }
    proof {
        assert(pairs@.subrange(0, pairs@.len() as int) =~= pairs@);
        assert(valid(vm));
        assert(final(out)@ =~= old(out)@ + enc(vm));
    }
    Ok(())
}

/// Appends the encoding of `v`, or reports which size bound an oversize
/// part of it breaks (an oversize structure is an oversize field list).
#[verifier::loop_isolation(false)]
pub fn encode_value(v: &Value, out: &mut Vec<u8>) -> (r: Result<(), Error>)
    ensures
        r is Ok <==> valid(v.model()),
        r is Ok ==> final(out)@ == old(out)@ + enc(v.model()),
        r matches Err(e) ==> e is StringTooLong || e is BytesTooBig || e is ListTooLong
            || e is MapTooBig,
    decreases v,
{
    match v {
        Value::Null => {
            out.push(M_NULL);
            assert(final(out)@ =~= old(out)@ + enc(v.model()));
            Ok(())
        },
        Value::Bool(b) => {
            out.push(if *b {
                M_TRUE
            } else {
                M_FALSE
            });
            assert(final(out)@ =~= old(out)@ + enc(v.model()));
            Ok(())
        },
        Value::Int(i) => {
            encode_int(*i, out);
            Ok(())
        },
        Value::Str(s) => encode_str_bytes(s, out),
        Value::Bytes(b) => {
            if b.len() > MAX_PAYLOAD_LEN {
                return Err(Error::BytesTooBig);
            }
            push_header(out, None, M_BYTES8, M_BYTES16, M_BYTES32, b.len());
            push_bytes(out, b);
            assert(final(out)@ =~= old(out)@ + enc(v.model()));
            Ok(())
        },
        Value::List(items) => encode_list(items, out),
        Value::Dictionary(pairs) => encode_dict(pairs, out),
        Value::Struct(sig, fields) => {
            if fields.len() > MAX_STRUCT_ARITY {
                return Err(Error::ListTooLong);
            }
            out.push(M_TINY_STRUCT + fields.len() as u8);
            out.push(*sig);
            let ghost done = old(out)@ + seq![
                (M_TINY_STRUCT + fields@.len()) as u8,
                *sig,
            ];
            assert(out@ =~= done);
            let mut idx: usize = 0;
            while idx < fields.len()
                invariant
                    idx <= fields.len(),
                    out@ == done + enc_list(models(fields@.subrange(0, idx as int))),
                    forall|j: int| 0 <= j < idx ==> valid(#[trigger] models(fields@)[j]),
                decreases fields.len() - idx,
            {
                match encode_value(&fields[idx], out) {
                    Ok(()) => {},
                    Err(e) => {
                        proof {
                            assert(models(fields@)[idx as int] == fields@[idx as int].model());
                            assert(!valid(v.model()));
                        }
                        return Err(e);
                    },
                }
                proof {
                    assert(models(fields@)[idx as int] == fields@[idx as int].model());
                    lemma_enc_list_push(
                        models(fields@.subrange(0, idx as int)),
                        fields@[idx as int].model(),
                    );
                    assert(models(fields@.subrange(0, idx + 1)) =~= models(
                        fields@.subrange(0, idx as int),
                    ).push(fields@[idx as int].model()));
                    assert(out@ =~= done + enc_list(models(fields@.subrange(0, idx + 1))));
                }
                idx = idx + 1;
            }
            proof {
                assert(fields@.subrange(0, fields@.len() as int) =~= fields@);
                assert(valid(v.model()));
                assert(final(out)@ =~= old(out)@ + enc(v.model()));
            }
            Ok(())
        },
    }
}

/// The encoding of `v` as a fresh byte vector: exactly [`enc`] of its
/// model. A value over the wire's size bounds is refused with the size
/// error of its first oversize part.
pub fn encode(v: &Value) -> (r: Result<Vec<u8>, Error>)
    ensures
        r is Ok <==> valid(v.model()),
        r matches Ok(b) ==> b@ == enc(v.model()),
        r matches Err(e) ==> e is StringTooLong || e is BytesTooBig || e is ListTooLong
            || e is MapTooBig,
{
    let mut out: Vec<u8> = Vec::new();
    match encode_value(v, &mut out) {
        Ok(()) => {
            assert(out@ =~= enc(v.model()));
            Ok(out)
        },
        Err(e) => Err(e),
    }
}

} // verus!
