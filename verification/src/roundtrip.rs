//! Decoding inverts encoding: reading back the wire image of any value the
//! wire can legally carry gives that value, whatever bytes follow it.
use vstd::prelude::*;
use vstd::arithmetic::div_mod::{
    lemma_mod_bound, lemma_mod_multiples_vanish, lemma_small_mod,
};
use crate::codec::{
    be, be_val, bytes_header, dec, dec_pairs, dec_seq, dec_str, enc, enc_int, enc_list, enc_pairs,
    lemma_be_len, lemma_be_val_be, lemma_pow256_values, lemma_twos_in_range, pow256, sint_val,
    str_header, twos, valid, DecErr, MAX_PAYLOAD_LEN,
};
use crate::value::ValueModel;

verus! {

/// Every encoding starts with at least its marker byte.
proof fn lemma_enc_len_pos(v: ValueModel)
    ensures
        enc(v).len() >= 1,
{
    match v {
        ValueModel::Int(i) => {
            lemma_be_len(twos(i as int, 2), 2);
            lemma_be_len(twos(i as int, 4), 4);
            lemma_be_len(twos(i as int, 8), 8);
        },
        _ => {},
    }
}

/// Reading back the encoding of an integer gives that integer.
proof fn lemma_dec_enc_int(i: i64, rest: Seq<u8>)
    ensures
        dec(enc_int(i) + rest) == Ok::<_, DecErr>((ValueModel::Int(i), enc_int(i).len() as nat)),
{
    lemma_pow256_values();
    let s = enc_int(i) + rest;
    if -16 <= i && i <= 127 {
        if i >= 0 {
            lemma_small_mod(i as nat, 256);
        } else {
            lemma_mod_multiples_vanish(1, i as int, 256);
            lemma_small_mod((i + 256) as nat, 256);
        }
        assert(s[0] == (i as int % 256) as u8);
    } else if -128 <= i && i < 128 {
        lemma_mod_multiples_vanish(1, i as int, 256);
        lemma_small_mod((i + 256) as nat, 256);
        let b = (i as int % 256) as u8;
        assert(s[0] == 0xC8);
        assert(s.subrange(1, 2) =~= seq![b]);
        assert(seq![b].drop_last() =~= Seq::<u8>::empty());
        reveal_with_fuel(be_val, 2);
        assert(be_val(seq![b]) == b);
        assert(sint_val(seq![b]) == i);
    } else if -32768 <= i && i < 32768 {
        lemma_mod_bound(i as int, pow256(2) as int);
        lemma_be_len(twos(i as int, 2), 2);
        lemma_twos_in_range(i as int, 2);
        assert(s[0] == 0xC9);
        assert(s.len() >= 3);
        assert(s.subrange(1, 3) =~= be(twos(i as int, 2), 2));
        lemma_be_val_be(twos(i as int, 2), 2);
        assert(sint_val(be(twos(i as int, 2), 2)) == i);
    } else if -0x8000_0000 <= i && i < 0x8000_0000 {
        lemma_mod_bound(i as int, pow256(4) as int);
        lemma_be_len(twos(i as int, 4), 4);
        lemma_twos_in_range(i as int, 4);
        assert(s[0] == 0xCA);
        assert(s.len() >= 5);
        assert(s.subrange(1, 5) =~= be(twos(i as int, 4), 4));
        lemma_be_val_be(twos(i as int, 4), 4);
        assert(sint_val(be(twos(i as int, 4), 4)) == i);
    } else {
        lemma_mod_bound(i as int, pow256(8) as int);
        lemma_be_len(twos(i as int, 8), 8);
        lemma_twos_in_range(i as int, 8);
        assert(s[0] == 0xCB);
        assert(s.len() >= 9);
        assert(s.subrange(1, 9) =~= be(twos(i as int, 8), 8));
        lemma_be_val_be(twos(i as int, 8), 8);
        assert(sint_val(be(twos(i as int, 8), 8)) == i);
    }
}

/// Reading back an encoded string header and payload gives that payload.
proof fn lemma_dec_str_enc(sb: Seq<u8>, rest: Seq<u8>)
    requires
        sb.len() <= MAX_PAYLOAD_LEN,
    ensures
        str_header(sb.len()).len() + sb.len() >= 1,
        dec_str(str_header(sb.len()) + sb + rest) == Ok::<_, DecErr>(
            (sb, (str_header(sb.len()).len() + sb.len()) as nat),
        ),
{
    let h = str_header(sb.len());
    let s = h + sb + rest;
    let l = sb.len();
    if l <= 15 {
        assert(s[0] == (0x80 + l) as u8);
        assert(s.subrange(1, 1 + l as int) =~= sb);
    } else if l < 256 {
        assert(s[0] == 0xD0);
        assert(s[1] == l as u8);
        assert(s.subrange(2, 2 + l as int) =~= sb);
    } else if l < 65536 {
        lemma_be_len(l, 2);
        assert(s[0] == 0xD1);
        assert(s.len() >= 3);
        assert(s.subrange(1, 3) =~= be(l, 2));
        lemma_pow256_values();
        lemma_be_val_be(l, 2);
        assert(s.subrange(3, 3 + l as int) =~= sb);
    } else {
        lemma_be_len(l, 4);
        assert(s[0] == 0xD2);
        assert(s.len() >= 5);
        assert(s.subrange(1, 5) =~= be(l, 4));
        lemma_pow256_values();
        lemma_be_val_be(l, 4);
        assert(s.subrange(5, 5 + l as int) =~= sb);
    }
}

/// Reading back an encoded byte-string header and payload gives that
/// payload.
proof fn lemma_dec_bytes_enc(bb: Seq<u8>, rest: Seq<u8>)
    requires
        bb.len() <= MAX_PAYLOAD_LEN,
    ensures
        dec(bytes_header(bb.len()) + bb + rest) == Ok::<_, DecErr>(
            (ValueModel::Bytes(bb), (bytes_header(bb.len()).len() + bb.len()) as nat),
        ),
{
    let h = bytes_header(bb.len());
    let s = h + bb + rest;
    let l = bb.len();
    if l < 256 {
        assert(s[0] == 0xCC);
        assert(s[1] == l as u8);
        assert(s.subrange(2, 2 + l as int) =~= bb);
    } else if l < 65536 {
        lemma_be_len(l, 2);
        assert(s[0] == 0xCD);
        assert(s.len() >= 3);
        assert(s.subrange(1, 3) =~= be(l, 2));
        lemma_pow256_values();
        lemma_be_val_be(l, 2);
        assert(s.subrange(3, 3 + l as int) =~= bb);
    } else {
        lemma_be_len(l, 4);
        assert(s[0] == 0xCE);
        assert(s.len() >= 5);
        assert(s.subrange(1, 5) =~= be(l, 4));
        lemma_pow256_values();
        lemma_be_val_be(l, 4);
        assert(s.subrange(5, 5 + l as int) =~= bb);
    }
}

/// Decoding inverts encoding: the wire image of a legal value, followed by
/// anything, reads back as that value, consuming exactly its image.
pub proof fn lemma_dec_enc(v: ValueModel, rest: Seq<u8>)
    requires
        valid(v),
    ensures
        dec(enc(v) + rest) == Ok::<_, DecErr>((v, enc(v).len() as nat)),
    decreases v, 1nat,
{
    let s = enc(v) + rest;
    match v {
        ValueModel::Null => {
            assert(s[0] == 0xC0);
        },
        ValueModel::Bool(b) => {
            assert(s[0] == if b { 0xC3u8 } else { 0xC2u8 });
        },
        ValueModel::Int(i) => {
            assert(enc(v) == enc_int(i));
            lemma_dec_enc_int(i, rest);
        },
        ValueModel::Str(sb) => {
            assert(str_header(sb.len()) + sb + rest =~= s);
            lemma_dec_str_enc(sb, rest);
            let m = s[0];
            assert(0x80 <= m < 0x90 || m == 0xD0 || m == 0xD1 || m == 0xD2);
        },
        ValueModel::Bytes(bb) => {
            assert(bytes_header(bb.len()) + bb + rest =~= s);
            lemma_dec_bytes_enc(bb, rest);
        },
        ValueModel::List(items) => {
            lemma_dec_list_enc(items, rest);
        },
        ValueModel::Dictionary(pairs) => {
            lemma_dec_dict_enc(pairs, rest);
        },
        ValueModel::Struct(sig, fields) => {
            let n = fields.len();
            lemma_dec_seq_enc(fields, rest);
            assert(s[0] == (0xB0 + n) as u8);
            assert(s.len() >= 2);
            assert(s[1] == sig);
            assert(s.skip(2) =~= enc_list(fields) + rest);
        },
    }
}

/// The list case of [`lemma_dec_enc`]: the header announces the count and
/// the elements follow.
#[verifier::rlimit(100)]
proof fn lemma_dec_list_enc(items: Seq<ValueModel>, rest: Seq<u8>)
    requires
        valid(ValueModel::List(items)),
    ensures
        dec(enc(ValueModel::List(items)) + rest) == Ok::<_, DecErr>(
            (ValueModel::List(items), enc(ValueModel::List(items)).len() as nat),
        ),
    decreases items, 2nat,
{
    let v = ValueModel::List(items);
    let s = enc(v) + rest;
    let n = items.len();
    lemma_dec_seq_enc(items, rest);
    if n <= 15 {
        assert(s[0] == (0x90 + n) as u8);
        assert(s.skip(1) =~= enc_list(items) + rest);
    } else if n < 256 {
        assert(s[0] == 0xD4);
        assert(s[1] == n as u8);
        assert(s.skip(2) =~= enc_list(items) + rest);
    } else if n < 65536 {
        lemma_be_len(n, 2);
        assert(s[0] == 0xD5);
        assert(s.len() >= 3);
        assert(s.subrange(1, 3) =~= be(n, 2));
        lemma_pow256_values();
        lemma_be_val_be(n, 2);
        assert(s.skip(3) =~= enc_list(items) + rest);
    } else {
        lemma_be_len(n, 4);
        assert(s[0] == 0xD6);
        assert(s.len() >= 5);
        assert(s.subrange(1, 5) =~= be(n, 4));
        lemma_pow256_values();
        lemma_be_val_be(n, 4);
        assert(s.skip(5) =~= enc_list(items) + rest);
    }
}

/// The map case of [`lemma_dec_enc`]: the header announces the entry
/// count and the entries follow.
#[verifier::rlimit(100)]
proof fn lemma_dec_dict_enc(pairs: Seq<(Seq<u8>, ValueModel)>, rest: Seq<u8>)
    requires
        valid(ValueModel::Dictionary(pairs)),
    ensures
        dec(enc(ValueModel::Dictionary(pairs)) + rest) == Ok::<_, DecErr>(
            (ValueModel::Dictionary(pairs), enc(ValueModel::Dictionary(pairs)).len() as nat),
        ),
    decreases pairs, 2nat,
{
    let v = ValueModel::Dictionary(pairs);
    let s = enc(v) + rest;
    let n = pairs.len();
    lemma_dec_pairs_enc(pairs, rest);
    if n <= 15 {
        assert(s[0] == (0xA0 + n) as u8);
        assert(s.skip(1) =~= enc_pairs(pairs) + rest);
    } else if n < 256 {
        assert(s[0] == 0xD8);
        assert(s[1] == n as u8);
        assert(s.skip(2) =~= enc_pairs(pairs) + rest);
    } else if n < 65536 {
        lemma_be_len(n, 2);
        assert(s[0] == 0xD9);
        assert(s.len() >= 3);
        assert(s.subrange(1, 3) =~= be(n, 2));
        lemma_pow256_values();
        lemma_be_val_be(n, 2);
        assert(s.skip(3) =~= enc_pairs(pairs) + rest);
    } else {
        lemma_be_len(n, 4);
        assert(s[0] == 0xDA);
        assert(s.len() >= 5);
        assert(s.subrange(1, 5) =~= be(n, 4));
        lemma_pow256_values();
        lemma_be_val_be(n, 4);
        assert(s.skip(5) =~= enc_pairs(pairs) + rest);
    }
}

/// Reading back the concatenated encodings of a sequence of legal values,
/// element count known, gives that sequence.
proof fn lemma_dec_seq_enc(items: Seq<ValueModel>, rest: Seq<u8>)
    requires
        forall|i: int| 0 <= i < items.len() ==> valid(#[trigger] items[i]),
    ensures
        dec_seq(enc_list(items) + rest, items.len()) == Ok::<_, DecErr>(
            (items, enc_list(items).len() as nat),
        ),
    decreases items, 0nat,
{
    if items.len() == 0 {
        assert(enc_list(items) + rest =~= rest);
        assert(items =~= Seq::<ValueModel>::empty());
    } else {
        let first = items.first();
        let tail = items.drop_first();
        let s = enc_list(items) + rest;
        assert(valid(first));
        assert(s =~= enc(first) + (enc_list(tail) + rest));
        lemma_dec_enc(first, enc_list(tail) + rest);
        lemma_enc_len_pos(first);
        let k = enc(first).len();
        assert(s.skip(k as int) =~= enc_list(tail) + rest);
        assert(forall|i: int| 0 <= i < tail.len() ==> valid(#[trigger] tail[i])) by {
            assert(forall|i: int| 0 <= i < tail.len() ==> tail[i] == items[i + 1]);
        }
        lemma_dec_seq_enc(tail, rest);
        assert(seq![first] + tail =~= items);
    }
}

/// Reading back the concatenated encodings of a sequence of legal entries,
/// entry count known, gives that sequence.
#[verifier::rlimit(100)]
proof fn lemma_dec_pairs_enc(pairs: Seq<(Seq<u8>, ValueModel)>, rest: Seq<u8>)
    requires
        forall|i: int| 0 <= i < pairs.len() ==> (#[trigger] pairs[i]).0.len() <= MAX_PAYLOAD_LEN
            && valid(pairs[i].1),
    ensures
        dec_pairs(enc_pairs(pairs) + rest, pairs.len()) == Ok::<_, DecErr>(
            (pairs, enc_pairs(pairs).len() as nat),
        ),
    decreases pairs, 0nat,
{
    if pairs.len() == 0 {
        assert(enc_pairs(pairs) + rest =~= rest);
        assert(pairs =~= Seq::<(Seq<u8>, ValueModel)>::empty());
    } else {
        let key = pairs.first().0;
        let val = pairs.first().1;
        let tail = pairs.drop_first();
        let s = enc_pairs(pairs) + rest;
        assert(key.len() <= MAX_PAYLOAD_LEN && valid(val)) by {
            assert(pairs.first() == pairs[0]);
        }
        assert(s =~= str_header(key.len()) + key + (enc(val) + (enc_pairs(tail) + rest)));
        lemma_dec_str_enc(key, enc(val) + (enc_pairs(tail) + rest));
        let k1 = str_header(key.len()).len() + key.len();
        assert(s.skip(k1 as int) =~= enc(val) + (enc_pairs(tail) + rest));
        lemma_dec_enc(val, enc_pairs(tail) + rest);
        lemma_enc_len_pos(val);
        let k2 = enc(val).len();
        assert(s.skip((k1 + k2) as int) =~= enc_pairs(tail) + rest);
        assert(forall|i: int|
            0 <= i < tail.len() ==> (#[trigger] tail[i]).0.len() <= MAX_PAYLOAD_LEN && valid(
                tail[i].1,
            )) by {
            assert(forall|i: int| 0 <= i < tail.len() ==> tail[i] == pairs[i + 1]);
        }
        lemma_dec_pairs_enc(tail, rest);
        assert(seq![(key, val)] + tail =~= pairs);
    }
}

} // verus!
