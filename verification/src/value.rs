//! The typed values that travel on the wire: the tagged sum type of the
//! protocol's value encoding, together with its mathematical model.
//!
//! String payloads are held as their UTF-8 bytes: the codec frames and
//! checks bytes, and the length that the wire carries is the byte length.
use vstd::prelude::*;
use vstd::slice::slice_index_get;

verus! {

/// The mathematical model of a wire value, over `Seq` instead of `Vec`.
/// Contracts and the encoding specification speak of this type.
pub enum ValueModel {
    Null,
    Bool(bool),
    Int(i64),
    Str(Seq<u8>),
    Bytes(Seq<u8>),
    List(Seq<ValueModel>),
    Dictionary(Seq<(Seq<u8>, ValueModel)>),
    Struct(u8, Seq<ValueModel>),
}

/// A typed wire value: scalars, byte strings, UTF-8 strings, lists,
/// maps keyed by strings, and tagged structures.
pub enum Value {
    Null,
    Bool(bool),
    Int(i64),
    Str(Vec<u8>),
    Bytes(Vec<u8>),
    List(Vec<Value>),
    Dictionary(Vec<(Vec<u8>, Value)>),
    Struct(u8, Vec<Value>),
}

impl Value {
    /// The mathematical model of this value.
    pub open spec fn model(self) -> ValueModel
        decreases self,
    {
        match self {
            Value::Null => ValueModel::Null,
            Value::Bool(b) => ValueModel::Bool(b),
            Value::Int(i) => ValueModel::Int(i),
            Value::Str(s) => ValueModel::Str(s@),
            Value::Bytes(b) => ValueModel::Bytes(b@),
            Value::List(items) => ValueModel::List(models(items@)),
            Value::Dictionary(pairs) => ValueModel::Dictionary(pair_models(pairs@)),
            Value::Struct(sig, fields) => ValueModel::Struct(sig, models(fields@)),
        }
    }
}

/// The models of a sequence of values, element by element.
pub open spec fn models(s: Seq<Value>) -> Seq<ValueModel>
    decreases s,
{
    Seq::new(
        s.len(),
        |i: int|
            if 0 <= i < s.len() {
                s[i].model()
            } else {
                ValueModel::Null
            },
    )
}

/// The models of a sequence of key-value entries, element by element.
pub open spec fn pair_models(s: Seq<(Vec<u8>, Value)>) -> Seq<(Seq<u8>, ValueModel)>
    decreases s,
{
    Seq::new(
        s.len(),
        |i: int|
            if 0 <= i < s.len() {
                (s[i].0@, s[i].1.model())
            } else {
                (Seq::empty(), ValueModel::Null)
            },
    )
}

/// The views of a sequence of byte vectors, element by element.
pub open spec fn byte_models(s: Seq<Vec<u8>>) -> Seq<Seq<u8>> {
    Seq::new(s.len(), |i: int| s[i]@)
}

/// The value under the first entry of `pairs` whose key is `key`.
pub open spec fn lookup(pairs: Seq<(Seq<u8>, ValueModel)>, key: Seq<u8>) -> Option<ValueModel>
    decreases pairs.len(),
{
    if pairs.len() == 0 {
        None
    } else if pairs.first().0 == key {
        Some(pairs.first().1)
    } else {
        lookup(pairs.drop_first(), key)
    }
}

/// Whether two byte strings hold the same bytes.
pub fn bytes_eq(a: &[u8], b: &[u8]) -> (r: bool)
    ensures
        r == (a@ == b@),
{
    if a.len() != b.len() {
        return false;
    }
    let n = a.len();
    let mut i: usize = 0;
    while i < n
        invariant
            n == a@.len() == b@.len(),
            i <= n,
            forall|j: int| 0 <= j < i ==> a@[j] == b@[j],
        decreases n - i,
    {
        if *slice_index_get(a, i) != *slice_index_get(b, i) {
            return false;
        }
        i = i + 1;
    }
    proof {
        assert(a@ =~= b@);
    }
    true
}

/// A fresh vector holding the same bytes.
pub fn copy_bytes(v: &Vec<u8>) -> (r: Vec<u8>)
    ensures
        r@ == v@,
{
    let n = v.len();
    let mut out: Vec<u8> = Vec::new();
    let mut i: usize = 0;
    while i < n
        invariant
            n == v@.len(),
            i <= n,
            out@ == v@.subrange(0, i as int),
        decreases n - i,
    {
        out.push(v[i]);
        proof {
            assert(out@ =~= v@.subrange(0, i + 1));
        }
        i = i + 1;
    }
    proof {
        assert(out@ =~= v@);
    }
    out
}

/// The value under the first entry of `pairs` whose key is `key`, exactly
/// as [`lookup`] finds it.
pub fn dict_get<'a>(pairs: &'a Vec<(Vec<u8>, Value)>, key: &[u8]) -> (r: Option<&'a Value>)
    ensures
        ({
            match lookup(pair_models(pairs@), key@) {
                Some(vm) => r matches Some(v) && v.model() == vm,
                None => r is None,
            }
        }),
{
    let ghost pm = pair_models(pairs@);
    let n = pairs.len();
    let mut i: usize = 0;
    assert(pm.skip(0) =~= pm);
    while i < n
        invariant
            n == pairs@.len(),
            pm == pair_models(pairs@),
            pm.len() == n,
            i <= n,
            lookup(pm, key@) == lookup(pm.skip(i as int), key@),
        decreases n - i,
    {
        proof {
            assert(pm.skip(i as int).first() == pm[i as int]);
            assert(pm.skip(i as int).drop_first() =~= pm.skip(i + 1));
        }
        if bytes_eq(pairs[i].0.as_slice(), key) {
            return Some(&pairs[i].1);
        }
        i = i + 1;
    }
    proof {
        assert(pm.skip(n as int) =~= Seq::<(Seq<u8>, ValueModel)>::empty());
    }
    None
}

} // verus!
