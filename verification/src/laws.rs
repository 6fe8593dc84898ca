//! The library's guarantees that span more than one function, stated and
//! proved once.
use vstd::prelude::*;

use crate::de::{decode_optional, plain_primitive};
use crate::schema::SchemaModel;
use crate::ser::{mapping_end, upsert_key};
use crate::types::{valid, ValueModel};

verus! {

/// Round trip for primitives: every encoded primitive — null, boolean, the
/// two integer widths and the two float widths — carries a tag that a
/// shapeless decode request accepts, so it replays unchanged.
pub proof fn lemma_primitive_round_trip(m: ValueModel)
    requires
        m is Null || m is Boolean || m is Int || m is Long || m is Float || m is Double,
    ensures
        plain_primitive(m),
{
}

/// Round trip for enums: the union a variant encoder produces holds the
/// variant's ordinal and payload exactly, so an enum decode request whose
/// declared variant list covers the ordinal reads both back unchanged.
pub proof fn lemma_enum_round_trip(index: nat, payload: ValueModel)
    ensures
        ValueModel::Union(index, Box::new(payload))->Union_0 == index,
        *(ValueModel::Union(index, Box::new(payload))->Union_1) == payload,
{
}

/// Round trip for optionals: exactly what the encoder produces for an absent
/// optional (`Union(0, Null)`) or a present one (`Union(1, _)`), an optional
/// decode request reads back, absent for absent and the same content for
/// present.
pub proof fn lemma_optional_round_trip(o: Option<ValueModel>)
    ensures
        decode_optional(
            match o {
                None => ValueModel::Union(0, Box::new(ValueModel::Null)),
                Some(m) => ValueModel::Union(1, Box::new(m)),
            },
        ) == Some(o),
{
}

/// Every union shape other than the optional convention fails to decode as
/// an optional: only index 0 holding null, and index 1, are accepted.
pub proof fn lemma_optional_rejects(index: nat, inner: ValueModel)
    requires
        !(index == 0 && inner == ValueModel::Null),
        index != 1,
    ensures
        decode_optional(ValueModel::Union(index, Box::new(inner))) is None,
{
}

/// Replay order for arrays, records and maps: a decoder that has handed out
/// `k` of the stored elements holds exactly the elements after `k`, offers
/// the element at `k` next, and signals a clean end after the last one — so
/// a full replay yields the stored elements in their stored order.
pub proof fn lemma_replay<T>(s: Seq<T>, k: int)
    requires
        0 <= k < s.len(),
    ensures
        s.skip(0) == s,
        s.skip(k).len() == s.len() - k,
        s.skip(k)[0] == s[k],
        s.skip(k).drop_first() == s.skip(k + 1),
        s.skip(s.len() as int).len() == 0,
{
    assert(s.skip(0) =~= s);
    assert(s.skip(k).drop_first() =~= s.skip(k + 1));
}

/// The build half of the map round trip: a key that no buffered key equals
/// is appended, so driving the protocol with distinct keys buffers them in
/// arrival order, each pointing at its own value slot.
pub proof fn lemma_mapping_build(keys: Seq<(Seq<char>, int)>, key: Seq<char>, slot: int)
    requires
        forall|k: int| 0 <= k < keys.len() ==> (#[trigger] keys[k]).0 != key,
    ensures
        upsert_key(keys, key, slot) == keys.push((key, slot)),
{
    crate::ser::lemma_upsert_key_absent(keys, key, slot);
}

/// Round trip for string-keyed maps: a map serializer driven by the protocol
/// — each key immediately followed by its value, all keys distinct — buffers
/// key `i` pointing at value slot `i`, and its finalization then reassembles
/// exactly the pairs that were put in, in arrival order.
pub proof fn lemma_mapping_round_trip(pairs: Seq<(Seq<char>, ValueModel)>)
    ensures
        mapping_end(
            Seq::new(pairs.len(), |i: int| (pairs[i].0, i)),
            Seq::new(pairs.len(), |i: int| pairs[i].1),
        ) == pairs,
{
    let values = Seq::new(pairs.len(), |i: int| pairs[i].1);
    lemma_mapping_run(pairs, values, pairs.len() as int);
    assert(pairs.take(pairs.len() as int) =~= pairs);
    assert(Seq::new(pairs.len(), |i: int| (pairs[i].0, i)) =~= Seq::new(
        pairs.len() as nat,
        |i: int| (pairs[i].0, i),
    ));
}

/// Finalizing the first `n` keys of a protocol-conformant run reassembles
/// the first `n` pairs.
proof fn lemma_mapping_run(pairs: Seq<(Seq<char>, ValueModel)>, values: Seq<ValueModel>, n: int)
    requires
        0 <= n <= pairs.len(),
        pairs.len() <= values.len(),
        forall|i: int| 0 <= i < pairs.len() ==> values[i] == (#[trigger] pairs[i]).1,
    ensures
        mapping_end(Seq::new(n as nat, |i: int| (pairs[i].0, i)), values) == pairs.take(n),
    decreases n,
{
    let keys_n = Seq::new(n as nat, |i: int| (pairs[i].0, i));
    if n == 0 {
        assert(mapping_end(keys_n, values) =~= pairs.take(0));
    } else {
        let keys_m = Seq::new((n - 1) as nat, |i: int| (pairs[i].0, i));
        assert(keys_n =~= keys_m.push((pairs[n - 1].0, n - 1)));
        crate::ser::lemma_mapping_end_snoc(keys_m, values, (pairs[n - 1].0, n - 1));
        lemma_mapping_run(pairs, values, n - 1);
        assert(pairs.take(n) =~= pairs.take(n - 1).push(pairs[n - 1]));
    }
}

/// Field order is part of a record's validity: against a schema declaring
/// two fields of distinct names in one order, a record carrying the fields
/// in the swapped order never validates, whatever the values.
pub proof fn lemma_record_order_matters(
    name0: Seq<char>,
    name1: Seq<char>,
    v0: ValueModel,
    v1: ValueModel,
    s0: SchemaModel,
    s1: SchemaModel,
)
    requires
        name0 != name1,
    ensures
        !valid(
            ValueModel::Record(seq![(name1, v1), (name0, v0)]),
            SchemaModel::Record { fields: seq![(name0, s0), (name1, s1)] },
        ),
{
    let pairs = seq![(name1, v1), (name0, v0)];
    let fields = seq![(name0, s0), (name1, s1)];
    assert(pairs[0].0 != fields[0].0);
}

/// Enum validation goes by position: a symbol-and-index value validates
/// exactly when the stored index selects the stored symbol in the schema's
/// symbol list — a symbol sitting at a different position is rejected — and
/// a bare string validates exactly when it is a listed symbol.
pub proof fn lemma_enum_validation(index: i32, symbol: Seq<char>, symbols: Seq<Seq<char>>)
    ensures
        valid(ValueModel::Enum(index, symbol), SchemaModel::Enum { symbols }) <==> (0 <= index
            && index < symbols.len() && symbols[index as int] == symbol),
        valid(ValueModel::String(symbol), SchemaModel::Enum { symbols }) <==> symbols.contains(
            symbol,
        ),
{
}

/// Fixed validation goes by declared size alone: a fixed value validates
/// against exactly the fixed schemas declaring its own size.
pub proof fn lemma_fixed_validation(size: nat, bytes: Seq<u8>, declared: nat)
    ensures
        valid(ValueModel::Fixed(size, bytes), SchemaModel::Fixed { size: declared }) <==> size
            == declared,
{
}

/// A union value whose index selects no alternative of the union schema is
/// simply invalid — validation reports `false` and never faults.
pub proof fn lemma_union_out_of_range(
    index: nat,
    inner: ValueModel,
    variants: Seq<SchemaModel>,
)
    requires
        index >= variants.len(),
    ensures
        !valid(ValueModel::Union(index, Box::new(inner)), SchemaModel::Union(variants)),
{
}

} // verus!
