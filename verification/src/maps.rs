//! Hash maps: saved as their number of entries, then each key followed by
//! its value, in the order in which the map is walked.
use vstd::prelude::*;
use std::collections::HashMap;
use std::hash::{BuildHasher, Hash};
use vstd::relations::injective;
use vstd::std_specs::iter::IteratorSpec;
use vstd::std_specs::hash::{obeys_key_model, builds_valid_hashers, into_iter, spec_hash_map_iter};
use crate::error::SavefileError;
use crate::serializer::{Serializer, appended, extended, lemma_appended_extends, lemma_extended_trans};
use crate::deserializer::{Deserializer, same_versions};
use crate::format::{Decoded, usize_bytes, parse_usize};
use crate::schema::{Schema, SchemaStruct, Field, SchemaView, FieldView, fields_view, field_view};
use crate::traits::{WithSchema, Serialize, Deserialize};

verus! {

broadcast use lemma_appended_extends;

/// The bytes of key-value pairs, one after the other: each key, then its value.
pub open spec fn pairs_bytes<K: Serialize, V: Serialize>(pairs: Seq<(K, V)>, version: u32) -> Seq<u8>
    decreases pairs.len(),
{
    if pairs.len() == 0 {
        Seq::empty()
    } else {
        pairs_bytes(pairs.drop_last(), version) + pairs.last().0.spec_serialize(version)
            + pairs.last().1.spec_serialize(version)
    }
}

/// The order in which the map is walked lists its entries: as many as the map
/// holds, each key with its value, and every key of the map.
pub open spec fn map_listed<K, V, S>(m: HashMap<K, V, S>) -> bool {
    let p = into_iter(spec_hash_map_iter(&m));
    &&& p.len() == m@.len()
    &&& forall|j: int| 0 <= j < p.len() ==> #[trigger] m@.contains_key(p[j].0) && m@[p[j].0] == p[j].1
    &&& forall|k: K| #[trigger] m@.contains_key(k) ==> exists|j: int| 0 <= j < p.len() && p[j].0 == k
}

/// Whether the map's key type and hasher follow `vstd`'s hash-table model.
pub open spec fn map_modeled<K, S>() -> bool {
    obeys_key_model::<K>() && builds_valid_hashers::<S>()
}

/// The entries of the map can be written: each key and value, where the
/// map is within the model; else every value of the key and value types.
pub open spec fn entries_serializable<K: Serialize, V: Serialize, S>(m: HashMap<K, V, S>) -> bool {
    if map_modeled::<K, S>() {
        forall|k: K| #[trigger] m@.contains_key(k) ==> k.spec_serializable() && m@[k].spec_serializable()
    } else {
        (forall|k: K| #[trigger] k.spec_serializable()) && (forall|v: V| #[trigger] v.spec_serializable())
    }
}

/// Writes each entry of the map, key then value, in the order the map is walked.
fn write_pairs<K: Serialize, V: Serialize, S>(m: &HashMap<K, V, S>, serializer: &mut Serializer)
    requires
        entries_serializable(*m),
    ensures
        extended(*old(serializer), *final(serializer)),
        map_modeled::<K, S>() ==> map_listed(*m),
        map_modeled::<K, S>() && (forall|k: K| #[trigger]
            m@.contains_key(k) ==> k.spec_modeled() && m@[k].spec_modeled()) ==> appended(
            *old(serializer),
            *final(serializer),
            pairs_bytes(into_iter(spec_hash_map_iter(m)), old(serializer).version),
        ),
{
    let ghost start = serializer@;
    let ghost version = serializer.version;
    let ghost pairs = into_iter(spec_hash_map_iter(m));
    let ghost modeled = map_modeled::<K, S>();
    let ghost all_modeled = modeled && forall|k: K| #[trigger]
        m@.contains_key(k) ==> k.spec_modeled() && m@[k].spec_modeled();
    broadcast use vstd::std_specs::hash::group_hash_axioms;

    let len = m.len();
    let mut walk = m.iter();
    proof {
        if modeled {
            assert(len == pairs.len());
            assert(map_listed(*m)) by {
                let p = into_iter(spec_hash_map_iter(m));
                assert(p == walk.remaining().unref());
                assert forall|k: K| #[trigger] m@.contains_key(k) implies exists|j: int|
                    0 <= j < p.len() && p[j].0 == k by {
                    assert(walk.remaining().contains((&k, &m@[k])));
                    let j = choose|j: int|
                        0 <= j < walk.remaining().len() && walk.remaining()[j] == (&k, &m@[k]);
                    assert(p[j].0 == k);
                }
            }
            assert(pairs.skip(0) =~= pairs);
        }
    }
    // As many entries are written as the count before them says; the count
    // also bounds the walk.
    let mut i: usize = 0;
    while i < len
        invariant
            i <= len,
            serializer.version == version,
            version == old(serializer).version,
            start == old(serializer)@,
            pairs == into_iter(spec_hash_map_iter(m)),
            modeled == map_modeled::<K, S>(),
            all_modeled == (modeled && forall|k: K| #[trigger]
                m@.contains_key(k) ==> k.spec_modeled() && m@[k].spec_modeled()),
            entries_serializable(*m),
            extended(*old(serializer), *serializer),
            walk.obeys_prophetic_iter_laws(),
            modeled ==> len == pairs.len(),
            modeled ==> walk.remaining().unref() == pairs.skip(i as int),
            all_modeled ==> serializer@ == start + pairs_bytes(pairs.take(i as int), version),
            modeled ==> map_listed(*m),
        decreases len - i,
    {
        let ghost rem = walk.remaining();
        let next = advance(&mut walk);
        let ghost rem2 = walk.remaining();
        proof {
            if modeled && next is Some {
                assert(rem2.unref() =~= rem.unref().drop_first());
                assert(rem.unref().drop_first() =~= pairs.skip(i + 1));
            }
        }
        match next {
            Some((k, v)) => {
                proof {
                    if modeled {
                        assert(rem.unref()[0] == pairs.skip(i as int)[0]);
                        assert(pairs[i as int] == (*k, *v));
                        assert(m@.contains_key(pairs[i as int].0));
                        assert(m@.contains_key(*k));
                    }
                }
                let ghost s0 = *serializer;
                let _ = k.serialize(serializer);
                let ghost s1 = *serializer;
                let _ = v.serialize(serializer);
                proof {
                    lemma_extended_trans(s0, s1, *serializer);
                    lemma_extended_trans(*old(serializer), s0, *serializer);
                    if all_modeled {
                        assert(pairs.take(i + 1).drop_last() =~= pairs.take(i as int));
                    }
                }
            },
            None => {
                proof {
                    if modeled {
                        assert(rem.unref().len() > 0);
                    }
                }
            },
        }
        i += 1;
    }
    proof {
        if all_modeled {
            assert(pairs.take(pairs.len() as int) =~= pairs);
        }
    }
}

/// Takes the next item of an iterator: the first of those it has yet to
/// give, or `None` once it has given them all.
fn advance<I: Iterator>(it: &mut I) -> (r: Option<I::Item>)
    ensures
        (*final(it)).obeys_prophetic_iter_laws() == (*old(it)).obeys_prophetic_iter_laws(),
        (*old(it)).obeys_prophetic_iter_laws() ==> if (*old(it)).remaining().len() > 0 {
            &&& (*final(it)).remaining() == (*old(it)).remaining().drop_first()
            &&& r == Some((*old(it)).remaining()[0])
        } else {
            r is None
        },
{
    it.next()
}

impl<K: WithSchema + Eq + Hash, V: WithSchema, S: BuildHasher> WithSchema for HashMap<K, V, S> {
    /// A vector of structs with a field "key" and a field "value".
    open spec fn spec_schema(version: u32) -> SchemaView {
        SchemaView::Vector(
            Box::new(
                SchemaView::Struct(
                    seq![
                        FieldView { name: "key"@, value: K::spec_schema(version) },
                        FieldView { name: "value"@, value: V::spec_schema(version) },
                    ],
                ),
            ),
        )
    }

    fn schema(version: u32) -> (r: Schema) {
        let key = Field { name: "key".to_string(), value: Box::new(K::schema(version)) };
        let value = Field { name: "value".to_string(), value: Box::new(V::schema(version)) };
        let fields = vec![key, value];
        proof {
            broadcast use vstd::string::group_string_axioms;

            let fs = fields@;
            assert(fs.drop_last().drop_last() =~= Seq::<Field>::empty());
            assert(fs.drop_last() =~= seq![fs[0]]);
            reveal_with_fuel(fields_view, 3);
            assert(fields_view(fs) =~= seq![field_view(fs[0]), field_view(fs[1])]);
            assert(fs[0].name@ == "key"@);
            assert(fs[1].name@ == "value"@);
            assert(field_view(fs[0]) == FieldView { name: "key"@, value: K::spec_schema(version) });
            assert(field_view(fs[1]) == FieldView { name: "value"@, value: V::spec_schema(version) });
        }
        let r = Schema::Vector(Box::new(Schema::Struct(SchemaStruct { fields })));
        proof {
            reveal_with_fuel(crate::schema::schema_view, 2);
            assert(r.deep_view() =~= Self::spec_schema(version));
        }
        r
    }
}

impl<K: Serialize + Eq + Hash, V: Serialize, S: BuildHasher> Serialize for HashMap<K, V, S> {
    open spec fn spec_serialize(&self, version: u32) -> Seq<u8> {
        usize_bytes(self@.len() as usize) + pairs_bytes(into_iter(spec_hash_map_iter(self)), version)
    }

    open spec fn spec_serializable(&self) -> bool {
        entries_serializable(*self)
    }

    /// The map's key type and hasher follow `vstd`'s hash-table model, and
    /// every key and value is modeled.
    open spec fn spec_modeled(&self) -> bool {
        &&& map_modeled::<K, S>()
        &&& forall|k: K| #[trigger]
            self@.contains_key(k) ==> k.spec_modeled() && self@[k].spec_modeled()
    }

    fn serialize(&self, serializer: &mut Serializer) -> (r: Result<(), SavefileError>)
        ensures
            map_modeled::<K, S>() ==> map_listed(*self),
    {
        broadcast use vstd::std_specs::hash::group_hash_axioms;

        let ghost s0 = *serializer;
        let _ = serializer.write_usize(self.len());
        let ghost s1 = *serializer;
        write_pairs(self, serializer);
        proof {
            lemma_extended_trans(s0, s1, *serializer);
        }
        assert(self.spec_modeled() ==> serializer@ =~= old(serializer)@ + self.spec_serialize(
            old(serializer).version,
        ));
        Ok(())
    }
}

/// The schema of a hash map is a vector of structs with a field "key" of
/// the key type's schema and a field "value" of the value type's schema,
/// for every version.
pub proof fn lemma_map_schema<K: WithSchema + Eq + Hash, V: WithSchema, S: BuildHasher>(version: u32)
    ensures
        <HashMap<K, V, S> as WithSchema>::spec_schema(version) == SchemaView::Vector(
            Box::new(
                SchemaView::Struct(
                    seq![
                        FieldView { name: "key"@, value: K::spec_schema(version) },
                        FieldView { name: "value"@, value: V::spec_schema(version) },
                    ],
                ),
            ),
        ),
{
}

/// Whether hash maps with keys of type `K` are within the model that the
/// proofs about them rest on: `K` follows `vstd`'s hash-table key model, and
/// distinct keys have distinct deep views.
pub open spec fn keys_modeled<K: DeepView>() -> bool {
    obeys_key_model::<K>() && injective(|k: K| k.deep_view())
}

/// The integer types are within the model as keys.
pub proof fn lemma_integer_keys_modeled()
    ensures
        keys_modeled::<u8>(),
        keys_modeled::<u16>(),
        keys_modeled::<u32>(),
        keys_modeled::<u64>(),
        keys_modeled::<usize>(),
        keys_modeled::<i8>(),
        keys_modeled::<i16>(),
        keys_modeled::<i32>(),
        keys_modeled::<i64>(),
        keys_modeled::<isize>(),
{
    broadcast use vstd::std_specs::hash::group_hash_axioms;

    assert(injective(|k: u8| k.deep_view()));
    assert(injective(|k: u16| k.deep_view()));
    assert(injective(|k: u32| k.deep_view()));
    assert(injective(|k: u64| k.deep_view()));
    assert(injective(|k: usize| k.deep_view()));
    assert(injective(|k: i8| k.deep_view()));
    assert(injective(|k: i16| k.deep_view()));
    assert(injective(|k: i32| k.deep_view()));
    assert(injective(|k: i64| k.deep_view()));
    assert(injective(|k: isize| k.deep_view()));
}

/// Reading `n` entries one after the other, each a key then its value, and
/// inserting them in turn (a later entry for the same key replaces an
/// earlier one); the first failure ends it.
pub open spec fn parse_pairs<K: Deserialize, V: Deserialize>(
    input: Seq<u8>,
    n: nat,
    file_version: u32,
) -> Decoded<Map<<K as DeepView>::V, <V as DeepView>::V>>
    decreases n,
{
    if n == 0 {
        Decoded::Value(Map::empty(), 0)
    } else {
        let prev = parse_pairs::<K, V>(input, (n - 1) as nat, file_version);
        if !prev.is_read() {
            prev
        } else if prev.taken() > input.len() {
            Decoded::EndOfInput
        } else {
            let m = prev.taken();
            let dk = K::spec_deserialize(input.skip(m as int), file_version);
            if !dk.is_read() {
                dk.cast()
            } else if m + dk.taken() > input.len() {
                Decoded::EndOfInput
            } else {
                let a = dk.taken();
                let dv = V::spec_deserialize(input.skip(m + a as int), file_version);
                match (prev, dk, dv) {
                    (Decoded::Value(mp, _), Decoded::Value(kv, _), Decoded::Value(vv, b)) => Decoded::Value(
                        mp.insert(kv, vv),
                        m + a + b,
                    ),
                    (_, _, Decoded::Value(_, b)) => Decoded::Unstated(m + a + b),
                    (_, _, Decoded::Unstated(b)) => Decoded::Unstated(m + a + b),
                    (_, _, other) => other.cast(),
                }
            }
        }
    }
}

/// Reading a hash map: a `usize` count, then that many entries. Where the
/// key type is outside the model, the map that was read is not stated.
pub open spec fn parse_map<K: Deserialize, V: Deserialize>(input: Seq<u8>, file_version: u32) -> Decoded<
    Map<<K as DeepView>::V, <V as DeepView>::V>,
> {
    match parse_usize(input) {
        Decoded::Value(l, _) => if input.len() < 8 {
            Decoded::EndOfInput
        } else {
            match parse_pairs::<K, V>(input.skip(8), l as nat, file_version).after(8) {
                Decoded::Value(mp, k) => if keys_modeled::<K>() {
                    Decoded::Value(mp, k)
                } else {
                    Decoded::Unstated(k)
                },
                other => other,
            }
        },
        _ => Decoded::EndOfInput,
    }
}

/// Once reading entries has failed, reading more of them fails in the same way.
proof fn lemma_pairs_failure_stays<K: Deserialize, V: Deserialize>(
    input: Seq<u8>,
    n1: nat,
    n2: nat,
    file_version: u32,
)
    requires
        n1 <= n2,
        !parse_pairs::<K, V>(input, n1, file_version).is_read(),
    ensures
        parse_pairs::<K, V>(input, n2, file_version) == parse_pairs::<K, V>(input, n1, file_version),
    decreases n2,
{
    if n2 > n1 {
        lemma_pairs_failure_stays::<K, V>(input, n1, (n2 - 1) as nat, file_version);
    }
}

/// Inserting into a map with modeled keys inserts the deep views into its deep view.
proof fn lemma_insert_deep_view<K: DeepView, V: DeepView>(
    before: HashMap<K, V>,
    after: HashMap<K, V>,
    k: K,
    v: V,
)
    requires
        keys_modeled::<K>(),
        after@ == before@.insert(k, v),
    ensures
        after.deep_view() == before.deep_view().insert(k.deep_view(), v.deep_view()),
{
    broadcast use vstd::std_specs::hash::lemma_hashmap_deepview_properties;
    broadcast use vstd::std_specs::hash::lemma_hashmap_deepview_dom;

    let a = after.deep_view();
    let b = before.deep_view().insert(k.deep_view(), v.deep_view());
    assert(after@.contains_key(k));
    assert forall|dk: <K as DeepView>::V| a.contains_key(dk) == b.contains_key(dk) by {
        if a.contains_key(dk) {
            let k2 = choose|k2: K| k2.deep_view() == dk && #[trigger] after@.contains_key(k2);
            if k2 != k {
                assert(before@.contains_key(k2));
            }
        }
        if b.contains_key(dk) && dk != k.deep_view() {
            let k2 = choose|k2: K| k2.deep_view() == dk && #[trigger] before@.contains_key(k2);
            assert(after@.contains_key(k2));
        }
    }
    assert forall|dk: <K as DeepView>::V| #[trigger] a.contains_key(dk) implies a[dk] == b[dk] by {
        if dk != k.deep_view() {
            let k2 = choose|k2: K| k2.deep_view() == dk && #[trigger] after@.contains_key(k2);
            assert(k2 != k);
            assert(before@.contains_key(k2));
            assert(after@[k2] == before@[k2]);
        }
    }
    assert(a =~= b);
}

/// An empty map has an empty deep view.
proof fn lemma_empty_deep_view<K: DeepView, V: DeepView>(m: HashMap<K, V>)
    requires
        m@ == Map::<K, V>::empty(),
    ensures
        m.deep_view() == Map::<<K as DeepView>::V, <V as DeepView>::V>::empty(),
{
    broadcast use vstd::std_specs::hash::lemma_hashmap_deepview_dom;

    assert(m.deep_view().dom() =~= Set::empty());
    assert(m.deep_view() =~= Map::empty());
}

impl<K: Deserialize + Eq + Hash, V: Deserialize> Deserialize for HashMap<K, V> {
    open spec fn spec_deserialize(input: Seq<u8>, file_version: u32) -> Decoded<
        Map<<K as DeepView>::V, <V as DeepView>::V>,
    > {
        parse_map::<K, V>(input, file_version)
    }

    fn raw_copy_size(_file_version: u32) -> (r: Option<usize>) {
        None
    }

    fn deserialize_checked(deserializer: &mut Deserializer) -> (r: Result<HashMap<K, V>, SavefileError>) {
        broadcast use vstd::std_specs::hash::group_hash_axioms;

        let ghost fv = deserializer.file_version;
        let l = match deserializer.read_usize() {
            Ok(l) => l,
            Err(e) => return Err(e),
        };
        let ghost start = deserializer@;
        let ghost input = old(deserializer)@;
        assert(start == input.skip(8));
        // The count comes from the input: no room is reserved for it up front.
        let mut ret: HashMap<K, V> = HashMap::new();
        proof {
            if keys_modeled::<K>() {
                lemma_empty_deep_view(ret);
            }
        }
        let mut i: usize = 0;
        while i < l
            invariant
                i <= l,
                start == input.skip(8),
                input == old(deserializer)@,
                fv == old(deserializer).file_version,
                input.len() >= 8,
                parse_usize(input) == Decoded::Value(l, 8),
                same_versions(*old(deserializer), *deserializer),
                parse_pairs::<K, V>(start, i as nat, fv).is_read(),
                parse_pairs::<K, V>(start, i as nat, fv).taken() <= start.len(),
                deserializer@ == start.skip(parse_pairs::<K, V>(start, i as nat, fv).taken() as int),
                keys_modeled::<K>() ==> (parse_pairs::<K, V>(start, i as nat, fv) matches Decoded::Value(
                    mp,
                    _,
                ) ==> mp == ret.deep_view()),
            decreases l - i,
        {
            let ghost before = deserializer@;
            let ghost m = parse_pairs::<K, V>(start, i as nat, fv).taken();
            proof {
                if K::spec_deserialize(before, fv).is_refused() {
                    lemma_pairs_failure_stays::<K, V>(start, (i + 1) as nat, l as nat, fv);
                }
            }
            let k = match K::deserialize_checked(deserializer) {
                Ok(k) => k,
                Err(e) => {
                    proof {
                        lemma_pairs_failure_stays::<K, V>(start, (i + 1) as nat, l as nat, fv);
                    }
                    return Err(e);
                },
            };
            let ghost a = K::spec_deserialize(before, fv).taken();
            let ghost mid = deserializer@;
            assert(mid =~= start.skip(m + a as int));
            proof {
                if V::spec_deserialize(mid, fv).is_refused() {
                    lemma_pairs_failure_stays::<K, V>(start, (i + 1) as nat, l as nat, fv);
                }
            }
            let v = match V::deserialize_checked(deserializer) {
                Ok(v) => v,
                Err(e) => {
                    proof {
                        lemma_pairs_failure_stays::<K, V>(start, (i + 1) as nat, l as nat, fv);
                    }
                    return Err(e);
                },
            };
            let ghost b = V::spec_deserialize(mid, fv).taken();
            let ghost old_ret = ret;
            ret.insert(k, v);
            proof {
                if keys_modeled::<K>() {
                    lemma_insert_deep_view(old_ret, ret, k, v);
                }
                assert(deserializer@ =~= start.skip(m + a + b as int));
            }
            i += 1;
        }
        proof {
            let m = parse_pairs::<K, V>(start, l as nat, fv).taken();
            assert(deserializer@ =~= input.skip(m + 8 as int));
        }
        Ok(ret)
    }
}

/// The map that inserting the entries in turn into an empty map gives, taken
/// by their deep views (a later entry for a key replaces an earlier one).
pub open spec fn inserted<K: DeepView, V: DeepView>(s: Seq<(K, V)>) -> Map<
    <K as DeepView>::V,
    <V as DeepView>::V,
>
    decreases s.len(),
{
    if s.len() == 0 {
        Map::empty()
    } else {
        inserted(s.drop_last()).insert(s.last().0.deep_view(), s.last().1.deep_view())
    }
}

/// A key is in `inserted(s)` exactly when some entry has it, and its value
/// is that of some entry with it.
proof fn lemma_inserted<K: DeepView, V: DeepView>(s: Seq<(K, V)>)
    ensures
        forall|dk: <K as DeepView>::V|
            #[trigger] inserted(s).contains_key(dk) <==> exists|i: int|
                0 <= i < s.len() && s[i].0.deep_view() == dk,
        forall|dk: <K as DeepView>::V|
            #[trigger] inserted(s).contains_key(dk) ==> exists|i: int|
                0 <= i < s.len() && s[i].0.deep_view() == dk && inserted(s)[dk] == s[i].1.deep_view(),
    decreases s.len(),
{
    if s.len() > 0 {
        let init = s.drop_last();
        lemma_inserted(init);
        assert forall|dk: <K as DeepView>::V| #[trigger] inserted(s).contains_key(dk) <==> exists|i: int|
            0 <= i < s.len() && s[i].0.deep_view() == dk by {
            if inserted(s).contains_key(dk) && dk != s.last().0.deep_view() {
                assert(inserted(init).contains_key(dk));
                let i = choose|i: int| 0 <= i < init.len() && init[i].0.deep_view() == dk;
                assert(s[i] == init[i]);
            }
            if exists|i: int| 0 <= i < s.len() && s[i].0.deep_view() == dk {
                let i = choose|i: int| 0 <= i < s.len() && s[i].0.deep_view() == dk;
                if i < s.len() - 1 {
                    assert(init[i] == s[i]);
                    assert(inserted(init).contains_key(dk));
                }
            }
        }
        assert forall|dk: <K as DeepView>::V| #[trigger] inserted(s).contains_key(dk) implies exists|i: int|
            0 <= i < s.len() && s[i].0.deep_view() == dk && inserted(s)[dk] == s[i].1.deep_view() by {
            if dk == s.last().0.deep_view() {
                assert(s[s.len() - 1] == s.last());
            } else {
                let i = choose|i: int|
                    0 <= i < init.len() && init[i].0.deep_view() == dk && inserted(init)[dk]
                        == init[i].1.deep_view();
                assert(s[i] == init[i]);
            }
        }
    }
}

/// Reading back the bytes of entries whose keys and values each read back on
/// their own, whatever follows, gives the map that inserting them in turn
/// gives, and takes exactly their bytes.
pub proof fn lemma_pairs_roundtrip<K: Serialize + Deserialize, V: Serialize + Deserialize>(
    s: Seq<(K, V)>,
    version: u32,
    rest: Seq<u8>,
)
    requires
        forall|i: int, tail: Seq<u8>|
            0 <= i < s.len() ==> #[trigger] K::spec_deserialize(s[i].0.spec_serialize(version) + tail, version)
                == Decoded::Value(s[i].0.deep_view(), s[i].0.spec_serialize(version).len()),
        forall|i: int, tail: Seq<u8>|
            0 <= i < s.len() ==> #[trigger] V::spec_deserialize(s[i].1.spec_serialize(version) + tail, version)
                == Decoded::Value(s[i].1.deep_view(), s[i].1.spec_serialize(version).len()),
    ensures
        parse_pairs::<K, V>(pairs_bytes(s, version) + rest, s.len(), version) == Decoded::Value(
            inserted(s),
            pairs_bytes(s, version).len(),
        ),
    decreases s.len(),
{
    if s.len() > 0 {
        let init = s.drop_last();
        let last = s.last();
        let kb = last.0.spec_serialize(version);
        let vb = last.1.spec_serialize(version);
        let input = pairs_bytes(s, version) + rest;
        let tail = kb + vb + rest;
        assert(input =~= pairs_bytes(init, version) + tail);
        assert forall|i: int, t: Seq<u8>| 0 <= i < init.len() implies #[trigger] K::spec_deserialize(
            init[i].0.spec_serialize(version) + t,
            version,
        ) == Decoded::Value(init[i].0.deep_view(), init[i].0.spec_serialize(version).len()) by {
            assert(init[i] == s[i]);
        }
        assert forall|i: int, t: Seq<u8>| 0 <= i < init.len() implies #[trigger] V::spec_deserialize(
            init[i].1.spec_serialize(version) + t,
            version,
        ) == Decoded::Value(init[i].1.deep_view(), init[i].1.spec_serialize(version).len()) by {
            assert(init[i] == s[i]);
        }
        lemma_pairs_roundtrip::<K, V>(init, version, tail);
        let m = pairs_bytes(init, version).len();
        assert(input.skip(m as int) =~= kb + (vb + rest));
        assert(s[s.len() - 1] == last);
        assert(K::spec_deserialize(kb + (vb + rest), version) == Decoded::Value(
            last.0.deep_view(),
            kb.len(),
        ));
        assert(input.skip(m + kb.len() as int) =~= vb + rest);
        assert(V::spec_deserialize(vb + rest, version) == Decoded::Value(last.1.deep_view(), vb.len()));
    }
}

/// Reading back the bytes of a hash map, whose keys are modeled and whose
/// keys and values each read back on their own, whatever follows, gives the
/// map (by its deep view) and takes exactly its bytes. The walk order
/// facts hold of every map that `serialize` has written.
pub proof fn lemma_map_roundtrip<K: Serialize + Deserialize + Eq + Hash, V: Serialize + Deserialize>(
    m: HashMap<K, V>,
    version: u32,
    rest: Seq<u8>,
)
    requires
        keys_modeled::<K>(),
        map_listed(m),
        forall|k: K, tail: Seq<u8>|
            m@.contains_key(k) ==> #[trigger] K::spec_deserialize(k.spec_serialize(version) + tail, version)
                == Decoded::Value(k.deep_view(), k.spec_serialize(version).len()),
        forall|k: K, tail: Seq<u8>|
            m@.contains_key(k) ==> #[trigger] V::spec_deserialize(m@[k].spec_serialize(version) + tail, version)
                == Decoded::Value(m@[k].deep_view(), m@[k].spec_serialize(version).len()),
    ensures
        <HashMap<K, V> as Deserialize>::spec_deserialize(m.spec_serialize(version) + rest, version)
            == Decoded::Value(m.deep_view(), m.spec_serialize(version).len()),
{
    broadcast use vstd::std_specs::hash::lemma_hashmap_deepview_properties;
    broadcast use vstd::std_specs::hash::lemma_hashmap_deepview_dom;

    let p = into_iter(spec_hash_map_iter(&m));
    let body = pairs_bytes(p, version);
    let n = m@.len() as usize;
    assert forall|i: int, t: Seq<u8>| 0 <= i < p.len() implies #[trigger] K::spec_deserialize(
        p[i].0.spec_serialize(version) + t,
        version,
    ) == Decoded::Value(p[i].0.deep_view(), p[i].0.spec_serialize(version).len()) by {
        assert(m@.contains_key(p[i].0));
    }
    assert forall|i: int, t: Seq<u8>| 0 <= i < p.len() implies #[trigger] V::spec_deserialize(
        p[i].1.spec_serialize(version) + t,
        version,
    ) == Decoded::Value(p[i].1.deep_view(), p[i].1.spec_serialize(version).len()) by {
        assert(m@.contains_key(p[i].0));
        assert(m@[p[i].0] == p[i].1);
    }
    lemma_pairs_roundtrip::<K, V>(p, version, rest);
    let input = m.spec_serialize(version) + rest;
    assert(n as nat == m@.len()) by {
        broadcast use vstd::std_specs::hash::group_hash_axioms;

        assert(vstd::std_specs::hash::spec_hash_map_len(&m) == m@.len());
    }
    assert(input =~= usize_bytes(n) + (body + rest));
    crate::format::lemma_usize_roundtrip(n, body + rest);
    crate::bytes::lemma_le_bytes_len((n as u64) as nat, 8);
    assert(input.skip(8) =~= body + rest);
    lemma_inserted(p);
    let a = inserted(p);
    let b = m.deep_view();
    assert forall|dk: <K as DeepView>::V| a.contains_key(dk) == b.contains_key(dk) by {
        if a.contains_key(dk) {
            let i = choose|i: int| 0 <= i < p.len() && p[i].0.deep_view() == dk;
            assert(m@.contains_key(p[i].0));
        }
        if b.contains_key(dk) {
            let k = choose|k: K| k.deep_view() == dk && #[trigger] m@.contains_key(k);
            let j = choose|j: int| 0 <= j < p.len() && p[j].0 == k;
            assert(p[j].0.deep_view() == dk);
        }
    }
    assert forall|dk: <K as DeepView>::V| #[trigger] a.contains_key(dk) implies a[dk] == b[dk] by {
        let i = choose|i: int|
            0 <= i < p.len() && p[i].0.deep_view() == dk && a[dk] == p[i].1.deep_view();
        assert(m@.contains_key(p[i].0));
        assert(m@[p[i].0] == p[i].1);
    }
    assert(a =~= b);
}

} // verus!
