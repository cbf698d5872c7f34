//! The codec between JSON values and stored values.
//!
//! Encoding is total. Decoding fails only on a stored type without a JSON
//! mapping, drops the engine's identity field from every document, and turns
//! object identities and timestamps into text.

use crate::bson::{bson_views, field_views, BsonModel, BsonValue};
use crate::error::StoreError;
use crate::json::{json_views, member_views, JsonModel, JsonValue};
use crate::seqs::{lemma_prefix_full, lemma_prefix_step, lemma_push_prefix};
use vstd::prelude::*;

verus! {

broadcast use {
    vstd::std_specs::vec::axiom_vec_index_decreases,
    vstd::seq::axiom_seq_subrange_decreases,
};

/// The name of the identity field that the engine attaches to every record.
pub open spec fn identity_key() -> Seq<char> {
    seq!['_', 'i', 'd']
}

/// Whether a 64-bit float bit pattern is finite (its exponent is not all ones).
pub open spec fn is_finite_bits(bits: u64) -> bool {
    (bits >> 52u64) & 0x7ffu64 != 0x7ffu64
}

/// Lowercase hexadecimal digit of a value below 16.
pub open spec fn hex_digit(n: int) -> char {
    seq!['0', '1', '2', '3', '4', '5', '6', '7', '8', '9', 'a', 'b', 'c', 'd', 'e', 'f'][n]
}

/// Bytes as lowercase hexadecimal, two digits per byte, high nibble first.
pub open spec fn hex_text(b: Seq<u8>) -> Seq<char>
    decreases b.len(),
{
    if b.len() == 0 {
        Seq::empty()
    } else {
        let last = b[b.len() - 1];
        hex_text(b.subrange(0, b.len() - 1)) + seq![
            hex_digit(last as int / 16),
            hex_digit(last as int % 16),
        ]
    }
}

/// The text that the engine's timestamp display gives for a millisecond count.
pub uninterp spec fn datetime_text(millis: int) -> Seq<char>;

/// The stored form of a JSON value.
pub open spec fn encode_model(j: JsonModel) -> BsonModel
    decreases j,
{
    match j {
        JsonModel::Null => BsonModel::Null,
        JsonModel::Bool(b) => BsonModel::Boolean(b),
        JsonModel::Int(i) => BsonModel::Int64(i),
        JsonModel::Float(bits) => BsonModel::Double(bits),
        JsonModel::Str(s) => BsonModel::Str(s),
        JsonModel::Array(items) => BsonModel::Array(encode_items(items)),
        JsonModel::Object(members) => BsonModel::Document(encode_members(members)),
    }
}

/// Element-wise encoding of an array.
pub open spec fn encode_items(items: Seq<JsonModel>) -> Seq<BsonModel>
    decreases items,
{
    if items.len() == 0 {
        Seq::empty()
    } else {
        encode_items(items.subrange(0, items.len() - 1)).push(
            encode_model(items[items.len() - 1]),
        )
    }
}

/// Member-wise encoding of an object, keeping names and order.
pub open spec fn encode_members(members: Seq<(Seq<char>, JsonModel)>) -> Seq<
    (Seq<char>, BsonModel),
>
    decreases members,
{
    if members.len() == 0 {
        Seq::empty()
    } else {
        let (k, v) = members[members.len() - 1];
        encode_members(members.subrange(0, members.len() - 1)).push((k, encode_model(v)))
    }
}

/// The JSON value of a stored value, or the description of the first
/// unsupported type met in document order.
pub open spec fn decode_model(b: BsonModel) -> Result<JsonModel, Seq<char>>
    decreases b,
{
    match b {
        BsonModel::Null => Ok(JsonModel::Null),
        BsonModel::Boolean(x) => Ok(JsonModel::Bool(x)),
        BsonModel::Int32(i) => Ok(JsonModel::Int(i)),
        BsonModel::Int64(i) => Ok(JsonModel::Int(i)),
        BsonModel::Double(bits) => if is_finite_bits(bits) {
            Ok(JsonModel::Float(bits))
        } else {
            Ok(JsonModel::Null)
        },
        BsonModel::Str(s) => Ok(JsonModel::Str(s)),
        BsonModel::Array(items) => match decode_items(items) {
            Ok(xs) => Ok(JsonModel::Array(xs)),
            Err(d) => Err(d),
        },
        BsonModel::Document(fields) => match decode_fields(fields) {
            Ok(ms) => Ok(JsonModel::Object(ms)),
            Err(d) => Err(d),
        },
        BsonModel::ObjectId(bytes) => Ok(JsonModel::Str(hex_text(bytes))),
        BsonModel::DateTime(millis) => Ok(JsonModel::Str(datetime_text(millis))),
        BsonModel::Unsupported(d) => Err(d),
    }
}

/// Element-wise decoding of an array; the first failure wins.
pub open spec fn decode_items(items: Seq<BsonModel>) -> Result<Seq<JsonModel>, Seq<char>>
    decreases items,
{
    if items.len() == 0 {
        Ok(Seq::empty())
    } else {
        match decode_items(items.subrange(0, items.len() - 1)) {
            Err(d) => Err(d),
            Ok(xs) => match decode_model(items[items.len() - 1]) {
                Err(d) => Err(d),
                Ok(x) => Ok(xs.push(x)),
            },
        }
    }
}

/// Field-wise decoding of a document, dropping the identity field; the first
/// failure wins.
pub open spec fn decode_fields(fields: Seq<(Seq<char>, BsonModel)>) -> Result<
    Seq<(Seq<char>, JsonModel)>,
    Seq<char>,
>
    decreases fields,
{
    if fields.len() == 0 {
        Ok(Seq::empty())
    } else {
        let (k, v) = fields[fields.len() - 1];
        match decode_fields(fields.subrange(0, fields.len() - 1)) {
            Err(d) => Err(d),
            Ok(ms) => if k == identity_key() {
                Ok(ms)
            } else {
                match decode_model(v) {
                    Err(d) => Err(d),
                    Ok(x) => Ok(ms.push((k, x))),
                }
            },
        }
    }
}

/// No object, at any depth, has a member named like the identity field.
pub open spec fn hides_identity(j: JsonModel) -> bool
    decreases j,
{
    match j {
        JsonModel::Array(items) => items_hide_identity(items),
        JsonModel::Object(members) => members_hide_identity(members),
        _ => true,
    }
}

/// Every element hides the identity field.
pub open spec fn items_hide_identity(items: Seq<JsonModel>) -> bool
    decreases items,
{
    items.len() == 0 || (items_hide_identity(items.subrange(0, items.len() - 1))
        && hides_identity(items[items.len() - 1]))
}

/// No member is named like the identity field, and every member value hides it.
pub open spec fn members_hide_identity(members: Seq<(Seq<char>, JsonModel)>) -> bool
    decreases members,
{
    members.len() == 0 || (members_hide_identity(members.subrange(0, members.len() - 1))
        && members[members.len() - 1].0 != identity_key() && hides_identity(
        members[members.len() - 1].1,
    ))
}

proof fn lemma_items_err_extends(s: Seq<BsonModel>, n: int)
    requires
        0 <= n <= s.len(),
        decode_items(s.subrange(0, n)) is Err,
    ensures
        decode_items(s) == decode_items(s.subrange(0, n)),
    decreases s.len() - n,
{
    if n == s.len() {
        lemma_prefix_full(s);
    } else {
        lemma_prefix_step(s, n);
        lemma_items_err_extends(s, n + 1);
    }
}

proof fn lemma_fields_err_extends(s: Seq<(Seq<char>, BsonModel)>, n: int)
    requires
        0 <= n <= s.len(),
        decode_fields(s.subrange(0, n)) is Err,
    ensures
        decode_fields(s) == decode_fields(s.subrange(0, n)),
    decreases s.len() - n,
{
    if n == s.len() {
        lemma_prefix_full(s);
    } else {
        lemma_prefix_step(s, n);
        lemma_fields_err_extends(s, n + 1);
    }
}

/// Relies on bson's `ObjectId::to_hex`, which is `hex::encode` of the twelve
/// bytes: lowercase, two digits per byte, high nibble first.
#[verifier::external_body]
fn object_id_hex(bytes: [u8; 12]) -> (r: String)
    ensures
        r@ == hex_text(bytes@),
{
    mongodb::bson::oid::ObjectId::from_bytes(bytes).to_hex()
}

/// Relies on bson's `Display` for `DateTime`: the text is determined by the
/// millisecond count.
#[verifier::external_body]
fn datetime_string(millis: i64) -> (r: String)
    ensures
        r@ == datetime_text(millis as int),
{
    mongodb::bson::DateTime::from_millis(millis).to_string()
}

/// Whether a key is the engine's identity field.
pub fn is_identity_key(k: &str) -> (r: bool)
    ensures
        r == (k@ == identity_key()),
{
    if k.unicode_len() != 3 {
        return false;
    }
    let r = k.get_char(0) == '_' && k.get_char(1) == 'i' && k.get_char(2) == 'd';
    proof {
        if r {
            assert(k@ =~= identity_key());
        }
    }
    r
}

/// Whether a 64-bit float bit pattern is finite.
pub fn finite_bits(bits: u64) -> (r: bool)
    ensures
        r == is_finite_bits(bits),
{
    (bits >> 52u64) & 0x7ffu64 != 0x7ffu64
}

/// Encodes a JSON value into its stored form.
#[verifier::loop_isolation(false)]
pub fn encode(j: &JsonValue) -> (b: BsonValue)
    ensures
        b@ == encode_model(j@),
    decreases j,
{
    match j {
        JsonValue::Null => BsonValue::Null,
        JsonValue::Bool(x) => BsonValue::Boolean(*x),
        JsonValue::Int(i) => BsonValue::Int64(*i),
        JsonValue::Float(bits) => BsonValue::Double(*bits),
        JsonValue::Str(s) => BsonValue::Str(s.clone()),
        JsonValue::Array(items) => {
            let mut out: Vec<BsonValue> = Vec::new();
            let mut i: usize = 0;
            proof {
                assert(items@.subrange(0, 0) =~= Seq::<JsonValue>::empty());
            }
            while i < items.len()
                invariant
                    i <= items.len(),
                    bson_views(out@) == encode_items(json_views(items@.subrange(0, i as int))),
                decreases items.len() - i,
            {
                proof {
                    assert(decreases_to!(items => items[i as int]));
                }
                let e = encode(&items[i]);
                proof {
                    lemma_prefix_step(items@, i as int);
                    lemma_push_prefix(out@, e);
                    lemma_push_prefix(json_views(items@.subrange(0, i as int)), items@[i as int]@);
                }
                out.push(e);
                i += 1;
            }
            proof {
                lemma_prefix_full(items@);
            }
            BsonValue::Array(out)
        },
        JsonValue::Object(members) => {
            let mut out: Vec<(String, BsonValue)> = Vec::new();
            let mut i: usize = 0;
            proof {
                assert(members@.subrange(0, 0) =~= Seq::<(String, JsonValue)>::empty());
            }
            while i < members.len()
                invariant
                    i <= members.len(),
                    field_views(out@) == encode_members(
                        member_views(members@.subrange(0, i as int)),
                    ),
                decreases members.len() - i,
            {
                proof {
                    assert(decreases_to!(members => members[i as int]));
                }
                let e = encode(&members[i].1);
                let pair = (members[i].0.clone(), e);
                proof {
                    lemma_prefix_step(members@, i as int);
                    lemma_push_prefix(out@, pair);
                    lemma_push_prefix(
                        member_views(members@.subrange(0, i as int)),
                        (members@[i as int].0@, members@[i as int].1@),
                    );
                }
                out.push(pair);
                i += 1;
            }
            proof {
                lemma_prefix_full(members@);
            }
            BsonValue::Document(out)
        },
    }
}

/// Decodes a stored value into JSON. Fails with `InvalidData`, holding the
/// type's description, exactly when an unsupported type occurs outside an
/// identity field; the result never holds the identity field.
#[verifier::loop_isolation(false)]
pub fn decode(b: &BsonValue) -> (r: Result<JsonValue, StoreError>)
    ensures
        match decode_model(b@) {
            Ok(m) => r matches Ok(v) && v@ == m,
            Err(d) => r matches Err(StoreError::InvalidData(s)) && s@ == d,
        },
        r matches Ok(v) ==> hides_identity(v@),
    decreases b,
{
    match b {
        BsonValue::Null => Ok(JsonValue::Null),
        BsonValue::Boolean(x) => Ok(JsonValue::Bool(*x)),
        BsonValue::Int32(i) => Ok(JsonValue::Int(*i as i64)),
        BsonValue::Int64(i) => Ok(JsonValue::Int(*i)),
        BsonValue::Double(bits) => {
            if finite_bits(*bits) {
                Ok(JsonValue::Float(*bits))
            } else {
                Ok(JsonValue::Null)
            }
        },
        BsonValue::Str(s) => Ok(JsonValue::Str(s.clone())),
        BsonValue::ObjectId(bytes) => Ok(JsonValue::Str(object_id_hex(*bytes))),
        BsonValue::DateTime(millis) => Ok(JsonValue::Str(datetime_string(*millis))),
        BsonValue::Unsupported(d) => Err(StoreError::InvalidData(d.clone())),
        BsonValue::Array(items) => {
            let mut out: Vec<JsonValue> = Vec::new();
            let mut i: usize = 0;
            proof {
                assert(items@.subrange(0, 0) =~= Seq::<BsonValue>::empty());
            }
            while i < items.len()
                invariant
                    i <= items.len(),
                    decode_items(bson_views(items@.subrange(0, i as int))) == Ok::<
                        Seq<JsonModel>,
                        Seq<char>,
                    >(json_views(out@)),
                    items_hide_identity(json_views(out@)),
                decreases items.len() - i,
            {
                proof {
                    assert(decreases_to!(items => items[i as int]));
                    lemma_prefix_step(items@, i as int);
                    lemma_push_prefix(
                        bson_views(items@.subrange(0, i as int)),
                        items@[i as int]@,
                    );
                }
                match decode(&items[i]) {
                    Err(e) => {
                        proof {
                            let whole = bson_views(items@);
                            lemma_bson_views_prefix(items@, i as int + 1);
                            lemma_items_err_extends(whole, i as int + 1);
                        }
                        return Err(e);
                    },
                    Ok(x) => {
                        proof {
                            lemma_push_prefix(out@, x);
                            lemma_push_prefix(json_views(out@), x@);
                        }
                        out.push(x);
                    },
                }
                i += 1;
            }
            proof {
                lemma_prefix_full(items@);
            }
            Ok(JsonValue::Array(out))
        },
        BsonValue::Document(fields) => {
            let mut out: Vec<(String, JsonValue)> = Vec::new();
            let mut i: usize = 0;
            proof {
                assert(fields@.subrange(0, 0) =~= Seq::<(String, BsonValue)>::empty());
            }
            while i < fields.len()
                invariant
                    i <= fields.len(),
                    decode_fields(field_views(fields@.subrange(0, i as int))) == Ok::<
                        Seq<(Seq<char>, JsonModel)>,
                        Seq<char>,
                    >(member_views(out@)),
                    members_hide_identity(member_views(out@)),
                decreases fields.len() - i,
            {
                proof {
                    assert(decreases_to!(fields => fields[i as int]));
                    lemma_prefix_step(fields@, i as int);
                    lemma_push_prefix(
                        field_views(fields@.subrange(0, i as int)),
                        (fields@[i as int].0@, fields@[i as int].1@),
                    );
                }
                if !is_identity_key(fields[i].0.as_str()) {
                    match decode(&fields[i].1) {
                        Err(e) => {
                            proof {
                                let whole = field_views(fields@);
                                lemma_field_views_prefix(fields@, i as int + 1);
                                lemma_fields_err_extends(whole, i as int + 1);
                            }
                            return Err(e);
                        },
                        Ok(x) => {
                            let pair = (fields[i].0.clone(), x);
                            proof {
                                lemma_push_prefix(out@, pair);
                                lemma_push_prefix(member_views(out@), (pair.0@, pair.1@));
                            }
                            out.push(pair);
                        },
                    }
                }
                i += 1;
            }
            proof {
                lemma_prefix_full(fields@);
            }
            Ok(JsonValue::Object(out))
        },
    }
}

/// The models of a prefix are the prefix of the models.
proof fn lemma_bson_views_prefix(s: Seq<BsonValue>, n: int)
    requires
        0 <= n <= s.len(),
    ensures
        bson_views(s).len() == s.len(),
        bson_views(s).subrange(0, n) == bson_views(s.subrange(0, n)),
    decreases s.len(),
{
    if s.len() > 0 {
        let p = s.subrange(0, s.len() - 1);
        lemma_push_prefix(bson_views(p), s[s.len() - 1]@);
        if n == s.len() {
            lemma_prefix_full(s);
            lemma_prefix_full(bson_views(s));
            lemma_bson_views_prefix(p, 0);
        } else {
            lemma_bson_views_prefix(p, n);
            assert(p.subrange(0, n) =~= s.subrange(0, n));
            assert(bson_views(s).subrange(0, n) =~= bson_views(p).subrange(0, n));
        }
    } else {
        assert(bson_views(s).subrange(0, n) =~= Seq::<BsonModel>::empty());
        assert(s.subrange(0, n) =~= s);
    }
}

/// The models of a prefix of fields are the prefix of the models.
proof fn lemma_field_views_prefix(s: Seq<(String, BsonValue)>, n: int)
    requires
        0 <= n <= s.len(),
    ensures
        field_views(s).len() == s.len(),
        field_views(s).subrange(0, n) == field_views(s.subrange(0, n)),
    decreases s.len(),
{
    if s.len() > 0 {
        let p = s.subrange(0, s.len() - 1);
        lemma_push_prefix(field_views(p), (s[s.len() - 1].0@, s[s.len() - 1].1@));
        if n == s.len() {
            lemma_prefix_full(s);
            lemma_prefix_full(field_views(s));
            lemma_field_views_prefix(p, 0);
        } else {
            lemma_field_views_prefix(p, n);
            assert(p.subrange(0, n) =~= s.subrange(0, n));
            assert(field_views(s).subrange(0, n) =~= field_views(p).subrange(0, n));
        }
    } else {
        assert(field_views(s).subrange(0, n) =~= Seq::<(Seq<char>, BsonModel)>::empty());
        assert(s.subrange(0, n) =~= s);
    }
}

/// The JSON values that survive a round trip through the store: every float
/// is finite and no object, at any depth, uses the identity field's name.
pub open spec fn representable(j: JsonModel) -> bool
    decreases j,
{
    match j {
        JsonModel::Float(bits) => is_finite_bits(bits),
        JsonModel::Array(items) => items_representable(items),
        JsonModel::Object(members) => members_representable(members),
        _ => true,
    }
}

/// Every element is representable.
pub open spec fn items_representable(items: Seq<JsonModel>) -> bool
    decreases items,
{
    items.len() == 0 || (items_representable(items.subrange(0, items.len() - 1))
        && representable(items[items.len() - 1]))
}

/// Every member value is representable and no member uses the identity name.
pub open spec fn members_representable(members: Seq<(Seq<char>, JsonModel)>) -> bool
    decreases members,
{
    members.len() == 0 || (members_representable(members.subrange(0, members.len() - 1))
        && members[members.len() - 1].0 != identity_key() && representable(
        members[members.len() - 1].1,
    ))
}

/// Decoding what was encoded gives back every representable JSON value.
pub proof fn lemma_round_trip(j: JsonModel)
    requires
        representable(j),
    ensures
        decode_model(encode_model(j)) == Ok::<JsonModel, Seq<char>>(j),
    decreases j,
{
    match j {
        JsonModel::Array(items) => lemma_round_trip_items(items),
        JsonModel::Object(members) => lemma_round_trip_members(members),
        _ => {},
    }
}

proof fn lemma_round_trip_items(items: Seq<JsonModel>)
    requires
        items_representable(items),
    ensures
        decode_items(encode_items(items)) == Ok::<Seq<JsonModel>, Seq<char>>(items),
    decreases items,
{
    if items.len() > 0 {
        let n = items.len() - 1;
        let p = items.subrange(0, n);
        lemma_round_trip_items(p);
        lemma_round_trip(items[n]);
        lemma_push_prefix(encode_items(p), encode_model(items[n]));
        assert(p.push(items[n]) =~= items);
    } else {
        assert(items =~= Seq::<JsonModel>::empty());
    }
}

proof fn lemma_round_trip_members(members: Seq<(Seq<char>, JsonModel)>)
    requires
        members_representable(members),
    ensures
        decode_fields(encode_members(members)) == Ok::<Seq<(Seq<char>, JsonModel)>, Seq<char>>(
            members,
        ),
    decreases members,
{
    if members.len() > 0 {
        let n = members.len() - 1;
        let p = members.subrange(0, n);
        lemma_round_trip_members(p);
        lemma_round_trip(members[n].1);
        lemma_push_prefix(encode_members(p), (members[n].0, encode_model(members[n].1)));
        assert(p.push(members[n]) =~= members);
    } else {
        assert(members =~= Seq::<(Seq<char>, JsonModel)>::empty());
    }
}

/// A successful element-wise decoding keeps the number of elements.
pub proof fn lemma_decode_items_len(items: Seq<BsonModel>)
    ensures
        decode_items(items) matches Ok(xs) ==> xs.len() == items.len(),
    decreases items.len(),
{
    if items.len() > 0 {
        lemma_decode_items_len(items.subrange(0, items.len() - 1));
    }
}

} // verus!
