//! The global namespace: one record per key, `{ _id: key, value: v }`, in a
//! reserved collection. Writes are upserts; there is no delete.

use crate::bson::{field_views, BsonModel, BsonValue};
use crate::codec::{decode, decode_model, encode, encode_model, identity_key};
use crate::engine::{doc_view, find_field, Command, Filter, FilterModel};
use crate::error::StoreError;
use crate::json::{member_views, JsonModel, JsonValue};
use crate::seqs::{lemma_prefix_full, lemma_prefix_step, lemma_push_prefix};
use vstd::prelude::*;

verus! {

/// The reserved collection that holds the global namespace.
pub open spec fn global_collection() -> Seq<char> {
    seq!['_', 'g', 'l', 'o', 'b', 'a', 'l', '_', 's', 't', 'o', 'r', 'e']
}

/// The field of a global record that holds its value.
pub open spec fn value_key() -> Seq<char> {
    seq!['v', 'a', 'l', 'u', 'e']
}

/// The filter that selects the record of a key.
pub open spec fn key_filter(key: Seq<char>) -> FilterModel {
    FilterModel::FieldEq(identity_key(), BsonModel::Str(key))
}

/// Whether `c` is the command that sets `key` to `value`.
pub open spec fn is_set_command(c: Command, key: Seq<char>, value: JsonModel) -> bool {
    c matches Command::SetFields { collection, filter, fields } && collection@
        == global_collection() && filter@ == key_filter(key) && doc_view(fields) == seq![
        (value_key(), encode_model(value)),
    ]
}

/// The members of an object that a batch write stores: a non-empty name and
/// a value other than null.
pub open spec fn batch_members(members: Seq<(Seq<char>, JsonModel)>) -> Seq<(Seq<char>, JsonModel)>
    decreases members.len(),
{
    if members.len() == 0 {
        Seq::empty()
    } else {
        let (k, v) = members[members.len() - 1];
        let p = batch_members(members.subrange(0, members.len() - 1));
        if k.len() > 0 && v != JsonModel::Null {
            p.push((k, v))
        } else {
            p
        }
    }
}

fn collection_name() -> (r: String)
    ensures
        r@ == global_collection(),
{
    let r = "_global_store".to_string();
    proof {
        reveal_strlit("_global_store");
        assert(r@ =~= global_collection());
    }
    r
}

fn key_filter_of(key: &str) -> (f: Filter)
    ensures
        f@ == key_filter(key@),
{
    let k = "_id".to_string();
    proof {
        reveal_strlit("_id");
        assert(k@ =~= identity_key());
    }
    Filter::FieldEq(k, BsonValue::Str(key.to_string()))
}

/// The flat key to value namespace.
pub struct GlobalStore;

impl GlobalStore {
    /// Sets a key's value, creating its record if needed.
    pub fn set(key: &str, value: &JsonValue) -> (c: Command)
        ensures
            is_set_command(c, key@, value@),
    {
        let name = "value".to_string();
        proof {
            reveal_strlit("value");
            assert(name@ =~= value_key());
        }
        let mut fields: Vec<(String, BsonValue)> = Vec::new();
        fields.push((name, encode(value)));
        proof {
            assert(fields@.subrange(0, 0) =~= Seq::<(String, BsonValue)>::empty());
            assert(field_views(fields@) == field_views(fields@.subrange(0, 0)).push(
                (fields@[0].0@, fields@[0].1@),
            ));
            assert(field_views(fields@) =~= seq![(value_key(), encode_model(value@))]);
        }
        Command::SetFields { collection: collection_name(), filter: key_filter_of(key), fields }
    }

    /// Looks up a key's record.
    pub fn get(key: &str) -> (c: Command)
        ensures
            c matches Command::FindOne { collection, filter } && collection@
                == global_collection() && filter@ == key_filter(key@),
    {
        Command::FindOne { collection: collection_name(), filter: key_filter_of(key) }
    }

    /// The value held by a key's record, if the record was found and has a
    /// value field; decoding failures are reported.
    pub fn value_of(found: Option<BsonValue>) -> (r: Result<Option<JsonValue>, StoreError>)
        ensures
            match found {
                Some(BsonValue::Document(fields)) => match crate::engine::field_of(
                    doc_view(fields),
                    value_key(),
                ) {
                    Some(b) => match decode_model(b) {
                        Ok(m) => r matches Ok(Some(v)) && v@ == m,
                        Err(d) => r matches Err(StoreError::InvalidData(s)) && s@ == d,
                    },
                    None => r == Ok::<Option<JsonValue>, StoreError>(None),
                },
                _ => r == Ok::<Option<JsonValue>, StoreError>(None),
            },
    {
        proof {
            reveal_strlit("value");
            assert("value"@ =~= value_key());
        }
        match found {
            Some(BsonValue::Document(fields)) => {
                match find_field(&fields, "value") {
                    Some(i) => match decode(&fields[i].1) {
                        Ok(v) => Ok(Some(v)),
                        Err(e) => Err(e),
                    },
                    None => Ok(None),
                }
            },
            _ => Ok(None),
        }
    }

    /// The set commands of a batch write: one per member of an object with a
    /// non-empty name and a non-null value, in order; nothing for a value that
    /// is not an object.
    #[verifier::loop_isolation(false)]
    pub fn set_batch(body: &JsonValue) -> (cs: Vec<Command>)
        ensures
            ({
                let kept = match body@ {
                    JsonModel::Object(members) => batch_members(members),
                    _ => Seq::empty(),
                };
                &&& cs.len() == kept.len()
                &&& forall|i: int|
                    0 <= i < cs.len() ==> is_set_command(#[trigger] cs[i], kept[i].0, kept[i].1)
            }),
    {
        let mut cs: Vec<Command> = Vec::new();
        match body {
            JsonValue::Object(members) => {
                let mut i: usize = 0;
                proof {
                    assert(members@.subrange(0, 0) =~= Seq::<(String, JsonValue)>::empty());
                }
                while i < members.len()
                    invariant
                        i <= members.len(),
                        ({
                            let kept = batch_members(member_views(members@.subrange(0, i as int)));
                            &&& cs.len() == kept.len()
                            &&& forall|k: int|
                                0 <= k < cs.len() ==> is_set_command(
                                    #[trigger] cs[k],
                                    kept[k].0,
                                    kept[k].1,
                                )
                        }),
                    decreases members.len() - i,
                {
                    let ghost before = member_views(members@.subrange(0, i as int));
                    proof {
                        lemma_prefix_step(members@, i as int);
                        lemma_push_prefix(before, (members@[i as int].0@, members@[i as int].1@));
                    }
                    let k = &members[i].0;
                    let v = &members[i].1;
                    let keep = k.unicode_len() > 0 && !matches!(v, JsonValue::Null);
                    if keep {
                        let c = GlobalStore::set(k.as_str(), v);
                        proof {
                            lemma_push_prefix(cs@, c);
                            lemma_push_prefix(batch_members(before), (k@, v@));
                        }
                        cs.push(c);
                    }
                    i += 1;
                }
                proof {
                    lemma_prefix_full(members@);
                }
            },
            _ => {},
        }
        cs
    }
}

} // verus!
