//! A repository of JSON values keyed by a text `id`, each stored as
//! `{ id, <data field>: value }` in a chosen collection.

use crate::bson::{bson_views, field_views, BsonModel, BsonValue};
use crate::codec::{decode, decode_model, encode, encode_model};
use crate::engine::{doc_view, field_of, find_field, Command, Filter, FilterModel};
use crate::json::{json_views, JsonModel, JsonValue};
use crate::legacy::text_id_filter;
use crate::seqs::{lemma_prefix_full, lemma_prefix_step, lemma_push_prefix};
use crate::store::id_key;
use vstd::prelude::*;

verus! {

/// The data that a stored record holds under a field, when the record is a
/// document with that field and its value decodes.
pub open spec fn record_data(b: BsonModel, field: Seq<char>) -> Option<JsonModel> {
    match b {
        BsonModel::Document(fields) => match field_of(fields, field) {
            Some(v) => match decode_model(v) {
                Ok(m) => Some(m),
                Err(_) => None,
            },
            None => None,
        },
        _ => None,
    }
}

/// The data of every record that has it, in order.
pub open spec fn all_data(records: Seq<BsonModel>, field: Seq<char>) -> Seq<JsonModel>
    decreases records.len(),
{
    if records.len() == 0 {
        Seq::empty()
    } else {
        let p = all_data(records.subrange(0, records.len() - 1), field);
        match record_data(records[records.len() - 1], field) {
            Some(m) => p.push(m),
            None => p,
        }
    }
}

/// A repository over one collection, holding each value under one field.
#[derive(Debug)]
pub struct JsonRepository {
    pub collection_name: String,
    pub data_field_name: String,
}

impl JsonRepository {
    /// A repository over `collection_name`, holding values under
    /// `data_field_name` (such as `form` or `config`).
    pub fn new(collection_name: &str, data_field_name: &str) -> (r: Self)
        ensures
            r.collection_name@ == collection_name@,
            r.data_field_name@ == data_field_name@,
    {
        JsonRepository {
            collection_name: collection_name.to_string(),
            data_field_name: data_field_name.to_string(),
        }
    }

    /// Sets the record of `id` to `{ id, <data field>: data }`, creating it if
    /// missing.
    pub fn upsert(&self, id: &str, data: &JsonValue) -> (c: Command)
        ensures
            c matches Command::SetFields { collection, filter, fields } && collection@
                == self.collection_name@ && filter@ == text_id_filter(id@) && doc_view(fields)
                == seq![
                (id_key(), BsonModel::Str(id@)),
                (self.data_field_name@, encode_model(data@)),
            ],
    {
        let k = "id".to_string();
        proof {
            reveal_strlit("id");
            assert(k@ =~= id_key());
        }
        let mut fields: Vec<(String, BsonValue)> = Vec::new();
        fields.push((k.clone(), BsonValue::Str(id.to_string())));
        fields.push((self.data_field_name.clone(), encode(data)));
        proof {
            crate::engine::lemma_field_views_index(fields@);
            assert(field_views(fields@) =~= seq![
                (id_key(), BsonModel::Str(id@)),
                (self.data_field_name@, encode_model(data@)),
            ]);
        }
        Command::SetFields {
            collection: self.collection_name.clone(),
            filter: Filter::FieldEq(k, BsonValue::Str(id.to_string())),
            fields,
        }
    }

    /// Looks up the record of `id`.
    pub fn get(&self, id: &str) -> (c: Command)
        ensures
            c matches Command::FindOne { collection, filter } && collection@
                == self.collection_name@ && filter@ == text_id_filter(id@),
    {
        let k = "id".to_string();
        proof {
            reveal_strlit("id");
            assert(k@ =~= id_key());
        }
        Command::FindOne {
            collection: self.collection_name.clone(),
            filter: Filter::FieldEq(k, BsonValue::Str(id.to_string())),
        }
    }

    /// Lists every record.
    pub fn get_all(&self) -> (c: Command)
        ensures
            c matches Command::Find { collection, filter } && collection@ == self.collection_name@
                && filter@ == FilterModel::All,
    {
        Command::Find { collection: self.collection_name.clone(), filter: Filter::All }
    }

    /// The data of a found record; a missing record, a missing field or a
    /// value that does not decode gives nothing.
    pub fn data_of(&self, found: &BsonValue) -> (r: Option<JsonValue>)
        ensures
            match record_data(found@, self.data_field_name@) {
                Some(m) => r matches Some(v) && v@ == m,
                None => r is None,
            },
    {
        match found {
            BsonValue::Document(fields) => {
                proof {
                    assert(found@ == BsonModel::Document(doc_view(*fields)));
                }
                match find_field(fields, self.data_field_name.as_str()) {
                    Some(i) => match decode(&fields[i].1) {
                        Ok(v) => Some(v),
                        Err(_) => None,
                    },
                    None => None,
                }
            },
            _ => None,
        }
    }

    /// The data of a found record, if one was found.
    pub fn get_answer(&self, found: &Option<BsonValue>) -> (r: Option<JsonValue>)
        ensures
            match found {
                Some(b) => match record_data(b@, self.data_field_name@) {
                    Some(m) => r matches Some(v) && v@ == m,
                    None => r is None,
                },
                None => r is None,
            },
    {
        match found {
            Some(b) => self.data_of(b),
            None => None,
        }
    }

    /// The data of every listed record that has it, in order.
    #[verifier::loop_isolation(false)]
    pub fn all_answer(&self, records: &Vec<BsonValue>) -> (r: Vec<JsonValue>)
        ensures
            json_views(r@) == all_data(bson_views(records@), self.data_field_name@),
    {
        let mut out: Vec<JsonValue> = Vec::new();
        let mut i: usize = 0;
        proof {
            assert(records@.subrange(0, 0) =~= Seq::<BsonValue>::empty());
        }
        while i < records.len()
            invariant
                i <= records.len(),
                json_views(out@) == all_data(
                    bson_views(records@.subrange(0, i as int)),
                    self.data_field_name@,
                ),
            decreases records.len() - i,
        {
            let ghost before = bson_views(records@.subrange(0, i as int));
            proof {
                lemma_prefix_step(records@, i as int);
                lemma_push_prefix(before, records@[i as int]@);
            }
            match self.data_of(&records[i]) {
                Some(v) => {
                    proof {
                        lemma_push_prefix(out@, v);
                    }
                    out.push(v);
                },
                None => {},
            }
            i += 1;
        }
        proof {
            lemma_prefix_full(records@);
        }
        out
    }
}

} // verus!
