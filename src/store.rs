//! Per-collection document operations, keyed by the application-level `id`
//! field (distinct from the engine's identity field).
//!
//! Each operation builds the `Command` that the engine runs; the functions at
//! the end turn the engine's answers into results.

use crate::bson::{bson_views, field_views, BsonModel, BsonValue};
use crate::codec::{
    decode, decode_items, encode, encode_members, encode_model, identity_key, is_identity_key,
};
use crate::engine::{
    apply_upsert, doc_view, lemma_remove_matching, lemma_upsert_idempotent, satisfies,
    remove_matching, select, Command, DocModel, Filter, FilterModel,
};
use crate::error::StoreError;
use crate::identifier::{classifies_as, resolve_identifier, Identifier};
use crate::json::{json_views, member_views, JsonModel, JsonValue};
use crate::seqs::{lemma_prefix_full, lemma_prefix_step, lemma_push_prefix};
use vstd::prelude::*;

verus! {

/// The name of the application-level identifier field.
pub open spec fn id_key() -> Seq<char> {
    seq!['i', 'd']
}

/// The stored form of an identifier.
pub open spec fn id_value(id: Identifier) -> BsonModel {
    match id {
        Identifier::Numeric(n) => BsonModel::Int64(n as int),
        Identifier::Text(t) => BsonModel::Str(t@),
    }
}

/// The filter that selects the documents with a given identifier.
pub open spec fn id_filter_model(id: Identifier) -> FilterModel {
    FilterModel::FieldEq(id_key(), id_value(id))
}

/// Whether a member name is reserved: the `id` field or the identity field.
pub open spec fn is_reserved(k: Seq<char>) -> bool {
    k == id_key() || k == identity_key()
}

/// The stored fields of a payload's members, leaving out reserved names.
pub open spec fn payload_fields(members: Seq<(Seq<char>, JsonModel)>) -> DocModel
    decreases members.len(),
{
    if members.len() == 0 {
        Seq::empty()
    } else {
        let (k, v) = members[members.len() - 1];
        let p = payload_fields(members.subrange(0, members.len() - 1));
        if is_reserved(k) {
            p
        } else {
            p.push((k, encode_model(v)))
        }
    }
}

/// The document that an upsert writes: the identifier first, then the
/// payload's own fields; a payload that is not an object contributes none.
pub open spec fn document_model(id: Identifier, payload: JsonModel) -> DocModel {
    seq![(id_key(), id_value(id))] + match payload {
        JsonModel::Object(members) => payload_fields(members),
        _ => Seq::empty(),
    }
}

/// The stored document of a JSON value: an object's members, or nothing.
pub open spec fn document_of(j: JsonModel) -> DocModel {
    match j {
        JsonModel::Object(members) => encode_members(members),
        _ => Seq::empty(),
    }
}

/// Builds the `id` field of a stored document.
fn id_field(id: &Identifier) -> (r: (String, BsonValue))
    ensures
        r.0@ == id_key(),
        r.1@ == id_value(*id),
{
    let v = match id {
        Identifier::Numeric(n) => BsonValue::Int64(*n),
        Identifier::Text(t) => BsonValue::Str(t.clone()),
    };
    let k = "id".to_string();
    proof {
        reveal_strlit("id");
        assert(k@ =~= id_key());
    }
    (k, v)
}

/// The filter that selects the documents with a given identifier.
pub fn id_filter(id: &Identifier) -> (f: Filter)
    ensures
        f@ == id_filter_model(*id),
{
    let (k, v) = id_field(id);
    Filter::FieldEq(k, v)
}

/// Whether a member name is `id`.
fn is_id_key(k: &str) -> (r: bool)
    ensures
        r == (k@ == id_key()),
{
    if k.unicode_len() != 2 {
        return false;
    }
    let r = k.get_char(0) == 'i' && k.get_char(1) == 'd';
    proof {
        if r {
            assert(k@ =~= id_key());
        }
    }
    r
}

/// The stored form of a JSON object as a document; any other value gives an
/// empty document.
pub fn encode_document(j: &JsonValue) -> (d: Vec<(String, BsonValue)>)
    ensures
        doc_view(d) == document_of(j@),
{
    match encode(j) {
        BsonValue::Document(fields) => fields,
        _ => Vec::new(),
    }
}

/// The document that an upsert of `payload` under `id` writes.
#[verifier::loop_isolation(false)]
pub fn document_for(id: &Identifier, payload: &JsonValue) -> (d: Vec<(String, BsonValue)>)
    ensures
        doc_view(d) == document_model(*id, payload@),
{
    let mut out: Vec<(String, BsonValue)> = Vec::new();
    let first = id_field(id);
    out.push(first);
    proof {
        assert(out@.subrange(0, 0) =~= Seq::<(String, BsonValue)>::empty());
        assert(field_views(out@) == field_views(out@.subrange(0, 0)).push(
            (out@[0].0@, out@[0].1@),
        ));
        assert(field_views(out@) =~= seq![(id_key(), id_value(*id))]);
    }
    match payload {
        JsonValue::Object(members) => {
            let mut i: usize = 0;
            proof {
                assert(members@.subrange(0, 0) =~= Seq::<(String, JsonValue)>::empty());
                assert(field_views(out@) =~= seq![(id_key(), id_value(*id))] + payload_fields(
                    member_views(members@.subrange(0, 0)),
                ));
            }
            while i < members.len()
                invariant
                    i <= members.len(),
                    field_views(out@) == seq![(id_key(), id_value(*id))] + payload_fields(
                        member_views(members@.subrange(0, i as int)),
                    ),
                decreases members.len() - i,
            {
                let ghost before = member_views(members@.subrange(0, i as int));
                proof {
                    lemma_prefix_step(members@, i as int);
                    lemma_push_prefix(before, (members@[i as int].0@, members@[i as int].1@));
                }
                let k = &members[i].0;
                if !is_id_key(k.as_str()) && !is_identity_key(k.as_str()) {
                    let pair = (k.clone(), encode(&members[i].1));
                    proof {
                        lemma_push_prefix(out@, pair);
                        assert(seq![(id_key(), id_value(*id))] + payload_fields(before).push(
                            (pair.0@, pair.1@),
                        ) =~= (seq![(id_key(), id_value(*id))] + payload_fields(before)).push(
                            (pair.0@, pair.1@),
                        ));
                    }
                    out.push(pair);
                }
                i += 1;
            }
            proof {
                lemma_prefix_full(members@);
            }
        },
        _ => {
            proof {
                assert(field_views(out@) =~= seq![(id_key(), id_value(*id))] + Seq::<
                    (Seq<char>, BsonModel),
                >::empty());
            }
        },
    }
    out
}

/// The documents of one named collection.
#[derive(Debug)]
pub struct DocumentStore {
    pub collection: String,
}

impl DocumentStore {
    /// A store over the named collection; the engine creates the collection on
    /// its first write.
    pub fn new(collection: &str) -> (s: Self)
        ensures
            s.collection@ == collection@,
    {
        DocumentStore { collection: collection.to_string() }
    }

    /// Writes `{id, ...payload}` as one document, replacing the document with
    /// that `id` if there is one.
    pub fn upsert(&self, id: &Identifier, payload: &JsonValue) -> (c: Command)
        ensures
            c matches Command::Upsert { collection, filter, document } && collection@
                == self.collection@ && filter@ == id_filter_model(*id) && doc_view(document)
                == document_model(*id, payload@),
    {
        Command::Upsert {
            collection: self.collection.clone(),
            filter: id_filter(id),
            document: document_for(id, payload),
        }
    }

    /// Inserts the payload's fields as a new document.
    pub fn insert(&self, payload: &JsonValue) -> (c: Command)
        ensures
            c matches Command::Insert { collection, document } && collection@
                == self.collection@ && doc_view(document) == document_of(payload@),
    {
        Command::Insert { collection: self.collection.clone(), document: encode_document(payload) }
    }

    /// Looks up the document with a numeric identifier.
    pub fn get(&self, id: i64) -> (c: Command)
        ensures
            c matches Command::FindOne { collection, filter } && collection@ == self.collection@
                && filter@ == id_filter_model(Identifier::Numeric(id)),
    {
        Command::FindOne {
            collection: self.collection.clone(),
            filter: id_filter(&Identifier::Numeric(id)),
        }
    }

    /// Lists every document.
    pub fn list(&self) -> (c: Command)
        ensures
            c matches Command::Find { collection, filter } && collection@ == self.collection@
                && filter@ == FilterModel::All,
    {
        Command::Find { collection: self.collection.clone(), filter: Filter::All }
    }

    /// Counts the documents with a numeric identifier.
    pub fn exists_by_id(&self, id: i64) -> (c: Command)
        ensures
            c matches Command::Count { collection, filter } && collection@ == self.collection@
                && filter@ == id_filter_model(Identifier::Numeric(id)),
    {
        Command::Count {
            collection: self.collection.clone(),
            filter: id_filter(&Identifier::Numeric(id)),
        }
    }

    /// Deletes the documents whose `id` is what the token classifies as: a
    /// number when the whole token is one, the token's text otherwise.
    pub fn delete_by_id(&self, token: &str) -> (c: Command)
        ensures
            c matches Command::DeleteMany { collection, filter } && collection@
                == self.collection@ && exists|id: Identifier|
                classifies_as(token@, id) && filter@ == id_filter_model(id),
    {
        let id = resolve_identifier(token);
        let f = id_filter(&id);
        Command::DeleteMany { collection: self.collection.clone(), filter: f }
    }

    /// Deletes by an identifier token when one is given, else everything.
    pub fn delete_for(&self, token: Option<&str>) -> (c: Command)
        ensures
            c matches Command::DeleteMany { collection, filter } && collection@
                == self.collection@ && match token {
                Some(t) => exists|id: Identifier| classifies_as(t@, id) && filter@ == id_filter_model(id),
                None => filter@ == FilterModel::All,
            },
    {
        match token {
            Some(t) => self.delete_by_id(t),
            None => self.delete_all(),
        }
    }

    /// Deletes every document.
    pub fn delete_all(&self) -> (c: Command)
        ensures
            c matches Command::DeleteMany { collection, filter } && collection@
                == self.collection@ && filter@ == FilterModel::All,
    {
        Command::DeleteMany { collection: self.collection.clone(), filter: Filter::All }
    }

    /// Replaces the first document whose `id` is what the token classifies as
    /// with the payload's fields.
    pub fn replace_by_id(&self, token: &str, payload: &JsonValue) -> (c: Command)
        ensures
            c matches Command::Replace { collection, filter, document } && collection@
                == self.collection@ && doc_view(document) == document_of(payload@) && exists|
                id: Identifier,
            | classifies_as(token@, id) && filter@ == id_filter_model(id),
    {
        let id = resolve_identifier(token);
        let f = id_filter(&id);
        Command::Replace {
            collection: self.collection.clone(),
            filter: f,
            document: encode_document(payload),
        }
    }
}

/// Whether a count of matching documents means that one exists.
pub fn exists_from_count(count: u64) -> (r: bool)
    ensures
        r == (count > 0),
{
    count > 0
}

/// Decodes the documents that the engine returned, in order; fails on the
/// first one holding an unsupported type.
pub fn decode_documents(docs: Vec<BsonValue>) -> (r: Result<Vec<JsonValue>, StoreError>)
    ensures
        match decode_items(bson_views(docs@)) {
            Ok(xs) => r matches Ok(v) && json_views(v@) == xs,
            Err(d) => r matches Err(StoreError::InvalidData(s)) && s@ == d,
        },
{
    let whole = BsonValue::Array(docs);
    match decode(&whole) {
        Ok(JsonValue::Array(v)) => Ok(v),
        Ok(_) => {
            proof {
                assert(false);
            }
            Ok(Vec::new())
        },
        Err(e) => Err(e),
    }
}

/// Decodes the document that a lookup returned, if any.
pub fn decode_found(doc: Option<BsonValue>) -> (r: Result<Option<JsonValue>, StoreError>)
    ensures
        match doc {
            None => r == Ok::<Option<JsonValue>, StoreError>(None),
            Some(b) => match crate::codec::decode_model(b@) {
                Ok(m) => r matches Ok(Some(v)) && v@ == m,
                Err(d) => r matches Err(StoreError::InvalidData(s)) && s@ == d,
            },
        },
{
    match doc {
        None => Ok(None),
        Some(b) => match decode(&b) {
            Ok(v) => Ok(Some(v)),
            Err(e) => Err(e),
        },
    }
}

/// Repeating an upsert leaves the collection as one upsert left it, and the
/// collection then holds a document with that `id`.
pub proof fn lemma_store_upsert_idempotent(docs: Seq<DocModel>, id: Identifier, payload: JsonModel)
    ensures
        ({
            let f = id_filter_model(id);
            let d = document_model(id, payload);
            &&& apply_upsert(apply_upsert(docs, f, d), f, d) == apply_upsert(docs, f, d)
            &&& select(apply_upsert(docs, f, d), f).len() > 0
        }),
{
    let f = id_filter_model(id);
    let d = document_model(id, payload);
    assert(d[0] == (id_key(), id_value(id)));
    assert(satisfies(d, f));
    lemma_upsert_idempotent(docs, f, d);
    lemma_select_nonempty(apply_upsert(docs, f, d), f);
}

/// A collection with a matching document selects something.
proof fn lemma_select_nonempty(docs: Seq<DocModel>, f: FilterModel)
    requires
        crate::engine::first_match(docs, f) is Some,
    ensures
        select(docs, f).len() > 0,
    decreases docs.len(),
{
    if docs.len() > 0 && !satisfies(docs[0], f) {
        lemma_select_nonempty(docs.subrange(1, docs.len() as int), f);
    }
}

/// After deleting everything, listing finds nothing.
pub proof fn lemma_delete_all_then_list(docs: Seq<DocModel>)
    ensures
        remove_matching(docs, FilterModel::All) == Seq::<DocModel>::empty(),
        select(remove_matching(docs, FilterModel::All), FilterModel::All)
            == Seq::<DocModel>::empty(),
{
    lemma_remove_matching(docs, FilterModel::All);
    let r = remove_matching(docs, FilterModel::All);
    if r.len() > 0 {
        assert(!satisfies(r[0], FilterModel::All));
    }
    assert(r =~= Seq::<DocModel>::empty());
}

/// Deleting by a token removes a document stored with a numeric `id` when the
/// token spells that number, and one stored with a text `id` when the token
/// is that text and spells no number.
pub proof fn lemma_delete_by_token(docs: Seq<DocModel>, token: Seq<char>, id: Identifier, doc: DocModel)
    requires
        classifies_as(token, id),
        field_of_id(doc) == Some(id_value(id)),
    ensures
        satisfies(doc, id_filter_model(id)),
        !remove_matching(docs, id_filter_model(id)).contains(doc),
{
    lemma_remove_matching(docs, id_filter_model(id));
    let r = remove_matching(docs, id_filter_model(id));
    if r.contains(doc) {
        let j = choose|j: int| 0 <= j < r.len() && r[j] == doc;
        assert(!satisfies(r[j], id_filter_model(id)));
    }
}

/// The stored `id` of a document.
pub open spec fn field_of_id(doc: DocModel) -> Option<BsonModel> {
    crate::engine::field_of(doc, id_key())
}

} // verus!
