//! The catch-all lookup: a named collection first, then the global namespace.
//!
//! 1. With an identifier that is numeric, the collection's document with
//!    that `id`.
//! 2. With no identifier, the collection's documents; an empty list counts as
//!    not found, so an empty collection and a missing one are alike.
//! 3. Otherwise (including a non-numeric identifier), the global value of the
//!    name, whatever the identifier.
//! 4. Otherwise null, which is not an error.

use crate::bson::BsonModel;
use crate::codec::decode_items;
use crate::engine::{apply_upsert, Command, DocModel, Filter, FilterModel};
use crate::identifier::{decimal_value, resolve_identifier, Identifier};
use crate::json::{json_views, JsonModel, JsonValue};
use crate::store::{document_model, id_filter, id_filter_model};
use vstd::prelude::*;

verus! {

/// The collection query that the first step makes.
#[derive(Debug, PartialEq)]
pub enum Lookup {
    /// The document with this numeric `id`.
    One(i64),
    /// Every document.
    Every,
    /// No collection query: go straight to the global namespace.
    Skip,
}

/// The collection query for an optional identifier token.
pub open spec fn lookup_for(token: Option<Seq<char>>) -> Lookup {
    match token {
        None => Lookup::Every,
        Some(t) => match decimal_value(t) {
            Some(v) => Lookup::One(v as i64),
            None => Lookup::Skip,
        },
    }
}

/// What a list of documents answers: nothing when it is empty.
pub open spec fn list_answer_model(docs: Seq<JsonModel>) -> Option<JsonModel> {
    if docs.len() == 0 {
        None
    } else {
        Some(JsonModel::Array(docs))
    }
}

/// The first answer that exists, else null.
pub open spec fn resolved(primary: Option<JsonModel>, global: Option<JsonModel>) -> JsonModel {
    match primary {
        Some(v) => v,
        None => match global {
            Some(g) => g,
            None => JsonModel::Null,
        },
    }
}

/// The model of an optional JSON value.
pub open spec fn option_view(v: Option<JsonValue>) -> Option<JsonModel> {
    match v {
        Some(x) => Some(x@),
        None => None,
    }
}

/// Chooses the collection query for an optional identifier token.
pub fn plan_lookup(token: Option<&str>) -> (l: Lookup)
    ensures
        l == lookup_for(
            match token {
                Some(t) => Some(t@),
                None => None,
            },
        ),
{
    match token {
        None => Lookup::Every,
        Some(t) => match resolve_identifier(t) {
            Identifier::Numeric(v) => Lookup::One(v),
            Identifier::Text(_) => Lookup::Skip,
        },
    }
}

/// The engine command of a collection query, if it makes one.
pub fn lookup_command(collection: &str, lookup: &Lookup) -> (c: Option<Command>)
    ensures
        match *lookup {
            Lookup::One(n) => c matches Some(Command::FindOne { collection: name, filter }) && name@
                == collection@ && filter@ == id_filter_model(Identifier::Numeric(n)),
            Lookup::Every => c matches Some(Command::Find { collection: name, filter }) && name@
                == collection@ && filter@ == FilterModel::All,
            Lookup::Skip => c is None,
        },
{
    match lookup {
        Lookup::One(n) => Some(
            Command::FindOne {
                collection: collection.to_string(),
                filter: id_filter(&Identifier::Numeric(*n)),
            },
        ),
        Lookup::Every => Some(
            Command::Find { collection: collection.to_string(), filter: Filter::All },
        ),
        Lookup::Skip => None,
    }
}

/// What a listed collection answers: nothing when it is empty.
pub fn list_answer(docs: Vec<JsonValue>) -> (r: Option<JsonValue>)
    ensures
        option_view(r) == list_answer_model(json_views(docs@)),
{
    proof {
        crate::json::lemma_json_views_len(docs@);
    }
    if docs.len() == 0 {
        None
    } else {
        Some(JsonValue::Array(docs))
    }
}

/// Picks the collection's answer, else the global value, else null.
pub fn resolve(primary: Option<JsonValue>, global: Option<JsonValue>) -> (r: JsonValue)
    ensures
        r@ == resolved(option_view(primary), option_view(global)),
{
    match primary {
        Some(v) => v,
        None => match global {
            Some(g) => g,
            None => JsonValue::Null,
        },
    }
}

/// The global lookup, made only when the collection gave no answer.
pub fn fallback_command(name: &str, primary: &Option<JsonValue>) -> (c: Option<Command>)
    ensures
        primary is Some ==> c is None,
        primary is None ==> (c matches Some(Command::FindOne { collection, filter }) && collection@
            == crate::global::global_collection() && filter@ == crate::global::key_filter(name@)),
{
    match primary {
        Some(_) => None,
        None => Some(crate::global::GlobalStore::get(name)),
    }
}

/// The stored values of a collection's documents, as a listing returns them.
pub open spec fn as_documents(docs: Seq<DocModel>) -> Seq<BsonModel> {
    Seq::new(docs.len(), |i: int| BsonModel::Document(docs[i]))
}

/// A collection shadows a global value of the same name: with no documents
/// the global value is the answer; once a document has been upserted, the
/// listing of the collection is.
pub proof fn lemma_fallback_priority(
    docs: Seq<DocModel>,
    id: Identifier,
    payload: JsonModel,
    global: JsonModel,
)
    ensures
        resolved(list_answer_model(Seq::empty()), Some(global)) == global,
        ({
            let after = apply_upsert(docs, id_filter_model(id), document_model(id, payload));
            &&& after.len() > 0
            &&& forall|xs: Seq<JsonModel>|
                decode_items(as_documents(after)) == Ok::<Seq<JsonModel>, Seq<char>>(xs)
                    ==> #[trigger] resolved(list_answer_model(xs), Some(global))
                    == JsonModel::Array(xs)
        }),
{
    let after = apply_upsert(docs, id_filter_model(id), document_model(id, payload));
    crate::engine::lemma_first_match(docs, id_filter_model(id));
    assert(after.len() > 0);
    assert forall|xs: Seq<JsonModel>|
        decode_items(as_documents(after)) == Ok::<Seq<JsonModel>, Seq<char>>(
            xs,
        ) implies #[trigger] resolved(list_answer_model(xs), Some(global)) == JsonModel::Array(
        xs,
    ) by {
        crate::codec::lemma_decode_items_len(as_documents(after));
    }
}

} // verus!
