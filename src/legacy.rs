//! The fixed-shape collections kept for older clients: `posts`, whose
//! documents carry a text `id`, and `forms`, whose documents are
//! `{ id: <integer>, form: <any> }`.

use crate::bson::{field_views, BsonModel, BsonValue};
use crate::codec::{decode, decode_model, encode, encode_model};
use crate::engine::{doc_view, find_field, Command, Filter, FilterModel};
use crate::error::StoreError;
use crate::json::{find_member, member_of, JsonModel, JsonValue};
use crate::store::{decode_documents, document_of, encode_document, id_key};
use vstd::prelude::*;

verus! {

/// The collection of posts.
pub open spec fn posts_collection() -> Seq<char> {
    seq!['p', 'o', 's', 't', 's']
}

/// The collection of forms.
pub open spec fn forms_collection() -> Seq<char> {
    seq!['f', 'o', 'r', 'm', 's']
}

/// The field of a form record that holds the form.
pub open spec fn form_key() -> Seq<char> {
    seq!['f', 'o', 'r', 'm']
}

/// A decimal digit character.
pub open spec fn digit_char(d: int) -> char {
    seq!['0', '1', '2', '3', '4', '5', '6', '7', '8', '9'][d]
}

/// The decimal digits of a natural number, most significant first.
pub open spec fn digits_text(n: nat) -> Seq<char>
    decreases n,
{
    if n < 10 {
        seq![digit_char(n as int)]
    } else {
        digits_text(n / 10).push(digit_char((n % 10) as int))
    }
}

/// The decimal text of an integer, with a leading `-` when negative.
pub open spec fn decimal_text(n: int) -> Seq<char> {
    if n < 0 {
        seq!['-'] + digits_text((-n) as nat)
    } else {
        digits_text(n as nat)
    }
}

/// Relies on std's `i64::to_string` (its `Display`): the decimal digits, with a
/// leading `-` for a negative number.
#[verifier::external_body]
fn integer_text(n: i64) -> (r: String)
    ensures
        r@ == decimal_text(n as int),
{
    n.to_string()
}

/// A post with an `id`: an object without one gets the given text as `id`;
/// anything else is unchanged.
pub open spec fn post_with_id(data: JsonModel, id_text: Seq<char>) -> JsonModel {
    match data {
        JsonModel::Object(members) => if member_of(members, id_key()) is Some {
            data
        } else {
            JsonModel::Object(members.push((id_key(), JsonModel::Str(id_text))))
        },
        _ => data,
    }
}

/// The text `id` of a post, if it has one.
pub open spec fn post_text_id(data: JsonModel) -> Option<Seq<char>> {
    match data {
        JsonModel::Object(members) => match member_of(members, id_key()) {
            Some(JsonModel::Str(t)) => Some(t),
            _ => None,
        },
        _ => None,
    }
}

fn name_of(s: &str) -> (r: String)
    ensures
        r@ == s@,
{
    s.to_string()
}

fn posts_name() -> (r: String)
    ensures
        r@ == posts_collection(),
{
    proof {
        reveal_strlit("posts");
        assert("posts"@ =~= posts_collection());
    }
    name_of("posts")
}

fn forms_name() -> (r: String)
    ensures
        r@ == forms_collection(),
{
    proof {
        reveal_strlit("forms");
        assert("forms"@ =~= forms_collection());
    }
    name_of("forms")
}

fn id_name() -> (r: String)
    ensures
        r@ == id_key(),
{
    proof {
        reveal_strlit("id");
        assert("id"@ =~= id_key());
    }
    name_of("id")
}

/// The filter on a text `id`.
pub open spec fn text_id_filter(id: Seq<char>) -> FilterModel {
    FilterModel::FieldEq(id_key(), BsonModel::Str(id))
}

/// The filter on an integer `id`.
pub open spec fn int_id_filter(id: int) -> FilterModel {
    FilterModel::FieldEq(id_key(), BsonModel::Int64(id))
}

fn text_id_filter_of(id: &str) -> (f: Filter)
    ensures
        f@ == text_id_filter(id@),
{
    Filter::FieldEq(id_name(), BsonValue::Str(name_of(id)))
}

fn int_id_filter_of(id: i64) -> (f: Filter)
    ensures
        f@ == int_id_filter(id as int),
{
    Filter::FieldEq(id_name(), BsonValue::Int64(id))
}

/// Gives a post an `id` made of the time in milliseconds if it has none.
pub fn with_post_id(data: JsonValue, now_millis: i64) -> (r: JsonValue)
    ensures
        r@ == post_with_id(data@, decimal_text(now_millis as int)),
{
    match data {
        JsonValue::Object(mut members) => {
            match find_member(&members, "id") {
                Some(_) => {
                    proof {
                        reveal_strlit("id");
                        assert("id"@ =~= id_key());
                    }
                    JsonValue::Object(members)
                },
                None => {
                    proof {
                        reveal_strlit("id");
                        assert("id"@ =~= id_key());
                    }
                    let pair = (id_name(), JsonValue::Str(integer_text(now_millis)));
                    let ghost before = members@;
                    members.push(pair);
                    proof {
                        crate::seqs::lemma_push_prefix(before, pair);
                        assert(crate::json::member_views(members@) == crate::json::member_views(
                            before,
                        ).push((pair.0@, pair.1@)));
                    }
                    JsonValue::Object(members)
                },
            }
        },
        other => other,
    }
}

/// Stores a post, first giving it an `id` from the time if it has none;
/// returns the post as stored and the insert.
pub fn push_post(data: JsonValue, now_millis: i64) -> (r: (JsonValue, Command))
    ensures
        r.0@ == post_with_id(data@, decimal_text(now_millis as int)),
        r.1 matches Command::Insert { collection, document } && collection@ == posts_collection()
            && doc_view(document) == document_of(r.0@),
{
    let post = with_post_id(data, now_millis);
    let document = encode_document(&post);
    (post, Command::Insert { collection: posts_name(), document })
}

/// The text `id` of a post, if it has one.
pub fn post_id(data: &JsonValue) -> (r: Option<String>)
    ensures
        match post_text_id(data@) {
            Some(t) => r matches Some(s) && s@ == t,
            None => r is None,
        },
{
    proof {
        reveal_strlit("id");
        assert("id"@ =~= id_key());
    }
    match data {
        JsonValue::Object(members) => match find_member(members, "id") {
            Some(i) => match &members[i].1 {
                JsonValue::Str(t) => Some(t.clone()),
                _ => None,
            },
            None => None,
        },
        _ => None,
    }
}

/// Replaces the post with the same text `id`; a post without a text `id`
/// makes no command.
pub fn update_post(data: &JsonValue) -> (c: Option<Command>)
    ensures
        match post_text_id(data@) {
            Some(t) => c matches Some(Command::Replace { collection, filter, document })
                && collection@ == posts_collection() && filter@ == text_id_filter(t) && doc_view(
                document,
            ) == document_of(data@),
            None => c is None,
        },
{
    match post_id(data) {
        Some(t) => Some(
            Command::Replace {
                collection: posts_name(),
                filter: text_id_filter_of(t.as_str()),
                document: encode_document(data),
            },
        ),
        None => None,
    }
}

/// What an update answers: the post when a document changed.
pub fn updated_post(data: JsonValue, modified: u64) -> (r: Option<JsonValue>)
    ensures
        modified > 0 ==> r == Some(data),
        modified == 0 ==> r is None,
{
    if modified > 0 {
        Some(data)
    } else {
        None
    }
}

/// Looks up a post by its text `id`.
pub fn get_post(id: &str) -> (c: Command)
    ensures
        c matches Command::FindOne { collection, filter } && collection@ == posts_collection()
            && filter@ == text_id_filter(id@),
{
    Command::FindOne { collection: posts_name(), filter: text_id_filter_of(id) }
}

/// Deletes one post by its text `id`.
pub fn delete_post(id: &str) -> (c: Command)
    ensures
        c matches Command::DeleteOne { collection, filter } && collection@ == posts_collection()
            && filter@ == text_id_filter(id@),
{
    Command::DeleteOne { collection: posts_name(), filter: text_id_filter_of(id) }
}

/// Whether a removal count means that something was removed.
pub fn removed_any(count: u64) -> (r: bool)
    ensures
        r == (count > 0),
{
    count > 0
}

/// Sets a form's record: `{ id, form }`, created if missing.
pub fn upsert_form(id: i64, form: &JsonValue) -> (c: Command)
    ensures
        c matches Command::SetFields { collection, filter, fields } && collection@
            == forms_collection() && filter@ == int_id_filter(id as int) && doc_view(fields)
            == seq![(id_key(), BsonModel::Int64(id as int)), (form_key(), encode_model(form@))],
{
    let name = name_of("form");
    proof {
        reveal_strlit("form");
        assert(name@ =~= form_key());
    }
    let mut fields: Vec<(String, BsonValue)> = Vec::new();
    fields.push((id_name(), BsonValue::Int64(id)));
    fields.push((name, encode(form)));
    proof {
        crate::engine::lemma_field_views_index(fields@);
        assert(field_views(fields@) =~= seq![
            (id_key(), BsonModel::Int64(id as int)),
            (form_key(), encode_model(form@)),
        ]);
    }
    Command::SetFields { collection: forms_name(), filter: int_id_filter_of(id), fields }
}

/// The form `id` of an optional query token: its number when the whole token
/// is one; otherwise no `id`, which lists every form.
pub fn form_id(token: Option<&str>) -> (r: Option<i64>)
    ensures
        match token {
            Some(t) => match crate::identifier::decimal_value(t@) {
                Some(v) => r == Some(v as i64),
                None => r is None,
            },
            None => r is None,
        },
{
    match token {
        Some(t) => match crate::identifier::resolve_identifier(t) {
            crate::identifier::Identifier::Numeric(n) => Some(n),
            crate::identifier::Identifier::Text(_) => None,
        },
        None => None,
    }
}

/// Looks up one form by `id`, or lists them all.
pub fn get_forms(id: Option<i64>) -> (c: Command)
    ensures
        match id {
            Some(n) => c matches Command::FindOne { collection, filter } && collection@
                == forms_collection() && filter@ == int_id_filter(n as int),
            None => c matches Command::Find { collection, filter } && collection@
                == forms_collection() && filter@ == FilterModel::All,
        },
{
    match id {
        Some(n) => Command::FindOne { collection: forms_name(), filter: int_id_filter_of(n) },
        None => Command::Find { collection: forms_name(), filter: Filter::All },
    }
}

/// What a single-form lookup answers: the decoded `form` field of the found
/// record, or null when there is no record or no such field.
pub fn form_answer(found: Option<BsonValue>) -> (r: Result<JsonValue, StoreError>)
    ensures
        match found {
            Some(BsonValue::Document(fields)) => match crate::engine::field_of(
                doc_view(fields),
                form_key(),
            ) {
                Some(b) => match decode_model(b) {
                    Ok(m) => r matches Ok(v) && v@ == m,
                    Err(d) => r matches Err(StoreError::InvalidData(s)) && s@ == d,
                },
                None => r matches Ok(v) && v@ == JsonModel::Null,
            },
            _ => r matches Ok(v) && v@ == JsonModel::Null,
        },
{
    proof {
        reveal_strlit("form");
        assert("form"@ =~= form_key());
    }
    match found {
        Some(BsonValue::Document(fields)) => match find_field(&fields, "form") {
            Some(i) => decode(&fields[i].1),
            None => Ok(JsonValue::Null),
        },
        _ => Ok(JsonValue::Null),
    }
}

/// What a form listing answers: every record decoded, as an array.
pub fn forms_answer(docs: Vec<BsonValue>) -> (r: Result<JsonValue, StoreError>)
    ensures
        match crate::codec::decode_items(crate::bson::bson_views(docs@)) {
            Ok(xs) => r matches Ok(v) && v@ == JsonModel::Array(xs),
            Err(d) => r matches Err(StoreError::InvalidData(s)) && s@ == d,
        },
{
    match decode_documents(docs) {
        Ok(v) => Ok(JsonValue::Array(v)),
        Err(e) => Err(e),
    }
}

/// Deletes one form by `id`.
pub fn delete_form(id: i64) -> (c: Command)
    ensures
        c matches Command::DeleteOne { collection, filter } && collection@ == forms_collection()
            && filter@ == int_id_filter(id as int),
{
    Command::DeleteOne { collection: forms_name(), filter: int_id_filter_of(id) }
}

} // verus!
