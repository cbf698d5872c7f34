use json_mock::bson::BsonValue;
use json_mock::engine::{Command, Filter};
use json_mock::error::StoreError;
use json_mock::gate::{check_permission, gate_write, is_restricted};
use json_mock::global::GlobalStore;
use json_mock::identifier::{resolve_identifier, Identifier};
use json_mock::json::JsonValue;
use json_mock::legacy::{
    delete_form, delete_post, form_answer, form_id, forms_answer, get_forms, get_post, push_post,
    removed_any, update_post, updated_post, upsert_form, with_post_id,
};
use json_mock::repository::JsonRepository;
use json_mock::resolver::{fallback_command, list_answer, lookup_command, plan_lookup, resolve, Lookup};
use json_mock::response::ApiResponse;
use json_mock::store::{decode_documents, decode_found, exists_from_count, DocumentStore};

fn s(t: &str) -> String {
    t.to_string()
}

fn id_eq(v: BsonValue) -> Filter {
    Filter::FieldEq(s("id"), v)
}

fn payload() -> JsonValue {
    JsonValue::Object(vec![
        (s("id"), JsonValue::Int(99)),
        (s("_id"), JsonValue::Str(s("x"))),
        (s("title"), JsonValue::Str(s("hi"))),
    ])
}

#[test]
fn test_success_response() {
    let resp = ApiResponse::success(JsonValue::Object(vec![(s("name"), JsonValue::Str(s("test")))]));
    assert_eq!(resp.code, 200);
    assert!(resp.data.is_some());
    assert!(resp.msg.is_none());
}

#[test]
fn test_error_response() {
    let resp = ApiResponse::error("Something went wrong");
    assert_eq!(resp.code, 500);
    assert!(resp.data.is_none());
    assert_eq!(resp.msg.unwrap(), "Something went wrong");
}

#[test]
fn success_empty_carries_null() {
    let resp = ApiResponse::success_empty();
    assert_eq!(resp.code, 200);
    assert_eq!(resp.data, Some(JsonValue::Null));
    assert!(resp.msg.is_none());
}

#[test]
fn identifiers_classify_by_whole_token() {
    assert_eq!(resolve_identifier("42"), Identifier::Numeric(42));
    assert_eq!(resolve_identifier("-7"), Identifier::Numeric(-7));
    assert_eq!(resolve_identifier("+5"), Identifier::Numeric(5));
    assert_eq!(resolve_identifier("007"), Identifier::Numeric(7));
    assert_eq!(resolve_identifier("9223372036854775807"), Identifier::Numeric(i64::MAX));
    assert_eq!(resolve_identifier("-9223372036854775808"), Identifier::Numeric(i64::MIN));
    assert_eq!(resolve_identifier("9223372036854775808"), Identifier::Text(s("9223372036854775808")));
    assert_eq!(resolve_identifier("abc"), Identifier::Text(s("abc")));
    assert_eq!(resolve_identifier("12a"), Identifier::Text(s("12a")));
    assert_eq!(resolve_identifier(" 1"), Identifier::Text(s(" 1")));
    assert_eq!(resolve_identifier(""), Identifier::Text(s("")));
    assert_eq!(resolve_identifier("-"), Identifier::Text(s("-")));
}

#[test]
fn upsert_writes_id_first_and_drops_reserved_members() {
    let store = DocumentStore::new("widgets");
    let c = store.upsert(&Identifier::Numeric(1), &payload());
    assert_eq!(
        c,
        Command::Upsert {
            collection: s("widgets"),
            filter: id_eq(BsonValue::Int64(1)),
            document: vec![(s("id"), BsonValue::Int64(1)), (s("title"), BsonValue::Str(s("hi")))],
        }
    );
}

#[test]
fn upsert_twice_builds_the_same_command() {
    let store = DocumentStore::new("widgets");
    let id = Identifier::Text(s("k"));
    assert_eq!(store.upsert(&id, &payload()), store.upsert(&id, &payload()));
    let c = store.upsert(&id, &JsonValue::Int(3));
    assert_eq!(
        c,
        Command::Upsert {
            collection: s("widgets"),
            filter: id_eq(BsonValue::Str(s("k"))),
            document: vec![(s("id"), BsonValue::Str(s("k")))],
        }
    );
}

#[test]
fn delete_all_selects_everything() {
    let store = DocumentStore::new("c");
    assert_eq!(store.delete_all(), Command::DeleteMany { collection: s("c"), filter: Filter::All });
    assert_eq!(store.list(), Command::Find { collection: s("c"), filter: Filter::All });
    assert_eq!(decode_documents(vec![]).unwrap(), vec![]);
}

#[test]
fn delete_by_id_uses_both_identifier_kinds() {
    let store = DocumentStore::new("c");
    assert_eq!(
        store.delete_by_id("42"),
        Command::DeleteMany { collection: s("c"), filter: id_eq(BsonValue::Int64(42)) }
    );
    assert_eq!(
        store.delete_by_id("abc"),
        Command::DeleteMany { collection: s("c"), filter: id_eq(BsonValue::Str(s("abc"))) }
    );
}

#[test]
fn replace_get_and_exists() {
    let store = DocumentStore::new("c");
    let body = JsonValue::Object(vec![(s("a"), JsonValue::Int(1))]);
    assert_eq!(
        store.replace_by_id("x1", &body),
        Command::Replace {
            collection: s("c"),
            filter: id_eq(BsonValue::Str(s("x1"))),
            document: vec![(s("a"), BsonValue::Int64(1))],
        }
    );
    assert_eq!(
        store.get(5),
        Command::FindOne { collection: s("c"), filter: id_eq(BsonValue::Int64(5)) }
    );
    assert_eq!(
        store.exists_by_id(5),
        Command::Count { collection: s("c"), filter: id_eq(BsonValue::Int64(5)) }
    );
    assert!(exists_from_count(1));
    assert!(!exists_from_count(0));
}

#[test]
fn decoding_found_documents() {
    let doc = BsonValue::Document(vec![(s("_id"), BsonValue::Int32(1)), (s("id"), BsonValue::Int64(2))]);
    assert_eq!(
        decode_found(Some(doc)).unwrap(),
        Some(JsonValue::Object(vec![(s("id"), JsonValue::Int(2))]))
    );
    assert_eq!(decode_found(None).unwrap(), None);
    let bad = vec![BsonValue::Document(vec![]), BsonValue::Unsupported(s("MinKey"))];
    assert_eq!(decode_documents(bad), Err(StoreError::InvalidData(s("MinKey"))));
}

#[test]
fn write_gate_refuses_in_production_only() {
    let cmd = DocumentStore::new("c").delete_all();
    match gate_write("production", cmd) {
        Err(StoreError::Permission(m)) => {
            assert_eq!(m, "update not allowed in production environment!")
        }
        other => panic!("expected a refusal, got {:?}", other),
    }
    let cmd = DocumentStore::new("c").delete_all();
    assert_eq!(gate_write("development", cmd), Ok(DocumentStore::new("c").delete_all()));
    assert!(check_permission("production").is_err());
    assert!(check_permission("Production").is_ok());
    assert!(check_permission("").is_ok());
    assert!(is_restricted("production"));
    assert!(!is_restricted("productio"));
}

#[test]
fn resolver_prefers_collection_then_global() {
    assert_eq!(plan_lookup(None), Lookup::Every);
    assert_eq!(plan_lookup(Some("3")), Lookup::One(3));
    assert_eq!(plan_lookup(Some("abc")), Lookup::Skip);
    assert_eq!(lookup_command("widgets", &Lookup::Skip), None);
    assert_eq!(
        lookup_command("widgets", &Lookup::Every),
        Some(Command::Find { collection: s("widgets"), filter: Filter::All })
    );
    assert_eq!(
        lookup_command("widgets", &Lookup::One(3)),
        Some(Command::FindOne { collection: s("widgets"), filter: id_eq(BsonValue::Int64(3)) })
    );
    // empty collection: the global value answers
    assert_eq!(resolve(list_answer(vec![]), Some(JsonValue::Int(7))), JsonValue::Int(7));
    // after a document is stored, the listing answers
    let doc = JsonValue::Object(vec![(s("id"), JsonValue::Int(1))]);
    let docs = vec![JsonValue::Object(vec![(s("id"), JsonValue::Int(1))])];
    assert_eq!(
        resolve(list_answer(docs), Some(JsonValue::Int(7))),
        JsonValue::Array(vec![doc])
    );
    assert_eq!(resolve(None, None), JsonValue::Null);
}

#[test]
fn global_set_get_and_batch() {
    assert_eq!(
        GlobalStore::set("widgets", &JsonValue::Int(7)),
        Command::SetFields {
            collection: s("_global_store"),
            filter: Filter::FieldEq(s("_id"), BsonValue::Str(s("widgets"))),
            fields: vec![(s("value"), BsonValue::Int64(7))],
        }
    );
    assert_eq!(
        GlobalStore::get("k"),
        Command::FindOne {
            collection: s("_global_store"),
            filter: Filter::FieldEq(s("_id"), BsonValue::Str(s("k"))),
        }
    );
    let found = BsonValue::Document(vec![
        (s("_id"), BsonValue::Str(s("k"))),
        (s("value"), BsonValue::Int32(7)),
    ]);
    assert_eq!(GlobalStore::value_of(Some(found)).unwrap(), Some(JsonValue::Int(7)));
    assert_eq!(GlobalStore::value_of(None).unwrap(), None);
    let body = JsonValue::Object(vec![
        (s("a"), JsonValue::Int(1)),
        (s(""), JsonValue::Int(2)),
        (s("b"), JsonValue::Null),
        (s("c"), JsonValue::Bool(true)),
    ]);
    assert_eq!(
        GlobalStore::set_batch(&body),
        vec![GlobalStore::set("a", &JsonValue::Int(1)), GlobalStore::set("c", &JsonValue::Bool(true))]
    );
    assert!(GlobalStore::set_batch(&JsonValue::Int(1)).is_empty());
}

#[test]
fn posts_get_an_id_from_the_clock() {
    let post = with_post_id(JsonValue::Object(vec![(s("t"), JsonValue::Int(1))]), 1700000000123);
    assert_eq!(
        post,
        JsonValue::Object(vec![
            (s("t"), JsonValue::Int(1)),
            (s("id"), JsonValue::Str(s("1700000000123"))),
        ])
    );
    let kept = JsonValue::Object(vec![(s("id"), JsonValue::Int(4))]);
    assert_eq!(with_post_id(JsonValue::Object(vec![(s("id"), JsonValue::Int(4))]), 5), kept);
    assert_eq!(with_post_id(JsonValue::Int(1), -12), JsonValue::Int(1));
    let (stored, cmd) = push_post(JsonValue::Object(vec![]), -12);
    assert_eq!(stored, JsonValue::Object(vec![(s("id"), JsonValue::Str(s("-12")))]));
    assert_eq!(
        cmd,
        Command::Insert { collection: s("posts"), document: vec![(s("id"), BsonValue::Str(s("-12")))] }
    );
}

#[test]
fn posts_update_get_delete() {
    assert_eq!(update_post(&JsonValue::Object(vec![(s("id"), JsonValue::Int(1))])), None);
    let post = JsonValue::Object(vec![(s("id"), JsonValue::Str(s("p1")))]);
    assert_eq!(
        update_post(&post),
        Some(Command::Replace {
            collection: s("posts"),
            filter: id_eq(BsonValue::Str(s("p1"))),
            document: vec![(s("id"), BsonValue::Str(s("p1")))],
        })
    );
    assert_eq!(updated_post(JsonValue::Int(1), 1), Some(JsonValue::Int(1)));
    assert_eq!(updated_post(JsonValue::Int(1), 0), None);
    assert_eq!(
        get_post("p1"),
        Command::FindOne { collection: s("posts"), filter: id_eq(BsonValue::Str(s("p1"))) }
    );
    assert_eq!(
        delete_post("p1"),
        Command::DeleteOne { collection: s("posts"), filter: id_eq(BsonValue::Str(s("p1"))) }
    );
    assert!(removed_any(2));
    assert!(!removed_any(0));
}

#[test]
fn forms_commands_and_answers() {
    assert_eq!(
        upsert_form(3, &JsonValue::Bool(true)),
        Command::SetFields {
            collection: s("forms"),
            filter: id_eq(BsonValue::Int64(3)),
            fields: vec![(s("id"), BsonValue::Int64(3)), (s("form"), BsonValue::Boolean(true))],
        }
    );
    assert_eq!(
        get_forms(Some(3)),
        Command::FindOne { collection: s("forms"), filter: id_eq(BsonValue::Int64(3)) }
    );
    assert_eq!(get_forms(None), Command::Find { collection: s("forms"), filter: Filter::All });
    assert_eq!(
        delete_form(3),
        Command::DeleteOne { collection: s("forms"), filter: id_eq(BsonValue::Int64(3)) }
    );
    let rec = BsonValue::Document(vec![
        (s("id"), BsonValue::Int64(3)),
        (s("form"), BsonValue::Str(s("f"))),
    ]);
    assert_eq!(form_answer(Some(rec)).unwrap(), JsonValue::Str(s("f")));
    assert_eq!(form_answer(None).unwrap(), JsonValue::Null);
    assert_eq!(
        form_answer(Some(BsonValue::Document(vec![(s("id"), BsonValue::Int64(3))]))).unwrap(),
        JsonValue::Null
    );
    let listed = vec![BsonValue::Document(vec![(s("id"), BsonValue::Int64(3))])];
    assert_eq!(
        forms_answer(listed).unwrap(),
        JsonValue::Array(vec![JsonValue::Object(vec![(s("id"), JsonValue::Int(3))])])
    );
}

#[test]
fn repository_keeps_data_under_its_field() {
    let repo = JsonRepository::new("pageconfigs", "config");
    assert_eq!(
        repo.upsert("home", &JsonValue::Int(1)),
        Command::SetFields {
            collection: s("pageconfigs"),
            filter: id_eq(BsonValue::Str(s("home"))),
            fields: vec![(s("id"), BsonValue::Str(s("home"))), (s("config"), BsonValue::Int64(1))],
        }
    );
    assert_eq!(
        repo.get("home"),
        Command::FindOne { collection: s("pageconfigs"), filter: id_eq(BsonValue::Str(s("home"))) }
    );
    assert_eq!(repo.get_all(), Command::Find { collection: s("pageconfigs"), filter: Filter::All });
    let good = BsonValue::Document(vec![(s("config"), BsonValue::Int32(1))]);
    let bad = BsonValue::Document(vec![(s("config"), BsonValue::Unsupported(s("Binary")))]);
    let none = BsonValue::Document(vec![(s("other"), BsonValue::Int32(1))]);
    assert_eq!(repo.get_answer(&Some(good)), Some(JsonValue::Int(1)));
    assert_eq!(repo.get_answer(&None), None);
    let records = vec![
        BsonValue::Document(vec![(s("config"), BsonValue::Int32(1))]),
        bad,
        none,
        BsonValue::Document(vec![(s("config"), BsonValue::Str(s("z")))]),
    ];
    assert_eq!(repo.all_answer(&records), vec![JsonValue::Int(1), JsonValue::Str(s("z"))]);
}

#[test]
fn global_consulted_only_without_collection_answer() {
    assert_eq!(fallback_command("widgets", &Some(JsonValue::Int(1))), None);
    assert_eq!(fallback_command("widgets", &None), Some(GlobalStore::get("widgets")));
}

#[test]
fn delete_for_picks_by_token_presence() {
    let store = DocumentStore::new("c");
    assert_eq!(store.delete_for(None), store.delete_all());
    assert_eq!(store.delete_for(Some("42")), store.delete_by_id("42"));
    assert_eq!(
        store.delete_for(Some("x")),
        Command::DeleteMany { collection: s("c"), filter: id_eq(BsonValue::Str(s("x"))) }
    );
}

#[test]
fn form_ids_are_whole_numbers_only() {
    assert_eq!(form_id(Some("12")), Some(12));
    assert_eq!(form_id(Some("12x")), None);
    assert_eq!(form_id(None), None);
}

#[test]
fn insert_stores_payload_fields() {
    let store = DocumentStore::new("c");
    let body = JsonValue::Object(vec![(s("a"), JsonValue::Bool(true))]);
    assert_eq!(
        store.insert(&body),
        Command::Insert { collection: s("c"), document: vec![(s("a"), BsonValue::Boolean(true))] }
    );
    assert_eq!(store.insert(&JsonValue::Int(1)), Command::Insert { collection: s("c"), document: vec![] });
}
