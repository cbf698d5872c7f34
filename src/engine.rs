//! What the core asks of the document engine, and a model of what the engine
//! does with it.
//!
//! The core never talks to the engine itself: it builds a `Command`, the
//! caller runs it against the engine and hands back the outcome. The model
//! below states the engine's documented semantics over document models; the
//! store's laws are proved against it.

use crate::bson::{field_views, BsonModel, BsonValue};
use crate::text::same_text;
use crate::seqs::{lemma_prefix_full, lemma_push_prefix};
use vstd::prelude::*;

verus! {

/// The model of a stored document: its fields in order.
pub type DocModel = Seq<(Seq<char>, BsonModel)>;

/// A document filter.
#[derive(Debug, PartialEq)]
pub enum Filter {
    /// Every document.
    All,
    /// Documents whose named field equals the value.
    FieldEq(String, BsonValue),
}

/// The model of a filter.
pub enum FilterModel {
    All,
    FieldEq(Seq<char>, BsonModel),
}

impl View for Filter {
    type V = FilterModel;

    open spec fn view(&self) -> FilterModel {
        match self {
            Filter::All => FilterModel::All,
            Filter::FieldEq(k, v) => FilterModel::FieldEq(k@, v@),
        }
    }
}

/// The model of a stored document held as fields.
pub open spec fn doc_view(fields: Vec<(String, BsonValue)>) -> DocModel {
    field_views(fields@)
}

/// One request to the engine, against one named collection.
#[derive(Debug, PartialEq)]
pub enum Command {
    /// Every matching document.
    Find { collection: String, filter: Filter },
    /// The first matching document, if any.
    FindOne { collection: String, filter: Filter },
    /// The number of matching documents.
    Count { collection: String, filter: Filter },
    /// Replaces the first matching document, or inserts the document if none
    /// matches.
    Upsert { collection: String, filter: Filter, document: Vec<(String, BsonValue)> },
    /// Sets the given fields on the first matching document, or inserts a new
    /// document made of the filter's field and the given fields if none matches.
    SetFields { collection: String, filter: Filter, fields: Vec<(String, BsonValue)> },
    /// Replaces the first matching document; reports whether one changed.
    Replace { collection: String, filter: Filter, document: Vec<(String, BsonValue)> },
    /// Inserts a document.
    Insert { collection: String, document: Vec<(String, BsonValue)> },
    /// Removes the first matching document; reports the count removed.
    DeleteOne { collection: String, filter: Filter },
    /// Removes every matching document; reports the count removed.
    DeleteMany { collection: String, filter: Filter },
}

/// The integer that a stored number holds, if it is an integer.
pub open spec fn as_integer(v: BsonModel) -> Option<int> {
    match v {
        BsonModel::Int32(i) => Some(i),
        BsonModel::Int64(i) => Some(i),
        _ => None,
    }
}

/// Equality as the engine compares values: integers by value across widths.
pub open spec fn same_value(a: BsonModel, b: BsonModel) -> bool {
    match (as_integer(a), as_integer(b)) {
        (Some(x), Some(y)) => x == y,
        _ => a == b,
    }
}

/// The value of the first field with the given name.
pub open spec fn field_of(doc: DocModel, key: Seq<char>) -> Option<BsonModel>
    decreases doc.len(),
{
    if doc.len() == 0 {
        None
    } else if doc[0].0 == key {
        Some(doc[0].1)
    } else {
        field_of(doc.subrange(1, doc.len() as int), key)
    }
}

/// Whether a document satisfies a filter.
pub open spec fn satisfies(doc: DocModel, f: FilterModel) -> bool {
    match f {
        FilterModel::All => true,
        FilterModel::FieldEq(k, v) => match field_of(doc, k) {
            Some(x) => same_value(x, v),
            None => false,
        },
    }
}

/// The position of the first document that satisfies a filter.
pub open spec fn first_match(docs: Seq<DocModel>, f: FilterModel) -> Option<int>
    decreases docs.len(),
{
    if docs.len() == 0 {
        None
    } else if satisfies(docs[0], f) {
        Some(0)
    } else {
        match first_match(docs.subrange(1, docs.len() as int), f) {
            Some(i) => Some(i + 1),
            None => None,
        }
    }
}

/// The documents that a filter selects, in order.
pub open spec fn select(docs: Seq<DocModel>, f: FilterModel) -> Seq<DocModel>
    decreases docs.len(),
{
    if docs.len() == 0 {
        Seq::empty()
    } else {
        let rest = select(docs.subrange(1, docs.len() as int), f);
        if satisfies(docs[0], f) {
            seq![docs[0]] + rest
        } else {
            rest
        }
    }
}

/// The documents that a filter does not select, in order.
pub open spec fn remove_matching(docs: Seq<DocModel>, f: FilterModel) -> Seq<DocModel>
    decreases docs.len(),
{
    if docs.len() == 0 {
        Seq::empty()
    } else {
        let rest = remove_matching(docs.subrange(1, docs.len() as int), f);
        if satisfies(docs[0], f) {
            rest
        } else {
            seq![docs[0]] + rest
        }
    }
}

/// A collection after an upsert: the first match is replaced, or the
/// document is appended.
pub open spec fn apply_upsert(docs: Seq<DocModel>, f: FilterModel, doc: DocModel) -> Seq<DocModel> {
    match first_match(docs, f) {
        Some(i) => docs.update(i, doc),
        None => docs.push(doc),
    }
}

/// `first_match` finds the earliest matching position.
pub proof fn lemma_first_match(docs: Seq<DocModel>, f: FilterModel)
    ensures
        match first_match(docs, f) {
            Some(i) => 0 <= i < docs.len() && satisfies(docs[i], f) && forall|j: int|
                0 <= j < i ==> !satisfies(#[trigger] docs[j], f),
            None => forall|j: int| 0 <= j < docs.len() ==> !satisfies(#[trigger] docs[j], f),
        },
    decreases docs.len(),
{
    if docs.len() > 0 {
        let rest = docs.subrange(1, docs.len() as int);
        lemma_first_match(rest, f);
        if !satisfies(docs[0], f) {
            assert forall|j: int| 1 <= j < docs.len() implies docs[j] == rest[j - 1] by {}
            match first_match(rest, f) {
                Some(i) => {
                    assert forall|j: int| 0 <= j < i + 1 implies !satisfies(#[trigger] docs[j], f) by {
                        if j > 0 {
                            assert(docs[j] == rest[j - 1]);
                        }
                    }
                },
                None => {
                    assert forall|j: int| 0 <= j < docs.len() implies !satisfies(#[trigger] docs[j], f) by {
                        if j > 0 {
                            assert(docs[j] == rest[j - 1]);
                        }
                    }
                },
            }
        }
    }
}

/// A position with a match and none before it is what `first_match` returns.
pub proof fn lemma_first_match_at(docs: Seq<DocModel>, f: FilterModel, i: int)
    requires
        0 <= i < docs.len(),
        satisfies(docs[i], f),
        forall|j: int| 0 <= j < i ==> !satisfies(#[trigger] docs[j], f),
    ensures
        first_match(docs, f) == Some(i),
{
    lemma_first_match(docs, f);
    match first_match(docs, f) {
        Some(k) => {
            if k < i {
                assert(!satisfies(docs[k], f));
            } else if k > i {
                assert(!satisfies(docs[i], f));
            }
        },
        None => {
            assert(!satisfies(docs[i], f));
        },
    }
}

/// Nothing that a filter selects survives its removal.
pub proof fn lemma_remove_matching(docs: Seq<DocModel>, f: FilterModel)
    ensures
        forall|j: int|
            0 <= j < remove_matching(docs, f).len() ==> !satisfies(
                #[trigger] remove_matching(docs, f)[j],
                f,
            ),
        remove_matching(docs, f).len() + select(docs, f).len() == docs.len(),
    decreases docs.len(),
{
    if docs.len() > 0 {
        let rest = docs.subrange(1, docs.len() as int);
        lemma_remove_matching(rest, f);
        let r = remove_matching(rest, f);
        if !satisfies(docs[0], f) {
            assert forall|j: int| 0 <= j < (seq![docs[0]] + r).len() implies !satisfies(
                #[trigger] (seq![docs[0]] + r)[j],
                f,
            ) by {
                if j > 0 {
                    assert((seq![docs[0]] + r)[j] == r[j - 1]);
                }
            }
        }
    }
}

/// An upsert whose document satisfies its own filter changes nothing when it
/// is repeated.
pub proof fn lemma_upsert_idempotent(docs: Seq<DocModel>, f: FilterModel, doc: DocModel)
    requires
        satisfies(doc, f),
    ensures
        apply_upsert(apply_upsert(docs, f, doc), f, doc) == apply_upsert(docs, f, doc),
        first_match(apply_upsert(docs, f, doc), f) is Some,
{
    lemma_first_match(docs, f);
    let once = apply_upsert(docs, f, doc);
    match first_match(docs, f) {
        Some(i) => {
            assert forall|j: int| 0 <= j < i implies !satisfies(#[trigger] once[j], f) by {
                assert(once[j] == docs[j]);
            }
            lemma_first_match_at(once, f, i);
            assert(once.update(i, doc) =~= once);
        },
        None => {
            lemma_push_prefix(docs, doc);
            assert forall|j: int| 0 <= j < docs.len() implies !satisfies(#[trigger] once[j], f) by {
                assert(once[j] == docs[j]);
            }
            lemma_first_match_at(once, f, docs.len() as int);
            assert(once.update(docs.len() as int, doc) =~= once);
        },
    }
}

/// The position of the first field with the given name.
pub fn find_field(fields: &Vec<(String, BsonValue)>, key: &str) -> (r: Option<usize>)
    ensures
        match field_of(doc_view(*fields), key@) {
            Some(b) => r matches Some(i) && i < fields.len() && fields[i as int].1@ == b,
            None => r is None,
        },
{
    let mut i: usize = 0;
    proof {
        lemma_field_views_index(fields@);
        lemma_prefix_full(field_views(fields@));
    }
    while i < fields.len()
        invariant
            i <= fields.len(),
            field_views(fields@).len() == fields.len(),
            field_of(doc_view(*fields), key@) == field_of(
                field_views(fields@).subrange(i as int, fields.len() as int),
                key@,
            ),
        decreases fields.len() - i,
    {
        let ghost rest = field_views(fields@).subrange(i as int, fields.len() as int);
        proof {
            lemma_field_views_index(fields@);
            assert(rest[0] == (fields@[i as int].0@, fields@[i as int].1@));
            assert(rest.subrange(1, rest.len() as int) =~= field_views(fields@).subrange(
                i + 1,
                fields.len() as int,
            ));
        }
        if same_text(fields[i].0.as_str(), key) {
            return Some(i);
        }
        i += 1;
    }
    proof {
        assert(field_views(fields@).subrange(i as int, fields.len() as int) =~= Seq::<
            (Seq<char>, BsonModel),
        >::empty());
    }
    None
}

/// The field models, position by position.
pub proof fn lemma_field_views_index(s: Seq<(String, BsonValue)>)
    ensures
        field_views(s).len() == s.len(),
        forall|i: int|
            0 <= i < s.len() ==> #[trigger] field_views(s)[i] == (s[i].0@, s[i].1@),
    decreases s.len(),
{
    if s.len() > 0 {
        let p = s.subrange(0, s.len() - 1);
        lemma_field_views_index(p);
        lemma_push_prefix(field_views(p), (s[s.len() - 1].0@, s[s.len() - 1].1@));
        assert forall|i: int| 0 <= i < s.len() implies #[trigger] field_views(s)[i] == (
            s[i].0@,
            s[i].1@,
        ) by {
            if i < s.len() - 1 {
                assert(s[i] == p[i]);
            }
        }
    }
}

} // verus!
