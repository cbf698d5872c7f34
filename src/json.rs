//! JSON values as a tagged variant, and their mathematical model.

use vstd::prelude::*;

verus! {

broadcast use {
    vstd::std_specs::vec::axiom_vec_decreases_to_view,
    vstd::seq::axiom_seq_subrange_decreases,
};

/// A JSON value. Non-integral numbers are carried as the IEEE-754 bit
/// pattern of a 64-bit float; object members keep their order.
#[derive(Debug, PartialEq)]
pub enum JsonValue {
    Null,
    Bool(bool),
    Int(i64),
    Float(u64),
    Str(String),
    Array(Vec<JsonValue>),
    Object(Vec<(String, JsonValue)>),
}

/// The model of a JSON value: strings as character sequences, integers as `int`.
pub enum JsonModel {
    Null,
    Bool(bool),
    Int(int),
    Float(u64),
    Str(Seq<char>),
    Array(Seq<JsonModel>),
    Object(Seq<(Seq<char>, JsonModel)>),
}

impl View for JsonValue {
    type V = JsonModel;

    open spec fn view(&self) -> JsonModel
        decreases self,
    {
        match self {
            JsonValue::Null => JsonModel::Null,
            JsonValue::Bool(b) => JsonModel::Bool(*b),
            JsonValue::Int(i) => JsonModel::Int(*i as int),
            JsonValue::Float(bits) => JsonModel::Float(*bits),
            JsonValue::Str(s) => JsonModel::Str(s@),
            JsonValue::Array(items) => JsonModel::Array(json_views(items@)),
            JsonValue::Object(members) => JsonModel::Object(member_views(members@)),
        }
    }
}

/// The models of a sequence of JSON values.
pub open spec fn json_views(s: Seq<JsonValue>) -> Seq<JsonModel>
    decreases s,
{
    if s.len() == 0 {
        Seq::empty()
    } else {
        json_views(s.subrange(0, s.len() - 1)).push(s[s.len() - 1].view())
    }
}

/// The models of a sequence of object members.
pub open spec fn member_views(s: Seq<(String, JsonValue)>) -> Seq<(Seq<char>, JsonModel)>
    decreases s,
{
    if s.len() == 0 {
        Seq::empty()
    } else {
        member_views(s.subrange(0, s.len() - 1)).push((s[s.len() - 1].0@, s[s.len() - 1].1.view()))
    }
}

/// One model per value.
pub proof fn lemma_json_views_len(s: Seq<JsonValue>)
    ensures
        json_views(s).len() == s.len(),
    decreases s.len(),
{
    if s.len() > 0 {
        lemma_json_views_len(s.subrange(0, s.len() - 1));
        assert(json_views(s) == json_views(s.subrange(0, s.len() - 1)).push(s[s.len() - 1]@));
    } else {
        assert(json_views(s) == Seq::<JsonModel>::empty());
    }
}

/// The value of the first member with the given name.
pub open spec fn member_of(members: Seq<(Seq<char>, JsonModel)>, key: Seq<char>) -> Option<JsonModel>
    decreases members.len(),
{
    if members.len() == 0 {
        None
    } else if members[0].0 == key {
        Some(members[0].1)
    } else {
        member_of(members.subrange(1, members.len() as int), key)
    }
}

/// The position of the first member with the given name.
pub fn find_member(members: &Vec<(String, JsonValue)>, key: &str) -> (r: Option<usize>)
    ensures
        match member_of(member_views(members@), key@) {
            Some(m) => r matches Some(i) && i < members.len() && members[i as int].1@ == m,
            None => r is None,
        },
{
    let mut i: usize = 0;
    proof {
        lemma_member_views_index(members@);
        assert(member_views(members@).subrange(0, members.len() as int) =~= member_views(members@));
    }
    while i < members.len()
        invariant
            i <= members.len(),
            member_views(members@).len() == members.len(),
            member_of(member_views(members@), key@) == member_of(
                member_views(members@).subrange(i as int, members.len() as int),
                key@,
            ),
        decreases members.len() - i,
    {
        let ghost rest = member_views(members@).subrange(i as int, members.len() as int);
        proof {
            lemma_member_views_index(members@);
            assert(rest[0] == (members@[i as int].0@, members@[i as int].1@));
            assert(rest.subrange(1, rest.len() as int) =~= member_views(members@).subrange(
                i + 1,
                members.len() as int,
            ));
        }
        if crate::text::same_text(members[i].0.as_str(), key) {
            return Some(i);
        }
        i += 1;
    }
    proof {
        assert(member_views(members@).subrange(i as int, members.len() as int) =~= Seq::<
            (Seq<char>, JsonModel),
        >::empty());
    }
    None
}

/// The member models, position by position.
pub proof fn lemma_member_views_index(s: Seq<(String, JsonValue)>)
    ensures
        member_views(s).len() == s.len(),
        forall|i: int|
            0 <= i < s.len() ==> #[trigger] member_views(s)[i] == (s[i].0@, s[i].1@),
    decreases s.len(),
{
    if s.len() > 0 {
        let p = s.subrange(0, s.len() - 1);
        lemma_member_views_index(p);
        let last = (s[s.len() - 1].0@, s[s.len() - 1].1@);
        assert(member_views(s) == member_views(p).push(last));
        assert forall|i: int| 0 <= i < s.len() implies #[trigger] member_views(s)[i] == (
            s[i].0@,
            s[i].1@,
        ) by {
            if i < s.len() - 1 {
                assert(s[i] == p[i]);
            }
        }
    } else {
        assert(member_views(s) == Seq::<(Seq<char>, JsonModel)>::empty());
    }
}

} // verus!
