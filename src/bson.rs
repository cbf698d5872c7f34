//! Values as the document engine stores them, and their mathematical model.

use vstd::prelude::*;

verus! {

broadcast use {
    vstd::std_specs::vec::axiom_vec_decreases_to_view,
    vstd::seq::axiom_seq_subrange_decreases,
};

/// A stored value. Doubles are carried as their IEEE-754 bit pattern; a
/// document is an ordered list of fields. `Unsupported` stands for any engine
/// type without a JSON mapping and holds a description of that type.
#[derive(Debug, PartialEq)]
pub enum BsonValue {
    Null,
    Boolean(bool),
    Int32(i32),
    Int64(i64),
    Double(u64),
    Str(String),
    Array(Vec<BsonValue>),
    Document(Vec<(String, BsonValue)>),
    ObjectId([u8; 12]),
    DateTime(i64),
    Unsupported(String),
}

/// The model of a stored value.
pub enum BsonModel {
    Null,
    Boolean(bool),
    Int32(int),
    Int64(int),
    Double(u64),
    Str(Seq<char>),
    Array(Seq<BsonModel>),
    Document(Seq<(Seq<char>, BsonModel)>),
    ObjectId(Seq<u8>),
    DateTime(int),
    Unsupported(Seq<char>),
}

impl View for BsonValue {
    type V = BsonModel;

    open spec fn view(&self) -> BsonModel
        decreases self,
    {
        match self {
            BsonValue::Null => BsonModel::Null,
            BsonValue::Boolean(b) => BsonModel::Boolean(*b),
            BsonValue::Int32(i) => BsonModel::Int32(*i as int),
            BsonValue::Int64(i) => BsonModel::Int64(*i as int),
            BsonValue::Double(bits) => BsonModel::Double(*bits),
            BsonValue::Str(s) => BsonModel::Str(s@),
            BsonValue::Array(items) => BsonModel::Array(bson_views(items@)),
            BsonValue::Document(fields) => BsonModel::Document(field_views(fields@)),
            BsonValue::ObjectId(bytes) => BsonModel::ObjectId(bytes@),
            BsonValue::DateTime(millis) => BsonModel::DateTime(*millis as int),
            BsonValue::Unsupported(d) => BsonModel::Unsupported(d@),
        }
    }
}

/// The models of a sequence of stored values.
pub open spec fn bson_views(s: Seq<BsonValue>) -> Seq<BsonModel>
    decreases s,
{
    if s.len() == 0 {
        Seq::empty()
    } else {
        bson_views(s.subrange(0, s.len() - 1)).push(s[s.len() - 1].view())
    }
}

/// The models of a sequence of document fields.
pub open spec fn field_views(s: Seq<(String, BsonValue)>) -> Seq<(Seq<char>, BsonModel)>
    decreases s,
{
    if s.len() == 0 {
        Seq::empty()
    } else {
        field_views(s.subrange(0, s.len() - 1)).push((s[s.len() - 1].0@, s[s.len() - 1].1.view()))
    }
}

} // verus!
