//! The values that rows and variables have.
use vstd::prelude::*;
use crate::settings::Settings;
use crate::text;

verus! {

/// A value: null, a text, an array whose elements are documents as they are written,
/// a row whose fields are, another document, or something else, as it is written.
#[derive(Debug)]
pub enum SqlValue {
    Null,
    Text(String),
    Array(Vec<String>),
    Row(Settings),
    Document(String),
    Other(String),
}

pub enum ValueView {
    Null,
    Text(Seq<char>),
    Array(Seq<Seq<char>>),
    Row(Map<Seq<char>, Seq<char>>),
    Document(Seq<char>),
    Other(Seq<char>),
}

impl View for SqlValue {
    type V = ValueView;

    open spec fn view(&self) -> ValueView {
        match *self {
            SqlValue::Null => ValueView::Null,
            SqlValue::Text(s) => ValueView::Text(s@),
            SqlValue::Array(items) => ValueView::Array(text::views(items@)),
            SqlValue::Row(fields) => ValueView::Row(fields@),
            SqlValue::Document(s) => ValueView::Document(s@),
            SqlValue::Other(s) => ValueView::Other(s@),
        }
    }
}

impl SqlValue {
    pub fn copied(&self) -> (r: SqlValue)
        ensures
            r@ == self@,
    {
        match self {
            SqlValue::Null => SqlValue::Null,
            SqlValue::Text(s) => SqlValue::Text(s.clone()),
            SqlValue::Array(items) => SqlValue::Array(text::copy_names(items)),
            SqlValue::Row(fields) => SqlValue::Row(fields.copied()),
            SqlValue::Document(s) => SqlValue::Document(s.clone()),
            SqlValue::Other(s) => SqlValue::Other(s.clone()),
        }
    }
}

pub open spec fn value_views(v: Seq<SqlValue>) -> Seq<ValueView> {
    v.map_values(|x: SqlValue| x@)
}

/// The values that a map by name has.
pub open spec fn map_views(m: Map<Seq<char>, SqlValue>) -> Map<Seq<char>, ValueView> {
    Map::new(|name: Seq<char>| m.dom().contains(name), |name: Seq<char>| m[name]@)
}

/// Whether a value is a document.
pub open spec fn is_document(v: ValueView) -> bool {
    v is Array || v is Row || v is Document
}

impl SqlValue {
    /// Whether a value is a document.
    pub fn document(&self) -> (r: bool)
        ensures
            r == is_document(self@),
    {
        match self {
            SqlValue::Array(_) => true,
            SqlValue::Row(_) => true,
            SqlValue::Document(_) => true,
            _ => false,
        }
    }
}

/// The same values.
pub fn copy_values(list: &Vec<SqlValue>) -> (r: Vec<SqlValue>)
    ensures
        value_views(r@) == value_views(list@),
{
    let mut out: Vec<SqlValue> = Vec::new();
    let mut i: usize = 0;
    while i < list.len()
        invariant
            i <= list.len(),
            out@.len() == i,
            forall|k: int| 0 <= k < i ==> (#[trigger] out@[k])@ == list@[k]@,
        decreases list.len() - i,
    {
        out.push(list[i].copied());
        i = i + 1;
    }
    assert(value_views(out@) =~= value_views(list@));
    out
}

} // verus!
