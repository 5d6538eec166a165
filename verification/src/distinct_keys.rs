//! Keys by which DISTINCT tells values apart.
use vstd::prelude::*;
use crate::error;
use crate::text;

verus! {

/// What tells a value from others: a number as its bits where it is a floating-point
/// one, a search query by its index key, a document by its canonical text, a shape by
/// its text.
#[derive(Debug)]
pub enum DistinctValue {
    Null,
    Bool(bool),
    Int(i64),
    Float(u64),
    Text(String),
    TsQuery(Vec<u8>),
    Json(String),
    Geometry(String),
    Composite(Vec<DistinctValue>),
}

/// A key by which DISTINCT tells values apart.
#[derive(Debug)]
pub enum SqlValueDistinctKey {
    Null,
    Bool(bool),
    Int(i64),
    Float(u64),
    Text(String),
    TsQuery(Vec<u8>),
    Json(String),
    Geometry(String),
    Composite(Vec<SqlValueDistinctKey>),
}

/// What a key says.
pub enum KeyView {
    Null,
    Bool(bool),
    Int(i64),
    Float(u64),
    Text(Seq<char>),
    TsQuery(Seq<u8>),
    Json(Seq<char>),
    Geometry(Seq<char>),
    Composite(Seq<KeyView>),
}

pub open spec fn key_view(k: SqlValueDistinctKey) -> KeyView
    decreases k,
{
    match k {
        SqlValueDistinctKey::Null => KeyView::Null,
        SqlValueDistinctKey::Bool(b) => KeyView::Bool(b),
        SqlValueDistinctKey::Int(n) => KeyView::Int(n),
        SqlValueDistinctKey::Float(bits) => KeyView::Float(bits),
        SqlValueDistinctKey::Text(s) => KeyView::Text(s@),
        SqlValueDistinctKey::TsQuery(bytes) => KeyView::TsQuery(bytes@),
        SqlValueDistinctKey::Json(s) => KeyView::Json(s@),
        SqlValueDistinctKey::Geometry(s) => KeyView::Geometry(s@),
        SqlValueDistinctKey::Composite(fields) => KeyView::Composite(key_views(fields@)),
    }
}

pub open spec fn key_views(fields: Seq<SqlValueDistinctKey>) -> Seq<KeyView>
    decreases fields,
{
    if fields.len() == 0 {
        Seq::empty()
    } else {
        key_views(fields.drop_last()).push(key_view(fields.last()))
    }
}

pub const SIGN_BIT: u64 = 0x8000_0000_0000_0000;

pub const INFINITY_BITS: u64 = 0x7ff0_0000_0000_0000;

pub const NAN_BITS: u64 = 0x7ff8_0000_0000_0000;

/// The bits of a floating-point number without its sign.
pub open spec fn magnitude(bits: u64) -> u64 {
    if bits >= SIGN_BIT {
        (bits - SIGN_BIT) as u64
    } else {
        bits
    }
}

/// Whether bits are those of no number.
pub open spec fn is_nan(bits: u64) -> bool {
    magnitude(bits) > INFINITY_BITS
}

/// The bits by which a floating-point number counts: all that are no number count as
/// one, and the two zeros do.
pub open spec fn float_key(bits: u64) -> u64 {
    if is_nan(bits) {
        NAN_BITS
    } else if magnitude(bits) == 0 {
        0
    } else {
        bits
    }
}

/// The key of a value.
pub open spec fn distinct_key(v: DistinctValue) -> KeyView
    decreases v,
{
    match v {
        DistinctValue::Null => KeyView::Null,
        DistinctValue::Bool(b) => KeyView::Bool(b),
        DistinctValue::Int(n) => KeyView::Int(n),
        DistinctValue::Float(bits) => KeyView::Float(float_key(bits)),
        DistinctValue::Text(s) => KeyView::Text(s@),
        DistinctValue::TsQuery(bytes) => KeyView::TsQuery(bytes@),
        DistinctValue::Json(s) => KeyView::Json(s@),
        DistinctValue::Geometry(s) => KeyView::Geometry(s@),
        DistinctValue::Composite(fields) => KeyView::Composite(distinct_keys(fields@)),
    }
}

pub open spec fn distinct_keys(fields: Seq<DistinctValue>) -> Seq<KeyView>
    decreases fields,
{
    if fields.len() == 0 {
        Seq::empty()
    } else {
        distinct_keys(fields.drop_last()).push(distinct_key(fields.last()))
    }
}

fn float_bits(bits: u64) -> (r: u64)
    ensures
        r == float_key(bits),
{
    let size: u64 = if bits >= SIGN_BIT {
        bits - SIGN_BIT
    } else {
        bits
    };
    if size > INFINITY_BITS {
        NAN_BITS
    } else if size == 0 {
        0
    } else {
        bits
    }
}

fn copy_bytes(bytes: &Vec<u8>) -> (r: Vec<u8>)
    ensures
        r@ == bytes@,
{
    let mut out: Vec<u8> = Vec::new();
    let mut i: usize = 0;
    while i < bytes.len()
        invariant
            i <= bytes.len(),
            out@ == bytes@.take(i as int),
        decreases bytes.len() - i,
    {
        out.push(bytes[i]);
        assert(out@ =~= bytes@.take(i + 1));
        i = i + 1;
    }
    assert(bytes@.take(bytes@.len() as int) =~= bytes@);
    out
}

/// The key of a value.
pub fn sql_value_distinct_key(value: &DistinctValue) -> (r: SqlValueDistinctKey)
    ensures
        key_view(r) == distinct_key(*value),
    decreases *value,
{
    match value {
        DistinctValue::Null => SqlValueDistinctKey::Null,
        DistinctValue::Bool(b) => SqlValueDistinctKey::Bool(*b),
        DistinctValue::Int(n) => SqlValueDistinctKey::Int(*n),
        DistinctValue::Float(bits) => SqlValueDistinctKey::Float(float_bits(*bits)),
        DistinctValue::Text(s) => SqlValueDistinctKey::Text(s.clone()),
        DistinctValue::TsQuery(bytes) => SqlValueDistinctKey::TsQuery(copy_bytes(bytes)),
        DistinctValue::Json(s) => SqlValueDistinctKey::Json(s.clone()),
        DistinctValue::Geometry(s) => SqlValueDistinctKey::Geometry(s.clone()),
        DistinctValue::Composite(fields) => SqlValueDistinctKey::Composite(field_keys(fields)),
    }
}

fn field_keys(fields: &Vec<DistinctValue>) -> (r: Vec<SqlValueDistinctKey>)
    ensures
        key_views(r@) == distinct_keys(fields@),
    decreases fields@,
{
    let mut out: Vec<SqlValueDistinctKey> = Vec::new();
    let mut i: usize = 0;
    while i < fields.len()
        invariant
            i <= fields.len(),
            key_views(out@) == distinct_keys(fields@.take(i as int)),
        decreases fields.len() - i,
    {
        let ghost prior = out@;
        assert(fields@.take(i + 1).drop_last() =~= fields@.take(i as int));
        assert(fields@.take(i + 1).last() == fields@[i as int]);
        let key = sql_value_distinct_key(&fields[i]);
        out.push(key);
        assert(out@.drop_last() =~= prior);
        i = i + 1;
    }
    assert(fields@.take(fields@.len() as int) =~= fields@);
    out
}

/// The text that a value is, where it is a text or a whole number.
pub open spec fn value_text(v: DistinctValue) -> Option<Seq<char>> {
    match v {
        DistinctValue::Text(s) => Some(s@),
        DistinctValue::Int(n) => Some(text::signed_decimal(n as int)),
        _ => None,
    }
}

/// The text that a value is, where it is a text or a whole number.
pub fn sql_value_text(value: &DistinctValue) -> (r: Option<String>)
    ensures
        error::view_option(r) == value_text(*value),
{
    match value {
        DistinctValue::Text(s) => Some(s.clone()),
        DistinctValue::Int(n) => Some(text::signed_text(*n)),
        _ => None,
    }
}

/// All bits that are no number have one key, which no number has, and the two zeros
/// have one; other numbers keep their own.
pub proof fn law_float_key(a: u64, b: u64)
    ensures
        is_nan(a) && is_nan(b) ==> float_key(a) == float_key(b),
        is_nan(a) && !is_nan(b) ==> float_key(a) != float_key(b),
        float_key(0) == float_key(SIGN_BIT),
        !is_nan(a) && magnitude(a) != 0 ==> float_key(a) == a,
        float_key(float_key(a)) == float_key(a),
{
}

} // verus!
