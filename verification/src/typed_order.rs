//! The order of values of known types under ORDER BY.
use vstd::prelude::*;
use crate::aggregates;
use crate::aggregates::KeyOrder;
use crate::ast::OrderByOptions;

verus! {

/// What ordering reads of two values: which of them are null, whether both are
/// documents and how those compare, the keys by which their types order them, how
/// they compare otherwise, and how a named collation orders the two texts.
#[derive(Debug)]
pub struct OrderedPair {
    pub left_null: bool,
    pub right_null: bool,
    pub documents: Option<KeyOrder>,
    pub left_key: Option<Vec<u8>>,
    pub right_key: Option<Vec<u8>>,
    pub plain: Option<KeyOrder>,
    pub collated: Option<KeyOrder>,
}

/// The order of two keys, byte by byte, looking from a place on.
pub open spec fn bytes_order(a: Seq<u8>, b: Seq<u8>, from: int) -> KeyOrder
    decreases a.len() - from,
{
    if from < 0 || (from >= a.len() && from >= b.len()) {
        KeyOrder::Equal
    } else if from >= a.len() {
        KeyOrder::Less
    } else if from >= b.len() {
        KeyOrder::Greater
    } else if a[from] < b[from] {
        KeyOrder::Less
    } else if a[from] > b[from] {
        KeyOrder::Greater
    } else {
        bytes_order(a, b, from + 1)
    }
}

/// The order of two values that are not null, before it is turned.
pub open spec fn natural_order(p: OrderedPair) -> KeyOrder {
    match p.documents {
        Some(o) => o,
        None => match (p.left_key, p.right_key) {
            (Some(a), Some(b)) => bytes_order(a@, b@, 0),
            _ => match p.plain {
                Some(o) => o,
                None => KeyOrder::Equal,
            },
        },
    }
}

/// The order of two values under the options of an ORDER BY item. Where nulls stand
/// does not turn with the direction.
pub open spec fn typed_order(p: OrderedPair, options: OrderByOptions) -> KeyOrder {
    if p.left_null && p.right_null {
        KeyOrder::Equal
    } else if p.left_null {
        if aggregates::nulls_come_first(options) {
            KeyOrder::Less
        } else {
            KeyOrder::Greater
        }
    } else if p.right_null {
        if aggregates::nulls_come_first(options) {
            KeyOrder::Greater
        } else {
            KeyOrder::Less
        }
    } else if aggregates::is_ascending(options) {
        natural_order(p)
    } else {
        aggregates::reversed(natural_order(p))
    }
}

/// The order of two values, by the collation where it orders them.
pub open spec fn collated_order(p: OrderedPair, options: OrderByOptions) -> KeyOrder {
    match p.collated {
        Some(o) => if aggregates::is_ascending(options) {
            o
        } else {
            aggregates::reversed(o)
        },
        None => typed_order(p, options),
    }
}

fn turned(o: KeyOrder) -> (r: KeyOrder)
    ensures
        r == aggregates::reversed(o),
{
    match o {
        KeyOrder::Less => KeyOrder::Greater,
        KeyOrder::Equal => KeyOrder::Equal,
        KeyOrder::Greater => KeyOrder::Less,
    }
}

fn ascending(options: OrderByOptions) -> (r: bool)
    ensures
        r == aggregates::is_ascending(options),
{
    match options.asc {
        Some(asc) => asc,
        None => true,
    }
}

fn compare_bytes(a: &Vec<u8>, b: &Vec<u8>) -> (r: KeyOrder)
    ensures
        r == bytes_order(a@, b@, 0),
{
    let mut i: usize = 0;
    while i < a.len() && i < b.len() && a[i] == b[i]
        invariant
            i <= a.len(),
            i <= b.len(),
            bytes_order(a@, b@, 0) == bytes_order(a@, b@, i as int),
        decreases a.len() - i,
    {
        i = i + 1;
    }
    if i >= a.len() {
        if i >= b.len() {
            KeyOrder::Equal
        } else {
            KeyOrder::Less
        }
    } else if i >= b.len() {
        KeyOrder::Greater
    } else if a[i] < b[i] {
        KeyOrder::Less
    } else {
        KeyOrder::Greater
    }
}

/// The order of two values under the options of an ORDER BY item.
pub fn typed_order_value_ordering(p: &OrderedPair, options: OrderByOptions) -> (r: KeyOrder)
    ensures
        r == typed_order(*p, options),
{
    let up = ascending(options);
    let nulls_first: bool = match options.nulls_first {
        Some(first) => first,
        None => !up,
    };
    if p.left_null && p.right_null {
        KeyOrder::Equal
    } else if p.left_null {
        if nulls_first {
            KeyOrder::Less
        } else {
            KeyOrder::Greater
        }
    } else if p.right_null {
        if nulls_first {
            KeyOrder::Greater
        } else {
            KeyOrder::Less
        }
    } else {
        let natural = match p.documents {
            Some(o) => o,
            None => match (&p.left_key, &p.right_key) {
                (Some(a), Some(b)) => compare_bytes(a, b),
                _ => match p.plain {
                    Some(o) => o,
                    None => KeyOrder::Equal,
                },
            },
        };
        if up {
            natural
        } else {
            turned(natural)
        }
    }
}

/// The order of two values, by the collation where it orders them.
pub fn typed_order_collation_value_ordering(p: &OrderedPair, options: OrderByOptions) -> (r: KeyOrder)
    ensures
        r == collated_order(*p, options),
{
    match p.collated {
        Some(o) => {
            if ascending(options) {
                o
            } else {
                turned(o)
            }
        },
        None => typed_order_value_ordering(p, options),
    }
}

proof fn lemma_bytes(a: Seq<u8>, b: Seq<u8>, from: int)
    requires
        0 <= from,
    ensures
        bytes_order(b, a, from) == aggregates::reversed(bytes_order(a, b, from)),
        bytes_order(a, b, from) == KeyOrder::Equal && from <= a.len() && from <= b.len() ==> a.skip(
            from,
        ) == b.skip(from),
    decreases a.len() - from,
{
    if from < a.len() && from < b.len() && a[from] == b[from] {
        lemma_bytes(a, b, from + 1);
        if bytes_order(a, b, from) == KeyOrder::Equal {
            assert(a.skip(from) =~= seq![a[from]] + a.skip(from + 1));
            assert(b.skip(from) =~= seq![b[from]] + b.skip(from + 1));
        }
    } else if from == a.len() && from == b.len() {
        assert(a.skip(from) =~= b.skip(from));
    }
}

/// Keys are ordered one way or the other, and only equal ones not at all.
pub proof fn law_bytes_order(a: Seq<u8>, b: Seq<u8>)
    ensures
        bytes_order(b, a, 0) == aggregates::reversed(bytes_order(a, b, 0)),
        bytes_order(a, b, 0) == KeyOrder::Equal <==> a == b,
{
    lemma_bytes(a, b, 0);
    assert(a.skip(0) =~= a);
    assert(b.skip(0) =~= b);
    lemma_same_bytes(a, 0);
}

proof fn lemma_same_bytes(a: Seq<u8>, from: int)
    requires
        0 <= from,
    ensures
        bytes_order(a, a, from) == KeyOrder::Equal,
    decreases a.len() - from,
{
    if from < a.len() {
        lemma_same_bytes(a, from + 1);
    }
}

/// Turning the direction turns the order of values that are not null, and leaves
/// nulls where the options put them.
pub proof fn law_direction(p: OrderedPair, up: OrderByOptions, down: OrderByOptions)
    requires
        aggregates::is_ascending(up),
        !aggregates::is_ascending(down),
    ensures
        !p.left_null && !p.right_null ==> typed_order(p, down) == aggregates::reversed(
            typed_order(p, up),
        ),
        (p.left_null || p.right_null) && up.nulls_first is Some && up.nulls_first
            == down.nulls_first ==> typed_order(p, down) == typed_order(p, up),
{
}

} // verus!
