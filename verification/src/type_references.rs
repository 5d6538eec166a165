//! What user-defined types are made of, and replacing one type by another in
//! them.
use vstd::prelude::*;
use crate::error;
use crate::guc;
use crate::text;
use crate::user_types::{
    CompositeAttribute,
    EnumLabel,
    RangeValue,
    TypeModifier,
    UserType,
    UserTypeColumn,
    UserTypeKind,
};

verus! {

pub enum ModifierView {
    Character { length: i64 },
    Numeric { precision: i64, scale: i64 },
    Other(Seq<char>),
}

pub struct AttributeView {
    pub name: Seq<char>,
    pub pg_type: Seq<char>,
    pub user_type: Option<ColumnView>,
    pub collation: Option<Seq<char>>,
    pub modifier: Option<ModifierView>,
    pub array_ndims: i64,
    pub dropped: bool,
}

pub struct ColumnView {
    pub oid: i64,
    pub array_oid: i64,
    pub array: bool,
    pub display: Seq<char>,
    pub array_display: Seq<char>,
    pub kind: KindView,
}

pub struct RangeView {
    pub subtype: Seq<char>,
    pub subtype_oid: i64,
    pub canonical_discrete: bool,
    pub subtype_user_type: Option<Box<ColumnView>>,
}

pub struct LabelView {
    pub name: Seq<char>,
    pub oid: i64,
}

pub enum KindView {
    Shell,
    Base {
        input: Seq<char>,
        output: Seq<char>,
        receive: Option<Seq<char>>,
        send: Option<Seq<char>>,
        codec_oid: i64,
        delimiter: char,
    },
    Enumeration { labels: Seq<LabelView> },
    Composite { relation_oid: i64, attributes: Seq<AttributeView> },
    Domain { base_type: Seq<char>, base_oid: i64, base_user_type: Option<Box<ColumnView>> },
    Range { value: RangeView, multirange_oid: i64 },
    Multirange { value: RangeView, range_oid: i64 },
}

pub open spec fn modifier_view(m: Option<TypeModifier>) -> Option<ModifierView> {
    match m {
        Some(TypeModifier::Character { length }) => Some(ModifierView::Character { length }),
        Some(TypeModifier::Numeric { precision, scale }) => Some(
            ModifierView::Numeric { precision, scale },
        ),
        Some(TypeModifier::Other(s)) => Some(ModifierView::Other(s@)),
        None => None,
    }
}

pub open spec fn label_views(labels: Seq<EnumLabel>) -> Seq<LabelView> {
    labels.map_values(|l: EnumLabel| LabelView { name: l.name@, oid: l.oid })
}

pub open spec fn column_view(c: UserTypeColumn) -> ColumnView
    decreases c,
{
    ColumnView {
        oid: c.oid,
        array_oid: c.array_oid,
        array: c.array,
        display: c.display@,
        array_display: c.array_display@,
        kind: kind_view(c.kind),
    }
}

pub open spec fn range_view(v: RangeValue) -> RangeView
    decreases v,
{
    RangeView {
        subtype: v.subtype@,
        subtype_oid: v.subtype_oid,
        canonical_discrete: v.canonical_discrete,
        subtype_user_type: match v.subtype_user_type {
            Some(c) => Some(Box::new(column_view(*c))),
            None => None,
        },
    }
}

pub open spec fn attribute_view(a: CompositeAttribute) -> AttributeView
    decreases a,
{
    AttributeView {
        name: a.name@,
        pg_type: a.pg_type@,
        user_type: match a.user_type {
            Some(c) => Some(column_view(c)),
            None => None,
        },
        collation: error::view_option(a.collation),
        modifier: modifier_view(a.type_modifier),
        array_ndims: a.array_ndims,
        dropped: a.dropped,
    }
}

pub open spec fn attribute_views(list: Seq<CompositeAttribute>) -> Seq<AttributeView>
    decreases list,
{
    if list.len() == 0 {
        Seq::empty()
    } else {
        attribute_views(list.drop_last()).push(attribute_view(list.last()))
    }
}

pub open spec fn kind_view(k: UserTypeKind) -> KindView
    decreases k,
{
    match k {
        UserTypeKind::Shell => KindView::Shell,
        UserTypeKind::Base { input, output, receive, send, codec_oid, delimiter } => KindView::Base {
            input: input@,
            output: output@,
            receive: error::view_option(receive),
            send: error::view_option(send),
            codec_oid,
            delimiter,
        },
        UserTypeKind::Enumeration { labels } => KindView::Enumeration {
            labels: label_views(labels@),
        },
        UserTypeKind::Composite { relation_oid, attributes } => KindView::Composite {
            relation_oid,
            attributes: attribute_views(attributes@),
        },
        UserTypeKind::Domain { base_type, base_oid, base_user_type } => KindView::Domain {
            base_type: base_type@,
            base_oid,
            base_user_type: match base_user_type {
                Some(c) => Some(Box::new(column_view(*c))),
                None => None,
            },
        },
        UserTypeKind::Range { value, multirange_oid } => KindView::Range {
            value: range_view(value),
            multirange_oid,
        },
        UserTypeKind::Multirange { value, range_oid } => KindView::Multirange {
            value: range_view(value),
            range_oid,
        },
    }
}

/// A type as a column has it.
pub open spec fn as_column(t: UserType, array: bool) -> ColumnView {
    ColumnView {
        oid: t.oid,
        array_oid: t.array_oid,
        array,
        display: t.display@,
        array_display: t.array_display@,
        kind: kind_view(t.kind),
    }
}

/// The name of a column's type as it is displayed.
pub open spec fn formatted(c: ColumnView) -> Seq<char> {
    if c.array {
        c.array_display
    } else {
        c.display
    }
}

pub fn copy_modifier(m: &Option<TypeModifier>) -> (r: Option<TypeModifier>)
    ensures
        modifier_view(r) == modifier_view(*m),
{
    match m {
        Some(TypeModifier::Character { length }) => Some(
            TypeModifier::Character { length: *length },
        ),
        Some(TypeModifier::Numeric { precision, scale }) => Some(
            TypeModifier::Numeric { precision: *precision, scale: *scale },
        ),
        Some(TypeModifier::Other(s)) => Some(TypeModifier::Other(s.clone())),
        None => None,
    }
}

fn copy_labels(labels: &Vec<EnumLabel>) -> (r: Vec<EnumLabel>)
    ensures
        label_views(r@) == label_views(labels@),
{
    let mut out: Vec<EnumLabel> = Vec::new();
    let mut i: usize = 0;
    while i < labels.len()
        invariant
            i <= labels.len(),
            out@.len() == i,
            forall|k: int|
                0 <= k < i ==> (#[trigger] out@[k]).name@ == labels@[k].name@ && out@[k].oid
                    == labels@[k].oid,
        decreases labels.len() - i,
    {
        out.push(EnumLabel { name: labels[i].name.clone(), oid: labels[i].oid });
        i = i + 1;
    }
    assert(label_views(out@) =~= label_views(labels@));
    out
}

pub fn copy_column(c: &UserTypeColumn) -> (r: UserTypeColumn)
    ensures
        column_view(r) == column_view(*c),
    decreases *c,
{
    UserTypeColumn {
        oid: c.oid,
        array_oid: c.array_oid,
        array: c.array,
        display: c.display.clone(),
        array_display: c.array_display.clone(),
        kind: copy_kind(&c.kind),
    }
}

fn copy_boxed(c: &Option<Box<UserTypeColumn>>) -> (r: Option<Box<UserTypeColumn>>)
    ensures
        match (r, *c) {
            (Some(a), Some(b)) => column_view(*a) == column_view(*b),
            (None, None) => true,
            _ => false,
        },
    decreases *c,
{
    match c {
        Some(c) => Some(Box::new(copy_column(c))),
        None => None,
    }
}

fn copy_range(v: &RangeValue) -> (r: RangeValue)
    ensures
        range_view(r) == range_view(*v),
    decreases *v,
{
    RangeValue {
        subtype: v.subtype.clone(),
        subtype_oid: v.subtype_oid,
        canonical_discrete: v.canonical_discrete,
        subtype_user_type: copy_boxed(&v.subtype_user_type),
    }
}

fn copy_attribute(a: &CompositeAttribute) -> (r: CompositeAttribute)
    ensures
        attribute_view(r) == attribute_view(*a),
    decreases *a,
{
    CompositeAttribute {
        name: a.name.clone(),
        pg_type: a.pg_type.clone(),
        user_type: match &a.user_type {
            Some(c) => Some(copy_column(c)),
            None => None,
        },
        collation: guc::copied_option(&a.collation),
        type_modifier: copy_modifier(&a.type_modifier),
        array_ndims: a.array_ndims,
        dropped: a.dropped,
    }
}

fn copy_attributes(list: &Vec<CompositeAttribute>) -> (r: Vec<CompositeAttribute>)
    ensures
        attribute_views(r@) == attribute_views(list@),
    decreases list@,
{
    let mut out: Vec<CompositeAttribute> = Vec::new();
    let mut i: usize = 0;
    assert(list@.take(0) =~= Seq::empty());
    while i < list.len()
        invariant
            i <= list.len(),
            attribute_views(out@) == attribute_views(list@.take(i as int)),
        decreases list.len() - i,
    {
        assert(list@.take(i + 1).drop_last() =~= list@.take(i as int));
        assert(list@.take(i + 1).last() == list@[i as int]);
        let ghost prior = out@;
        out.push(copy_attribute(&list[i]));
        assert(out@.drop_last() =~= prior);
        i = i + 1;
    }
    assert(list@.take(list@.len() as int) =~= list@);
    out
}

pub fn copy_kind(k: &UserTypeKind) -> (r: UserTypeKind)
    ensures
        kind_view(r) == kind_view(*k),
    decreases *k,
{
    match k {
        UserTypeKind::Shell => UserTypeKind::Shell,
        UserTypeKind::Base { input, output, receive, send, codec_oid, delimiter } =>
            UserTypeKind::Base {
                input: input.clone(),
                output: output.clone(),
                receive: guc::copied_option(receive),
                send: guc::copied_option(send),
                codec_oid: *codec_oid,
                delimiter: *delimiter,
            },
        UserTypeKind::Enumeration { labels } => UserTypeKind::Enumeration {
            labels: copy_labels(labels),
        },
        UserTypeKind::Composite { relation_oid, attributes } => UserTypeKind::Composite {
            relation_oid: *relation_oid,
            attributes: copy_attributes(attributes),
        },
        UserTypeKind::Domain { base_type, base_oid, base_user_type } => UserTypeKind::Domain {
            base_type: base_type.clone(),
            base_oid: *base_oid,
            base_user_type: copy_boxed(base_user_type),
        },
        UserTypeKind::Range { value, multirange_oid } => UserTypeKind::Range {
            value: copy_range(value),
            multirange_oid: *multirange_oid,
        },
        UserTypeKind::Multirange { value, range_oid } => UserTypeKind::Multirange {
            value: copy_range(value),
            range_oid: *range_oid,
        },
    }
}

proof fn lemma_attribute_views(list: Seq<CompositeAttribute>, k: int)
    ensures
        attribute_views(list).len() == list.len(),
        0 <= k < list.len() ==> attribute_views(list)[k] == attribute_view(list[k]),
    decreases list.len(),
{
    if list.len() > 0 {
        lemma_attribute_views(list.drop_last(), k);
        lemma_attribute_views(list.drop_last(), 0);
    }
}

fn same_option(a: &Option<String>, b: &Option<String>) -> (r: bool)
    ensures
        r == (error::view_option(*a) == error::view_option(*b)),
{
    match (a, b) {
        (Some(a), Some(b)) => text::text_eq(a.as_str(), b.as_str()),
        (None, None) => true,
        _ => false,
    }
}

pub fn same_modifier(a: &Option<TypeModifier>, b: &Option<TypeModifier>) -> (r: bool)
    ensures
        r == (modifier_view(*a) == modifier_view(*b)),
{
    match (a, b) {
        (
            Some(TypeModifier::Character { length: x }),
            Some(TypeModifier::Character { length: y }),
        ) => *x == *y,
        (
            Some(TypeModifier::Numeric { precision: p, scale: s }),
            Some(TypeModifier::Numeric { precision: q, scale: t }),
        ) => *p == *q && *s == *t,
        (Some(TypeModifier::Other(x)), Some(TypeModifier::Other(y))) => text::text_eq(
            x.as_str(),
            y.as_str(),
        ),
        (None, None) => true,
        _ => false,
    }
}

fn same_labels(a: &Vec<EnumLabel>, b: &Vec<EnumLabel>) -> (r: bool)
    ensures
        r == (label_views(a@) == label_views(b@)),
{
    let ghost x = label_views(a@);
    let ghost y = label_views(b@);
    assert(x.len() == a@.len());
    assert(y.len() == b@.len());
    if a.len() != b.len() {
        return false;
    }
    let mut i: usize = 0;
    while i < a.len()
        invariant
            i <= a.len(),
            a@.len() == b@.len(),
            x == label_views(a@),
            y == label_views(b@),
            forall|k: int| 0 <= k < i ==> #[trigger] x[k] == y[k],
        decreases a.len() - i,
    {
        assert(x[i as int] == (LabelView { name: a@[i as int].name@, oid: a@[i as int].oid }));
        assert(y[i as int] == (LabelView { name: b@[i as int].name@, oid: b@[i as int].oid }));
        if a[i].oid != b[i].oid || !text::text_eq(a[i].name.as_str(), b[i].name.as_str()) {
            return false;
        }
        i = i + 1;
    }
    assert(x =~= y);
    true
}

/// Whether two columns have the same type.
pub fn same_column(a: &UserTypeColumn, b: &UserTypeColumn) -> (r: bool)
    ensures
        r == (column_view(*a) == column_view(*b)),
    decreases *a,
{
    a.oid == b.oid && a.array_oid == b.array_oid && a.array == b.array && text::text_eq(
        a.display.as_str(),
        b.display.as_str(),
    ) && text::text_eq(a.array_display.as_str(), b.array_display.as_str()) && same_kind(
        &a.kind,
        &b.kind,
    )
}

fn same_boxed(a: &Option<Box<UserTypeColumn>>, b: &Option<Box<UserTypeColumn>>) -> (r: bool)
    ensures
        r == (match (*a, *b) {
            (Some(x), Some(y)) => column_view(*x) == column_view(*y),
            (None, None) => true,
            _ => false,
        }),
    decreases *a,
{
    match (a, b) {
        (Some(x), Some(y)) => same_column(x, y),
        (None, None) => true,
        _ => false,
    }
}

fn same_range(a: &RangeValue, b: &RangeValue) -> (r: bool)
    ensures
        r == (range_view(*a) == range_view(*b)),
    decreases *a,
{
    text::text_eq(a.subtype.as_str(), b.subtype.as_str()) && a.subtype_oid == b.subtype_oid
        && a.canonical_discrete == b.canonical_discrete && same_boxed(
        &a.subtype_user_type,
        &b.subtype_user_type,
    )
}

fn same_attribute(a: &CompositeAttribute, b: &CompositeAttribute) -> (r: bool)
    ensures
        r == (attribute_view(*a) == attribute_view(*b)),
    decreases *a,
{
    let same_type = match (&a.user_type, &b.user_type) {
        (Some(x), Some(y)) => same_column(x, y),
        (None, None) => true,
        _ => false,
    };
    same_type && text::text_eq(a.name.as_str(), b.name.as_str()) && text::text_eq(
        a.pg_type.as_str(),
        b.pg_type.as_str(),
    ) && same_option(&a.collation, &b.collation) && same_modifier(
        &a.type_modifier,
        &b.type_modifier,
    ) && a.array_ndims == b.array_ndims && a.dropped == b.dropped
}

fn same_attributes(a: &Vec<CompositeAttribute>, b: &Vec<CompositeAttribute>) -> (r: bool)
    ensures
        r == (attribute_views(a@) == attribute_views(b@)),
    decreases a@,
{
    let ghost x = attribute_views(a@);
    let ghost y = attribute_views(b@);
    proof {
        lemma_attribute_views(a@, 0);
        lemma_attribute_views(b@, 0);
    }
    if a.len() != b.len() {
        return false;
    }
    let mut i: usize = 0;
    while i < a.len()
        invariant
            i <= a.len(),
            a@.len() == b@.len(),
            x == attribute_views(a@),
            y == attribute_views(b@),
            forall|k: int| 0 <= k < i ==> #[trigger] x[k] == y[k],
        decreases a.len() - i,
    {
        proof {
            lemma_attribute_views(a@, i as int);
            lemma_attribute_views(b@, i as int);
        }
        if !same_attribute(&a[i], &b[i]) {
            return false;
        }
        i = i + 1;
    }
    assert(x =~= y);
    true
}

pub fn same_kind(a: &UserTypeKind, b: &UserTypeKind) -> (r: bool)
    ensures
        r == (kind_view(*a) == kind_view(*b)),
    decreases *a,
{
    match (a, b) {
        (UserTypeKind::Shell, UserTypeKind::Shell) => true,
        (
            UserTypeKind::Base { input, output, receive, send, codec_oid, delimiter },
            UserTypeKind::Base {
                input: input2,
                output: output2,
                receive: receive2,
                send: send2,
                codec_oid: codec_oid2,
                delimiter: delimiter2,
            },
        ) => text::text_eq(input.as_str(), input2.as_str()) && text::text_eq(
            output.as_str(),
            output2.as_str(),
        ) && same_option(receive, receive2) && same_option(send, send2) && *codec_oid
            == *codec_oid2 && *delimiter == *delimiter2,
        (
            UserTypeKind::Enumeration { labels },
            UserTypeKind::Enumeration { labels: labels2 },
        ) => same_labels(labels, labels2),
        (
            UserTypeKind::Composite { relation_oid, attributes },
            UserTypeKind::Composite { relation_oid: relation_oid2, attributes: attributes2 },
        ) => *relation_oid == *relation_oid2 && same_attributes(attributes, attributes2),
        (
            UserTypeKind::Domain { base_type, base_oid, base_user_type },
            UserTypeKind::Domain {
                base_type: base_type2,
                base_oid: base_oid2,
                base_user_type: base_user_type2,
            },
        ) => text::text_eq(base_type.as_str(), base_type2.as_str()) && *base_oid == *base_oid2
            && same_boxed(base_user_type, base_user_type2),
        (
            UserTypeKind::Range { value, multirange_oid },
            UserTypeKind::Range { value: value2, multirange_oid: multirange_oid2 },
        ) => *multirange_oid == *multirange_oid2 && same_range(value, value2),
        (
            UserTypeKind::Multirange { value, range_oid },
            UserTypeKind::Multirange { value: value2, range_oid: range_oid2 },
        ) => *range_oid == *range_oid2 && same_range(value, value2),
        _ => false,
    }
}

/// The first type with an identifier, searched from there on.
pub open spec fn replacement(types: Seq<UserType>, oid: i64, from: int) -> Option<UserType>
    decreases types.len() - from,
{
    if from < 0 || from >= types.len() {
        None
    } else if types[from].oid == oid {
        Some(types[from])
    } else {
        replacement(types, oid, from + 1)
    }
}

/// A column's type with types replaced in it: the type itself, or else what it is
/// made of.
pub open spec fn column_replaced(c: ColumnView, types: Seq<UserType>) -> ColumnView
    decreases c,
{
    match replacement(types, c.oid, 0) {
        Some(t) => as_column(t, c.array),
        None => ColumnView { kind: kind_replaced(c.kind, types), ..c },
    }
}

pub open spec fn range_replaced(v: RangeView, types: Seq<UserType>) -> RangeView
    decreases v,
{
    RangeView {
        subtype_user_type: match v.subtype_user_type {
            Some(c) => Some(Box::new(column_replaced(*c, types))),
            None => None,
        },
        ..v
    }
}

/// An attribute with types replaced in its type. One that has been dropped stays
/// as it is.
pub open spec fn attribute_replaced(a: AttributeView, types: Seq<UserType>) -> AttributeView
    decreases a,
{
    match a.user_type {
        Some(c) => {
            let next = column_replaced(c, types);
            if a.dropped || next == c {
                a
            } else {
                AttributeView { user_type: Some(next), pg_type: formatted(next), ..a }
            }
        },
        None => a,
    }
}

pub open spec fn attributes_replaced(list: Seq<AttributeView>, types: Seq<UserType>) -> Seq<
    AttributeView,
>
    decreases list,
{
    if list.len() == 0 {
        Seq::empty()
    } else {
        attributes_replaced(list.drop_last(), types).push(attribute_replaced(list.last(), types))
    }
}

/// What a type is made of, with types replaced in it.
pub open spec fn kind_replaced(k: KindView, types: Seq<UserType>) -> KindView
    decreases k,
{
    match k {
        KindView::Shell => k,
        KindView::Base { .. } => k,
        KindView::Enumeration { .. } => k,
        KindView::Composite { relation_oid, attributes } => KindView::Composite {
            relation_oid,
            attributes: attributes_replaced(attributes, types),
        },
        KindView::Domain { base_type, base_oid, base_user_type } => KindView::Domain {
            base_type,
            base_oid,
            base_user_type: match base_user_type {
                Some(c) => Some(Box::new(column_replaced(*c, types))),
                None => None,
            },
        },
        KindView::Range { value, multirange_oid } => KindView::Range {
            value: range_replaced(value, types),
            multirange_oid,
        },
        KindView::Multirange { value, range_oid } => KindView::Multirange {
            value: range_replaced(value, types),
            range_oid,
        },
    }
}

fn find_replacement(types: &Vec<UserType>, oid: i64) -> (r: Option<&UserType>)
    ensures
        match (r, replacement(types@, oid, 0)) {
            (Some(t), Some(view)) => *t == view,
            (None, None) => true,
            _ => false,
        },
{
    let mut i: usize = 0;
    while i < types.len()
        invariant
            i <= types.len(),
            replacement(types@, oid, 0) == replacement(types@, oid, i as int),
        decreases types.len() - i,
    {
        if types[i].oid == oid {
            return Some(&types[i]);
        }
        i = i + 1;
    }
    None
}

/// A type as a column has it.
pub fn column_type(t: &UserType, array: bool) -> (r: UserTypeColumn)
    ensures
        column_view(r) == as_column(*t, array),
{
    UserTypeColumn {
        oid: t.oid,
        array_oid: t.array_oid,
        array,
        display: t.display.clone(),
        array_display: t.array_display.clone(),
        kind: copy_kind(&t.kind),
    }
}

/// A column's type with types replaced in it, and whether that changes it.
pub fn replace_user_type_column_reference(c: &UserTypeColumn, types: &Vec<UserType>) -> (r: (
    UserTypeColumn,
    bool,
))
    ensures
        column_view(r.0) == column_replaced(column_view(*c), types@),
        r.1 == (column_view(r.0) != column_view(*c)),
    decreases *c,
{
    match find_replacement(types, c.oid) {
        Some(t) => {
            let next = column_type(t, c.array);
            let changed = !same_column(c, &next);
            (next, changed)
        },
        None => {
            let (kind, changed) = replace_user_type_kind_references(&c.kind, types);
            (
                UserTypeColumn {
                    oid: c.oid,
                    array_oid: c.array_oid,
                    array: c.array,
                    display: c.display.clone(),
                    array_display: c.array_display.clone(),
                    kind,
                },
                changed,
            )
        },
    }
}

fn replace_boxed(c: &Option<Box<UserTypeColumn>>, types: &Vec<UserType>) -> (r: (
    Option<Box<UserTypeColumn>>,
    bool,
))
    ensures
        match (r.0, *c) {
            (Some(a), Some(b)) => {
                &&& column_view(*a) == column_replaced(column_view(*b), types@)
                &&& r.1 == (column_view(*a) != column_view(*b))
            },
            (None, None) => !r.1,
            _ => false,
        },
    decreases *c,
{
    match c {
        Some(c) => {
            let (next, changed) = replace_user_type_column_reference(c, types);
            (Some(Box::new(next)), changed)
        },
        None => (None, false),
    }
}

fn replace_range(v: &RangeValue, types: &Vec<UserType>) -> (r: (RangeValue, bool))
    ensures
        range_view(r.0) == range_replaced(range_view(*v), types@),
        r.1 == (range_view(r.0) != range_view(*v)),
    decreases *v,
{
    let (subtype_user_type, changed) = replace_boxed(&v.subtype_user_type, types);
    (
        RangeValue {
            subtype: v.subtype.clone(),
            subtype_oid: v.subtype_oid,
            canonical_discrete: v.canonical_discrete,
            subtype_user_type,
        },
        changed,
    )
}

fn replace_attribute(a: &CompositeAttribute, types: &Vec<UserType>) -> (r: (
    CompositeAttribute,
    bool,
))
    ensures
        attribute_view(r.0) == attribute_replaced(attribute_view(*a), types@),
        r.1 == (attribute_view(r.0) != attribute_view(*a)),
    decreases *a,
{
    if a.dropped {
        return (copy_attribute(a), false);
    }
    match &a.user_type {
        None => (copy_attribute(a), false),
        Some(c) => {
            let (next, changed) = replace_user_type_column_reference(c, types);
            if !changed {
                return (copy_attribute(a), false);
            }
            let pg_type = if next.array {
                next.array_display.clone()
            } else {
                next.display.clone()
            };
            (
                CompositeAttribute {
                    name: a.name.clone(),
                    pg_type,
                    user_type: Some(next),
                    collation: guc::copied_option(&a.collation),
                    type_modifier: copy_modifier(&a.type_modifier),
                    array_ndims: a.array_ndims,
                    dropped: a.dropped,
                },
                true,
            )
        },
    }
}

fn replace_attributes(list: &Vec<CompositeAttribute>, types: &Vec<UserType>) -> (r: (
    Vec<CompositeAttribute>,
    bool,
))
    ensures
        attribute_views((r.0)@) == attributes_replaced(attribute_views(list@), types@),
        r.1 == (attribute_views((r.0)@) != attribute_views(list@)),
    decreases list@,
{
    let mut out: Vec<CompositeAttribute> = Vec::new();
    let mut changed = false;
    let mut i: usize = 0;
    assert(list@.take(0) =~= Seq::empty());
    while i < list.len()
        invariant
            i <= list.len(),
            attribute_views(out@) == attributes_replaced(
                attribute_views(list@.take(i as int)),
                types@,
            ),
            changed == (attribute_views(out@) != attribute_views(list@.take(i as int))),
            attribute_views(out@).len() == attribute_views(list@.take(i as int)).len(),
        decreases list.len() - i,
    {
        let ghost taken = list@.take(i as int);
        let ghost more = list@.take(i + 1);
        assert(more.drop_last() =~= taken);
        assert(more.last() == list@[i as int]);
        let ghost prior = out@;
        let (next, other) = replace_attribute(&list[i], types);
        if other {
            changed = true;
        }
        let ghost view = attribute_view(next);
        out.push(next);
        proof {
            assert(out@.drop_last() =~= prior);
            let a = attribute_views(prior);
            let b = attribute_views(taken);
            let x = view;
            let y = attribute_view(list@[i as int]);
            assert(attribute_views(more).drop_last() =~= b);
            assert(attribute_views(more).last() == y);
            assert(attribute_views(out@).drop_last() =~= a);
            assert(attribute_views(out@).last() == x);
        }
        i = i + 1;
    }
    assert(list@.take(list@.len() as int) =~= list@);
    (out, changed)
}

/// What a type is made of, with types replaced in it, and whether that changes
/// it.
pub fn replace_user_type_kind_references(k: &UserTypeKind, types: &Vec<UserType>) -> (r: (
    UserTypeKind,
    bool,
))
    ensures
        kind_view(r.0) == kind_replaced(kind_view(*k), types@),
        r.1 == (kind_view(r.0) != kind_view(*k)),
    decreases *k,
{
    match k {
        UserTypeKind::Composite { relation_oid, attributes } => {
            let (next, changed) = replace_attributes(attributes, types);
            (
                UserTypeKind::Composite { relation_oid: *relation_oid, attributes: next },
                changed,
            )
        },
        UserTypeKind::Domain { base_type, base_oid, base_user_type } => {
            let (next, changed) = replace_boxed(base_user_type, types);
            (
                UserTypeKind::Domain {
                    base_type: base_type.clone(),
                    base_oid: *base_oid,
                    base_user_type: next,
                },
                changed,
            )
        },
        UserTypeKind::Range { value, multirange_oid } => {
            let (next, changed) = replace_range(value, types);
            (UserTypeKind::Range { value: next, multirange_oid: *multirange_oid }, changed)
        },
        UserTypeKind::Multirange { value, range_oid } => {
            let (next, changed) = replace_range(value, types);
            (UserTypeKind::Multirange { value: next, range_oid: *range_oid }, changed)
        },
        _ => (copy_kind(k), false),
    }
}

/// Whether a column's type is one with an identifier or made of one.
pub open spec fn column_depends(c: ColumnView, oid: i64) -> bool
    decreases c,
{
    c.oid == oid || kind_depends(c.kind, oid)
}

pub open spec fn range_depends(v: RangeView, oid: i64) -> bool
    decreases v,
{
    match v.subtype_user_type {
        Some(c) => column_depends(*c, oid),
        None => false,
    }
}

pub open spec fn attributes_depend(list: Seq<AttributeView>, oid: i64) -> bool
    decreases list,
{
    if list.len() == 0 {
        false
    } else {
        attributes_depend(list.drop_last(), oid) || (!list.last().dropped && (match list.last().user_type {
            Some(c) => column_depends(c, oid),
            None => false,
        }))
    }
}

/// Whether what a type is made of has a type with an identifier in it.
pub open spec fn kind_depends(k: KindView, oid: i64) -> bool
    decreases k,
{
    match k {
        KindView::Composite { attributes, .. } => attributes_depend(attributes, oid),
        KindView::Domain { base_user_type, .. } => match base_user_type {
            Some(c) => column_depends(*c, oid),
            None => false,
        },
        KindView::Range { value, .. } => range_depends(value, oid),
        KindView::Multirange { value, range_oid } => range_oid == oid || range_depends(value, oid),
        _ => false,
    }
}

pub fn user_type_column_depends_on_oid(c: &UserTypeColumn, oid: i64) -> (r: bool)
    ensures
        r == column_depends(column_view(*c), oid),
    decreases *c,
{
    c.oid == oid || user_type_kind_depends_on_oid(&c.kind, oid)
}

fn range_depends_on_oid(v: &RangeValue, oid: i64) -> (r: bool)
    ensures
        r == range_depends(range_view(*v), oid),
    decreases *v,
{
    match &v.subtype_user_type {
        Some(c) => user_type_column_depends_on_oid(c, oid),
        None => false,
    }
}

fn attributes_depend_on_oid(list: &Vec<CompositeAttribute>, oid: i64) -> (r: bool)
    ensures
        r == attributes_depend(attribute_views(list@), oid),
    decreases list@,
{
    let mut found = false;
    let mut i: usize = 0;
    assert(list@.take(0) =~= Seq::empty());
    while i < list.len()
        invariant
            i <= list.len(),
            found == attributes_depend(attribute_views(list@.take(i as int)), oid),
        decreases list.len() - i,
    {
        let ghost taken = list@.take(i as int);
        let ghost more = list@.take(i + 1);
        assert(more.drop_last() =~= taken);
        assert(more.last() == list@[i as int]);
        assert(attribute_views(more).drop_last() =~= attribute_views(taken));
        assert(attribute_views(more).last() == attribute_view(list@[i as int]));
        if !list[i].dropped {
            match &list[i].user_type {
                Some(c) => {
                    if user_type_column_depends_on_oid(c, oid) {
                        found = true;
                    }
                },
                None => {},
            }
        }
        i = i + 1;
    }
    assert(list@.take(list@.len() as int) =~= list@);
    found
}

pub fn user_type_kind_depends_on_oid(k: &UserTypeKind, oid: i64) -> (r: bool)
    ensures
        r == kind_depends(kind_view(*k), oid),
    decreases *k,
{
    match k {
        UserTypeKind::Composite { relation_oid: _, attributes } => attributes_depend_on_oid(
            attributes,
            oid,
        ),
        UserTypeKind::Domain { base_type: _, base_oid: _, base_user_type } => match base_user_type {
            Some(c) => user_type_column_depends_on_oid(c, oid),
            None => false,
        },
        UserTypeKind::Range { value, multirange_oid: _ } => range_depends_on_oid(value, oid),
        UserTypeKind::Multirange { value, range_oid } => *range_oid == oid || range_depends_on_oid(
            value,
            oid,
        ),
        _ => false,
    }
}

proof fn lemma_no_replacement(types: Seq<UserType>, oid: i64, from: int)
    requires
        0 <= from,
        forall|k: int| 0 <= k < types.len() ==> (#[trigger] types[k]).oid != oid,
    ensures
        replacement(types, oid, from) is None,
    decreases types.len() - from,
{
    if from < types.len() {
        lemma_no_replacement(types, oid, from + 1);
    }
}

/// Replacing types changes nothing in a column's type that depends on none of
/// them.
pub proof fn law_independent_column(c: ColumnView, types: Seq<UserType>)
    requires
        forall|k: int| 0 <= k < types.len() ==> !column_depends(c, (#[trigger] types[k]).oid),
    ensures
        column_replaced(c, types) == c,
    decreases c,
{
    assert forall|k: int| 0 <= k < types.len() implies (#[trigger] types[k]).oid != c.oid by {
        assert(!column_depends(c, types[k].oid));
    }
    lemma_no_replacement(types, c.oid, 0);
    assert forall|k: int| 0 <= k < types.len() implies !kind_depends(
        c.kind,
        (#[trigger] types[k]).oid,
    ) by {
        assert(!column_depends(c, types[k].oid));
    }
    law_independent_kind(c.kind, types);
}

/// Replacing types changes nothing in what a type is made of that depends on none
/// of them.
pub proof fn law_independent_kind(k: KindView, types: Seq<UserType>)
    requires
        forall|i: int| 0 <= i < types.len() ==> !kind_depends(k, (#[trigger] types[i]).oid),
    ensures
        kind_replaced(k, types) == k,
    decreases k,
{
    match k {
        KindView::Composite { attributes, .. } => {
            assert forall|i: int| 0 <= i < types.len() implies !attributes_depend(
                attributes,
                (#[trigger] types[i]).oid,
            ) by {
                assert(!kind_depends(k, types[i].oid));
            }
            lemma_independent_attributes(attributes, types);
        },
        KindView::Domain { base_user_type, .. } => {
            if base_user_type is Some {
                assert forall|i: int| 0 <= i < types.len() implies !column_depends(
                    *base_user_type->0,
                    (#[trigger] types[i]).oid,
                ) by {
                    assert(!kind_depends(k, types[i].oid));
                }
                law_independent_column(*base_user_type->0, types);
            }
        },
        KindView::Range { value, .. } => {
            assert forall|i: int| 0 <= i < types.len() implies !range_depends(
                value,
                (#[trigger] types[i]).oid,
            ) by {
                assert(!kind_depends(k, types[i].oid));
            }
            lemma_independent_range(value, types);
        },
        KindView::Multirange { value, .. } => {
            assert forall|i: int| 0 <= i < types.len() implies !range_depends(
                value,
                (#[trigger] types[i]).oid,
            ) by {
                assert(!kind_depends(k, types[i].oid));
            }
            lemma_independent_range(value, types);
        },
        _ => {},
    }
}

proof fn lemma_independent_range(v: RangeView, types: Seq<UserType>)
    requires
        forall|i: int| 0 <= i < types.len() ==> !range_depends(v, (#[trigger] types[i]).oid),
    ensures
        range_replaced(v, types) == v,
    decreases v,
{
    if v.subtype_user_type is Some {
        assert forall|i: int| 0 <= i < types.len() implies !column_depends(
            *v.subtype_user_type->0,
            (#[trigger] types[i]).oid,
        ) by {
            assert(!range_depends(v, types[i].oid));
        }
        law_independent_column(*v.subtype_user_type->0, types);
    }
}

proof fn lemma_independent_attributes(list: Seq<AttributeView>, types: Seq<UserType>)
    requires
        forall|i: int| 0 <= i < types.len() ==> !attributes_depend(list, (#[trigger] types[i]).oid),
    ensures
        attributes_replaced(list, types) == list,
    decreases list,
{
    if list.len() > 0 {
        let last = list.last();
        assert forall|i: int| 0 <= i < types.len() implies !attributes_depend(
            list.drop_last(),
            (#[trigger] types[i]).oid,
        ) by {
            assert(!attributes_depend(list, types[i].oid));
        }
        lemma_independent_attributes(list.drop_last(), types);
        if !last.dropped && last.user_type is Some {
            assert forall|i: int| 0 <= i < types.len() implies !column_depends(
                last.user_type->0,
                (#[trigger] types[i]).oid,
            ) by {
                assert(!attributes_depend(list, types[i].oid));
            }
            law_independent_column(last.user_type->0, types);
        }
        assert(attribute_replaced(last, types) == last);
        assert(attributes_replaced(list, types) =~= list.drop_last().push(last));
    }
}

} // verus!
