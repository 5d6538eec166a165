//! Values of composite types, and what altering their type makes of them.
use vstd::prelude::*;
use crate::text;

verus! {

/// A value that may hold composite values: a composite one, an array or an object
/// of a document, or something else, as it is written.
#[derive(Debug)]
pub enum ValueTree {
    Composite(CompositeTree),
    Array(Vec<ValueTree>),
    Object(Vec<TreeMember>),
    Leaf(String),
    Null,
}

/// A value of a composite type, which it names and may identify.
#[derive(Debug)]
pub struct CompositeTree {
    pub type_oid: Option<u32>,
    pub declared: String,
    pub fields: Vec<TreeField>,
}

#[derive(Debug)]
pub struct TreeField {
    pub name: String,
    pub pg_type: String,
    pub value: ValueTree,
}

#[derive(Debug)]
pub struct TreeMember {
    pub name: String,
    pub value: ValueTree,
}

pub enum TreeView {
    Composite { type_oid: Option<u32>, declared: Seq<char>, fields: Seq<FieldView> },
    Array(Seq<TreeView>),
    Object(Seq<TreeMemberView>),
    Leaf(Seq<char>),
    Null,
}

pub struct FieldView {
    pub name: Seq<char>,
    pub pg_type: Seq<char>,
    pub value: TreeView,
}

pub struct TreeMemberView {
    pub name: Seq<char>,
    pub value: TreeView,
}

pub open spec fn tree_view(t: ValueTree) -> TreeView
    decreases t,
{
    match t {
        ValueTree::Composite(c) => TreeView::Composite {
            type_oid: c.type_oid,
            declared: c.declared@,
            fields: field_views(c.fields@),
        },
        ValueTree::Array(items) => TreeView::Array(tree_views(items@)),
        ValueTree::Object(members) => TreeView::Object(member_views(members@)),
        ValueTree::Leaf(s) => TreeView::Leaf(s@),
        ValueTree::Null => TreeView::Null,
    }
}

pub open spec fn field_views(list: Seq<TreeField>) -> Seq<FieldView>
    decreases list,
{
    if list.len() == 0 {
        Seq::empty()
    } else {
        field_views(list.drop_last()).push(
            FieldView {
                name: list.last().name@,
                pg_type: list.last().pg_type@,
                value: tree_view(list.last().value),
            },
        )
    }
}

pub open spec fn tree_views(list: Seq<ValueTree>) -> Seq<TreeView>
    decreases list,
{
    if list.len() == 0 {
        Seq::empty()
    } else {
        tree_views(list.drop_last()).push(tree_view(list.last()))
    }
}

pub open spec fn member_views(list: Seq<TreeMember>) -> Seq<TreeMemberView>
    decreases list,
{
    if list.len() == 0 {
        Seq::empty()
    } else {
        member_views(list.drop_last()).push(
            TreeMemberView { name: list.last().name@, value: tree_view(list.last().value) },
        )
    }
}

/// How the attributes of a composite type are altered.
#[derive(Debug)]
pub enum CompositeAttributeMutation {
    Add { name: String, pg_type: String },
    Drop(usize),
    Rename { index: usize, name: String },
    AlterType { index: usize, pg_type: String },
    RenameType { name: String },
}

/// The fields of a value after the attributes of its type have been altered. A new
/// one is null; an index that there is no field at changes nothing.
pub open spec fn fields_altered(fields: Seq<FieldView>, mutation: CompositeAttributeMutation) -> Seq<
    FieldView,
> {
    match mutation {
        CompositeAttributeMutation::Add { name, pg_type } => fields.push(
            FieldView { name: name@, pg_type: pg_type@, value: TreeView::Null },
        ),
        CompositeAttributeMutation::Drop(index) => if index < fields.len() {
            fields.remove(index as int)
        } else {
            fields
        },
        CompositeAttributeMutation::Rename { index, name } => if index < fields.len() {
            fields.update(index as int, FieldView { name: name@, ..fields[index as int] })
        } else {
            fields
        },
        CompositeAttributeMutation::AlterType { index, pg_type } => if index < fields.len() {
            fields.update(index as int, FieldView { pg_type: pg_type@, ..fields[index as int] })
        } else {
            fields
        },
        CompositeAttributeMutation::RenameType { .. } => fields,
    }
}

pub open spec fn name_altered(declared: Seq<char>, mutation: CompositeAttributeMutation) -> Seq<char> {
    match mutation {
        CompositeAttributeMutation::RenameType { name } => name@,
        _ => declared,
    }
}

/// The identifier of a type as values keep it.
pub open spec fn kept_oid(oid: i64) -> Option<u32> {
    if 0 <= oid <= u32::MAX {
        Some(oid as u32)
    } else {
        None
    }
}

/// Whether a value is of a type: it has the type's identifier, or its name but
/// for the case of the letters.
pub open spec fn is_of(
    type_oid: Option<u32>,
    declared: Seq<char>,
    target_oid: i64,
    target: Seq<char>,
) -> bool {
    type_oid == kept_oid(target_oid) || text::same_ignoring_case(declared, target)
}

/// A value after a composite type has been altered: every value of the type within
/// it is.
pub open spec fn rewritten(
    t: TreeView,
    target_oid: i64,
    target: Seq<char>,
    mutation: CompositeAttributeMutation,
) -> TreeView
    decreases t,
{
    match t {
        TreeView::Composite { type_oid, declared, fields } => {
            let inner = fields_rewritten(fields, target_oid, target, mutation);
            if is_of(type_oid, declared, target_oid, target) {
                TreeView::Composite {
                    type_oid,
                    declared: name_altered(declared, mutation),
                    fields: fields_altered(inner, mutation),
                }
            } else {
                TreeView::Composite { type_oid, declared, fields: inner }
            }
        },
        TreeView::Array(items) => TreeView::Array(
            items_rewritten(items, target_oid, target, mutation),
        ),
        TreeView::Object(members) => TreeView::Object(
            members_rewritten(members, target_oid, target, mutation),
        ),
        _ => t,
    }
}

pub open spec fn fields_rewritten(
    list: Seq<FieldView>,
    target_oid: i64,
    target: Seq<char>,
    mutation: CompositeAttributeMutation,
) -> Seq<FieldView>
    decreases list,
{
    if list.len() == 0 {
        Seq::empty()
    } else {
        fields_rewritten(list.drop_last(), target_oid, target, mutation).push(
            FieldView {
                value: rewritten(list.last().value, target_oid, target, mutation),
                ..list.last()
            },
        )
    }
}

pub open spec fn items_rewritten(
    list: Seq<TreeView>,
    target_oid: i64,
    target: Seq<char>,
    mutation: CompositeAttributeMutation,
) -> Seq<TreeView>
    decreases list,
{
    if list.len() == 0 {
        Seq::empty()
    } else {
        items_rewritten(list.drop_last(), target_oid, target, mutation).push(
            rewritten(list.last(), target_oid, target, mutation),
        )
    }
}

pub open spec fn members_rewritten(
    list: Seq<TreeMemberView>,
    target_oid: i64,
    target: Seq<char>,
    mutation: CompositeAttributeMutation,
) -> Seq<TreeMemberView>
    decreases list,
{
    if list.len() == 0 {
        Seq::empty()
    } else {
        members_rewritten(list.drop_last(), target_oid, target, mutation).push(
            TreeMemberView {
                value: rewritten(list.last().value, target_oid, target, mutation),
                ..list.last()
            },
        )
    }
}

fn is_target(type_oid: Option<u32>, declared: &str, target_oid: i64, target: &str) -> (r: bool)
    ensures
        r == is_of(type_oid, declared@, target_oid, target@),
{
    let kept: Option<u32> = if target_oid >= 0 && target_oid <= u32::MAX as i64 {
        Some(target_oid as u32)
    } else {
        None
    };
    let same = match (type_oid, kept) {
        (Some(a), Some(b)) => a == b,
        (None, None) => true,
        _ => false,
    };
    same || text::eq_ignore_case(declared, target)
}

proof fn lemma_field_views(list: Seq<TreeField>, k: int)
    ensures
        field_views(list).len() == list.len(),
        0 <= k < list.len() ==> field_views(list)[k] == (FieldView {
            name: list[k].name@,
            pg_type: list[k].pg_type@,
            value: tree_view(list[k].value),
        }),
    decreases list.len(),
{
    if list.len() > 0 {
        lemma_field_views(list.drop_last(), k);
        lemma_field_views(list.drop_last(), 0);
    }
}

proof fn lemma_all_field_views(list: Seq<TreeField>)
    ensures
        field_views(list).len() == list.len(),
        forall|k: int|
            0 <= k < list.len() ==> #[trigger] field_views(list)[k] == (FieldView {
                name: list[k].name@,
                pg_type: list[k].pg_type@,
                value: tree_view(list[k].value),
            }),
{
    lemma_field_views(list, 0);
    assert forall|k: int| 0 <= k < list.len() implies #[trigger] field_views(list)[k] == (
    FieldView {
        name: list[k].name@,
        pg_type: list[k].pg_type@,
        value: tree_view(list[k].value),
    }) by {
        lemma_field_views(list, k);
    }
}

fn alter_fields(fields: &mut Vec<TreeField>, mutation: &CompositeAttributeMutation)
    ensures
        field_views(final(fields)@) == fields_altered(field_views(old(fields)@), *mutation),
{
    let ghost before = fields@;
    proof {
        lemma_all_field_views(before);
    }
    match mutation {
        CompositeAttributeMutation::Add { name, pg_type } => {
            fields.push(
                TreeField { name: name.clone(), pg_type: pg_type.clone(), value: ValueTree::Null },
            );
            assert(fields@.drop_last() =~= before);
            assert(fields@.last().value == ValueTree::Null);
            assert(tree_view(ValueTree::Null) == TreeView::Null);
        },
        CompositeAttributeMutation::Drop(index) => {
            if *index < fields.len() {
                let _gone = fields.remove(*index);
                proof {
                    lemma_all_field_views(fields@);
                    assert(field_views(fields@) =~= field_views(before).remove(*index as int));
                }
            }
        },
        CompositeAttributeMutation::Rename { index, name } => {
            if *index < fields.len() {
                let old_field = fields.remove(*index);
                fields.insert(
                    *index,
                    TreeField {
                        name: name.clone(),
                        pg_type: old_field.pg_type,
                        value: old_field.value,
                    },
                );
                proof {
                    lemma_all_field_views(fields@);
                    assert(field_views(fields@) =~= field_views(before).update(
                        *index as int,
                        FieldView { name: name@, ..field_views(before)[*index as int] },
                    ));
                }
            }
        },
        CompositeAttributeMutation::AlterType { index, pg_type } => {
            if *index < fields.len() {
                let old_field = fields.remove(*index);
                fields.insert(
                    *index,
                    TreeField {
                        name: old_field.name,
                        pg_type: pg_type.clone(),
                        value: old_field.value,
                    },
                );
                proof {
                    lemma_all_field_views(fields@);
                    assert(field_views(fields@) =~= field_views(before).update(
                        *index as int,
                        FieldView { pg_type: pg_type@, ..field_views(before)[*index as int] },
                    ));
                }
            }
        },
        CompositeAttributeMutation::RenameType { .. } => {},
    }
}

fn rewrite_fields(
    list: &Vec<TreeField>,
    target_oid: i64,
    target: &str,
    mutation: &CompositeAttributeMutation,
) -> (r: Vec<TreeField>)
    ensures
        field_views(r@) == fields_rewritten(
            field_views(list@),
            target_oid,
            target@,
            *mutation,
        ),
    decreases list@,
{
    let mut out: Vec<TreeField> = Vec::new();
    let mut i: usize = 0;
    assert(list@.take(0) =~= Seq::empty());
    while i < list.len()
        invariant
            i <= list.len(),
            field_views(out@) == fields_rewritten(
                field_views(list@.take(i as int)),
                target_oid,
                target@,
                *mutation,
            ),
        decreases list.len() - i,
    {
        let ghost more = list@.take(i + 1);
        assert(more.drop_last() =~= list@.take(i as int));
        assert(more.last() == list@[i as int]);
        assert(field_views(more).drop_last() =~= field_views(list@.take(i as int)));
        let ghost prior = out@;
        let value = rewrite_composite_value(&list[i].value, target_oid, target, mutation);
        out.push(
            TreeField {
                name: list[i].name.clone(),
                pg_type: list[i].pg_type.clone(),
                value,
            },
        );
        assert(out@.drop_last() =~= prior);
        i = i + 1;
    }
    assert(list@.take(list@.len() as int) =~= list@);
    out
}

fn rewrite_items(
    list: &Vec<ValueTree>,
    target_oid: i64,
    target: &str,
    mutation: &CompositeAttributeMutation,
) -> (r: Vec<ValueTree>)
    ensures
        tree_views(r@) == items_rewritten(tree_views(list@), target_oid, target@, *mutation),
    decreases list@,
{
    let mut out: Vec<ValueTree> = Vec::new();
    let mut i: usize = 0;
    assert(list@.take(0) =~= Seq::empty());
    while i < list.len()
        invariant
            i <= list.len(),
            tree_views(out@) == items_rewritten(
                tree_views(list@.take(i as int)),
                target_oid,
                target@,
                *mutation,
            ),
        decreases list.len() - i,
    {
        let ghost more = list@.take(i + 1);
        assert(more.drop_last() =~= list@.take(i as int));
        assert(more.last() == list@[i as int]);
        assert(tree_views(more).drop_last() =~= tree_views(list@.take(i as int)));
        let ghost prior = out@;
        out.push(rewrite_composite_value(&list[i], target_oid, target, mutation));
        assert(out@.drop_last() =~= prior);
        i = i + 1;
    }
    assert(list@.take(list@.len() as int) =~= list@);
    out
}

fn rewrite_members(
    list: &Vec<TreeMember>,
    target_oid: i64,
    target: &str,
    mutation: &CompositeAttributeMutation,
) -> (r: Vec<TreeMember>)
    ensures
        member_views(r@) == members_rewritten(
            member_views(list@),
            target_oid,
            target@,
            *mutation,
        ),
    decreases list@,
{
    let mut out: Vec<TreeMember> = Vec::new();
    let mut i: usize = 0;
    assert(list@.take(0) =~= Seq::empty());
    while i < list.len()
        invariant
            i <= list.len(),
            member_views(out@) == members_rewritten(
                member_views(list@.take(i as int)),
                target_oid,
                target@,
                *mutation,
            ),
        decreases list.len() - i,
    {
        let ghost more = list@.take(i + 1);
        assert(more.drop_last() =~= list@.take(i as int));
        assert(more.last() == list@[i as int]);
        assert(member_views(more).drop_last() =~= member_views(list@.take(i as int)));
        let ghost prior = out@;
        let value = rewrite_composite_value(&list[i].value, target_oid, target, mutation);
        out.push(TreeMember { name: list[i].name.clone(), value });
        assert(out@.drop_last() =~= prior);
        i = i + 1;
    }
    assert(list@.take(list@.len() as int) =~= list@);
    out
}

/// A value after a composite type has been altered.
pub fn rewrite_composite_value(
    value: &ValueTree,
    target_oid: i64,
    target: &str,
    mutation: &CompositeAttributeMutation,
) -> (r: ValueTree)
    ensures
        tree_view(r) == rewritten(tree_view(*value), target_oid, target@, *mutation),
    decreases *value,
{
    match value {
        ValueTree::Composite(c) => {
            let mut fields = rewrite_fields(&c.fields, target_oid, target, mutation);
            let mut declared = c.declared.clone();
            if is_target(c.type_oid, c.declared.as_str(), target_oid, target) {
                alter_fields(&mut fields, mutation);
                match mutation {
                    CompositeAttributeMutation::RenameType { name } => {
                        declared = name.clone();
                    },
                    _ => {},
                }
            }
            ValueTree::Composite(CompositeTree { type_oid: c.type_oid, declared, fields })
        },
        ValueTree::Array(items) => ValueTree::Array(
            rewrite_items(items, target_oid, target, mutation),
        ),
        ValueTree::Object(members) => ValueTree::Object(
            rewrite_members(members, target_oid, target, mutation),
        ),
        ValueTree::Leaf(s) => ValueTree::Leaf(s.clone()),
        ValueTree::Null => ValueTree::Null,
    }
}

/// Whether a value holds a value of a type.
pub open spec fn holds_type(t: TreeView, target_oid: i64, target: Seq<char>) -> bool
    decreases t,
{
    match t {
        TreeView::Composite { type_oid, declared, fields } => is_of(
            type_oid,
            declared,
            target_oid,
            target,
        ) || fields_hold(fields, target_oid, target),
        TreeView::Array(items) => items_hold(items, target_oid, target),
        TreeView::Object(members) => members_hold(members, target_oid, target),
        _ => false,
    }
}

pub open spec fn fields_hold(list: Seq<FieldView>, target_oid: i64, target: Seq<char>) -> bool
    decreases list,
{
    list.len() > 0 && (fields_hold(list.drop_last(), target_oid, target) || holds_type(
        list.last().value,
        target_oid,
        target,
    ))
}

pub open spec fn items_hold(list: Seq<TreeView>, target_oid: i64, target: Seq<char>) -> bool
    decreases list,
{
    list.len() > 0 && (items_hold(list.drop_last(), target_oid, target) || holds_type(
        list.last(),
        target_oid,
        target,
    ))
}

pub open spec fn members_hold(list: Seq<TreeMemberView>, target_oid: i64, target: Seq<char>) -> bool
    decreases list,
{
    list.len() > 0 && (members_hold(list.drop_last(), target_oid, target) || holds_type(
        list.last().value,
        target_oid,
        target,
    ))
}

/// Altering a type leaves a value alone that holds no value of the type.
pub proof fn law_others_untouched(
    t: TreeView,
    target_oid: i64,
    target: Seq<char>,
    mutation: CompositeAttributeMutation,
)
    requires
        !holds_type(t, target_oid, target),
    ensures
        rewritten(t, target_oid, target, mutation) == t,
    decreases t,
{
    match t {
        TreeView::Composite { fields, .. } => lemma_fields_untouched(
            fields,
            target_oid,
            target,
            mutation,
        ),
        TreeView::Array(items) => lemma_items_untouched(items, target_oid, target, mutation),
        TreeView::Object(members) => lemma_members_untouched(
            members,
            target_oid,
            target,
            mutation,
        ),
        _ => {},
    }
}

proof fn lemma_fields_untouched(
    list: Seq<FieldView>,
    target_oid: i64,
    target: Seq<char>,
    mutation: CompositeAttributeMutation,
)
    requires
        !fields_hold(list, target_oid, target),
    ensures
        fields_rewritten(list, target_oid, target, mutation) == list,
    decreases list,
{
    if list.len() > 0 {
        lemma_fields_untouched(list.drop_last(), target_oid, target, mutation);
        law_others_untouched(list.last().value, target_oid, target, mutation);
        assert(fields_rewritten(list, target_oid, target, mutation) =~= list.drop_last().push(
            list.last(),
        ));
    }
}

proof fn lemma_items_untouched(
    list: Seq<TreeView>,
    target_oid: i64,
    target: Seq<char>,
    mutation: CompositeAttributeMutation,
)
    requires
        !items_hold(list, target_oid, target),
    ensures
        items_rewritten(list, target_oid, target, mutation) == list,
    decreases list,
{
    if list.len() > 0 {
        lemma_items_untouched(list.drop_last(), target_oid, target, mutation);
        law_others_untouched(list.last(), target_oid, target, mutation);
        assert(items_rewritten(list, target_oid, target, mutation) =~= list.drop_last().push(
            list.last(),
        ));
    }
}

proof fn lemma_members_untouched(
    list: Seq<TreeMemberView>,
    target_oid: i64,
    target: Seq<char>,
    mutation: CompositeAttributeMutation,
)
    requires
        !members_hold(list, target_oid, target),
    ensures
        members_rewritten(list, target_oid, target, mutation) == list,
    decreases list,
{
    if list.len() > 0 {
        lemma_members_untouched(list.drop_last(), target_oid, target, mutation);
        law_others_untouched(list.last().value, target_oid, target, mutation);
        assert(members_rewritten(list, target_oid, target, mutation) =~= list.drop_last().push(
            list.last(),
        ));
    }
}

/// Dropping the attribute that has just been added gives the fields back.
pub proof fn law_add_then_drop(fields: Seq<FieldView>, name: String, pg_type: String, index: usize)
    requires
        index == fields.len(),
    ensures
        fields_altered(
            fields_altered(fields, CompositeAttributeMutation::Add { name, pg_type }),
            CompositeAttributeMutation::Drop(index),
        ) == fields,
{
    let added = fields_altered(fields, CompositeAttributeMutation::Add { name, pg_type });
    assert(added.remove(index as int) =~= fields);
}

} // verus!
