//! Renaming a label of an enum in the values that hold it.
use vstd::prelude::*;
use crate::json;
use crate::json::{Json, JsonView, Member, MemberView};
use crate::text;

verus! {

/// The member of an object whose value is looked into: the input of an array, and
/// within that its value.
pub open spec fn looked_into(inside: bool) -> Seq<char> {
    if inside {
        "value"@
    } else {
        "$bicdb_array_input"@
    }
}

/// A document with a label renamed: where it stands by itself, in an array, or in
/// the value of the input of an array. `inside` says that the document is such an
/// input.
pub open spec fn label_renamed(j: JsonView, inside: bool, from: Seq<char>, to: Seq<char>) -> JsonView
    decreases j,
{
    match j {
        JsonView::Text(s) => if !inside && s == from {
            JsonView::Text(to)
        } else {
            j
        },
        JsonView::Array(items) => if inside {
            j
        } else {
            JsonView::Array(items_renamed(items, from, to))
        },
        JsonView::Object(members) => JsonView::Object(members_renamed(members, inside, from, to)),
        _ => j,
    }
}

pub open spec fn items_renamed(items: Seq<JsonView>, from: Seq<char>, to: Seq<char>) -> Seq<JsonView>
    decreases items,
{
    if items.len() == 0 {
        Seq::empty()
    } else {
        items_renamed(items.drop_last(), from, to).push(
            label_renamed(items.last(), false, from, to),
        )
    }
}

pub open spec fn members_renamed(
    members: Seq<MemberView>,
    inside: bool,
    from: Seq<char>,
    to: Seq<char>,
) -> Seq<MemberView>
    decreases members,
{
    if members.len() == 0 {
        Seq::empty()
    } else {
        let last = members.last();
        members_renamed(members.drop_last(), inside, from, to).push(
            if last.name == looked_into(inside) {
                MemberView { value: label_renamed(last.value, !inside, from, to), ..last }
            } else {
                last
            },
        )
    }
}

/// Whether a document holds a label where it is renamed.
pub open spec fn holds_label(j: JsonView, inside: bool, label: Seq<char>) -> bool
    decreases j,
{
    match j {
        JsonView::Text(s) => !inside && s == label,
        JsonView::Array(items) => !inside && items_hold(items, label),
        JsonView::Object(members) => members_hold(members, inside, label),
        _ => false,
    }
}

pub open spec fn items_hold(items: Seq<JsonView>, label: Seq<char>) -> bool
    decreases items,
{
    items.len() > 0 && (items_hold(items.drop_last(), label) || holds_label(
        items.last(),
        false,
        label,
    ))
}

pub open spec fn members_hold(members: Seq<MemberView>, inside: bool, label: Seq<char>) -> bool
    decreases members,
{
    members.len() > 0 && (members_hold(members.drop_last(), inside, label) || (members.last().name
        == looked_into(inside) && holds_label(members.last().value, !inside, label)))
}

fn copy_items(items: &Vec<Json>) -> (r: Vec<Json>)
    ensures
        json::items_view(r@) == json::items_view(items@),
    decreases items@,
{
    let mut out: Vec<Json> = Vec::new();
    let mut i: usize = 0;
    assert(items@.take(0) =~= Seq::empty());
    while i < items.len()
        invariant
            i <= items.len(),
            json::items_view(out@) == json::items_view(items@.take(i as int)),
        decreases items.len() - i,
    {
        let ghost more = items@.take(i + 1);
        assert(more.drop_last() =~= items@.take(i as int));
        assert(more.last() == items@[i as int]);
        let ghost prior = out@;
        out.push(copy_json(&items[i]));
        assert(out@.drop_last() =~= prior);
        i = i + 1;
    }
    assert(items@.take(items@.len() as int) =~= items@);
    out
}

fn copy_members(members: &Vec<Member>) -> (r: Vec<Member>)
    ensures
        json::members_view(r@) == json::members_view(members@),
    decreases members@,
{
    let mut out: Vec<Member> = Vec::new();
    let mut i: usize = 0;
    assert(members@.take(0) =~= Seq::empty());
    while i < members.len()
        invariant
            i <= members.len(),
            json::members_view(out@) == json::members_view(members@.take(i as int)),
        decreases members.len() - i,
    {
        let ghost more = members@.take(i + 1);
        assert(more.drop_last() =~= members@.take(i as int));
        assert(more.last() == members@[i as int]);
        let ghost prior = out@;
        out.push(Member { name: members[i].name.clone(), value: copy_json(&members[i].value) });
        assert(out@.drop_last() =~= prior);
        i = i + 1;
    }
    assert(members@.take(members@.len() as int) =~= members@);
    out
}

/// The same document.
pub fn copy_json(j: &Json) -> (r: Json)
    ensures
        r@ == j@,
    decreases *j,
{
    match j {
        Json::Null => Json::Null,
        Json::Bool(b) => Json::Bool(*b),
        Json::Number(n) => Json::Number(n.clone()),
        Json::Text(s) => Json::Text(s.clone()),
        Json::Array(items) => Json::Array(copy_items(items)),
        Json::Object(members) => Json::Object(copy_members(members)),
    }
}

fn rename_items(items: &Vec<Json>, from: &str, to: &str) -> (r: (Vec<Json>, bool))
    ensures
        json::items_view((r.0)@) == items_renamed(json::items_view(items@), from@, to@),
        r.1 == items_hold(json::items_view(items@), from@),
    decreases items@,
{
    let mut out: Vec<Json> = Vec::new();
    let mut changed = false;
    let mut i: usize = 0;
    assert(items@.take(0) =~= Seq::empty());
    while i < items.len()
        invariant
            i <= items.len(),
            json::items_view(out@) == items_renamed(
                json::items_view(items@.take(i as int)),
                from@,
                to@,
            ),
            changed == items_hold(json::items_view(items@.take(i as int)), from@),
        decreases items.len() - i,
    {
        let ghost more = items@.take(i + 1);
        assert(more.drop_last() =~= items@.take(i as int));
        assert(more.last() == items@[i as int]);
        assert(json::items_view(more).drop_last() =~= json::items_view(items@.take(i as int)));
        assert(json::items_view(more).last() == items@[i as int]@);
        let ghost prior = out@;
        let (next, other) = rename_json(&items[i], false, from, to);
        out.push(next);
        if other {
            changed = true;
        }
        assert(out@.drop_last() =~= prior);
        i = i + 1;
    }
    assert(items@.take(items@.len() as int) =~= items@);
    (out, changed)
}

fn rename_members(members: &Vec<Member>, inside: bool, from: &str, to: &str) -> (r: (
    Vec<Member>,
    bool,
))
    ensures
        json::members_view((r.0)@) == members_renamed(
            json::members_view(members@),
            inside,
            from@,
            to@,
        ),
        r.1 == members_hold(json::members_view(members@), inside, from@),
    decreases members@,
{
    let mut out: Vec<Member> = Vec::new();
    let mut changed = false;
    let mut i: usize = 0;
    assert(members@.take(0) =~= Seq::empty());
    while i < members.len()
        invariant
            i <= members.len(),
            json::members_view(out@) == members_renamed(
                json::members_view(members@.take(i as int)),
                inside,
                from@,
                to@,
            ),
            changed == members_hold(
                json::members_view(members@.take(i as int)),
                inside,
                from@,
            ),
        decreases members.len() - i,
    {
        let ghost more = members@.take(i + 1);
        assert(more.drop_last() =~= members@.take(i as int));
        assert(more.last() == members@[i as int]);
        assert(json::members_view(more).drop_last() =~= json::members_view(
            members@.take(i as int),
        ));
        assert(json::members_view(more).last() == (MemberView {
            name: members@[i as int].name@,
            value: members@[i as int].value@,
        }));
        let ghost prior = out@;
        let looked = if inside {
            text::text_eq(members[i].name.as_str(), "value")
        } else {
            text::text_eq(members[i].name.as_str(), "$bicdb_array_input")
        };
        if looked {
            let (next, other) = rename_json(&members[i].value, !inside, from, to);
            out.push(Member { name: members[i].name.clone(), value: next });
            if other {
                changed = true;
            }
        } else {
            out.push(
                Member { name: members[i].name.clone(), value: copy_json(&members[i].value) },
            );
        }
        assert(out@.drop_last() =~= prior);
        i = i + 1;
    }
    assert(members@.take(members@.len() as int) =~= members@);
    (out, changed)
}

/// A document with a label renamed, and whether it held it.
pub fn rename_json(j: &Json, inside: bool, from: &str, to: &str) -> (r: (Json, bool))
    ensures
        (r.0)@ == label_renamed(j@, inside, from@, to@),
        r.1 == holds_label(j@, inside, from@),
    decreases *j,
{
    match j {
        Json::Text(s) => {
            if !inside && text::text_eq(s.as_str(), from) {
                (Json::Text(to.to_owned()), true)
            } else {
                (Json::Text(s.clone()), false)
            }
        },
        Json::Array(items) => {
            if inside {
                (copy_json(j), false)
            } else {
                let (next, changed) = rename_items(items, from, to);
                (Json::Array(next), changed)
            }
        },
        Json::Object(members) => {
            let (next, changed) = rename_members(members, inside, from, to);
            (Json::Object(next), changed)
        },
        _ => (copy_json(j), false),
    }
}

/// A value that may hold a label of an enum: a text, a document, or something
/// else.
#[derive(Debug)]
pub enum LabelValue {
    Text(String),
    Document(Json),
    Other,
}

/// A value with a label renamed.
pub open spec fn value_renamed(v: LabelValue, from: Seq<char>, to: Seq<char>) -> JsonView {
    match v {
        LabelValue::Text(s) => if s@ == from {
            JsonView::Text(to)
        } else {
            JsonView::Text(s@)
        },
        LabelValue::Document(j) => label_renamed(j@, false, from, to),
        LabelValue::Other => JsonView::Null,
    }
}

/// What a value holds, as a document.
pub open spec fn value_document(v: LabelValue) -> JsonView {
    match v {
        LabelValue::Text(s) => JsonView::Text(s@),
        LabelValue::Document(j) => j@,
        LabelValue::Other => JsonView::Null,
    }
}

/// Renames a label in a value and says whether the value held it.
pub fn rename_enum_label_in_value(value: &LabelValue, from: &str, to: &str) -> (r: (LabelValue, bool))
    ensures
        value_document(r.0) == value_renamed(*value, from@, to@),
        r.1 == (match *value {
            LabelValue::Text(s) => s@ == from@,
            LabelValue::Document(j) => holds_label(j@, false, from@),
            LabelValue::Other => false,
        }),
        r.0 is Text == *value is Text,
        r.0 is Document == *value is Document,
{
    match value {
        LabelValue::Text(s) => {
            if text::text_eq(s.as_str(), from) {
                (LabelValue::Text(to.to_owned()), true)
            } else {
                (LabelValue::Text(s.clone()), false)
            }
        },
        LabelValue::Document(j) => {
            let (next, changed) = rename_json(j, false, from, to);
            (LabelValue::Document(next), changed)
        },
        LabelValue::Other => (LabelValue::Other, false),
    }
}

/// A document that does not hold a label stays as it is when it is renamed.
pub proof fn law_absent_label(j: JsonView, inside: bool, from: Seq<char>, to: Seq<char>)
    requires
        !holds_label(j, inside, from),
    ensures
        label_renamed(j, inside, from, to) == j,
    decreases j,
{
    match j {
        JsonView::Array(items) => {
            if !inside {
                lemma_absent_items(items, from, to);
            }
        },
        JsonView::Object(members) => lemma_absent_members(members, inside, from, to),
        _ => {},
    }
}

proof fn lemma_absent_items(items: Seq<JsonView>, from: Seq<char>, to: Seq<char>)
    requires
        !items_hold(items, from),
    ensures
        items_renamed(items, from, to) == items,
    decreases items,
{
    if items.len() > 0 {
        lemma_absent_items(items.drop_last(), from, to);
        law_absent_label(items.last(), false, from, to);
        assert(items_renamed(items, from, to) =~= items.drop_last().push(items.last()));
    }
}

proof fn lemma_absent_members(members: Seq<MemberView>, inside: bool, from: Seq<char>, to: Seq<char>)
    requires
        !members_hold(members, inside, from),
    ensures
        members_renamed(members, inside, from, to) == members,
    decreases members,
{
    if members.len() > 0 {
        lemma_absent_members(members.drop_last(), inside, from, to);
        if members.last().name == looked_into(inside) {
            law_absent_label(members.last().value, !inside, from, to);
        }
        assert(members_renamed(members, inside, from, to) =~= members.drop_last().push(
            members.last(),
        ));
    }
}

} // verus!
