//! How deep expressions stand in one another anywhere in a statement.
use vstd::prelude::*;
use crate::json;
use crate::json::{Json, JsonView, Member, MemberView};
use crate::text;

verus! {

/// The kinds of expressions that nest. A wildcard holds no expression.
pub open spec fn expression_names() -> Seq<Seq<char>> {
    seq![
        "Identifier"@,
        "CompoundIdentifier"@,
        "CompoundFieldAccess"@,
        "JsonAccess"@,
        "IsFalse"@,
        "IsNotFalse"@,
        "IsTrue"@,
        "IsNotTrue"@,
        "IsNull"@,
        "IsNotNull"@,
        "IsUnknown"@,
        "IsNotUnknown"@,
        "IsDistinctFrom"@,
        "IsNotDistinctFrom"@,
        "IsNormalized"@,
        "InList"@,
        "InSubquery"@,
        "InUnnest"@,
        "Between"@,
        "BinaryOp"@,
        "Like"@,
        "ILike"@,
        "SimilarTo"@,
        "RLike"@,
        "AnyOp"@,
        "AllOp"@,
        "UnaryOp"@,
        "Convert"@,
        "Cast"@,
        "AtTimeZone"@,
        "Extract"@,
        "Ceil"@,
        "Floor"@,
        "Position"@,
        "Substring"@,
        "Trim"@,
        "Overlay"@,
        "Collate"@,
        "Nested"@,
        "Value"@,
        "Prefixed"@,
        "TypedString"@,
        "Function"@,
        "Case"@,
        "Exists"@,
        "Subquery"@,
        "GroupingSets"@,
        "Cube"@,
        "Rollup"@,
        "Tuple"@,
        "Struct"@,
        "Dictionary"@,
        "Map"@,
        "Array"@,
        "Interval"@,
        "MatchAgainst"@,
        "OuterJoin"@,
        "Prior"@,
        "Lambda"@,
        "MemberOf"@,
    ]
}

/// What stands under the name of an expression is what such an expression holds. Other
/// parts of a statement have some of these names too.
pub open spec fn is_content(name: Seq<char>, content: JsonView) -> bool {
    if name == "Function"@ {
        json::field(content, "over"@) is Some
    } else if name == "Value"@ || name == "Interval"@ {
        json::field(content, "value"@) is Some
    } else if name == "Case"@ {
        json::field(content, "conditions"@) is Some
    } else if name == "Array"@ {
        json::field(content, "elem"@) is Some
    } else if name == "Like"@ || name == "ILike"@ {
        json::field(content, "pattern"@) is Some
    } else if name == "GroupingSets"@ {
        content is Array
    } else {
        true
    }
}

/// The node is an expression.
pub open spec fn is_expression(j: JsonView) -> bool {
    match j {
        JsonView::Object(members) => members.len() == 1 && expression_names().contains(
            members[0].name,
        ) && is_content(members[0].name, members[0].value),
        _ => false,
    }
}

/// What stands directly under that name is no expression: the arguments of a call, the
/// values of a pivot, a relation, or what is assigned to.
pub open spec fn stands_aside(name: Seq<char>) -> bool {
    ||| name == "args"@
    ||| name == "parameters"@
    ||| name == "value_source"@
    ||| name == "relation"@
    ||| name == "table"@
    ||| name == "source"@
    ||| name == "target"@
    ||| name == "version"@
}

/// The node is a query, whose expressions are counted from one again.
pub open spec fn is_query(j: JsonView) -> bool {
    json::field(j, "body"@) is Some
}

/// A list of dotted names.
pub open spec fn is_name_list(j: JsonView) -> bool {
    json::elements(j).len() > 0 && json::elements(j)[0] is Array
}

/// The member names something and holds no expression: a dotted name or a list of them,
/// a type, a collation, a character set or a format.
pub open spec fn names_only(m: MemberView) -> bool {
    ||| m.name == "data_type"@
    ||| m.name == "field_type"@
    ||| m.name == "collation"@
    ||| m.name == "charset"@
    ||| m.name == "format"@
    ||| m.name == "name"@ && m.value is Array
    ||| m.name == "columns"@ && is_name_list(m.value)
}

/// How many expressions stand round what is inside a node, the node among them where it
/// counts, where `depth` stand round the node.
pub open spec fn inner_depth(j: JsonView, depth: nat, counts: bool) -> nat {
    if is_query(j) {
        0
    } else if counts && is_expression(j) {
        depth + 1
    } else {
        depth
    }
}

/// No expression in a node, round which `depth` of them stand, is deeper than
/// `limit`. The node itself counts where it stands in the place of an expression.
pub open spec fn within(j: JsonView, depth: nat, limit: nat, counts: bool) -> bool
    decreases j,
{
    match j {
        JsonView::Array(items) => forall|i: int|
            0 <= i < items.len() ==> within(#[trigger] items[i], depth, limit, true),
        JsonView::Object(members) => inner_depth(j, depth, counts) <= limit && forall|i: int|
            0 <= i < members.len() && !names_only(#[trigger] members[i]) ==> within(
                members[i].value,
                inner_depth(j, depth, counts),
                limit,
                !stands_aside(members[i].name),
            ),
        _ => true,
    }
}

/// No expression of any statement is deeper than `limit`.
pub open spec fn all_within(statements: Seq<JsonView>, limit: nat) -> bool {
    forall|i: int| 0 <= i < statements.len() ==> within(#[trigger] statements[i], 0, limit, true)
}

spec fn stack_within(stack: Seq<(&Json, usize, bool)>, limit: nat) -> bool {
    forall|i: int|
        0 <= i < stack.len() ==> within(
            (#[trigger] stack[i]).0@,
            stack[i].1 as nat,
            limit,
            stack[i].2,
        )
}

spec fn stack_size(stack: Seq<(&Json, usize, bool)>) -> nat
    decreases stack.len(),
{
    if stack.len() == 0 {
        0
    } else {
        json::size(stack.last().0@) + stack_size(stack.drop_last())
    }
}

proof fn lemma_pushed(stack: Seq<(&Json, usize, bool)>, entry: (&Json, usize, bool), limit: nat)
    ensures
        stack_within(stack.push(entry), limit) <==> stack_within(stack, limit) && within(
            entry.0@,
            entry.1 as nat,
            limit,
            entry.2,
        ),
        stack_size(stack.push(entry)) == stack_size(stack) + json::size(entry.0@),
{
    let longer = stack.push(entry);
    assert(longer.drop_last() =~= stack);
    assert(longer[stack.len() as int] == entry);
    if stack_within(longer, limit) {
        assert forall|i: int| 0 <= i < stack.len() implies within(
            (#[trigger] stack[i]).0@,
            stack[i].1 as nat,
            limit,
            stack[i].2,
        ) by {
            assert(longer[i] == stack[i]);
        }
    }
}

fn content_fits(name: &str, content: &Json) -> (r: bool)
    ensures
        r == is_content(name@, content@),
{
    if text::text_eq(name, "Function") {
        json::get_field(content, "over").is_some()
    } else if text::text_eq(name, "Value") || text::text_eq(name, "Interval") {
        json::get_field(content, "value").is_some()
    } else if text::text_eq(name, "Case") {
        json::get_field(content, "conditions").is_some()
    } else if text::text_eq(name, "Array") {
        json::get_field(content, "elem").is_some()
    } else if text::text_eq(name, "Like") || text::text_eq(name, "ILike") {
        json::get_field(content, "pattern").is_some()
    } else if text::text_eq(name, "GroupingSets") {
        match content {
            Json::Array(_) => true,
            _ => false,
        }
    } else {
        true
    }
}

fn aside(name: &str) -> (r: bool)
    ensures
        r == stands_aside(name@),
{
    text::text_eq(name, "args") || text::text_eq(name, "parameters") || text::text_eq(
        name,
        "value_source",
    ) || text::text_eq(name, "relation") || text::text_eq(name, "table") || text::text_eq(
        name,
        "source",
    ) || text::text_eq(name, "target") || text::text_eq(name, "version")
}

fn expression(members: &Vec<Member>) -> (r: bool)
    ensures
        r == is_expression(JsonView::Object(json::members_view(members@))),
{
    broadcast use json::lemma_members_view;

    if members.len() != 1 {
        return false;
    }
    let names = [
        "Identifier",
        "CompoundIdentifier",
        "CompoundFieldAccess",
        "JsonAccess",
        "IsFalse",
        "IsNotFalse",
        "IsTrue",
        "IsNotTrue",
        "IsNull",
        "IsNotNull",
        "IsUnknown",
        "IsNotUnknown",
        "IsDistinctFrom",
        "IsNotDistinctFrom",
        "IsNormalized",
        "InList",
        "InSubquery",
        "InUnnest",
        "Between",
        "BinaryOp",
        "Like",
        "ILike",
        "SimilarTo",
        "RLike",
        "AnyOp",
        "AllOp",
        "UnaryOp",
        "Convert",
        "Cast",
        "AtTimeZone",
        "Extract",
        "Ceil",
        "Floor",
        "Position",
        "Substring",
        "Trim",
        "Overlay",
        "Collate",
        "Nested",
        "Value",
        "Prefixed",
        "TypedString",
        "Function",
        "Case",
        "Exists",
        "Subquery",
        "GroupingSets",
        "Cube",
        "Rollup",
        "Tuple",
        "Struct",
        "Dictionary",
        "Map",
        "Array",
        "Interval",
        "MatchAgainst",
        "OuterJoin",
        "Prior",
        "Lambda",
        "MemberOf",
    ];
    assert(text::slice_views(names@) =~= expression_names());
    text::one_of(members[0].name.as_str(), &names) && content_fits(
        members[0].name.as_str(),
        &members[0].value,
    )
}

fn name_list(j: &Json) -> (r: bool)
    ensures
        r == is_name_list(j@),
{
    match j {
        Json::Array(items) => {
            broadcast use json::lemma_items_view;

            assert(json::elements(j@) == json::items_view(items@));
            if items.len() == 0 {
                return false;
            }
            assert(json::items_view(items@)[0] == items@[0]@);
            match &items[0] {
                Json::Array(_) => true,
                _ => false,
            }
        },
        _ => false,
    }
}

fn nameable(member: &Member) -> (r: bool)
    ensures
        r == names_only(MemberView { name: member.name@, value: member.value@ }),
{
    let name = member.name.as_str();
    text::text_eq(name, "data_type") || text::text_eq(name, "field_type") || text::text_eq(
        name,
        "collation",
    ) || text::text_eq(name, "charset") || text::text_eq(name, "format") || (text::text_eq(
        name,
        "name",
    ) && match &member.value {
        Json::Array(_) => true,
        _ => false,
    }) || (text::text_eq(name, "columns") && name_list(&member.value))
}

fn push_items<'a>(
    stack: &mut Vec<(&'a Json, usize, bool)>,
    items: &'a Vec<Json>,
    depth: usize,
    Ghost(limit): Ghost<nat>,
)
    ensures
        stack_within(final(stack)@, limit) <==> stack_within(old(stack)@, limit) && (forall|i: int|
            0 <= i < items@.len() ==> within((#[trigger] items@[i])@, depth as nat, limit, true)),
        stack_size(final(stack)@) == stack_size(old(stack)@) + json::items_size(
            json::items_view(items@),
        ),
        forall|i: int|
            0 <= i < final(stack)@.len() ==> (#[trigger] final(stack)@[i]).1 == depth || (i
                < old(stack)@.len() && final(stack)@[i] == old(stack)@[i]),
{
    broadcast use json::lemma_items_view;

    let ghost before = stack@;
    let ghost all = json::items_view(items@);
    let mut k: usize = 0;
    assert(all.take(0) =~= Seq::<JsonView>::empty());
    while k < items.len()
        invariant
            k <= items.len(),
            all == json::items_view(items@),
            stack_within(stack@, limit) <==> stack_within(before, limit) && (forall|i: int|
                0 <= i < k ==> within((#[trigger] items@[i])@, depth as nat, limit, true)),
            stack_size(stack@) == stack_size(before) + json::items_size(all.take(k as int)),
            forall|i: int|
                0 <= i < stack@.len() ==> (#[trigger] stack@[i]).1 == depth || (i < before.len()
                    && stack@[i] == before[i]),
        decreases items.len() - k,
    {
        broadcast use json::lemma_items_view;

        let item = &items[k];
        proof {
            lemma_pushed(stack@, (item, depth, true), limit);
            assert(all.take(k + 1).drop_last() =~= all.take(k as int));
            assert(all.take(k + 1).last() == item@);
        }
        stack.push((item, depth, true));
        k = k + 1;
    }
    assert(all.take(all.len() as int) =~= all);
}

fn push_members<'a>(
    stack: &mut Vec<(&'a Json, usize, bool)>,
    members: &'a Vec<Member>,
    depth: usize,
    Ghost(limit): Ghost<nat>,
)
    ensures
        stack_within(final(stack)@, limit) <==> stack_within(old(stack)@, limit) && (forall|i: int|
            0 <= i < members@.len() && !names_only(
                #[trigger] json::members_view(members@)[i],
            ) ==> within(
                json::members_view(members@)[i].value,
                depth as nat,
                limit,
                !stands_aside(json::members_view(members@)[i].name),
            )),
        stack_size(final(stack)@) <= stack_size(old(stack)@) + json::members_size(
            json::members_view(members@),
        ),
        forall|i: int|
            0 <= i < final(stack)@.len() ==> (#[trigger] final(stack)@[i]).1 == depth || (i
                < old(stack)@.len() && final(stack)@[i] == old(stack)@[i]),
{
    broadcast use json::lemma_members_view;

    let ghost before = stack@;
    let ghost all = json::members_view(members@);
    let mut k: usize = 0;
    assert(all.take(0) =~= Seq::<MemberView>::empty());
    while k < members.len()
        invariant
            k <= members.len(),
            all == json::members_view(members@),
            stack_within(stack@, limit) <==> stack_within(before, limit) && (forall|i: int|
                0 <= i < k && !names_only(#[trigger] all[i]) ==> within(
                    all[i].value,
                    depth as nat,
                    limit,
                    !stands_aside(all[i].name),
                )),
            stack_size(stack@) <= stack_size(before) + json::members_size(all.take(k as int)),
            forall|i: int|
                0 <= i < stack@.len() ==> (#[trigger] stack@[i]).1 == depth || (i < before.len()
                    && stack@[i] == before[i]),
        decreases members.len() - k,
    {
        broadcast use json::lemma_members_view;

        let member = &members[k];
        let counts = !aside(member.name.as_str());
        proof {
            assert(all[k as int] == MemberView { name: member.name@, value: member.value@ });
            lemma_pushed(stack@, (&member.value, depth, counts), limit);
            assert(all.take(k + 1).drop_last() =~= all.take(k as int));
            assert(all.take(k + 1).last() == all[k as int]);
        }
        if !nameable(member) {
            stack.push((&member.value, depth, counts));
        }
        k = k + 1;
    }
    assert(all.take(all.len() as int) =~= all);
}

/// Whether no expression of a statement is deeper than `limit`. The nodes wait on a
/// list of their own, however deep they stand.
pub fn expressions_within(statement: &Json, limit: usize) -> (r: bool)
    ensures
        r == within(statement@, 0, limit as nat, true),
{
    let ghost bound = limit as nat;
    let mut stack: Vec<(&Json, usize, bool)> = Vec::new();
    proof {
        lemma_pushed(stack@, (statement, 0usize, true), bound);
    }
    stack.push((statement, 0, true));
    while stack.len() > 0
        invariant
            bound == limit,
            stack_within(stack@, bound) <==> within(statement@, 0, bound, true),
            forall|i: int| 0 <= i < stack@.len() ==> (#[trigger] stack@[i]).1 <= limit,
        decreases stack_size(stack@),
    {
        let ghost before = stack@;
        let (top, depth, counts) = stack.pop().unwrap();
        proof {
            assert(before =~= stack@.push((top, depth, counts)));
            assert(before[before.len() - 1].1 <= limit);
            assert forall|i: int| 0 <= i < stack@.len() implies (#[trigger] stack@[i]).1 <= limit by {
                assert(before[i] == stack@[i]);
            }
            lemma_pushed(stack@, (top, depth, counts), bound);
        }
        match top {
            Json::Array(items) => {
                broadcast use json::lemma_items_view;

                let ghost all = json::items_view(items@);
                push_items(&mut stack, items, depth, Ghost(bound));
                assert(within(top@, depth as nat, bound, counts) <==> forall|i: int|
                    0 <= i < items@.len() ==> within((#[trigger] items@[i])@, depth as nat, bound, true))
                    by {
                    assert forall|i: int| 0 <= i < items@.len() implies all[i] == (
                    #[trigger] items@[i])@ by {}
                    if forall|i: int|
                        0 <= i < items@.len() ==> within((#[trigger] items@[i])@, depth as nat, bound, true) {
                        assert forall|i: int| 0 <= i < all.len() implies within(
                            #[trigger] all[i],
                            depth as nat,
                            bound,
                            true,
                        ) by {
                            assert(all[i] == items@[i]@);
                        }
                    }
                }
            },
            Json::Object(members) => {
                broadcast use json::lemma_members_view;

                let inner: usize = if json::get_field(top, "body").is_some() {
                    0
                } else if counts && expression(members) {
                    if depth >= limit {
                        return false;
                    }
                    depth + 1
                } else {
                    depth
                };
                assert(inner == inner_depth(top@, depth as nat, counts));
                push_members(&mut stack, members, inner, Ghost(bound));
            },
            _ => {},
        }
    }
    true
}

} // verus!
