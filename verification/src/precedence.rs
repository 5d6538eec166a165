//! Repair of operator precedence in a parsed statement.
//!
//! The parser reads the right operand of `IS [NOT] DISTINCT FROM` as a whole
//! expression, so that an unparenthesised `AND` or `OR` behind it ends up inside
//! that operand. PostgreSQL binds `IS [NOT] DISTINCT FROM` more tightly:
//! `a IS DISTINCT FROM b OR c` means `(a IS DISTINCT FROM b) OR c`. A
//! parenthesised operand is a node of its own and stays as it is.
use vstd::prelude::*;
use crate::json;
use crate::json::{Json, JsonView, Member, MemberView};
use crate::text;

verus! {

/// Where an expression is an `AND` or an `OR`, the position of its left operand
/// among its parts.
pub open spec fn boolean_left(e: JsonView) -> Option<int> {
    let parts = json::payload(e);
    if json::is_variant(e, "BinaryOp"@) && (json::field(parts, "op"@) == Some(
        JsonView::Text("And"@),
    ) || json::field(parts, "op"@) == Some(JsonView::Text("Or"@))) {
        match parts {
            JsonView::Object(members) => json::member_index(members, "left"@, 0),
            _ => None,
        }
    } else {
        None
    }
}

pub open spec fn members_of(j: JsonView) -> Seq<MemberView> {
    match j {
        JsonView::Object(members) => members,
        _ => Seq::empty(),
    }
}

/// A document with a single member.
pub open spec fn variant(name: Seq<char>, content: JsonView) -> JsonView {
    JsonView::Object(seq![MemberView { name, value: content }])
}

/// The members with the value at `i` replaced.
pub open spec fn with_value(members: Seq<MemberView>, i: int, value: JsonView) -> Seq<MemberView> {
    members.update(i, MemberView { name: members[i].name, value })
}

pub proof fn lemma_boolean_left(e: JsonView)
    ensures
        boolean_left(e) matches Some(i) ==> 0 <= i < members_of(json::payload(e)).len()
            && json::size(members_of(json::payload(e))[i].value) < json::size(e) && members_of(
            json::payload(e),
        )[i].name == "left"@ && e == variant("BinaryOp"@, json::payload(e)),
{
    if let Some(i) = boolean_left(e) {
        json::lemma_payload_size(e);
        json::lemma_member_index(members_of(json::payload(e)), "left"@, 0);
        json::lemma_member_size(members_of(json::payload(e)), i);
        if let JsonView::Object(members) = e {
            assert(members =~= seq![members[0]]);
        }
    }
}

/// The test `left <test> right` with the test bound to the first operand of the
/// `AND`s and `OR`s that `right` starts with.
pub open spec fn reassociated(left: JsonView, right: JsonView, test: Seq<char>) -> JsonView
    decreases json::size(right),
{
    match boolean_left(right) {
        Some(i) => {
            let parts = members_of(json::payload(right));
            proof {
                lemma_boolean_left(right);
            }
            variant(
                "BinaryOp"@,
                JsonView::Object(
                    with_value(parts, i, reassociated(left, parts[i].value, test)),
                ),
            )
        },
        None => variant(test, JsonView::Array(seq![left, right])),
    }
}

pub open spec fn is_distinct_test(name: Seq<char>) -> bool {
    name == "IsDistinctFrom"@ || name == "IsNotDistinctFrom"@
}

/// A node whose parts have been repaired, repaired itself.
pub open spec fn repaired_node(j: JsonView) -> JsonView {
    match (json::variant_name(j), json::payload(j)) {
        (Some(name), JsonView::Array(operands)) => if is_distinct_test(name) && operands.len()
            == 2 {
            reassociated(operands[0], operands[1], name)
        } else {
            j
        },
        _ => j,
    }
}

/// A document with the precedence repaired everywhere in it.
pub open spec fn repaired(j: JsonView) -> JsonView
    decreases j,
{
    match j {
        JsonView::Array(items) => repaired_node(JsonView::Array(repaired_items(items))),
        JsonView::Object(members) => repaired_node(JsonView::Object(repaired_members(members))),
        _ => j,
    }
}

pub open spec fn repaired_items(items: Seq<JsonView>) -> Seq<JsonView>
    decreases items,
{
    if items.len() == 0 {
        Seq::empty()
    } else {
        repaired_items(items.drop_last()).push(repaired(items.last()))
    }
}

pub open spec fn repaired_members(members: Seq<MemberView>) -> Seq<MemberView>
    decreases members,
{
    if members.len() == 0 {
        Seq::empty()
    } else {
        repaired_members(members.drop_last()).push(
            MemberView { name: members.last().name, value: repaired(members.last().value) },
        )
    }
}

pub proof fn lemma_repaired_items(items: Seq<JsonView>)
    ensures
        repaired_items(items).len() == items.len(),
        forall|i: int|
            0 <= i < items.len() ==> #[trigger] repaired_items(items)[i] == repaired(items[i]),
    decreases items.len(),
{
    if items.len() > 0 {
        lemma_repaired_items(items.drop_last());
    }
}

pub proof fn lemma_repaired_members(members: Seq<MemberView>)
    ensures
        repaired_members(members).len() == members.len(),
        forall|i: int|
            0 <= i < members.len() ==> (#[trigger] repaired_members(members)[i])
                == (MemberView { name: members[i].name, value: repaired(members[i].value) }),
    decreases members.len(),
{
    if members.len() > 0 {
        lemma_repaired_members(members.drop_last());
    }
}

/// Makes a document with a single member.
fn make_variant(name: &str, content: Json) -> (r: Json)
    ensures
        r@ == variant(name@, content@),
{
    broadcast use json::lemma_members_view;

    let mut members: Vec<Member> = Vec::new();
    members.push(Member { name: name.to_owned(), value: content });
    assert(json::members_view(members@) =~= seq![MemberView { name: name@, value: content@ }]);
    Json::Object(members)
}

/// Whether an expression is an `AND` or an `OR`, and where its left operand is.
fn find_boolean_left(e: &Json) -> (r: Option<usize>)
    ensures
        match r {
            Some(i) => boolean_left(e@) == Some(i as int),
            None => boolean_left(e@) is None,
        },
{
    broadcast use json::lemma_members_view;

    if !json::has_variant(e, "BinaryOp") {
        return None;
    }
    let parts: &Json = match json::variant_payload(e) {
        Some(p) => p,
        None => {
            return None;
        },
    };
    let boolean: bool = match json::get_field(parts, "op") {
        Some(Json::Text(op)) => text::text_eq(op.as_str(), "And") || text::text_eq(
            op.as_str(),
            "Or",
        ),
        _ => false,
    };
    if !boolean {
        return None;
    }
    match parts {
        Json::Object(members) => {
            let mut i: usize = 0;
            while i < members.len()
                invariant
                    i <= members.len(),
                    boolean_left(e@) == json::member_index(
                        json::members_view(members@),
                        "left"@,
                        0,
                    ),
                    json::member_index(json::members_view(members@), "left"@, 0)
                        == json::member_index(json::members_view(members@), "left"@, i as int),
                decreases members.len() - i,
            {
                broadcast use json::lemma_members_view;

                if text::text_eq(members[i].name.as_str(), "left") {
                    return Some(i);
                }
                i = i + 1;
            }
            None
        },
        _ => None,
    }
}

/// Takes the value out of a member, and puts `null` in its place.
fn take_value(members: &mut Vec<Member>, i: usize) -> (r: Json)
    requires
        i < old(members)@.len(),
    ensures
        r == old(members)@[i as int].value,
        final(members)@ == old(members)@.update(
            i as int,
            Member { name: old(members)@[i as int].name, value: Json::Null },
        ),
{
    let mut value = Json::Null;
    std::mem::swap(&mut members[i].value, &mut value);
    value
}

fn put_value(members: &mut Vec<Member>, i: usize, value: Json)
    requires
        i < old(members)@.len(),
    ensures
        final(members)@ == old(members)@.update(
            i as int,
            Member { name: old(members)@[i as int].name, value },
        ),
{
    members[i].value = value;
}

fn take_item(items: &mut Vec<Json>, i: usize) -> (r: Json)
    requires
        i < old(items)@.len(),
    ensures
        r == old(items)@[i as int],
        final(items)@ == old(items)@.update(i as int, Json::Null),
{
    let mut value = Json::Null;
    std::mem::swap(&mut items[i], &mut value);
    value
}

fn reassociate_distinct_boolean_rhs(left: Json, right: Json, test: &str) -> (r: Json)
    ensures
        r@ == reassociated(left@, right@, test@),
    decreases json::size(right@),
{
    broadcast use {json::lemma_members_view, json::lemma_items_view};

    match find_boolean_left(&right) {
        Some(i) => {
            let ghost parts = members_of(json::payload(right@));
            proof {
                lemma_boolean_left(right@);
            }
            match right {
                Json::Object(mut outer) => {
                    let ghost outer_view = json::members_view(outer@);
                    assert(outer_view.len() == 1);
                    let content = take_value(&mut outer, 0);
                    assert(content@ == outer_view[0].value);
                    match content {
                        Json::Object(mut inner) => {
                            assert(json::members_view(inner@) == parts);
                            let ghost before = inner@;
                            let operand = take_value(&mut inner, i);
                            assert(operand@ == parts[i as int].value);
                            let fixed = reassociate_distinct_boolean_rhs(left, operand, test);
                            put_value(&mut inner, i, fixed);
                            assert(json::members_view(inner@) =~= with_value(
                                parts,
                                i as int,
                                fixed@,
                            ));
                            make_variant("BinaryOp", Json::Object(inner))
                        },
                        other => other,
                    }
                },
                other => other,
            }
        },
        None => {
            let mut operands: Vec<Json> = Vec::new();
            operands.push(left);
            operands.push(right);
            assert(json::items_view(operands@) =~= seq![left@, right@]);
            make_variant(test, Json::Array(operands))
        },
    }
}

/// Whether a node is a distinctness test over two operands.
fn is_distinct_node(j: &Json) -> (r: bool)
    ensures
        r == (match (json::variant_name(j@), json::payload(j@)) {
            (Some(name), JsonView::Array(operands)) => is_distinct_test(name) && operands.len()
                == 2,
            _ => false,
        }),
{
    broadcast use json::lemma_items_view;

    if !(json::has_variant(j, "IsDistinctFrom") || json::has_variant(j, "IsNotDistinctFrom")) {
        return false;
    }
    match json::variant_payload(j) {
        Some(Json::Array(operands)) => {
            assert(json::items_view(operands@).len() == operands@.len());
            operands.len() == 2
        },
        _ => false,
    }
}

fn repair_node(j: Json) -> (r: Json)
    ensures
        r@ == repaired_node(j@),
{
    broadcast use {json::lemma_members_view, json::lemma_items_view};

    if !is_distinct_node(&j) {
        return j;
    }
    match j {
        Json::Object(mut outer) => {
            let ghost outer_view = json::members_view(outer@);
            assert(outer_view.len() == 1);
            let name = outer[0].name.clone();
            let content = take_value(&mut outer, 0);
            assert(content@ == outer_view[0].value);
            assert(name@ == outer_view[0].name);
            match content {
                Json::Array(mut operands) => {
                    let ghost both = json::items_view(operands@);
                    assert(both.len() == 2);
                    let right = take_item(&mut operands, 1);
                    let left = take_item(&mut operands, 0);
                    assert(left@ == both[0]);
                    assert(right@ == both[1]);
                    reassociate_distinct_boolean_rhs(left, right, name.as_str())
                },
                other => other,
            }
        },
        other => other,
    }
}

/// A list that is being repaired: what is before the position has been, what is at it
/// has been taken out, and what is behind it is yet to be.
enum Unfinished {
    Items(Vec<Json>, usize),
    Members(Vec<Member>, usize),
}

/// A list with the value at a position, and what is behind it repaired.
spec fn items_completed(items: Seq<JsonView>, at: int, value: JsonView) -> Seq<JsonView> {
    Seq::new(
        items.len(),
        |k: int|
            if k < at {
                items[k]
            } else if k == at {
                value
            } else {
                repaired(items[k])
            },
    )
}

spec fn members_completed(members: Seq<MemberView>, at: int, value: JsonView) -> Seq<MemberView> {
    Seq::new(
        members.len(),
        |k: int|
            MemberView {
                name: members[k].name,
                value: if k < at {
                    members[k].value
                } else if k == at {
                    value
                } else {
                    repaired(members[k].value)
                },
            },
    )
}

/// What becomes of an unfinished list with the value that was taken out of it.
spec fn completed(u: Unfinished, value: JsonView) -> JsonView {
    match u {
        Unfinished::Items(items, at) => repaired_node(
            JsonView::Array(items_completed(json::items_view(items@), at as int, value)),
        ),
        Unfinished::Members(members, at) => repaired_node(
            JsonView::Object(members_completed(json::members_view(members@), at as int, value)),
        ),
    }
}

/// What becomes of a value within unfinished lists, the innermost last.
spec fn finished(stack: Seq<Unfinished>, value: JsonView) -> JsonView
    decreases stack.len(),
{
    if stack.len() == 0 {
        value
    } else {
        finished(stack.drop_last(), completed(stack.last(), value))
    }
}

/// The position of an unfinished list is in it.
spec fn in_place(u: Unfinished) -> bool {
    match u {
        Unfinished::Items(items, at) => at < items@.len(),
        Unfinished::Members(members, at) => at < members@.len(),
    }
}

/// The size of what is yet to be repaired in an unfinished list.
spec fn left_in(u: Unfinished) -> nat {
    match u {
        Unfinished::Items(items, at) => json::items_size(
            json::items_view(items@).skip(at as int + 1),
        ),
        Unfinished::Members(members, at) => json::members_size(
            json::members_view(members@).skip(at as int + 1),
        ),
    }
}

spec fn left_in_all(stack: Seq<Unfinished>) -> nat
    decreases stack.len(),
{
    if stack.len() == 0 {
        0
    } else {
        left_in(stack.last()) + left_in_all(stack.drop_last())
    }
}

proof fn lemma_first_item_size(items: Seq<JsonView>)
    requires
        items.len() > 0,
    ensures
        json::items_size(items) == json::size(items[0]) + json::items_size(items.skip(1)),
    decreases items.len(),
{
    if items.len() == 1 {
        assert(items.skip(1) =~= items.drop_last());
    } else {
        lemma_first_item_size(items.drop_last());
        assert(items.drop_last().skip(1) =~= items.skip(1).drop_last());
        assert(items.skip(1).last() == items.last());
    }
}

proof fn lemma_first_member_size(members: Seq<MemberView>)
    requires
        members.len() > 0,
    ensures
        json::members_size(members) == json::size(members[0].value) + json::members_size(
            members.skip(1),
        ),
    decreases members.len(),
{
    if members.len() == 1 {
        assert(members.skip(1) =~= members.drop_last());
    } else {
        lemma_first_member_size(members.drop_last());
        assert(members.drop_last().skip(1) =~= members.skip(1).drop_last());
        assert(members.skip(1).last() == members.last());
    }
}

proof fn lemma_on_top(stack: Seq<Unfinished>, u: Unfinished, value: JsonView)
    ensures
        finished(stack.push(u), value) == finished(stack, completed(u, value)),
        left_in_all(stack.push(u)) == left_in(u) + left_in_all(stack),
{
    assert(stack.push(u).drop_last() =~= stack);
}

/// A step into a document or out of one: the value that it leads to, whether that is
/// yet to be repaired, and the unfinished list that it is in.
struct Step {
    value: Json,
    pending: bool,
    within: Option<Unfinished>,
}

spec fn step_value(s: Step) -> JsonView {
    if s.pending {
        repaired(s.value@)
    } else {
        s.value@
    }
}

/// What becomes of the value of a step in the list that it leads into.
spec fn step_result(s: Step) -> JsonView {
    match s.within {
        Some(u) => completed(u, step_value(s)),
        None => step_value(s),
    }
}

/// The size of what a step leaves to be repaired.
spec fn step_left(s: Step) -> nat {
    (if s.pending {
        json::size(s.value@)
    } else {
        0
    }) + (match s.within {
        Some(u) => left_in(u),
        None => 0,
    })
}

spec fn step_in_place(s: Step) -> bool {
    s.within matches Some(u) ==> in_place(u)
}

/// The first step into a document.
fn step_into(j: Json) -> (s: Step)
    ensures
        step_result(s) == repaired(j@),
        step_left(s) < json::size(j@),
        step_in_place(s),
        s.within is None ==> !s.pending,
{
    broadcast use {json::lemma_members_view, json::lemma_items_view};

    match j {
        Json::Array(mut items) => {
            let ghost all = json::items_view(items@);
            proof {
                lemma_repaired_items(all);
            }
            if items.len() == 0 {
                assert(repaired_items(all) =~= all);
                return Step { value: repair_node(Json::Array(items)), pending: false, within: None };
            }
            let value = take_item(&mut items, 0);
            proof {
                let now = json::items_view(items@);
                lemma_first_item_size(all);
                assert(now.skip(1) =~= all.skip(1));
                assert(items_completed(now, 0, repaired(value@)) =~= repaired_items(all));
            }
            Step { value, pending: true, within: Some(Unfinished::Items(items, 0)) }
        },
        Json::Object(mut members) => {
            let ghost all = json::members_view(members@);
            proof {
                lemma_repaired_members(all);
            }
            if members.len() == 0 {
                assert(repaired_members(all) =~= all);
                return Step {
                    value: repair_node(Json::Object(members)),
                    pending: false,
                    within: None,
                };
            }
            let value = take_value(&mut members, 0);
            proof {
                let now = json::members_view(members@);
                lemma_first_member_size(all);
                assert(now.skip(1) =~= all.skip(1));
                assert(members_completed(now, 0, repaired(value@)) =~= repaired_members(all));
            }
            Step { value, pending: true, within: Some(Unfinished::Members(members, 0)) }
        },
        other => Step { value: other, pending: false, within: None },
    }
}

/// The step out of a list with the value that was taken out of it, repaired.
fn step_out(u: Unfinished, value: Json) -> (s: Step)
    requires
        in_place(u),
    ensures
        step_result(s) == completed(u, value@),
        step_left(s) == left_in(u),
        step_in_place(s),
        s.pending == (s.within is Some),
{
    broadcast use {json::lemma_members_view, json::lemma_items_view};

    match u {
        Unfinished::Items(mut items, at) => {
            let ghost before = json::items_view(items@);
            let ghost kept = value@;
            items[at] = value;
            let ghost filled = json::items_view(items@);
            assert(filled =~= before.update(at as int, kept));
            let len = items.len();
            assert(at < len);
            if at + 1 == len {
                assert(items_completed(before, at as int, kept) =~= filled);
                assert(before.skip(at as int + 1) =~= Seq::<JsonView>::empty());
                return Step { value: repair_node(Json::Array(items)), pending: false, within: None };
            }
            let next = take_item(&mut items, at + 1);
            proof {
                let now = json::items_view(items@);
                lemma_first_item_size(before.skip(at as int + 1));
                assert(before.skip(at as int + 1).skip(1) =~= now.skip(at as int + 2));
                assert(items_completed(now, at as int + 1, repaired(next@)) =~= items_completed(
                    before,
                    at as int,
                    kept,
                ));
            }
            Step { value: next, pending: true, within: Some(Unfinished::Items(items, at + 1)) }
        },
        Unfinished::Members(mut members, at) => {
            let ghost before = json::members_view(members@);
            let ghost kept = value@;
            put_value(&mut members, at, value);
            let ghost filled = json::members_view(members@);
            assert(filled =~= with_value(before, at as int, kept));
            let len = members.len();
            assert(at < len);
            if at + 1 == len {
                assert(members_completed(before, at as int, kept) =~= filled);
                assert(before.skip(at as int + 1) =~= Seq::<MemberView>::empty());
                return Step {
                    value: repair_node(Json::Object(members)),
                    pending: false,
                    within: None,
                };
            }
            let next = take_value(&mut members, at + 1);
            proof {
                let now = json::members_view(members@);
                lemma_first_member_size(before.skip(at as int + 1));
                assert(before.skip(at as int + 1).skip(1) =~= now.skip(at as int + 2));
                assert(members_completed(now, at as int + 1, repaired(next@))
                    =~= members_completed(before, at as int, kept));
            }
            Step { value: next, pending: true, within: Some(Unfinished::Members(members, at + 1)) }
        },
    }
}

/// Repairs the precedence everywhere in a statement, on an explicit stack.
pub fn restore_postgres_distinct_boolean_precedence(j: Json) -> (r: Json)
    ensures
        r@ == repaired(j@),
{
    let ghost whole = repaired(j@);
    let mut stack: Vec<Unfinished> = Vec::new();
    let mut value = j;
    let mut pending = true;
    while pending || stack.len() > 0
        invariant
            whole == finished(
                stack@,
                if pending {
                    repaired(value@)
                } else {
                    value@
                },
            ),
            forall|k: int| 0 <= k < stack@.len() ==> in_place(#[trigger] stack@[k]),
        decreases
                left_in_all(stack@) + (if pending {
                    json::size(value@)
                } else {
                    0
                }),
                2 * stack@.len() + (if pending {
                    0nat
                } else {
                    1nat
                }),
    {
        let ghost before = stack@;
        let step = if pending {
            step_into(value)
        } else {
            let u = stack.pop().unwrap();
            proof {
                assert(before.drop_last() =~= stack@);
                assert(in_place(before[before.len() - 1]));
            }
            step_out(u, value)
        };
        value = step.value;
        pending = step.pending;
        match step.within {
            Some(u) => {
                proof {
                    lemma_on_top(
                        stack@,
                        u,
                        if pending {
                            repaired(value@)
                        } else {
                            value@
                        },
                    );
                }
                stack.push(u);
            },
            None => {},
        }
    }
    value
}

/// The node is no distinctness test with an unparenthesised `AND` or `OR` as its
/// right operand.
pub open spec fn node_binds_tightly(j: JsonView) -> bool {
    match (json::variant_name(j), json::payload(j)) {
        (Some(name), JsonView::Array(operands)) => is_distinct_test(name) && operands.len() == 2
            ==> boolean_left(operands[1]) is None,
        _ => true,
    }
}

proof fn lemma_tight_node_kept(j: JsonView)
    requires
        node_binds_tightly(j),
    ensures
        repaired_node(j) == j,
{
    match (json::variant_name(j), json::payload(j)) {
        (Some(name), JsonView::Array(operands)) => {
            if is_distinct_test(name) && operands.len() == 2 {
                assert(operands =~= seq![operands[0], operands[1]]);
                if let JsonView::Object(members) = j {
                    assert(members =~= seq![members[0]]);
                }
            }
        },
        _ => {},
    }
}

/// No distinctness test in the document has an unparenthesised `AND` or `OR` as
/// its right operand.
pub open spec fn binds_tightly(j: JsonView) -> bool
    decreases j,
{
    &&& node_binds_tightly(j)
    &&& match j {
        JsonView::Array(items) => items_bind_tightly(items),
        JsonView::Object(members) => members_bind_tightly(members),
        _ => true,
    }
}

pub open spec fn items_bind_tightly(items: Seq<JsonView>) -> bool
    decreases items,
{
    items.len() == 0 || (items_bind_tightly(items.drop_last()) && binds_tightly(items.last()))
}

pub open spec fn members_bind_tightly(members: Seq<MemberView>) -> bool
    decreases members,
{
    members.len() == 0 || (members_bind_tightly(members.drop_last()) && binds_tightly(
        members.last().value,
    ))
}

proof fn lemma_items_bind(items: Seq<JsonView>)
    ensures
        items_bind_tightly(items) <==> (forall|i: int|
            0 <= i < items.len() ==> binds_tightly(#[trigger] items[i])),
    decreases items.len(),
{
    if items.len() > 0 {
        let rest = items.drop_last();
        lemma_items_bind(rest);
        assert(items.last() == items[items.len() - 1]);
        if items_bind_tightly(items) {
            assert forall|i: int| 0 <= i < items.len() implies binds_tightly(
                #[trigger] items[i],
            ) by {
                if i < rest.len() {
                    assert(rest[i] == items[i]);
                }
            }
        }
        if forall|i: int| 0 <= i < items.len() ==> binds_tightly(#[trigger] items[i]) {
            assert forall|i: int| 0 <= i < rest.len() implies binds_tightly(
                #[trigger] rest[i],
            ) by {
                assert(rest[i] == items[i]);
            }
        }
    }
}

proof fn lemma_members_bind(members: Seq<MemberView>)
    ensures
        members_bind_tightly(members) <==> (forall|i: int|
            0 <= i < members.len() ==> binds_tightly((#[trigger] members[i]).value)),
    decreases members.len(),
{
    if members.len() > 0 {
        let rest = members.drop_last();
        lemma_members_bind(rest);
        assert(members.last() == members[members.len() - 1]);
        if members_bind_tightly(members) {
            assert forall|i: int| 0 <= i < members.len() implies binds_tightly(
                (#[trigger] members[i]).value,
            ) by {
                if i < rest.len() {
                    assert(rest[i] == members[i]);
                }
            }
        }
        if forall|i: int| 0 <= i < members.len() ==> binds_tightly((#[trigger] members[i]).value) {
            assert forall|i: int| 0 <= i < rest.len() implies binds_tightly(
                (#[trigger] rest[i]).value,
            ) by {
                assert(rest[i] == members[i]);
            }
        }
    }
}

proof fn lemma_names_differ()
    ensures
        !is_distinct_test("BinaryOp"@),
{
    reveal_strlit("BinaryOp");
    reveal_strlit("IsDistinctFrom");
    reveal_strlit("IsNotDistinctFrom");
    assert("BinaryOp"@.len() == 8);
}

proof fn lemma_reassociated_binds(left: JsonView, right: JsonView, test: Seq<char>)
    requires
        binds_tightly(left),
        binds_tightly(right),
        is_distinct_test(test),
    ensures
        binds_tightly(reassociated(left, right, test)),
    decreases json::size(right),
{
    lemma_boolean_left(right);
    lemma_names_differ();
    match boolean_left(right) {
        Some(i) => {
            let parts = members_of(json::payload(right));
            let outer = members_of(right);
            lemma_members_bind(outer);
            assert(binds_tightly(outer[0].value));
            lemma_members_bind(parts);
            assert(binds_tightly(parts[i].value));
            let inner = reassociated(left, parts[i].value, test);
            lemma_reassociated_binds(left, parts[i].value, test);
            let fixed = with_value(parts, i, inner);
            lemma_members_bind(fixed);
            assert forall|k: int| 0 <= k < fixed.len() implies binds_tightly(
                (#[trigger] fixed[k]).value,
            ) by {
                if k != i {
                    assert(fixed[k] == parts[k]);
                    assert(binds_tightly(parts[k].value));
                }
            }
            let content = JsonView::Object(fixed);
            let whole = variant("BinaryOp"@, content);
            assert(json::variant_name(content) is Some ==> fixed.len() == 1);
            assert(node_binds_tightly(content)) by {
                if fixed.len() == 1 {
                    assert(fixed[0].name == "left"@);
                    reveal_strlit("left");
                    reveal_strlit("IsDistinctFrom");
                    reveal_strlit("IsNotDistinctFrom");
                    assert("left"@.len() == 4);
                }
            }
            assert(binds_tightly(content));
            lemma_members_bind(members_of(whole));
            assert(members_of(whole).len() == 1);
            assert(binds_tightly(whole));
        },
        None => {
            let operands = seq![left, right];
            let content = JsonView::Array(operands);
            lemma_items_bind(operands);
            assert(binds_tightly(content));
            let whole = variant(test, content);
            lemma_members_bind(members_of(whole));
            assert(members_of(whole).len() == 1);
            assert(binds_tightly(whole));
        },
    }
}

/// After the repair every distinctness test binds more tightly than `AND` and
/// `OR`.
pub proof fn law_repaired_binds_tightly(j: JsonView)
    ensures
        binds_tightly(repaired(j)),
    decreases json::size(j),
{
    match j {
        JsonView::Array(items) => {
            lemma_repaired_items(items);
            let fixed = repaired_items(items);
            assert forall|i: int| 0 <= i < fixed.len() implies binds_tightly(
                #[trigger] fixed[i],
            ) by {
                json::lemma_item_size(items, i);
                law_repaired_binds_tightly(items[i]);
            }
            lemma_items_bind(fixed);
            assert(repaired(j) == JsonView::Array(fixed));
        },
        JsonView::Object(members) => {
            lemma_repaired_members(members);
            let fixed = repaired_members(members);
            assert forall|i: int| 0 <= i < fixed.len() implies binds_tightly(
                (#[trigger] fixed[i]).value,
            ) by {
                json::lemma_member_size(members, i);
                law_repaired_binds_tightly(members[i].value);
            }
            lemma_members_bind(fixed);
            let node = JsonView::Object(fixed);
            match (json::variant_name(node), json::payload(node)) {
                (Some(name), JsonView::Array(operands)) => {
                    if is_distinct_test(name) && operands.len() == 2 {
                        assert(binds_tightly(fixed[0].value));
                        lemma_items_bind(operands);
                        assert(binds_tightly(operands[0]));
                        assert(binds_tightly(operands[1]));
                        lemma_reassociated_binds(operands[0], operands[1], name);
                    }
                },
                _ => {},
            }
        },
        _ => {},
    }
}

/// A document that needs no repair is left as it is, so repairing twice is
/// repairing once.
pub proof fn law_repair_keeps_tight(j: JsonView)
    requires
        binds_tightly(j),
    ensures
        repaired(j) == j,
    decreases json::size(j),
{
    lemma_tight_node_kept(j);
    match j {
        JsonView::Array(items) => {
            lemma_items_bind(items);
            lemma_repaired_items(items);
            assert forall|i: int| 0 <= i < items.len() implies #[trigger] repaired_items(items)[i]
                == items[i] by {
                json::lemma_item_size(items, i);
                law_repair_keeps_tight(items[i]);
            }
            assert(repaired_items(items) =~= items);
        },
        JsonView::Object(members) => {
            lemma_members_bind(members);
            lemma_repaired_members(members);
            assert forall|i: int| 0 <= i < members.len() implies #[trigger] repaired_members(
                members,
            )[i] == members[i] by {
                json::lemma_member_size(members, i);
                law_repair_keeps_tight(members[i].value);
            }
            assert(repaired_members(members) =~= members);
        },
        _ => {},
    }
}

} // verus!
