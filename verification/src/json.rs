//! JSON documents as plain trees.
use vstd::prelude::*;
use crate::text;

verus! {

/// A JSON document. A number is kept as the text it is written with.
#[derive(Debug)]
pub enum Json {
    Null,
    Bool(bool),
    Number(String),
    Text(String),
    Array(Vec<Json>),
    Object(Vec<Member>),
}

/// One entry of a JSON object.
#[derive(Debug)]
pub struct Member {
    pub name: String,
    pub value: Json,
}

/// What a JSON document holds.
pub enum JsonView {
    Null,
    Bool(bool),
    Number(Seq<char>),
    Text(Seq<char>),
    Array(Seq<JsonView>),
    Object(Seq<MemberView>),
}

pub struct MemberView {
    pub name: Seq<char>,
    pub value: JsonView,
}

pub open spec fn json_view(j: Json) -> JsonView
    decreases j,
{
    match j {
        Json::Null => JsonView::Null,
        Json::Bool(b) => JsonView::Bool(b),
        Json::Number(n) => JsonView::Number(n@),
        Json::Text(s) => JsonView::Text(s@),
        Json::Array(items) => JsonView::Array(items_view(items@)),
        Json::Object(members) => JsonView::Object(members_view(members@)),
    }
}

pub open spec fn items_view(items: Seq<Json>) -> Seq<JsonView>
    decreases items,
{
    if items.len() == 0 {
        Seq::empty()
    } else {
        items_view(items.drop_last()).push(json_view(items.last()))
    }
}

pub open spec fn members_view(members: Seq<Member>) -> Seq<MemberView>
    decreases members,
{
    if members.len() == 0 {
        Seq::empty()
    } else {
        members_view(members.drop_last()).push(
            MemberView { name: members.last().name@, value: json_view(members.last().value) },
        )
    }
}

impl View for Json {
    type V = JsonView;

    open spec fn view(&self) -> JsonView {
        json_view(*self)
    }
}

pub broadcast proof fn lemma_items_view(items: Seq<Json>)
    ensures
        (#[trigger] items_view(items)).len() == items.len(),
        forall|i: int| 0 <= i < items.len() ==> #[trigger] items_view(items)[i] == items[i]@,
    decreases items.len(),
{
    if items.len() > 0 {
        lemma_items_view(items.drop_last());
    }
}

pub broadcast proof fn lemma_members_view(members: Seq<Member>)
    ensures
        (#[trigger] members_view(members)).len() == members.len(),
        forall|i: int|
            0 <= i < members.len() ==> (#[trigger] members_view(members)[i]).name
                == members[i].name@ && members_view(members)[i].value == members[i].value@,
    decreases members.len(),
{
    if members.len() > 0 {
        lemma_members_view(members.drop_last());
    }
}

/// The number of nodes of a document.
pub open spec fn size(j: JsonView) -> nat
    decreases j,
{
    match j {
        JsonView::Array(items) => 1 + items_size(items),
        JsonView::Object(members) => 1 + members_size(members),
        _ => 1,
    }
}

pub open spec fn items_size(items: Seq<JsonView>) -> nat
    decreases items,
{
    if items.len() == 0 {
        0
    } else {
        size(items.last()) + items_size(items.drop_last())
    }
}

pub open spec fn members_size(members: Seq<MemberView>) -> nat
    decreases members,
{
    if members.len() == 0 {
        0
    } else {
        size(members.last().value) + members_size(members.drop_last())
    }
}

pub proof fn lemma_item_size(items: Seq<JsonView>, i: int)
    requires
        0 <= i < items.len(),
    ensures
        size(items[i]) <= items_size(items),
    decreases items.len(),
{
    if i < items.len() - 1 {
        lemma_item_size(items.drop_last(), i);
    }
}

pub proof fn lemma_member_size(members: Seq<MemberView>, i: int)
    requires
        0 <= i < members.len(),
    ensures
        size(members[i].value) <= members_size(members),
    decreases members.len(),
{
    if i < members.len() - 1 {
        lemma_member_size(members.drop_last(), i);
    }
}

/// The position of the first member with a name, at or after `from`.
pub open spec fn member_index(members: Seq<MemberView>, name: Seq<char>, from: int) -> Option<int>
    decreases members.len() - from,
{
    if from < 0 || from >= members.len() {
        None
    } else if members[from].name == name {
        Some(from)
    } else {
        member_index(members, name, from + 1)
    }
}

pub proof fn lemma_member_index(members: Seq<MemberView>, name: Seq<char>, from: int)
    ensures
        member_index(members, name, from) matches Some(i) ==> from <= i < members.len()
            && members[i].name == name,
    decreases members.len() - from,
{
    if from < 0 || from >= members.len() {
    } else if members[from].name == name {
    } else {
        lemma_member_index(members, name, from + 1);
    }
}

/// The values under two names are smaller than the document together.
pub proof fn lemma_two_fields(j: JsonView, a: Seq<char>, b: Seq<char>)
    requires
        a != b,
    ensures
        match (field(j, a), field(j, b)) {
            (Some(v), Some(w)) => size(v) + size(w) < size(j),
            _ => true,
        },
{
    if let JsonView::Object(members) = j {
        lemma_member_index(members, a, 0);
        lemma_member_index(members, b, 0);
        if let (Some(i), Some(k)) = (member_index(members, a, 0), member_index(members, b, 0)) {
            if i < k {
                lemma_two_members(members, i, k);
            } else {
                lemma_two_members(members, k, i);
            }
        }
    }
}

proof fn lemma_two_members(members: Seq<MemberView>, i: int, k: int)
    requires
        0 <= i < k < members.len(),
    ensures
        size(members[i].value) + size(members[k].value) <= members_size(members),
    decreases members.len(),
{
    if k == members.len() - 1 {
        lemma_member_size(members.drop_last(), i);
    } else {
        lemma_two_members(members.drop_last(), i, k);
    }
}

/// The value under a name, where the document is an object that has it.
pub open spec fn field(j: JsonView, name: Seq<char>) -> Option<JsonView> {
    match j {
        JsonView::Object(members) => match member_index(members, name, 0) {
            Some(i) => Some(members[i].value),
            None => None,
        },
        _ => None,
    }
}

/// The value under a name, or `null`.
pub open spec fn field_or_null(j: JsonView, name: Seq<char>) -> JsonView {
    match field(j, name) {
        Some(v) => v,
        None => JsonView::Null,
    }
}

pub proof fn lemma_field_size(j: JsonView, name: Seq<char>)
    ensures
        field(j, name) matches Some(v) ==> size(v) < size(j),
{
    if let JsonView::Object(members) = j {
        lemma_member_index(members, name, 0);
        if let Some(i) = member_index(members, name, 0) {
            lemma_member_size(members, i);
        }
    }
}

/// The items of an array; nothing where the document is no array.
pub open spec fn elements(j: JsonView) -> Seq<JsonView> {
    match j {
        JsonView::Array(items) => items,
        _ => Seq::empty(),
    }
}

pub proof fn lemma_element_size(j: JsonView, i: int)
    requires
        0 <= i < elements(j).len(),
    ensures
        size(elements(j)[i]) < size(j),
{
    lemma_item_size(elements(j), i);
}

/// What a document gives where a list is looked for: the items of an array,
/// nothing for `null`, and any other document itself.
pub open spec fn spread(j: JsonView) -> Seq<JsonView> {
    match j {
        JsonView::Array(items) => items,
        JsonView::Null => Seq::empty(),
        _ => seq![j],
    }
}

pub proof fn lemma_spread_size(j: JsonView, i: int)
    requires
        0 <= i < spread(j).len(),
    ensures
        size(spread(j)[i]) <= size(j),
{
    if let JsonView::Array(items) = j {
        lemma_item_size(items, i);
    }
}

/// The name of the variant that a document stands for: a bare string, or an
/// object with one member.
pub open spec fn variant_name(j: JsonView) -> Option<Seq<char>> {
    match j {
        JsonView::Text(s) => Some(s),
        JsonView::Object(members) => if members.len() == 1 {
            Some(members[0].name)
        } else {
            None
        },
        _ => None,
    }
}

/// The content of the variant that a document stands for.
pub open spec fn payload(j: JsonView) -> JsonView {
    match j {
        JsonView::Object(members) => if members.len() == 1 {
            members[0].value
        } else {
            JsonView::Null
        },
        _ => JsonView::Null,
    }
}

/// The document stands for the variant with that name.
pub open spec fn is_variant(j: JsonView, name: Seq<char>) -> bool {
    variant_name(j) == Some(name)
}

pub proof fn lemma_payload_size(j: JsonView)
    ensures
        size(payload(j)) <= size(j),
        (j matches JsonView::Object(members) && members.len() == 1) ==> size(payload(j)) < size(j),
{
    if let JsonView::Object(members) = j {
        if members.len() == 1 {
            lemma_member_size(members, 0);
        }
    }
}

/// The value under a name, where the document is an object that has it.
pub fn get_field<'a>(j: &'a Json, name: &str) -> (r: Option<&'a Json>)
    ensures
        match r {
            Some(v) => field(j@, name@) == Some(v@),
            None => field(j@, name@) is None,
        },
{
    broadcast use lemma_members_view;

    match j {
        Json::Object(members) => {
            let mut i: usize = 0;
            while i < members.len()
                invariant
                    i <= members.len(),
                    j@ == JsonView::Object(members_view(members@)),
                    member_index(members_view(members@), name@, 0) == member_index(
                        members_view(members@),
                        name@,
                        i as int,
                    ),
                decreases members.len() - i,
            {
                broadcast use lemma_members_view;

                if text::text_eq(members[i].name.as_str(), name) {
                    return Some(&members[i].value);
                }
                i = i + 1;
            }
            None
        },
        _ => None,
    }
}

/// Whether the document stands for the variant with that name.
pub fn has_variant(j: &Json, name: &str) -> (r: bool)
    ensures
        r == is_variant(j@, name@),
{
    broadcast use lemma_members_view;

    match j {
        Json::Text(s) => text::text_eq(s.as_str(), name),
        Json::Object(members) => {
            assert(members_view(members@).len() == members@.len());
            if members.len() == 1 {
                assert(members_view(members@)[0].name == members@[0].name@);
                text::text_eq(members[0].name.as_str(), name)
            } else {
                false
            }
        },
        _ => false,
    }
}

/// The content of the variant that a document stands for, where it has one.
pub fn variant_payload<'a>(j: &'a Json) -> (r: Option<&'a Json>)
    ensures
        match r {
            Some(v) => payload(j@) == v@ && size(v@) < size(j@),
            None => payload(j@) == JsonView::Null,
        },
{
    broadcast use lemma_members_view;

    proof {
        lemma_payload_size(j@);
    }
    match j {
        Json::Object(members) => {
            assert(members_view(members@).len() == members@.len());
            if members.len() == 1 {
                assert(members_view(members@)[0].value == members@[0].value@);
                Some(&members[0].value)
            } else {
                None
            }
        },
        _ => None,
    }
}

/// The views of borrowed documents.
pub open spec fn refs_view(v: Seq<&Json>) -> Seq<JsonView> {
    v.map_values(|j: &Json| j@)
}

/// Appends what a document gives where a list is looked for.
pub fn push_spread<'a>(out: &mut Vec<&'a Json>, j: Option<&'a Json>)
    ensures
        refs_view(final(out)@) == refs_view(old(out)@) + match j {
            Some(j) => spread(j@),
            None => Seq::empty(),
        },
{
    let ghost before = refs_view(out@);
    match j {
        Some(Json::Array(items)) => {
            broadcast use lemma_items_view;

            let mut i: usize = 0;
            while i < items.len()
                invariant
                    i <= items.len(),
                    refs_view(out@) == before + items_view(items@).take(i as int),
                decreases items.len() - i,
            {
                broadcast use lemma_items_view;

                let ghost prior = out@;
                out.push(&items[i]);
                assert(refs_view(out@) =~= refs_view(prior).push(items@[i as int]@));
                assert(items_view(items@).take(i as int + 1) =~= items_view(items@).take(
                    i as int,
                ).push(items@[i as int]@));
                i = i + 1;
            }
            assert(items_view(items@).take(items@.len() as int) =~= items_view(items@));
        },
        Some(Json::Null) => {},
        Some(one) => {
            let ghost prior = out@;
            out.push(one);
            assert(refs_view(out@) =~= refs_view(prior).push(one@));
            assert(refs_view(out@) =~= before + seq![one@]);
        },
        None => {},
    }
    assert(refs_view(out@) =~= before + match j {
        Some(j) => spread(j@),
        None => Seq::empty(),
    });
}

proof fn lemma_last_item_size(items: Seq<Json>)
    requires
        items.len() > 0,
    ensures
        items_size(items_view(items)) == size(items.last()@) + items_size(
            items_view(items.drop_last()),
        ),
{
    assert(items_view(items).drop_last() =~= items_view(items.drop_last()));
}

proof fn lemma_last_member_size(members: Seq<Member>)
    requires
        members.len() > 0,
    ensures
        members_size(members_view(members)) == size(members.last().value@) + members_size(
            members_view(members.drop_last()),
        ),
{
    assert(members_view(members).drop_last() =~= members_view(members.drop_last()));
}

/// Lets go of documents level by level, so that a deep one takes no deep stack.
pub(crate) fn release(documents: Vec<Json>) {
    let mut rest = documents;
    while rest.len() > 0
        decreases items_size(items_view(rest@)),
    {
        let ghost before = rest@;
        let document = rest.pop().unwrap();
        proof {
            lemma_last_item_size(before);
            assert(before.drop_last() =~= rest@);
        }
        match document {
            Json::Array(items) => {
                let mut items = items;
                let ghost total = items_size(items_view(rest@)) + items_size(items_view(items@));
                while items.len() > 0
                    invariant
                        items_size(items_view(rest@)) + items_size(items_view(items@)) == total,
                    decreases items@.len(),
                {
                    let ghost earlier = rest@;
                    let ghost left = items@;
                    let item = items.pop().unwrap();
                    rest.push(item);
                    proof {
                        lemma_last_item_size(left);
                        assert(left.drop_last() =~= items@);
                        lemma_last_item_size(rest@);
                        assert(rest@.drop_last() =~= earlier);
                    }
                }
            },
            Json::Object(members) => {
                let mut members = members;
                let ghost total = items_size(items_view(rest@)) + members_size(
                    members_view(members@),
                );
                while members.len() > 0
                    invariant
                        items_size(items_view(rest@)) + members_size(members_view(members@))
                            == total,
                    decreases members@.len(),
                {
                    let ghost earlier = rest@;
                    let ghost left = members@;
                    let member = members.pop().unwrap();
                    rest.push(member.value);
                    proof {
                        lemma_last_member_size(left);
                        assert(left.drop_last() =~= members@);
                        lemma_last_item_size(rest@);
                        assert(rest@.drop_last() =~= earlier);
                    }
                }
            },
            _ => {},
        }
    }
}

/// The digit of a number below sixteen, in lower case.
pub open spec fn hex_digit(n: nat) -> char {
    "0123456789abcdef"@[n as int]
}

/// How a character of a string is written in a JSON text.
pub open spec fn escaped_char(c: char) -> Seq<char> {
    if c == '"' || c == '\\' {
        seq!['\\', c]
    } else if c as u32 == 8 {
        seq!['\\', 'b']
    } else if c == '\t' {
        seq!['\\', 't']
    } else if c == '\n' {
        seq!['\\', 'n']
    } else if c as u32 == 12 {
        seq!['\\', 'f']
    } else if c == '\r' {
        seq!['\\', 'r']
    } else if (c as u32) < 32 {
        seq!['\\', 'u', '0', '0', hex_digit(c as nat / 16), hex_digit(c as nat % 16)]
    } else {
        seq![c]
    }
}

pub open spec fn escaped_text(s: Seq<char>) -> Seq<char>
    decreases s.len(),
{
    if s.len() == 0 {
        Seq::empty()
    } else {
        escaped_text(s.drop_last()) + escaped_char(s.last())
    }
}

/// The JSON text of a string.
pub open spec fn serde_json_string(s: Seq<char>) -> Seq<char> {
    seq!['"'] + escaped_text(s) + seq!['"']
}

/// `serde_json::to_string` of a string. Claims that it puts the string in quotes, with
/// quotes, backslashes and control characters escaped like that.
#[verifier::external_body]
pub(crate) fn json_string(s: &str) -> (r: String)
    ensures
        r@ == serde_json_string(s@),
{
    serde_json::to_string(s).expect("a string has a JSON text")
}

} // verus!
