//! From the tree of a parsed statement to the parts that planning reads.
use vstd::prelude::*;
use crate::ast::{ExprKind, Role};
use crate::depth;
use crate::json;
use crate::json::{Json, JsonView};
use crate::text;

verus! {

/// A part of a statement and how it is written.
#[derive(Debug)]
pub struct WrittenPart {
    pub tree: Json,
    pub text: String,
}

/// What is known of the parts of a statement: how those are written that are kept as
/// they are written, which names are those of aggregates and of spatial predicates, in
/// lower case, and which expressions are constant paths into a document.
#[derive(Debug)]
pub struct Reader {
    pub parts: Vec<WrittenPart>,
    pub aggregates: Vec<String>,
    pub spatial_predicates: Vec<String>,
    pub constant_paths: Vec<Json>,
}

/// How a part is written, from a position in the list on.
pub open spec fn written_from(parts: Seq<WrittenPart>, tree: JsonView, from: int) -> Option<
    Seq<char>,
>
    decreases parts.len() - from,
{
    if from < 0 || from >= parts.len() {
        None
    } else if parts[from].tree@ == tree {
        Some(parts[from].text@)
    } else {
        written_from(parts, tree, from + 1)
    }
}

impl Reader {
    /// How a part is written.
    pub open spec fn written(self, tree: JsonView) -> Option<Seq<char>> {
        written_from(self.parts@, tree, 0)
    }

    /// The expression is a constant path.
    pub open spec fn is_constant_path(self, tree: JsonView) -> bool {
        exists|k: int| 0 <= k < self.constant_paths@.len() && (#[trigger] self.constant_paths@[k])@ == tree
    }
}

fn same_items(a: &Vec<Json>, b: &Vec<Json>) -> (r: bool)
    ensures
        r == (json::items_view(a@) == json::items_view(b@)),
    decreases a,
{
    broadcast use json::lemma_items_view;

    if a.len() != b.len() {
        return false;
    }
    let mut i: usize = 0;
    while i < a.len()
        invariant
            i <= a.len(),
            a@.len() == b@.len(),
            forall|k: int| 0 <= k < i ==> (#[trigger] a@[k])@ == b@[k]@,
        decreases a.len() - i,
    {
        broadcast use json::lemma_items_view;

        if !same_json(&a[i], &b[i]) {
            assert(json::items_view(a@)[i as int] != json::items_view(b@)[i as int]);
            return false;
        }
        i = i + 1;
    }
    assert(json::items_view(a@) =~= json::items_view(b@));
    true
}

fn same_members(a: &Vec<json::Member>, b: &Vec<json::Member>) -> (r: bool)
    ensures
        r == (json::members_view(a@) == json::members_view(b@)),
    decreases a,
{
    broadcast use json::lemma_members_view;

    if a.len() != b.len() {
        return false;
    }
    let mut i: usize = 0;
    while i < a.len()
        invariant
            i <= a.len(),
            a@.len() == b@.len(),
            forall|k: int|
                0 <= k < i ==> (#[trigger] a@[k]).name@ == b@[k].name@ && a@[k].value@ == b@[k].value@,
        decreases a.len() - i,
    {
        broadcast use json::lemma_members_view;

        if !text::text_eq(a[i].name.as_str(), b[i].name.as_str()) || !same_json(
            &a[i].value,
            &b[i].value,
        ) {
            assert(json::members_view(a@)[i as int] != json::members_view(b@)[i as int]);
            return false;
        }
        i = i + 1;
    }
    assert(json::members_view(a@) =~= json::members_view(b@));
    true
}

/// Whether two documents hold the same.
pub fn same_json(a: &Json, b: &Json) -> (r: bool)
    ensures
        r == (a@ == b@),
    decreases a,
{
    match (a, b) {
        (Json::Null, Json::Null) => true,
        (Json::Bool(x), Json::Bool(y)) => *x == *y,
        (Json::Number(x), Json::Number(y)) => text::text_eq(x.as_str(), y.as_str()),
        (Json::Text(x), Json::Text(y)) => text::text_eq(x.as_str(), y.as_str()),
        (Json::Array(x), Json::Array(y)) => same_items(x, y),
        (Json::Object(x), Json::Object(y)) => same_members(x, y),
        _ => false,
    }
}

impl Reader {
    pub(crate) fn find_written(&self, tree: &Json) -> (r: Option<String>)
        ensures
            match (r, self.written(tree@)) {
                (Some(t), Some(view)) => t@ == view,
                (None, None) => true,
                _ => false,
            },
    {
        let mut i: usize = 0;
        while i < self.parts.len()
            invariant
                i <= self.parts.len(),
                self.written(tree@) == written_from(self.parts@, tree@, i as int),
            decreases self.parts.len() - i,
        {
            if same_json(&self.parts[i].tree, tree) {
                return Some(self.parts[i].text.clone());
            }
            i = i + 1;
        }
        None
    }

    pub(crate) fn constant_path(&self, tree: &Json) -> (r: bool)
        ensures
            r == self.is_constant_path(tree@),
    {
        let mut i: usize = 0;
        while i < self.constant_paths.len()
            invariant
                i <= self.constant_paths.len(),
                forall|k: int| 0 <= k < i ==> (#[trigger] self.constant_paths@[k])@ != tree@,
            decreases self.constant_paths.len() - i,
        {
            if same_json(&self.constant_paths[i], tree) {
                return true;
            }
            i = i + 1;
        }
        false
    }
}

/// The variants of expressions and the kinds that they are, in the order of the kinds.
pub open spec fn kind_named(name: Seq<char>) -> Option<ExprKind> {
    if name == "Identifier"@ {
        Some(ExprKind::Identifier)
    } else if name == "CompoundIdentifier"@ {
        Some(ExprKind::CompoundIdentifier)
    } else if name == "CompoundFieldAccess"@ {
        Some(ExprKind::CompoundFieldAccess)
    } else if name == "JsonAccess"@ {
        Some(ExprKind::JsonAccess)
    } else if name == "IsFalse"@ {
        Some(ExprKind::IsFalse)
    } else if name == "IsNotFalse"@ {
        Some(ExprKind::IsNotFalse)
    } else if name == "IsTrue"@ {
        Some(ExprKind::IsTrue)
    } else if name == "IsNotTrue"@ {
        Some(ExprKind::IsNotTrue)
    } else if name == "IsNull"@ {
        Some(ExprKind::IsNull)
    } else if name == "IsNotNull"@ {
        Some(ExprKind::IsNotNull)
    } else if name == "IsUnknown"@ {
        Some(ExprKind::IsUnknown)
    } else if name == "IsNotUnknown"@ {
        Some(ExprKind::IsNotUnknown)
    } else if name == "IsDistinctFrom"@ {
        Some(ExprKind::IsDistinctFrom)
    } else if name == "IsNotDistinctFrom"@ {
        Some(ExprKind::IsNotDistinctFrom)
    } else if name == "IsNormalized"@ {
        Some(ExprKind::IsNormalized)
    } else if name == "InList"@ {
        Some(ExprKind::InList)
    } else if name == "InSubquery"@ {
        Some(ExprKind::InSubquery)
    } else if name == "InUnnest"@ {
        Some(ExprKind::InUnnest)
    } else if name == "Between"@ {
        Some(ExprKind::Between)
    } else if name == "BinaryOp"@ {
        Some(ExprKind::BinaryOp)
    } else if name == "Like"@ {
        Some(ExprKind::Like)
    } else if name == "ILike"@ {
        Some(ExprKind::ILike)
    } else if name == "SimilarTo"@ {
        Some(ExprKind::SimilarTo)
    } else if name == "RLike"@ {
        Some(ExprKind::RLike)
    } else if name == "AnyOp"@ {
        Some(ExprKind::AnyOp)
    } else if name == "AllOp"@ {
        Some(ExprKind::AllOp)
    } else if name == "UnaryOp"@ {
        Some(ExprKind::UnaryOp)
    } else if name == "Convert"@ {
        Some(ExprKind::Convert)
    } else if name == "Cast"@ {
        Some(ExprKind::Cast)
    } else if name == "AtTimeZone"@ {
        Some(ExprKind::AtTimeZone)
    } else if name == "Extract"@ {
        Some(ExprKind::Extract)
    } else if name == "Ceil"@ {
        Some(ExprKind::Ceil)
    } else if name == "Floor"@ {
        Some(ExprKind::Floor)
    } else if name == "Position"@ {
        Some(ExprKind::Position)
    } else if name == "Substring"@ {
        Some(ExprKind::Substring)
    } else if name == "Trim"@ {
        Some(ExprKind::Trim)
    } else if name == "Overlay"@ {
        Some(ExprKind::Overlay)
    } else if name == "Collate"@ {
        Some(ExprKind::Collate)
    } else if name == "Nested"@ {
        Some(ExprKind::Nested)
    } else if name == "Value"@ {
        Some(ExprKind::Value)
    } else if name == "Prefixed"@ {
        Some(ExprKind::Prefixed)
    } else if name == "TypedString"@ {
        Some(ExprKind::TypedString)
    } else if name == "Function"@ {
        Some(ExprKind::Function)
    } else if name == "Case"@ {
        Some(ExprKind::Case)
    } else if name == "Exists"@ {
        Some(ExprKind::Exists)
    } else if name == "Subquery"@ {
        Some(ExprKind::Subquery)
    } else if name == "GroupingSets"@ {
        Some(ExprKind::GroupingSets)
    } else if name == "Cube"@ {
        Some(ExprKind::Cube)
    } else if name == "Rollup"@ {
        Some(ExprKind::Rollup)
    } else if name == "Tuple"@ {
        Some(ExprKind::Tuple)
    } else if name == "Struct"@ {
        Some(ExprKind::Struct)
    } else if name == "Named"@ {
        Some(ExprKind::Named)
    } else if name == "Dictionary"@ {
        Some(ExprKind::Dictionary)
    } else if name == "Map"@ {
        Some(ExprKind::MapLiteral)
    } else if name == "Array"@ {
        Some(ExprKind::Array)
    } else if name == "Interval"@ {
        Some(ExprKind::Interval)
    } else if name == "MatchAgainst"@ {
        Some(ExprKind::MatchAgainst)
    } else if name == "Wildcard"@ {
        Some(ExprKind::Wildcard)
    } else if name == "QualifiedWildcard"@ {
        Some(ExprKind::QualifiedWildcard)
    } else if name == "OuterJoin"@ {
        Some(ExprKind::OuterJoin)
    } else if name == "Prior"@ {
        Some(ExprKind::Prior)
    } else if name == "Lambda"@ {
        Some(ExprKind::Lambda)
    } else if name == "MemberOf"@ {
        Some(ExprKind::MemberOf)
    } else {
        None
    }
}

fn kind_by_name(name: &str) -> (r: Option<ExprKind>)
    ensures
        r == kind_named(name@),
{
    if text::text_eq(name, "Identifier") {
        Some(ExprKind::Identifier)
    } else if text::text_eq(name, "CompoundIdentifier") {
        Some(ExprKind::CompoundIdentifier)
    } else if text::text_eq(name, "CompoundFieldAccess") {
        Some(ExprKind::CompoundFieldAccess)
    } else if text::text_eq(name, "JsonAccess") {
        Some(ExprKind::JsonAccess)
    } else if text::text_eq(name, "IsFalse") {
        Some(ExprKind::IsFalse)
    } else if text::text_eq(name, "IsNotFalse") {
        Some(ExprKind::IsNotFalse)
    } else if text::text_eq(name, "IsTrue") {
        Some(ExprKind::IsTrue)
    } else if text::text_eq(name, "IsNotTrue") {
        Some(ExprKind::IsNotTrue)
    } else if text::text_eq(name, "IsNull") {
        Some(ExprKind::IsNull)
    } else if text::text_eq(name, "IsNotNull") {
        Some(ExprKind::IsNotNull)
    } else if text::text_eq(name, "IsUnknown") {
        Some(ExprKind::IsUnknown)
    } else if text::text_eq(name, "IsNotUnknown") {
        Some(ExprKind::IsNotUnknown)
    } else if text::text_eq(name, "IsDistinctFrom") {
        Some(ExprKind::IsDistinctFrom)
    } else if text::text_eq(name, "IsNotDistinctFrom") {
        Some(ExprKind::IsNotDistinctFrom)
    } else if text::text_eq(name, "IsNormalized") {
        Some(ExprKind::IsNormalized)
    } else if text::text_eq(name, "InList") {
        Some(ExprKind::InList)
    } else if text::text_eq(name, "InSubquery") {
        Some(ExprKind::InSubquery)
    } else if text::text_eq(name, "InUnnest") {
        Some(ExprKind::InUnnest)
    } else if text::text_eq(name, "Between") {
        Some(ExprKind::Between)
    } else if text::text_eq(name, "BinaryOp") {
        Some(ExprKind::BinaryOp)
    } else if text::text_eq(name, "Like") {
        Some(ExprKind::Like)
    } else if text::text_eq(name, "ILike") {
        Some(ExprKind::ILike)
    } else if text::text_eq(name, "SimilarTo") {
        Some(ExprKind::SimilarTo)
    } else if text::text_eq(name, "RLike") {
        Some(ExprKind::RLike)
    } else if text::text_eq(name, "AnyOp") {
        Some(ExprKind::AnyOp)
    } else if text::text_eq(name, "AllOp") {
        Some(ExprKind::AllOp)
    } else if text::text_eq(name, "UnaryOp") {
        Some(ExprKind::UnaryOp)
    } else if text::text_eq(name, "Convert") {
        Some(ExprKind::Convert)
    } else if text::text_eq(name, "Cast") {
        Some(ExprKind::Cast)
    } else if text::text_eq(name, "AtTimeZone") {
        Some(ExprKind::AtTimeZone)
    } else if text::text_eq(name, "Extract") {
        Some(ExprKind::Extract)
    } else if text::text_eq(name, "Ceil") {
        Some(ExprKind::Ceil)
    } else if text::text_eq(name, "Floor") {
        Some(ExprKind::Floor)
    } else if text::text_eq(name, "Position") {
        Some(ExprKind::Position)
    } else if text::text_eq(name, "Substring") {
        Some(ExprKind::Substring)
    } else if text::text_eq(name, "Trim") {
        Some(ExprKind::Trim)
    } else if text::text_eq(name, "Overlay") {
        Some(ExprKind::Overlay)
    } else if text::text_eq(name, "Collate") {
        Some(ExprKind::Collate)
    } else if text::text_eq(name, "Nested") {
        Some(ExprKind::Nested)
    } else if text::text_eq(name, "Value") {
        Some(ExprKind::Value)
    } else if text::text_eq(name, "Prefixed") {
        Some(ExprKind::Prefixed)
    } else if text::text_eq(name, "TypedString") {
        Some(ExprKind::TypedString)
    } else if text::text_eq(name, "Function") {
        Some(ExprKind::Function)
    } else if text::text_eq(name, "Case") {
        Some(ExprKind::Case)
    } else if text::text_eq(name, "Exists") {
        Some(ExprKind::Exists)
    } else if text::text_eq(name, "Subquery") {
        Some(ExprKind::Subquery)
    } else if text::text_eq(name, "GroupingSets") {
        Some(ExprKind::GroupingSets)
    } else if text::text_eq(name, "Cube") {
        Some(ExprKind::Cube)
    } else if text::text_eq(name, "Rollup") {
        Some(ExprKind::Rollup)
    } else if text::text_eq(name, "Tuple") {
        Some(ExprKind::Tuple)
    } else if text::text_eq(name, "Struct") {
        Some(ExprKind::Struct)
    } else if text::text_eq(name, "Named") {
        Some(ExprKind::Named)
    } else if text::text_eq(name, "Dictionary") {
        Some(ExprKind::Dictionary)
    } else if text::text_eq(name, "Map") {
        Some(ExprKind::MapLiteral)
    } else if text::text_eq(name, "Array") {
        Some(ExprKind::Array)
    } else if text::text_eq(name, "Interval") {
        Some(ExprKind::Interval)
    } else if text::text_eq(name, "MatchAgainst") {
        Some(ExprKind::MatchAgainst)
    } else if text::text_eq(name, "Wildcard") {
        Some(ExprKind::Wildcard)
    } else if text::text_eq(name, "QualifiedWildcard") {
        Some(ExprKind::QualifiedWildcard)
    } else if text::text_eq(name, "OuterJoin") {
        Some(ExprKind::OuterJoin)
    } else if text::text_eq(name, "Prior") {
        Some(ExprKind::Prior)
    } else if text::text_eq(name, "Lambda") {
        Some(ExprKind::Lambda)
    } else if text::text_eq(name, "MemberOf") {
        Some(ExprKind::MemberOf)
    } else {
        None
    }
}

/// The kind of an expression. An arrow into a document is an operator of its own kind.
pub open spec fn kind_of(j: JsonView) -> Option<ExprKind> {
    match j {
        JsonView::Object(members) => if members.len() == 1 {
            let op = json::field_or_null(members[0].value, "op"@);
            if members[0].name == "BinaryOp"@ && (op == JsonView::Text("Arrow"@) || op
                == JsonView::Text("LongArrow"@)) {
                Some(ExprKind::JsonArrow)
            } else {
                kind_named(members[0].name)
            }
        } else {
            None
        },
        _ => None,
    }
}

pub(crate) fn is_text(j: Option<&Json>, word: &str) -> (r: bool)
    ensures
        r == (j matches Some(j) && j@ == JsonView::Text(word@)),
{
    match j {
        Some(Json::Text(s)) => text::text_eq(s.as_str(), word),
        _ => false,
    }
}

/// The kind of an expression.
pub fn expr_kind(j: &Json) -> (r: Option<ExprKind>)
    ensures
        r == kind_of(j@),
{
    broadcast use json::lemma_members_view;

    match j {
        Json::Object(members) => {
            assert(j@ == JsonView::Object(json::members_view(members@)));
            if members.len() != 1 {
                return None;
            }
            let name = members[0].name.as_str();
            let op = json::get_field(&members[0].value, "op");
            if text::text_eq(name, "BinaryOp") && (is_text(op, "Arrow") || is_text(op, "LongArrow")) {
                Some(ExprKind::JsonArrow)
            } else {
                kind_by_name(name)
            }
        },
        _ => None,
    }
}

/// The parts of an expression that are its operands, for the kinds that name them, in
/// the order in which they are searched.
pub open spec fn operand_names(kind: ExprKind) -> Seq<Seq<char>> {
    match kind {
        ExprKind::IsFalse | ExprKind::IsNotFalse | ExprKind::IsTrue | ExprKind::IsNotTrue | ExprKind::IsNull | ExprKind::IsNotNull | ExprKind::IsUnknown | ExprKind::IsNotUnknown | ExprKind::IsDistinctFrom | ExprKind::IsNotDistinctFrom | ExprKind::Nested | ExprKind::Tuple | ExprKind::OuterJoin | ExprKind::Prior => seq!["*"@],
        ExprKind::GroupingSets | ExprKind::Cube | ExprKind::Rollup => seq!["**"@],
        ExprKind::IsNormalized | ExprKind::UnaryOp | ExprKind::Cast | ExprKind::Extract | ExprKind::Ceil | ExprKind::Floor | ExprKind::Collate | ExprKind::InSubquery | ExprKind::Named => seq!["expr"@],
        ExprKind::JsonAccess | ExprKind::Prefixed | ExprKind::Interval => seq!["value"@],
        ExprKind::BinaryOp | ExprKind::JsonArrow | ExprKind::AnyOp | ExprKind::AllOp => seq!["left"@, "right"@],
        ExprKind::Like | ExprKind::ILike | ExprKind::SimilarTo | ExprKind::RLike => seq!["expr"@, "pattern"@],
        ExprKind::CompoundFieldAccess => seq!["root"@, "access_chain"@],
        ExprKind::InList => seq!["expr"@, "list"@],
        ExprKind::InUnnest => seq!["expr"@, "array_expr"@],
        ExprKind::Between => seq!["expr"@, "low"@, "high"@],
        ExprKind::Convert => seq!["expr"@, "styles"@],
        ExprKind::AtTimeZone => seq!["timestamp"@, "time_zone"@],
        ExprKind::Position => seq!["expr"@, "in"@],
        ExprKind::Substring => seq!["expr"@, "substring_from"@, "substring_for"@],
        ExprKind::Trim => seq!["trim_what"@, "expr"@, "trim_characters"@],
        ExprKind::Overlay => seq!["expr"@, "overlay_what"@, "overlay_from"@, "overlay_for"@],
        ExprKind::Case => seq!["operand"@, "conditions"@, "else_result"@],
        ExprKind::Struct => seq!["values"@],
        ExprKind::Array => seq!["elem"@],
        ExprKind::Lambda => seq!["body"@],
        ExprKind::MemberOf => seq!["value"@, "array"@],
        _ => Seq::empty(),
    }
}

fn named_operands(kind: ExprKind) -> (r: Vec<&'static str>)
    ensures
        text::slice_views(r@) == operand_names(kind),
{
    match kind {
        ExprKind::IsFalse | ExprKind::IsNotFalse | ExprKind::IsTrue | ExprKind::IsNotTrue | ExprKind::IsNull | ExprKind::IsNotNull | ExprKind::IsUnknown | ExprKind::IsNotUnknown | ExprKind::IsDistinctFrom | ExprKind::IsNotDistinctFrom | ExprKind::Nested | ExprKind::Tuple | ExprKind::OuterJoin | ExprKind::Prior => {
            let names = vec!["*"];
            assert(text::slice_views(names@) =~= operand_names(kind));
            names
        },
        ExprKind::GroupingSets | ExprKind::Cube | ExprKind::Rollup => {
            let names = vec!["**"];
            assert(text::slice_views(names@) =~= operand_names(kind));
            names
        },
        ExprKind::IsNormalized | ExprKind::UnaryOp | ExprKind::Cast | ExprKind::Extract | ExprKind::Ceil | ExprKind::Floor | ExprKind::Collate | ExprKind::InSubquery | ExprKind::Named => {
            let names = vec!["expr"];
            assert(text::slice_views(names@) =~= operand_names(kind));
            names
        },
        ExprKind::JsonAccess | ExprKind::Prefixed | ExprKind::Interval => {
            let names = vec!["value"];
            assert(text::slice_views(names@) =~= operand_names(kind));
            names
        },
        ExprKind::BinaryOp | ExprKind::JsonArrow | ExprKind::AnyOp | ExprKind::AllOp => {
            let names = vec!["left", "right"];
            assert(text::slice_views(names@) =~= operand_names(kind));
            names
        },
        ExprKind::Like | ExprKind::ILike | ExprKind::SimilarTo | ExprKind::RLike => {
            let names = vec!["expr", "pattern"];
            assert(text::slice_views(names@) =~= operand_names(kind));
            names
        },
        ExprKind::CompoundFieldAccess => {
            let names = vec!["root", "access_chain"];
            assert(text::slice_views(names@) =~= operand_names(kind));
            names
        },
        ExprKind::InList => {
            let names = vec!["expr", "list"];
            assert(text::slice_views(names@) =~= operand_names(kind));
            names
        },
        ExprKind::InUnnest => {
            let names = vec!["expr", "array_expr"];
            assert(text::slice_views(names@) =~= operand_names(kind));
            names
        },
        ExprKind::Between => {
            let names = vec!["expr", "low", "high"];
            assert(text::slice_views(names@) =~= operand_names(kind));
            names
        },
        ExprKind::Convert => {
            let names = vec!["expr", "styles"];
            assert(text::slice_views(names@) =~= operand_names(kind));
            names
        },
        ExprKind::AtTimeZone => {
            let names = vec!["timestamp", "time_zone"];
            assert(text::slice_views(names@) =~= operand_names(kind));
            names
        },
        ExprKind::Position => {
            let names = vec!["expr", "in"];
            assert(text::slice_views(names@) =~= operand_names(kind));
            names
        },
        ExprKind::Substring => {
            let names = vec!["expr", "substring_from", "substring_for"];
            assert(text::slice_views(names@) =~= operand_names(kind));
            names
        },
        ExprKind::Trim => {
            let names = vec!["trim_what", "expr", "trim_characters"];
            assert(text::slice_views(names@) =~= operand_names(kind));
            names
        },
        ExprKind::Overlay => {
            let names = vec!["expr", "overlay_what", "overlay_from", "overlay_for"];
            assert(text::slice_views(names@) =~= operand_names(kind));
            names
        },
        ExprKind::Case => {
            let names = vec!["operand", "conditions", "else_result"];
            assert(text::slice_views(names@) =~= operand_names(kind));
            names
        },
        ExprKind::Struct => {
            let names = vec!["values"];
            assert(text::slice_views(names@) =~= operand_names(kind));
            names
        },
        ExprKind::Array => {
            let names = vec!["elem"];
            assert(text::slice_views(names@) =~= operand_names(kind));
            names
        },
        ExprKind::Lambda => {
            let names = vec!["body"];
            assert(text::slice_views(names@) =~= operand_names(kind));
            names
        },
        ExprKind::MemberOf => {
            let names = vec!["value", "array"];
            assert(text::slice_views(names@) =~= operand_names(kind));
            names
        },
        _ => {
            let none: Vec<&'static str> = Vec::new();
            assert(text::slice_views(none@) =~= Seq::empty());
            none
        },
    }
}

/// Nodes that have the same place.
pub open spec fn placed(role: Role, nodes: Seq<JsonView>) -> Seq<(Role, JsonView)> {
    nodes.map_values(|j: JsonView| (role, j))
}

/// The condition and the result of a branch of a CASE.
pub open spec fn branch_exprs(branch: JsonView) -> Seq<JsonView> {
    depth::part(branch, "condition"@) + depth::part(branch, "result"@)
}

/// The expressions of a step of a field access.
pub open spec fn step_exprs(step: JsonView) -> Seq<(Role, JsonView)> {
    let subscript = json::payload(step);
    let bounds = json::payload(subscript);
    if json::is_variant(step, "Dot"@) {
        placed(Role::FieldStep, json::spread(json::payload(step)))
    } else if json::is_variant(step, "Subscript"@) && json::is_variant(subscript, "Index"@) {
        placed(Role::Subscript, depth::part(bounds, "index"@))
    } else if json::is_variant(step, "Subscript"@) && json::is_variant(subscript, "Slice"@) {
        placed(
            Role::Subscript,
            depth::part(bounds, "lower_bound"@) + depth::part(bounds, "upper_bound"@) + depth::part(
                bounds,
                "stride"@,
            ),
        )
    } else {
        Seq::empty()
    }
}

pub open spec fn steps_exprs(steps: Seq<JsonView>) -> Seq<(Role, JsonView)>
    decreases steps.len(),
{
    if steps.len() == 0 {
        Seq::empty()
    } else {
        steps_exprs(steps.drop_last()) + step_exprs(steps.last())
    }
}

/// The operands that a part of an expression holds; `*` is what the expression is made
/// of itself, and `**` the items of the lists that it is made of.
pub open spec fn part_operands(p: JsonView, name: Seq<char>) -> Seq<(Role, JsonView)> {
    if name == "*"@ {
        placed(Role::Operand, json::spread(p))
    } else if name == "**"@ {
        placed(
            Role::Operand,
            depth::gather(json::elements(p), |list: JsonView| json::elements(list)),
        )
    } else if name == "conditions"@ {
        placed(
            Role::Operand,
            depth::gather(
                json::elements(json::field_or_null(p, name)),
                |branch: JsonView| branch_exprs(branch),
            ),
        )
    } else if name == "access_chain"@ {
        steps_exprs(json::elements(json::field_or_null(p, name)))
    } else if name == "array_expr"@ {
        placed(Role::UnnestArray, depth::part(p, name))
    } else {
        placed(Role::Operand, depth::part(p, name))
    }
}

pub open spec fn parts_operands(p: JsonView, names: Seq<Seq<char>>) -> Seq<(Role, JsonView)>
    decreases names.len(),
{
    if names.len() == 0 {
        Seq::empty()
    } else {
        parts_operands(p, names.drop_last()) + part_operands(p, names.last())
    }
}

/// The operands of an expression.
pub open spec fn operands_of(j: JsonView) -> Seq<(Role, JsonView)> {
    match kind_of(j) {
        Some(kind) => parts_operands(json::payload(j), operand_names(kind)),
        None => Seq::empty(),
    }
}

pub open spec fn operand_views(v: Seq<(Role, &Json)>) -> Seq<(Role, JsonView)> {
    v.map_values(|o: (Role, &Json)| (o.0, o.1@))
}

fn place<'a>(out: &mut Vec<(Role, &'a Json)>, role: Role, nodes: &Vec<&'a Json>)
    ensures
        operand_views(final(out)@) == operand_views(old(out)@) + placed(
            role,
            json::refs_view(nodes@),
        ),
{
    let ghost before = operand_views(out@);
    let ghost all = placed(role, json::refs_view(nodes@));
    let mut i: usize = 0;
    assert(operand_views(out@) =~= before + all.take(0));
    while i < nodes.len()
        invariant
            i <= nodes.len(),
            all == placed(role, json::refs_view(nodes@)),
            operand_views(out@) == before + all.take(i as int),
        decreases nodes.len() - i,
    {
        let ghost prior = operand_views(out@);
        out.push((role, nodes[i]));
        assert(operand_views(out@) =~= prior.push(all[i as int]));
        assert(before + all.take(i + 1) =~= (before + all.take(i as int)).push(all[i as int]));
        i = i + 1;
    }
    assert(all.take(all.len() as int) =~= all);
}

fn items_of<'a>(node: Option<&'a Json>) -> (r: Option<&'a Vec<Json>>)
    ensures
        match (node, r) {
            (Some(node), Some(items)) => json::elements(node@) == json::items_view(items@),
            (Some(node), None) => json::elements(node@) == Seq::<JsonView>::empty(),
            (None, r) => r is None,
        },
{
    match node {
        Some(Json::Array(items)) => Some(items),
        Some(node) => {
            assert(json::elements(node@) =~= Seq::<JsonView>::empty());
            None
        },
        None => None,
    }
}

pub(crate) fn listed<'a>(node: Option<&'a Json>) -> (r: Vec<&'a Json>)
    ensures
        json::refs_view(r@) == match node {
            Some(node) => json::elements(node@),
            None => Seq::<JsonView>::empty(),
        },
{
    broadcast use json::lemma_items_view;

    let mut out: Vec<&'a Json> = Vec::new();
    match items_of(node) {
        Some(items) => {
            let ghost all = json::items_view(items@);
            let mut i: usize = 0;
            assert(json::refs_view(out@) =~= all.take(0));
            while i < items.len()
                invariant
                    i <= items.len(),
                    all == json::items_view(items@),
                    json::refs_view(out@) == all.take(i as int),
                decreases items.len() - i,
            {
                broadcast use json::lemma_items_view;

                let ghost prior = json::refs_view(out@);
                out.push(&items[i]);
                assert(json::refs_view(out@) =~= prior.push(all[i as int]));
                assert(all.take(i + 1) =~= all.take(i as int).push(all[i as int]));
                i = i + 1;
            }
            assert(all.take(all.len() as int) =~= all);
        },
        None => {
            assert(json::refs_view(out@) =~= Seq::<JsonView>::empty());
        },
    }
    out
}

fn named_part<'a>(node: Option<&'a Json>, name: &str) -> (r: Vec<&'a Json>)
    ensures
        json::refs_view(r@) == match node {
            Some(node) => depth::part(node@, name@),
            None => Seq::<JsonView>::empty(),
        },
{
    let mut out: Vec<&'a Json> = Vec::new();
    assert(json::refs_view(out@) =~= Seq::<JsonView>::empty());
    match node {
        Some(node) => {
            json::push_spread(&mut out, json::get_field(node, name));
            assert(json::refs_view(out@) =~= depth::part(node@, name@));
        },
        None => {},
    }
    out
}

proof fn lemma_placed_append(role: Role, a: Seq<JsonView>, b: Seq<JsonView>)
    ensures
        placed(role, a + b) == placed(role, a) + placed(role, b),
{
    assert(placed(role, a + b) =~= placed(role, a) + placed(role, b));
}

fn push_step<'a>(out: &mut Vec<(Role, &'a Json)>, step: &'a Json)
    ensures
        operand_views(final(out)@) == operand_views(old(out)@) + step_exprs(step@),
{
    let ghost before = operand_views(out@);
    let subscript = json::variant_payload(step);
    if json::has_variant(step, "Dot") {
        let mut nodes: Vec<&'a Json> = Vec::new();
        assert(json::refs_view(nodes@) =~= Seq::<JsonView>::empty());
        json::push_spread(&mut nodes, subscript);
        place(out, Role::FieldStep, &nodes);
        assert(json::refs_view(nodes@) =~= json::spread(json::payload(step@)));
        return ;
    }
    if json::has_variant(step, "Subscript") {
        if let Some(subscript) = subscript {
            let bounds = json::variant_payload(subscript);
            if json::has_variant(subscript, "Index") {
                let nodes = named_part(bounds, "index");
                place(out, Role::Subscript, &nodes);
                proof {
                    if bounds is None {
                        assert(depth::part(JsonView::Null, "index"@) =~= Seq::<JsonView>::empty());
                    }
                }
                return ;
            }
            if json::has_variant(subscript, "Slice") {
                let lower = named_part(bounds, "lower_bound");
                let upper = named_part(bounds, "upper_bound");
                let stride = named_part(bounds, "stride");
                place(out, Role::Subscript, &lower);
                place(out, Role::Subscript, &upper);
                place(out, Role::Subscript, &stride);
                proof {
                    let a = json::refs_view(lower@);
                    let b = json::refs_view(upper@);
                    let c = json::refs_view(stride@);
                    lemma_placed_append(Role::Subscript, a, b);
                    lemma_placed_append(Role::Subscript, a + b, c);
                    assert(operand_views(out@) =~= before + placed(Role::Subscript, a + b + c));
                    if bounds is None {
                        assert(depth::part(JsonView::Null, "lower_bound"@) =~= a);
                        assert(depth::part(JsonView::Null, "upper_bound"@) =~= b);
                        assert(depth::part(JsonView::Null, "stride"@) =~= c);
                    }
                }
                return ;
            }
        }
    }
    proof {
        if subscript is None {
            assert(json::payload(step@) is Null);
        }
        assert(operand_views(out@) =~= before + step_exprs(step@));
    }
}

fn push_part_operands<'a>(out: &mut Vec<(Role, &'a Json)>, p: &'a Json, name: &str)
    ensures
        operand_views(final(out)@) == operand_views(old(out)@) + part_operands(p@, name@),
{
    broadcast use json::lemma_items_view;

    let ghost before = operand_views(out@);
    if text::text_eq(name, "*") {
        let mut nodes: Vec<&'a Json> = Vec::new();
        assert(json::refs_view(nodes@) =~= Seq::<JsonView>::empty());
        json::push_spread(&mut nodes, Some(p));
        assert(json::refs_view(nodes@) =~= json::spread(p@));
        place(out, Role::Operand, &nodes);
    } else if text::text_eq(name, "**") {
        let lists = listed(Some(p));
        let ghost all = json::refs_view(lists@);
        let ghost f = |list: JsonView| json::elements(list);
        let mut i: usize = 0;
        assert(all.take(0) =~= Seq::<JsonView>::empty());
        assert(operand_views(out@) =~= before + placed(Role::Operand, depth::gather(all.take(0), f)));
        while i < lists.len()
            invariant
                i <= lists.len(),
                all == json::refs_view(lists@),
                f == (|list: JsonView| json::elements(list)),
                operand_views(out@) == before + placed(
                    Role::Operand,
                    depth::gather(all.take(i as int), f),
                ),
            decreases lists.len() - i,
        {
            let nodes = listed(Some(lists[i]));
            place(out, Role::Operand, &nodes);
            proof {
                assert(all.take(i + 1).drop_last() =~= all.take(i as int));
                assert(all.take(i + 1).last() == lists@[i as int]@);
                assert(f(lists@[i as int]@) == json::elements(lists@[i as int]@));
                lemma_placed_append(
                    Role::Operand,
                    depth::gather(all.take(i as int), f),
                    json::elements(lists@[i as int]@),
                );
                assert(operand_views(out@) =~= before + placed(
                    Role::Operand,
                    depth::gather(all.take(i + 1), f),
                ));
            }
            i = i + 1;
        }
        assert(all.take(all.len() as int) =~= all);
    } else if text::text_eq(name, "conditions") {
        let field = json::get_field(p, name);
        let branches = listed(field);
        proof {
            if field is None {
                assert(json::elements(json::field_or_null(p@, name@)) =~= Seq::<JsonView>::empty());
            }
        }
        let ghost all = json::refs_view(branches@);
        let ghost f = |branch: JsonView| branch_exprs(branch);
        let mut i: usize = 0;
        assert(all.take(0) =~= Seq::<JsonView>::empty());
        assert(operand_views(out@) =~= before + placed(Role::Operand, depth::gather(all.take(0), f)));
        while i < branches.len()
            invariant
                i <= branches.len(),
                all == json::refs_view(branches@),
                f == (|branch: JsonView| branch_exprs(branch)),
                operand_views(out@) == before + placed(
                    Role::Operand,
                    depth::gather(all.take(i as int), f),
                ),
            decreases branches.len() - i,
        {
            let condition = named_part(Some(branches[i]), "condition");
            let result = named_part(Some(branches[i]), "result");
            place(out, Role::Operand, &condition);
            place(out, Role::Operand, &result);
            proof {
                let branch = branches@[i as int]@;
                assert(all.take(i + 1).drop_last() =~= all.take(i as int));
                assert(all.take(i + 1).last() == branch);
                assert(f(branch) == branch_exprs(branch));
                lemma_placed_append(
                    Role::Operand,
                    depth::part(branch, "condition"@),
                    depth::part(branch, "result"@),
                );
                lemma_placed_append(
                    Role::Operand,
                    depth::gather(all.take(i as int), f),
                    branch_exprs(branch),
                );
                assert(operand_views(out@) =~= before + placed(
                    Role::Operand,
                    depth::gather(all.take(i + 1), f),
                ));
            }
            i = i + 1;
        }
        assert(all.take(all.len() as int) =~= all);
    } else if text::text_eq(name, "access_chain") {
        let field = json::get_field(p, name);
        let steps = listed(field);
        proof {
            if field is None {
                assert(json::elements(json::field_or_null(p@, name@)) =~= Seq::<JsonView>::empty());
            }
        }
        let ghost all = json::refs_view(steps@);
        let mut i: usize = 0;
        assert(all.take(0) =~= Seq::<JsonView>::empty());
        assert(operand_views(out@) =~= before + steps_exprs(all.take(0)));
        while i < steps.len()
            invariant
                i <= steps.len(),
                all == json::refs_view(steps@),
                operand_views(out@) == before + steps_exprs(all.take(i as int)),
            decreases steps.len() - i,
        {
            push_step(out, steps[i]);
            proof {
                assert(all.take(i + 1).drop_last() =~= all.take(i as int));
                assert(all.take(i + 1).last() == steps@[i as int]@);
                assert(operand_views(out@) =~= before + steps_exprs(all.take(i + 1)));
            }
            i = i + 1;
        }
        assert(all.take(all.len() as int) =~= all);
    } else {
        let nodes = named_part(Some(p), name);
        if text::text_eq(name, "array_expr") {
            place(out, Role::UnnestArray, &nodes);
        } else {
            place(out, Role::Operand, &nodes);
        }
    }
}

/// The operands of an expression, each with its place.
pub fn expr_operands<'a>(j: &'a Json) -> (r: Vec<(Role, &'a Json)>)
    ensures
        operand_views(r@) == operands_of(j@),
{
    broadcast use json::lemma_members_view;

    let mut out: Vec<(Role, &'a Json)> = Vec::new();
    assert(operand_views(out@) =~= Seq::<(Role, JsonView)>::empty());
    let kind = match expr_kind(j) {
        Some(kind) => kind,
        None => {
            return out;
        },
    };
    let p: &'a Json = match j {
        Json::Object(members) => {
            assert(j@ == JsonView::Object(json::members_view(members@)));
            &members[0].value
        },
        _ => {
            return out;
        },
    };
    let names = named_operands(kind);
    let ghost all = text::slice_views(names@);
    let mut i: usize = 0;
    assert(all.take(0) =~= Seq::<Seq<char>>::empty());
    while i < names.len()
        invariant
            i <= names.len(),
            all == text::slice_views(names@),
            operand_views(out@) == parts_operands(p@, all.take(i as int)),
        decreases names.len() - i,
    {
        push_part_operands(&mut out, p, names[i]);
        proof {
            assert(all.take(i + 1).drop_last() =~= all.take(i as int));
            assert(all.take(i + 1).last() == names@[i as int]@);
        }
        i = i + 1;
    }
    assert(all.take(all.len() as int) =~= all);
    out
}

} // verus!
