//! How deep the syntax of a text can be, told from its tokens alone.
use vstd::prelude::*;
use crate::text;

verus! {

/// What has been met between two brackets: the tokens of the current item of a
/// list, those of the longest item before it, the set operations of the current
/// statement, and what the statements before it come to.
#[derive(Clone, Copy, Debug)]
pub struct Stretch {
    pub current: usize,
    pub longest: usize,
    pub operations: usize,
    pub done: usize,
}

#[verifier::ext_equal]
pub struct StretchView {
    pub current: nat,
    pub longest: nat,
    pub operations: nat,
    pub done: nat,
}

impl View for Stretch {
    type V = StretchView;

    open spec fn view(&self) -> StretchView {
        StretchView {
            current: self.current as nat,
            longest: self.longest as nat,
            operations: self.operations as nat,
            done: self.done as nat,
        }
    }
}

pub open spec fn larger(a: nat, b: nat) -> nat {
    if a > b {
        a
    } else {
        b
    }
}

pub open spec fn nothing_met() -> StretchView {
    StretchView { current: 0, longest: 0, operations: 0, done: 0 }
}

/// How deep the syntax between two brackets can be: an operator or a type
/// constructor more for each token of its longest item that can make it deeper, and a
/// set operation more for each of its own.
pub open spec fn depth_of(v: StretchView) -> nat {
    larger(v.done, larger(v.current, v.longest) + v.operations)
}

pub open spec fn opens(token: Seq<char>) -> bool {
    token == "("@ || token == "["@ || token == "{"@
}

pub open spec fn closes(token: Seq<char>) -> bool {
    token == ")"@ || token == "]"@ || token == "}"@
}

pub open spec fn is_set_operation(token: Seq<char>) -> bool {
    ||| text::same_ignoring_case(token, "union"@)
    ||| text::same_ignoring_case(token, "intersect"@)
    ||| text::same_ignoring_case(token, "except"@)
    ||| text::same_ignoring_case(token, "minus"@)
}

/// Whitespace or a comment.
pub open spec fn is_gap(token: Seq<char>) -> bool {
    ||| token.len() > 0 && text::is_space(token[0])
    ||| text::starts_with(token, "--"@)
    ||| text::starts_with(token, "/*"@)
}

/// The words that no expression grows a level by: those of joins, of CASE and of the
/// clauses of a query. As names they are operands.
pub open spec fn flat_words() -> Seq<Seq<char>> {
    seq![
        "join"@,
        "inner"@,
        "left"@,
        "right"@,
        "full"@,
        "outer"@,
        "cross"@,
        "natural"@,
        "on"@,
        "using"@,
        "case"@,
        "when"@,
        "then"@,
        "else"@,
        "end"@,
        "select"@,
        "from"@,
        "where"@,
        "as"@,
    ]
}

/// The token makes nothing deeper: a number, a text, a quoted name, the dot in a name,
/// or a word of a clause.
pub open spec fn is_flat(token: Seq<char>) -> bool {
    ||| token == "."@
    ||| token.len() > 0 && (text::is_digit(token[0]) || token[0] == '\'' || token[0] == '"')
    ||| flat_words().contains(text::lower(token))
}

/// What has been met after one token more.
pub open spec fn with_token(v: StretchView) -> StretchView {
    StretchView { current: v.current + 1, ..v }
}

/// What has been met between the brackets that are open, the outermost first, after
/// a token.
pub open spec fn met(open: Seq<StretchView>, token: Seq<char>) -> Seq<StretchView> {
    let last = open.last();
    let rest = open.drop_last();
    if is_gap(token) || is_flat(token) {
        open
    } else if opens(token) {
        rest.push(with_token(last)).push(nothing_met())
    } else if closes(token) && open.len() > 1 {
        let outer = rest.last();
        rest.drop_last().push(StretchView { current: outer.current + depth_of(last), ..outer })
    } else if token == ","@ {
        rest.push(StretchView { current: 0, longest: larger(last.current, last.longest), ..last })
    } else if token == ";"@ {
        rest.push(StretchView { done: depth_of(last), ..nothing_met() })
    } else if is_set_operation(token) {
        rest.push(StretchView { operations: last.operations + 1, ..last })
    } else {
        rest.push(with_token(last))
    }
}

/// What has been met after all tokens of a list.
pub open spec fn met_all(tokens: Seq<Seq<char>>) -> Seq<StretchView>
    decreases tokens.len(),
{
    if tokens.len() == 0 {
        seq![nothing_met()]
    } else {
        met(met_all(tokens.drop_last()), tokens.last())
    }
}

/// How deep the syntax can be where the brackets that are open are closed.
pub open spec fn total_depth(open: Seq<StretchView>) -> nat
    decreases open.len(),
{
    if open.len() == 0 {
        0
    } else {
        depth_of(open.last()) + total_depth(open.drop_last())
    }
}

/// How deep the syntax of a text with these tokens can be: the tokens that can stand
/// in one another, which the items of a list and the statements of a text cannot.
pub open spec fn longest_chain(tokens: Seq<Seq<char>>) -> nat {
    total_depth(met_all(tokens))
}

spec fn weight(v: StretchView) -> nat {
    v.current + v.longest + v.operations + v.done
}

/// All that has been counted.
spec fn total_weight(open: Seq<StretchView>) -> nat
    decreases open.len(),
{
    if open.len() == 0 {
        0
    } else {
        weight(open.last()) + total_weight(open.drop_last())
    }
}

proof fn lemma_weight_of(open: Seq<StretchView>, k: int)
    requires
        0 <= k < open.len(),
    ensures
        weight(open[k]) <= total_weight(open),
    decreases open.len(),
{
    if k < open.len() - 1 {
        lemma_weight_of(open.drop_last(), k);
    }
}

proof fn lemma_total_weight_push(open: Seq<StretchView>, v: StretchView)
    ensures
        total_weight(open.push(v)) == total_weight(open) + weight(v),
{
    assert(open.push(v).drop_last() =~= open);
}

/// A token adds no more than one to what has been counted.
proof fn lemma_met_weight(open: Seq<StretchView>, token: Seq<char>)
    requires
        open.len() > 0,
    ensures
        met(open, token).len() > 0,
        total_weight(met(open, token)) <= total_weight(open) + 1,
{
    let last = open.last();
    let rest = open.drop_last();
    lemma_total_weight_push(rest, with_token(last));
    lemma_total_weight_push(rest.push(with_token(last)), nothing_met());
    if open.len() > 1 {
        let outer = rest.last();
        lemma_total_weight_push(
            rest.drop_last(),
            StretchView { current: outer.current + depth_of(last), ..outer },
        );
    }
    lemma_total_weight_push(
        rest,
        StretchView { current: 0, longest: larger(last.current, last.longest), ..last },
    );
    lemma_total_weight_push(rest, StretchView { done: depth_of(last), ..nothing_met() });
    lemma_total_weight_push(rest, StretchView { operations: last.operations + 1, ..last });
}

proof fn lemma_depth_weight(open: Seq<StretchView>)
    ensures
        total_depth(open) <= total_weight(open),
    decreases open.len(),
{
    if open.len() > 0 {
        lemma_depth_weight(open.drop_last());
    }
}

pub open spec fn stretch_views(open: Seq<Stretch>) -> Seq<StretchView> {
    open.map_values(|v: Stretch| v@)
}

fn larger_of(a: usize, b: usize) -> (r: usize)
    ensures
        r == larger(a as nat, b as nat),
{
    if a > b {
        a
    } else {
        b
    }
}

fn depth_between(v: &Stretch) -> (r: usize)
    requires
        weight(v@) <= usize::MAX,
    ensures
        r == depth_of(v@),
{
    larger_of(v.done, larger_of(v.current, v.longest) + v.operations)
}

fn empty_stretch() -> (v: Stretch)
    ensures
        v@ == nothing_met(),
{
    Stretch { current: 0, longest: 0, operations: 0, done: 0 }
}

fn set_operation(token: &str) -> (r: bool)
    ensures
        r == is_set_operation(token@),
{
    text::eq_ignore_case(token, "union") || text::eq_ignore_case(token, "intersect")
        || text::eq_ignore_case(token, "except") || text::eq_ignore_case(token, "minus")
}

fn gap(token: &str) -> (r: bool)
    ensures
        r == is_gap(token@),
{
    (token.unicode_len() > 0 && text::space(token.get_char(0))) || text::has_prefix(token, "--")
        || text::has_prefix(token, "/*")
}

fn flat(token: &str) -> (r: bool)
    ensures
        r == is_flat(token@),
{
    if text::text_eq(token, ".") {
        return true;
    }
    if token.unicode_len() > 0 {
        let first = token.get_char(0);
        if text::digit(first) || first == '\'' || first == '"' {
            return true;
        }
    }
    let words = [
        "join",
        "inner",
        "left",
        "right",
        "full",
        "outer",
        "cross",
        "natural",
        "on",
        "using",
        "case",
        "when",
        "then",
        "else",
        "end",
        "select",
        "from",
        "where",
        "as",
    ];
    assert(text::slice_views(words@) =~= flat_words());
    let lower = text::to_lower(token);
    text::one_of(lower.as_str(), &words)
}

fn opening(token: &str) -> (r: bool)
    ensures
        r == opens(token@),
{
    text::text_eq(token, "(") || text::text_eq(token, "[") || text::text_eq(token, "{")
}

fn closing(token: &str) -> (r: bool)
    ensures
        r == closes(token@),
{
    text::text_eq(token, ")") || text::text_eq(token, "]") || text::text_eq(token, "}")
}

fn meet(open: &mut Vec<Stretch>, token: &str)
    requires
        old(open)@.len() > 0,
        total_weight(stretch_views(old(open)@)) < usize::MAX,
    ensures
        stretch_views(final(open)@) == met(stretch_views(old(open)@), token@),
        final(open)@.len() > 0,
{
    let ghost all = stretch_views(open@);
    let at: usize = open.len() - 1;
    proof {
        lemma_weight_of(all, at as int);
        assert(all.last() == open@[at as int]@);
    }
    if gap(token) || flat(token) {
        return ;
    }
    let last: Stretch = open[at];
    if opening(token) {
        open.set(at, Stretch { current: last.current + 1, ..last });
        open.push(empty_stretch());
    } else if closing(token) && at > 0 {
        let inner: usize = depth_between(&last);
        open.pop();
        let outer: Stretch = open[at - 1];
        proof {
            let rest = all.drop_last();
            assert(outer@ == rest.last());
            lemma_weight_of(rest, at - 1);
        }
        open.set(at - 1, Stretch { current: outer.current + inner, ..outer });
    } else if text::text_eq(token, ",") {
        let longest: usize = larger_of(last.current, last.longest);
        open.set(at, Stretch { current: 0, longest, ..last });
    } else if text::text_eq(token, ";") {
        let done: usize = depth_between(&last);
        open.set(at, Stretch { current: 0, longest: 0, operations: 0, done });
    } else if set_operation(token) {
        open.set(at, Stretch { operations: last.operations + 1, ..last });
    } else {
        open.set(at, Stretch { current: last.current + 1, ..last });
    }
    assert(stretch_views(open@) =~= met(all, token@));
}

/// How deep the syntax of a text with these tokens can be.
pub fn chain_length(tokens: &Vec<String>) -> (r: usize)
    ensures
        r == longest_chain(text::views(tokens@)),
{
    let ghost views = text::views(tokens@);
    let mut open: Vec<Stretch> = Vec::new();
    open.push(empty_stretch());
    let mut i: usize = 0;
    proof {
        assert(views.take(0) =~= Seq::empty());
        assert(stretch_views(open@) =~= seq![nothing_met()]);
        lemma_total_weight_push(Seq::empty(), nothing_met());
        assert(Seq::<StretchView>::empty().push(nothing_met()) =~= stretch_views(open@));
    }
    while i < tokens.len()
        invariant
            views == text::views(tokens@),
            i <= tokens.len(),
            open@.len() > 0,
            total_weight(stretch_views(open@)) <= i,
            stretch_views(open@) == met_all(views.take(i as int)),
        decreases tokens.len() - i,
    {
        proof {
            lemma_met_weight(stretch_views(open@), tokens@[i as int]@);
            assert(views.take(i + 1).drop_last() =~= views.take(i as int));
            assert(views.take(i + 1).last() == tokens@[i as int]@);
        }
        meet(&mut open, tokens[i].as_str());
        i = i + 1;
    }
    assert(views.take(views.len() as int) =~= views);
    let ghost all = stretch_views(open@);
    let mut depth: usize = 0;
    proof {
        lemma_depth_weight(all);
    }
    while open.len() > 0
        invariant
            depth + total_depth(stretch_views(open@)) == total_depth(all),
            depth + total_weight(stretch_views(open@)) <= usize::MAX,
        decreases open@.len(),
    {
        let ghost left = stretch_views(open@);
        let last = open.pop().unwrap();
        proof {
            assert(left.drop_last() =~= stretch_views(open@));
            assert(left.last() == last@);
        }
        depth = depth + depth_between(&last);
    }
    depth
}

} // verus!
