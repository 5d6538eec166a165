//! Pieces of statements: words, lists and bracketed clauses.
use vstd::prelude::*;
use crate::text;

verus! {

/// The place where a text first stands in another.
pub fn find_text(s: &str, p: &str) -> (r: Option<usize>)
    ensures
        match (r, text::find_from(s@, p@, 0)) {
            (Some(i), Some(view)) => i == view && i + p@.len() <= s@.len(),
            (None, None) => true,
            _ => false,
        },
{
    let a = text::chars_of(s);
    let b = text::chars_of(p);
    proof {
        text::lemma_find_from(s@, p@, 0);
    }
    text::find(a.as_slice(), b.as_slice(), 0)
}

/// A text up to a place.
pub fn head(s: &str, to: usize) -> (r: String)
    requires
        to <= s@.len(),
    ensures
        r@ == s@.take(to as int),
{
    let chars = text::chars_of(s);
    let r = text::string_range(chars.as_slice(), 0, to);
    assert(r@ =~= s@.take(to as int));
    r
}

/// A text from a place on.
pub fn tail(s: &str, from: usize) -> (r: String)
    requires
        from <= s@.len(),
    ensures
        r@ == s@.skip(from as int),
{
    let chars = text::chars_of(s);
    let r = text::string_range(chars.as_slice(), from, chars.len());
    assert(r@ =~= s@.skip(from as int));
    r
}

/// A text without the copies of a character that it begins with.
pub fn stripped_start(s: &str, c: char) -> (r: String)
    ensures
        r@ == text::strip_start(s@, c),
{
    let chars = text::chars_of(s);
    let mut a: usize = 0;
    assert(s@.skip(0) =~= s@);
    while a < chars.len() && chars[a] == c
        invariant
            a <= chars.len(),
            chars@ == s@,
            text::strip_start(s@, c) == text::strip_start(s@.skip(a as int), c),
        decreases chars.len() - a,
    {
        assert(s@.skip(a as int).skip(1) =~= s@.skip(a + 1));
        a = a + 1;
    }
    tail(s, a)
}

/// A text without the copies of a character that it ends with.
pub fn stripped_end(s: &str, c: char) -> (r: String)
    ensures
        r@ == text::strip_end(s@, c),
{
    let chars = text::chars_of(s);
    let mut b: usize = chars.len();
    assert(s@.take(b as int) =~= s@);
    while b > 0 && chars[b - 1] == c
        invariant
            b <= chars.len(),
            chars@ == s@,
            text::strip_end(s@, c) == text::strip_end(s@.take(b as int), c),
        decreases b,
    {
        assert(s@.take(b as int).drop_last() =~= s@.take(b - 1));
        b = b - 1;
    }
    head(s, b)
}

/// The words of a text, between spaces.
pub open spec fn words(s: Seq<char>) -> Seq<Seq<char>>
    decreases s.len(),
{
    if s.len() == 0 {
        Seq::empty()
    } else {
        let rest = s.drop_last();
        let before = words(rest);
        if text::is_space(s.last()) {
            before
        } else if rest.len() > 0 && !text::is_space(rest.last()) && before.len() > 0 {
            before.drop_last().push(before.last().push(s.last()))
        } else {
            before.push(seq![s.last()])
        }
    }
}

/// The words of a text, between spaces.
pub fn split_words(s: &str) -> (r: Vec<String>)
    ensures
        text::views(r@) == words(s@),
{
    let chars = text::chars_of(s);
    let mut out: Vec<String> = Vec::new();
    let mut inside = false;
    let mut i: usize = 0;
    assert(text::views(out@) =~= Seq::empty());
    while i < chars.len()
        invariant
            i <= chars.len(),
            chars@ == s@,
            text::views(out@) == words(s@.take(i as int)),
            inside == (i > 0 && !text::is_space(s@[i - 1])),
            inside ==> out@.len() > 0,
        decreases chars.len() - i,
    {
        let ghost more = s@.take(i + 1);
        let ghost prior = out@;
        assert(more.drop_last() =~= s@.take(i as int));
        assert(more.last() == s@[i as int]);
        proof {
            if i > 0 {
                assert(s@.take(i as int).last() == s@[i - 1]);
            }
        }
        let c = chars[i];
        if text::space(c) {
            inside = false;
        } else if inside {
            let last = out.pop();
            match last {
                Some(mut word) => {
                    let ghost before = word@;
                    assert(before == text::views(prior).last());
                    word.push(c);
                    let ghost after = word@;
                    out.push(word);
                    assert(text::views(out@) =~= text::views(prior).drop_last().push(after));
                },
                None => {},
            }
        } else {
            let mut word = String::new();
            word.push(c);
            assert(word@ =~= seq![c]);
            out.push(word);
            assert(text::views(out@) =~= text::views(prior).push(seq![c]));
            inside = true;
        }
        i = i + 1;
    }
    assert(s@.take(s@.len() as int) =~= s@);
    out
}

pub open spec fn one_less(depth: nat) -> nat {
    if depth == 0 {
        0
    } else {
        (depth - 1) as nat
    }
}

/// The items between the commas that stand in no brackets, from a place on. `start` is
/// where the item there begins. An empty last item is none.
pub open spec fn top_level(s: Seq<char>, start: int, at: int, depth: nat) -> Seq<Seq<char>>
    decreases s.len() - at,
{
    if at < 0 || at >= s.len() {
        let last = text::trim(s.skip(start));
        if last.len() == 0 {
            Seq::empty()
        } else {
            seq![last]
        }
    } else if s[at] == '(' {
        top_level(s, start, at + 1, depth + 1)
    } else if s[at] == ')' {
        top_level(s, start, at + 1, one_less(depth))
    } else if s[at] == ',' && depth == 0 {
        seq![text::trim(s.subrange(start, at))] + top_level(s, at + 1, at + 1, 0)
    } else {
        top_level(s, start, at + 1, depth)
    }
}

/// The items of a list, between the commas that stand in no brackets.
pub fn split_top_level(input: &str) -> (r: Vec<String>)
    ensures
        text::views(r@) == top_level(input@, 0, 0, 0),
{
    let chars = text::chars_of(input);
    let ghost s = input@;
    let mut out: Vec<String> = Vec::new();
    let mut start: usize = 0;
    let mut depth: usize = 0;
    let mut i: usize = 0;
    let count = chars.len();
    assert(text::views(out@) + top_level(s, 0, 0, 0) =~= top_level(s, 0, 0, 0));
    while i < count
        invariant
            start <= i <= count,
            count == chars@.len(),
            chars@ == s,
            depth <= i,
            text::views(out@) + top_level(s, start as int, i as int, depth as nat) == top_level(
                s,
                0,
                0,
                0,
            ),
        decreases count - i,
    {
        let c = chars[i];
        if c == '(' {
            depth = depth + 1;
        } else if c == ')' {
            if depth > 0 {
                depth = depth - 1;
            }
        } else if c == ',' && depth == 0 {
            let ghost prior = out@;
            let (a, b) = text::trim_range(chars.as_slice(), start, i);
            let item = text::string_range(chars.as_slice(), a, b);
            let ghost view = item@;
            out.push(item);
            start = i + 1;
            assert(text::views(out@) =~= text::views(prior).push(view));
            assert(text::views(out@) + top_level(s, i + 1, i + 1, 0) =~= text::views(prior) + (seq![
                view,
            ] + top_level(s, i + 1, i + 1, 0)));
        }
        i = i + 1;
    }
    let last = tail(input, start);
    let item = text::trimmed(last.as_str());
    if item.as_str().unicode_len() > 0 {
        let ghost prior = out@;
        let ghost view = item@;
        out.push(item);
        assert(text::views(out@) =~= text::views(prior) + seq![view]);
    } else {
        assert(text::views(out@) + Seq::<Seq<char>>::empty() =~= text::views(out@));
    }
    out
}

/// The place of the bracket that closes the ones that are open.
pub open spec fn closing(s: Seq<char>, at: int, depth: nat) -> Option<int>
    decreases s.len() - at,
{
    if at < 0 || at >= s.len() {
        None
    } else if s[at] == '(' {
        closing(s, at + 1, depth + 1)
    } else if s[at] == ')' {
        if depth <= 1 {
            Some(at)
        } else {
            closing(s, at + 1, (depth - 1) as nat)
        }
    } else {
        closing(s, at + 1, depth)
    }
}

/// What is in the brackets after a keyword. The keyword is in upper case.
pub open spec fn clause(body: Seq<char>, keyword: Seq<char>) -> Option<Seq<char>> {
    match text::find_from(text::upper(body), keyword, 0) {
        None => None,
        Some(at) => {
            let rest = body.skip(at + keyword.len());
            match text::find_from(rest, "("@, 0) {
                None => None,
                Some(open) => match closing(rest, open + 1, 1) {
                    Some(close) => Some(rest.subrange(open + 1, close)),
                    None => None,
                },
            }
        },
    }
}

/// What is in the brackets after a keyword, if it is there.
pub fn clause_list(body: &str, keyword: &str) -> (r: Option<String>)
    ensures
        match (r, clause(body@, keyword@)) {
            (Some(a), Some(b)) => a@ == b,
            (None, None) => true,
            _ => false,
        },
{
    let upper = text::to_upper(body);
    let at = match find_text(upper.as_str(), keyword) {
        Some(at) => at,
        None => {
            return None;
        },
    };
    let word = text::chars_of(keyword);
    let whole = text::chars_of(body);
    let total = whole.len();
    assert(at + word@.len() <= total);
    let rest = tail(body, at + word.len());
    let open = match find_text(rest.as_str(), "(") {
        Some(open) => open,
        None => {
            return None;
        },
    };
    proof {
        reveal_strlit("(");
    }
    let chars = text::chars_of(rest.as_str());
    let count = chars.len();
    let mut depth: usize = 1;
    let mut i: usize = open + 1;
    let ghost s = rest@;
    while i < count
        invariant
            open < i <= count,
            count == chars@.len(),
            chars@ == s,
            s == rest@,
            1 <= depth <= i,
            closing(s, open + 1, 1) == closing(s, i as int, depth as nat),
            text::find_from(s, "("@, 0) == Some(open as int),
            text::find_from(text::upper(body@), keyword@, 0) == Some(at as int),
            s == body@.skip(at + keyword@.len()),
        decreases count - i,
    {
        let c = chars[i];
        if c == '(' {
            depth = depth + 1;
        } else if c == ')' {
            if depth == 1 {
                return Some(text::string_range(chars.as_slice(), open + 1, i));
            }
            depth = depth - 1;
        }
        i = i + 1;
    }
    None
}

} // verus!
