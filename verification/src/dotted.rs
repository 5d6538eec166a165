//! Names with dots in them.
use vstd::prelude::*;
use crate::text;

verus! {

/// A name up to its last dot and after it.
pub open spec fn split_last_dot(name: Seq<char>) -> Option<(Seq<char>, Seq<char>)>
    decreases name.len(),
{
    if name.len() == 0 {
        None
    } else if name.last() == '.' {
        Some((name.drop_last(), Seq::empty()))
    } else {
        match split_last_dot(name.drop_last()) {
            Some((a, b)) => Some((a, b.push(name.last()))),
            None => None,
        }
    }
}

/// A name up to its last dot and after it.
pub fn rsplit_once_dot(name: &str) -> (r: Option<(String, String)>)
    ensures
        match (r, split_last_dot(name@)) {
            (Some((a, b)), Some(view)) => (a@, b@) == view,
            (None, None) => true,
            _ => false,
        },
{
    let chars = text::chars_of(name);
    let mut i: usize = chars.len();
    assert(name@.take(i as int) =~= name@);
    while i > 0
        invariant
            i <= chars.len(),
            chars@ == name@,
            match (split_last_dot(name@), split_last_dot(name@.take(i as int))) {
                (Some((a, b)), Some((c, d))) => a == c && b == d + name@.skip(i as int),
                (None, None) => true,
                _ => false,
            },
        decreases i,
    {
        let ghost taken = name@.take(i as int);
        assert(taken.last() == name@[i - 1]);
        assert(taken.drop_last() =~= name@.take(i - 1));
        if chars[i - 1] == '.' {
            let a = text::string_range(chars.as_slice(), 0, i - 1);
            let b = text::string_range(chars.as_slice(), i, chars.len());
            assert(a@ =~= name@.take(i - 1));
            assert(b@ =~= Seq::<char>::empty() + name@.skip(i as int));
            return Some((a, b));
        }
        proof {
            match split_last_dot(name@.take(i - 1)) {
                Some((c, d)) => {
                    assert(d.push(name@[i - 1]) + name@.skip(i as int) =~= d + name@.skip(i - 1));
                },
                None => {},
            }
        }
        i = i - 1;
    }
    assert(name@.take(0) =~= Seq::empty());
    None
}

/// A name up to its first dot and after it.
pub open spec fn split_first_dot(name: Seq<char>) -> Option<(Seq<char>, Seq<char>)>
    decreases name.len(),
{
    if name.len() == 0 {
        None
    } else if name[0] == '.' {
        Some((Seq::empty(), name.skip(1)))
    } else {
        match split_first_dot(name.skip(1)) {
            Some((a, b)) => Some((seq![name[0]] + a, b)),
            None => None,
        }
    }
}

/// A name up to its first dot and after it.
pub fn split_once_dot(name: &str) -> (r: Option<(String, String)>)
    ensures
        match (r, split_first_dot(name@)) {
            (Some((a, b)), Some(view)) => (a@, b@) == view,
            (None, None) => true,
            _ => false,
        },
{
    let chars = text::chars_of(name);
    let mut i: usize = 0;
    assert(name@.skip(0) =~= name@);
    while i < chars.len()
        invariant
            i <= chars.len(),
            chars@ == name@,
            match (split_first_dot(name@), split_first_dot(name@.skip(i as int))) {
                (Some((a, b)), Some((c, d))) => a == name@.take(i as int) + c && b == d,
                (None, None) => true,
                _ => false,
            },
        decreases chars.len() - i,
    {
        let ghost rest = name@.skip(i as int);
        assert(rest[0] == name@[i as int]);
        assert(rest.skip(1) =~= name@.skip(i + 1));
        if chars[i] == '.' {
            let a = text::string_range(chars.as_slice(), 0, i);
            let b = text::string_range(chars.as_slice(), i + 1, chars.len());
            assert(a@ =~= name@.take(i as int) + Seq::<char>::empty());
            assert(b@ =~= name@.skip(i + 1));
            return Some((a, b));
        }
        proof {
            match split_first_dot(name@.skip(i + 1)) {
                Some((c, d)) => {
                    assert(name@.take(i as int) + (seq![name@[i as int]] + c) =~= name@.take(
                        i + 1,
                    ) + c);
                },
                None => {},
            }
        }
        i = i + 1;
    }
    None
}

/// What a split gives back is the name, with no dot before the first and none after
/// the last.
pub proof fn law_split(name: Seq<char>)
    ensures
        split_first_dot(name) is Some <==> name.contains('.'),
        split_last_dot(name) is Some <==> name.contains('.'),
        split_first_dot(name) matches Some((a, b)) ==> a + seq!['.'] + b == name && !a.contains(
            '.',
        ),
        split_last_dot(name) matches Some((a, b)) ==> a + seq!['.'] + b == name && !b.contains(
            '.',
        ),
{
    lemma_first(name);
    lemma_last(name);
}

proof fn lemma_first(name: Seq<char>)
    ensures
        split_first_dot(name) is Some <==> name.contains('.'),
        split_first_dot(name) matches Some((a, b)) ==> a + seq!['.'] + b == name && !a.contains(
            '.',
        ),
    decreases name.len(),
{
    if name.len() > 0 {
        if name[0] == '.' {
            assert(Seq::<char>::empty() + seq!['.'] + name.skip(1) =~= name);
        } else {
            let rest = name.skip(1);
            lemma_first(rest);
            assert(name.contains('.') <==> rest.contains('.')) by {
                if name.contains('.') {
                    let k = choose|k: int| 0 <= k < name.len() && name[k] == '.';
                    assert(rest[k - 1] == '.');
                }
                if rest.contains('.') {
                    let k = choose|k: int| 0 <= k < rest.len() && rest[k] == '.';
                    assert(name[k + 1] == '.');
                }
            }
            match split_first_dot(rest) {
                Some((a, b)) => {
                    assert(a + seq!['.'] + b =~= rest);
                    let head = seq![name[0]] + a;
                    assert(head + seq!['.'] + b =~= seq![name[0]] + (a + seq!['.'] + b));
                    assert(seq![name[0]] + rest =~= name);
                    assert(!head.contains('.')) by {
                        if head.contains('.') {
                            let k = choose|k: int| 0 <= k < head.len() && head[k] == '.';
                            assert(a[k - 1] == '.');
                        }
                    }
                },
                None => {},
            }
        }
    }
}

proof fn lemma_last(name: Seq<char>)
    ensures
        split_last_dot(name) is Some <==> name.contains('.'),
        split_last_dot(name) matches Some((a, b)) ==> a + seq!['.'] + b == name && !b.contains(
            '.',
        ),
    decreases name.len(),
{
    if name.len() > 0 {
        let rest = name.drop_last();
        if name.last() == '.' {
            assert(rest + seq!['.'] + Seq::<char>::empty() =~= name);
        } else {
            lemma_last(rest);
            assert(name.contains('.') <==> rest.contains('.')) by {
                if name.contains('.') {
                    let k = choose|k: int| 0 <= k < name.len() && name[k] == '.';
                    assert(rest[k] == '.');
                }
                if rest.contains('.') {
                    let k = choose|k: int| 0 <= k < rest.len() && rest[k] == '.';
                    assert(name[k] == '.');
                }
            }
            match split_last_dot(rest) {
                Some((a, b)) => {
                    assert(a + seq!['.'] + b =~= rest);
                    let tail = b.push(name.last());
                    assert(a + seq!['.'] + tail =~= (a + seq!['.'] + b).push(name.last()));
                    assert(rest.push(name.last()) =~= name);
                    assert(!tail.contains('.')) by {
                        if tail.contains('.') {
                            let k = choose|k: int| 0 <= k < tail.len() && tail[k] == '.';
                            assert(b[k] == '.');
                        }
                    }
                },
                None => {},
            }
        }
    }
}

} // verus!
