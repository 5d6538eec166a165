//! What splitting a SQL text gives: each piece stands for itself.
use vstd::prelude::*;
use crate::scan;
use crate::scan_laws;
use crate::text;

verus! {

/// From `i` on, unit by unit, no semicolon separates statements.
spec fn quiet(s: Seq<char>, i: int) -> bool
    decreases s.len() - i,
{
    if i < 0 || i >= s.len() {
        true
    } else {
        proof {
            scan::lemma_unit_end(s, i);
        }
        s[i] != ';' && quiet(s, scan::unit_end(s, i))
    }
}

proof fn lemma_quiet_is_one_stretch(s: Seq<char>, start: int, i: int)
    requires
        0 <= start <= i <= s.len(),
        quiet(s, i),
    ensures
        scan::stretches(s, start, i) == seq![s.subrange(start, s.len() as int)],
    decreases s.len() - i,
{
    if i < s.len() {
        scan::lemma_unit_end(s, i);
        lemma_quiet_is_one_stretch(s, start, scan::unit_end(s, i));
    }
}

proof fn lemma_quoted_end_within(s: Seq<char>, a: int, e: int, k: int, quote: char)
    requires
        0 <= a <= k <= e <= s.len(),
        scan::quoted_end(s, k, quote) <= e,
    ensures
        scan::quoted_end(s.subrange(a, e), k - a, quote) == scan::quoted_end(s, k, quote) - a,
    decreases s.len() - k,
{
    let sub = s.subrange(a, e);
    if k < s.len() {
        scan::lemma_quoted_end(s, k + 1, quote);
        scan::lemma_quoted_end(s, k + 2, quote);
        if s[k] != quote {
            assert(k < e);
            assert(sub[k - a] == s[k]);
            lemma_quoted_end_within(s, a, e, k + 1, quote);
        } else if k + 1 < s.len() && s[k + 1] == quote {
            assert(sub[k - a] == s[k]);
            assert(sub[k - a + 1] == s[k + 1]);
            lemma_quoted_end_within(s, a, e, k + 2, quote);
        } else {
            assert(sub[k - a] == s[k]);
        }
    }
}

proof fn lemma_word_end_within(s: Seq<char>, a: int, e: int, k: int)
    requires
        0 <= a <= k <= e <= s.len(),
    ensures
        scan::word_end(s.subrange(a, e), k - a) == if scan::word_end(s, k) < e {
            scan::word_end(s, k) - a
        } else {
            e - a
        },
    decreases e - k,
{
    scan::lemma_word_end(s, k);
    if k < e {
        assert(s.subrange(a, e)[k - a] == s[k]);
        if text::is_word(s[k]) {
            lemma_word_end_within(s, a, e, k + 1);
        }
    }
}

proof fn lemma_occurs_within(s: Seq<char>, a: int, e: int, p: Seq<char>, k: int)
    requires
        0 <= a <= k,
        k + p.len() <= e <= s.len(),
    ensures
        text::occurs_at(s.subrange(a, e), p, k - a) == text::occurs_at(s, p, k),
{
    assert(s.subrange(a, e).subrange(k - a, k - a + p.len()) =~= s.subrange(k, k + p.len()));
}

/// A search in a part of a text finds what the search in the text finds, as far as
/// the part reaches.
proof fn lemma_find_within(s: Seq<char>, a: int, e: int, p: Seq<char>, k: int)
    requires
        0 <= a <= k <= e <= s.len(),
    ensures
        text::find_from(s.subrange(a, e), p, k - a) == match text::find_from(s, p, k) {
            Some(at) => if at + p.len() <= e {
                Some(at - a)
            } else {
                None
            },
            None => None,
        },
    decreases s.len() + 1 - k,
{
    let sub = s.subrange(a, e);
    text::lemma_find_from(s, p, k);
    if k + p.len() <= e {
        lemma_occurs_within(s, a, e, p, k);
        if !text::occurs_at(s, p, k) {
            if k + 1 <= e {
                lemma_find_within(s, a, e, p, k + 1);
            } else {
                assert(text::find_from(sub, p, k + 1 - a) is None);
                text::lemma_find_from(s, p, k + 1);
            }
        }
    }
}

/// A unit is the same in a part of the text that holds it whole.
proof fn lemma_unit_within(s: Seq<char>, a: int, e: int, i: int)
    requires
        0 <= a <= i < e <= s.len(),
        scan::unit_end(s, i) <= e,
    ensures
        scan::unit_end(s.subrange(a, e), i - a) == scan::unit_end(s, i) - a,
{
    let sub = s.subrange(a, e);
    assert(sub[i - a] == s[i]);
    if i + 1 < e {
        assert(sub[i - a + 1] == s[i + 1]);
    }
    if s[i] == '\'' {
        lemma_quoted_end_within(s, a, e, i + 1, '\'');
    } else if s[i] == '"' {
        lemma_quoted_end_within(s, a, e, i + 1, '"');
    } else if scan::line_comment_at(s, i) {
        scan::lemma_line_end(s, i + 2);
        scan_laws::lemma_line_end_within(s, a, e, i + 2);
    } else if scan::block_comment_at(s, i) {
        scan::lemma_block_end(s, i + 2);
        scan_laws::lemma_block_end_within(s, a, e, i + 2);
    } else {
        lemma_word_end_within(s, a, e, i + 1);
        scan::lemma_word_end(s, i + 1);
        match scan::delimiter_end(s, i) {
            Some(j) => {
                text::lemma_find_from(s, s.subrange(i, j), j);
                assert(j <= e);
                assert(sub[j - 1 - a] == s[j - 1]);
                assert(scan::delimiter_end(sub, i - a) == Some(j - a));
                assert(sub.subrange(i - a, j - a) =~= s.subrange(i, j));
                lemma_find_within(s, a, e, s.subrange(i, j), j);
            },
            None => {
                let j = scan::word_end(s, i + 1);
                if j < e {
                    assert(sub[j - a] == s[j]);
                }
                assert(scan::delimiter_end(sub, i - a) is None);
            },
        }
    }
}

/// Where the stretch that the scan is in ends.
spec fn stretch_end(s: Seq<char>, i: int) -> int
    decreases s.len() - i,
{
    if i < 0 || i >= s.len() {
        s.len() as int
    } else if s[i] == ';' {
        i
    } else {
        proof {
            scan::lemma_unit_end(s, i);
        }
        stretch_end(s, scan::unit_end(s, i))
    }
}

/// The first stretch holds no semicolon that separates statements, and the others
/// are those behind it.
proof fn lemma_first_stretch(s: Seq<char>, start: int, i: int)
    requires
        0 <= start <= i <= s.len(),
    ensures
        i <= stretch_end(s, i) <= s.len(),
        quiet(s.subrange(start, stretch_end(s, i)), i - start),
        scan::stretches(s, start, i) == seq![s.subrange(start, stretch_end(s, i))] + (if stretch_end(
            s,
            i,
        ) < s.len() {
            scan::stretches(s, stretch_end(s, i) + 1, stretch_end(s, i) + 1)
        } else {
            Seq::empty()
        }),
    decreases s.len() - i,
{
    if i < s.len() && s[i] != ';' {
        let next = scan::unit_end(s, i);
        scan::lemma_unit_end(s, i);
        lemma_first_stretch(s, start, next);
        let e = stretch_end(s, i);
        lemma_unit_within(s, start, e, i);
        assert(s.subrange(start, e)[i - start] == s[i]);
    }
}

proof fn lemma_quiet_skipped(s: Seq<char>, a: int, i: int)
    requires
        0 <= a <= i <= s.len(),
        quiet(s, i),
    ensures
        quiet(s.skip(a), i - a),
    decreases s.len() - i,
{
    let e = s.len() as int;
    assert(s.skip(a) =~= s.subrange(a, e));
    if i < e {
        scan::lemma_unit_end(s, i);
        lemma_unit_within(s, a, e, i);
        assert(s.skip(a)[i - a] == s[i]);
        lemma_quiet_skipped(s, a, scan::unit_end(s, i));
    }
}

proof fn lemma_quiet_trim_start(s: Seq<char>)
    requires
        quiet(s, 0),
    ensures
        quiet(text::trim_start(s), 0),
    decreases s.len(),
{
    if s.len() > 0 && text::is_space(s[0]) {
        assert(scan::unit_end(s, 0) == 1);
        lemma_quiet_skipped(s, 1, 1);
        lemma_quiet_trim_start(s.skip(1));
    }
}

proof fn lemma_open_quote_shortened(s: Seq<char>, k: int, quote: char)
    requires
        0 <= k <= s.len() - 1,
        s.last() != quote,
        scan::quoted_end(s, k, quote) == s.len(),
    ensures
        scan::quoted_end(s.drop_last(), k, quote) == s.len() - 1,
    decreases s.len() - k,
{
    let t = s.drop_last();
    if k < t.len() {
        assert(t[k] == s[k]);
        if s[k] != quote {
            lemma_open_quote_shortened(s, k + 1, quote);
        } else if s[k + 1] == quote {
            assert(k + 1 < t.len());
            assert(t[k + 1] == s[k + 1]);
            lemma_open_quote_shortened(s, k + 2, quote);
        }
    }
}

/// A unit that reaches to the whitespace at the end reaches to the end without it.
proof fn lemma_last_unit_shortened(s: Seq<char>, i: int)
    requires
        0 <= i < s.len() - 1,
        text::is_space(s.last()),
        scan::unit_end(s, i) == s.len(),
    ensures
        scan::unit_end(s.drop_last(), i) == s.len() - 1,
{
    let t = s.drop_last();
    let e = t.len() as int;
    assert(t =~= s.subrange(0, e));
    assert(t[i] == s[i]);
    if s[i] == '\'' {
        lemma_open_quote_shortened(s, i + 1, '\'');
    } else if s[i] == '"' {
        lemma_open_quote_shortened(s, i + 1, '"');
    } else if scan::line_comment_at(s, i) {
        assert(s[i + 1] != s.last());
        assert(t[i + 1] == s[i + 1]);
        scan_laws::lemma_line_end_shortened(s, i + 2);
    } else if scan::block_comment_at(s, i) {
        assert(s[i + 1] != s.last());
        assert(t[i + 1] == s[i + 1]);
        scan_laws::lemma_block_end_shortened(s, i + 2);
    } else {
        scan::lemma_word_end(s, i + 1);
        lemma_word_end_within(s, 0, e, i + 1);
        match scan::delimiter_end(s, i) {
            Some(j) => {
                let p = s.subrange(i, j);
                text::lemma_find_from(s, p, j);
                assert(s[j - 1] == '$');
                assert(j - 1 != s.len() - 1);
                assert(t[j - 1] == s[j - 1]);
                assert(scan::delimiter_end(t, i) == Some(j));
                assert(t.subrange(i, j) =~= p);
                if let Some(k) = text::find_from(s, p, j) {
                    assert(s.subrange(k, k + p.len())[p.len() - 1] == p[p.len() - 1]);
                    assert(s[k + p.len() - 1] == '$');
                    assert(false);
                }
                lemma_find_within(s, 0, e, p, j);
            },
            None => {},
        }
    }
}

proof fn lemma_quiet_shortened(s: Seq<char>, i: int)
    requires
        0 <= i < s.len(),
        text::is_space(s.last()),
        quiet(s, i),
    ensures
        quiet(s.drop_last(), i),
    decreases s.len() - i,
{
    let t = s.drop_last();
    let e = t.len() as int;
    assert(t =~= s.subrange(0, e));
    if i < e {
        assert(t[i] == s[i]);
        scan::lemma_unit_end(s, i);
        if scan::unit_end(s, i) <= e {
            lemma_unit_within(s, 0, e, i);
            lemma_quiet_shortened(s, scan::unit_end(s, i));
        } else {
            lemma_last_unit_shortened(s, i);
            assert(quiet(t, e));
        }
    }
}

proof fn lemma_quiet_trim_end(s: Seq<char>)
    requires
        quiet(s, 0),
    ensures
        quiet(text::trim_end(s), 0),
    decreases s.len(),
{
    if s.len() > 0 && text::is_space(s.last()) {
        lemma_quiet_shortened(s, 0);
        lemma_quiet_trim_end(s.drop_last());
    }
}

proof fn lemma_trim_start_part(s: Seq<char>) -> (a: int)
    ensures
        0 <= a <= s.len(),
        text::trim_start(s) == s.subrange(a, s.len() as int),
        a < s.len() ==> !text::is_space(s[a]),
    decreases s.len(),
{
    if s.len() == 0 || !text::is_space(s[0]) {
        assert(s.subrange(0, s.len() as int) =~= s);
        0
    } else {
        let rest = s.skip(1);
        let a = lemma_trim_start_part(rest);
        assert(rest.subrange(a, rest.len() as int) =~= s.subrange(a + 1, s.len() as int));
        a + 1
    }
}

proof fn lemma_trim_end_part(s: Seq<char>) -> (b: int)
    ensures
        0 <= b <= s.len(),
        text::trim_end(s) == s.subrange(0, b),
        b > 0 ==> !text::is_space(s[b - 1]),
    decreases s.len(),
{
    if s.len() == 0 || !text::is_space(s.last()) {
        assert(s.subrange(0, s.len() as int) =~= s);
        s.len() as int
    } else {
        let rest = s.drop_last();
        let b = lemma_trim_end_part(rest);
        assert(rest.subrange(0, b) =~= s.subrange(0, b));
        b
    }
}

/// A trimmed text is a part of the text that neither begins nor ends with
/// whitespace.
proof fn lemma_trim_part(s: Seq<char>) -> (r: (int, int))
    ensures
        0 <= r.0 <= r.1 <= s.len(),
        text::trim(s) == s.subrange(r.0, r.1),
        r.0 < r.1 ==> !text::is_space(s[r.0]) && !text::is_space(s[r.1 - 1]),
{
    let a = lemma_trim_start_part(s);
    let t = text::trim_start(s);
    let b = lemma_trim_end_part(t);
    assert(t.subrange(0, b) =~= s.subrange(a, a + b));
    if b > 0 {
        assert(t[b - 1] == s[a + b - 1]);
    }
    (a, a + b)
}

/// Trimming a text once is enough.
pub proof fn law_trim_twice(s: Seq<char>)
    ensures
        text::trim(text::trim(s)) == text::trim(s),
{
    let (a, b) = lemma_trim_part(s);
    let t = text::trim(s);
    if a < b {
        assert(t[0] == s[a]);
        assert(t.last() == s[b - 1]);
        assert(text::trim_start(t) == t);
    }
}

/// The pieces stand in the text one behind the other, from a position on, and none
/// reaches into another.
pub open spec fn stand_in_order(s: Seq<char>, pieces: Seq<Seq<char>>, from: int) -> bool
    decreases pieces.len(),
{
    pieces.len() == 0 || exists|a: int|
        from <= a && #[trigger] text::occurs_at(s, pieces[0], a) && stand_in_order(
            s,
            pieces.skip(1),
            a + pieces[0].len(),
        )
}

/// Each piece is trimmed, not empty, holds something to execute, and splits to
/// itself.
pub open spec fn stands_for_itself(piece: Seq<char>) -> bool {
    &&& text::trim(piece) == piece
    &&& piece.len() > 0
    &&& !scan::is_blank(piece)
    &&& scan::statements_of(piece) == seq![piece]
}

proof fn lemma_order_from_before(s: Seq<char>, pieces: Seq<Seq<char>>, from: int, earlier: int)
    requires
        earlier <= from,
        stand_in_order(s, pieces, from),
    ensures
        stand_in_order(s, pieces, earlier),
{
    if pieces.len() > 0 {
        let a = choose|a: int|
            from <= a && #[trigger] text::occurs_at(s, pieces[0], a) && stand_in_order(
                s,
                pieces.skip(1),
                a + pieces[0].len(),
            );
        assert(earlier <= a && text::occurs_at(s, pieces[0], a));
    }
}

proof fn lemma_pieces(s: Seq<char>, start: int, i: int)
    requires
        0 <= start <= i <= s.len(),
        i == start,
    ensures
        ({
            let pieces = scan::executable_texts(scan::stretches(s, start, i));
            &&& stand_in_order(s, pieces, start)
            &&& forall|k: int| 0 <= k < pieces.len() ==> stands_for_itself(#[trigger] pieces[k])
        }),
    decreases s.len() - start,
{
    lemma_first_stretch(s, start, i);
    let all = scan::stretches(s, start, i);
    let e = stretch_end(s, i);
    let first = s.subrange(start, e);
    let others = all.skip(1);
    let rest = scan::executable_texts(others);
    if e < s.len() {
        assert(others =~= scan::stretches(s, e + 1, e + 1));
        lemma_pieces(s, e + 1, e + 1);
    } else {
        assert(others =~= Seq::empty());
    }
    assert(stand_in_order(s, rest, e)) by {
        if e < s.len() {
            lemma_order_from_before(s, rest, e + 1, e);
        }
    }
    assert(all[0] == first);
    let piece = text::trim(first);
    if scan::is_blank(piece) {
        lemma_order_from_before(s, rest, e, start);
    } else {
        let (a, b) = lemma_trim_part(first);
        let pieces = seq![piece] + rest;
        assert(pieces.skip(1) =~= rest);
        assert(s.subrange(start + a, start + a + piece.len()) =~= piece);
        assert(text::occurs_at(s, piece, start + a));
        lemma_order_from_before(s, rest, e, start + a + piece.len());
        assert(stand_in_order(s, pieces, start)) by {
            assert(pieces[0] == piece);
            assert(start <= start + a && text::occurs_at(s, pieces[0], start + a));
        }
        law_trim_twice(first);
        lemma_quiet_trim_start(first);
        lemma_quiet_trim_end(text::trim_start(first));
        lemma_quiet_is_one_stretch(piece, 0, 0);
        assert(piece.subrange(0, piece.len() as int) =~= piece);
        let own = scan::stretches(piece, 0, 0);
        assert(own.skip(1) =~= Seq::empty());
        assert(scan::executable_texts(own.skip(1)) =~= Seq::empty());
        assert(scan::executable_texts(own) =~= seq![piece]);
        if piece.len() == 0 {
            assert(scan::is_blank(piece));
        }
        assert(stands_for_itself(piece));
        assert forall|k: int| 0 <= k < pieces.len() implies stands_for_itself(
            #[trigger] pieces[k],
        ) by {
            if k > 0 {
                assert(pieces[k] == rest[k - 1]);
            }
        }
    }
}

/// The statements of a text stand in it in their order and apart from one another,
/// and each of them is trimmed, holds something to execute, and splits to itself.
pub proof fn law_split_statements(s: Seq<char>)
    ensures
        stand_in_order(s, scan::statements_of(s), 0),
        forall|k: int|
            0 <= k < scan::statements_of(s).len() ==> stands_for_itself(
                #[trigger] scan::statements_of(s)[k],
            ),
{
    lemma_pieces(s, 0, 0);
}

} // verus!
