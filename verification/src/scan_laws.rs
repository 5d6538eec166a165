//! How the scanning functions relate to one another.
use vstd::prelude::*;
use crate::scan;
use crate::text;

verus! {

pub proof fn lemma_line_end_within(s: Seq<char>, a: int, e: int, k: int)
    requires
        0 <= a <= k <= e <= s.len(),
        scan::line_end(s, k) <= e,
    ensures
        scan::line_end(s.subrange(a, e), k - a) == scan::line_end(s, k) - a,
    decreases s.len() - k,
{
    if k < s.len() && s[k] != '\n' {
        scan::lemma_line_end(s, k + 1);
        lemma_line_end_within(s, a, e, k + 1);
    }
}

pub proof fn lemma_block_end_within(s: Seq<char>, a: int, e: int, k: int)
    requires
        0 <= a <= k <= e <= s.len(),
        scan::block_end(s, k) <= e,
    ensures
        scan::block_end(s.subrange(a, e), k - a) == scan::block_end(s, k) - a,
    decreases s.len() - k,
{
    let sub = s.subrange(a, e);
    if k < s.len() {
        if scan::closes_block(s, k) {
            assert(scan::closes_block(sub, k - a));
        } else {
            scan::lemma_block_end(s, k + 1);
            assert(!scan::closes_block(sub, k - a));
            lemma_block_end_within(s, a, e, k + 1);
        }
    }
}

/// Skipping in a tail of a text is skipping in the text.
proof fn lemma_skip_in_tail(s: Seq<char>, a: int, k: int, semicolons: bool)
    requires
        0 <= a <= k <= s.len(),
    ensures
        scan::skip_blank(s.skip(a), k - a, semicolons) == scan::skip_blank(s, k, semicolons) - a,
    decreases s.len() - k,
{
    let e = s.len() as int;
    let sub = s.skip(a);
    assert(sub =~= s.subrange(a, e));
    if k < e {
        assert(sub[k - a] == s[k]);
        if k + 1 < e {
            assert(sub[k - a + 1] == s[k + 1]);
        }
        if scan::skips_char(s[k], semicolons) {
            lemma_skip_in_tail(s, a, k + 1, semicolons);
        } else if scan::line_comment_at(s, k) {
            scan::lemma_line_end(s, k + 2);
            lemma_line_end_within(s, a, e, k + 2);
            lemma_skip_in_tail(s, a, scan::line_end(s, k + 2), semicolons);
        } else if scan::block_comment_at(s, k) {
            scan::lemma_block_end(s, k + 2);
            lemma_block_end_within(s, a, e, k + 2);
            lemma_skip_in_tail(s, a, scan::block_end(s, k + 2), semicolons);
        }
    }
}

pub proof fn lemma_line_end_shortened(s: Seq<char>, k: int)
    requires
        0 <= k < s.len(),
    ensures
        scan::line_end(s.drop_last(), k) == if scan::line_end(s, k) < s.len() {
            scan::line_end(s, k)
        } else {
            s.len() - 1
        },
    decreases s.len() - k,
{
    let t = s.drop_last();
    if k < t.len() {
        assert(t[k] == s[k]);
        if s[k] != '\n' {
            lemma_line_end_shortened(s, k + 1);
        }
    } else {
        scan::lemma_line_end(s, k);
    }
}

pub proof fn lemma_block_end_shortened(s: Seq<char>, k: int)
    requires
        0 <= k < s.len(),
        s.last() != '/',
    ensures
        scan::block_end(s.drop_last(), k) == if scan::block_end(s, k) < s.len() {
            scan::block_end(s, k)
        } else {
            s.len() - 1
        },
    decreases s.len() - k,
{
    let t = s.drop_last();
    if k < t.len() {
        if scan::closes_block(s, k) {
            assert(s[k + 1] != s.last());
            assert(scan::closes_block(t, k));
        } else {
            assert(!scan::closes_block(t, k));
            lemma_block_end_shortened(s, k + 1);
        }
    } else {
        assert(!scan::closes_block(s, k));
        scan::lemma_block_end(s, k + 1);
    }
}

proof fn lemma_blank_shortened(s: Seq<char>, k: int)
    requires
        0 <= k < s.len(),
        text::is_space(s.last()),
        scan::skip_blank(s, k, false) == s.len(),
    ensures
        scan::skip_blank(s.drop_last(), k, false) == s.len() - 1,
    decreases s.len() - k,
{
    let t = s.drop_last();
    if k < t.len() {
        assert(t[k] == s[k]);
        if scan::skips_char(s[k], false) {
            lemma_blank_shortened(s, k + 1);
        } else if scan::line_comment_at(s, k) {
            assert(s[k + 1] != s.last());
            assert(scan::line_comment_at(t, k));
            scan::lemma_line_end(s, k + 2);
            lemma_line_end_shortened(s, k + 2);
            if scan::line_end(s, k + 2) < s.len() {
                lemma_blank_shortened(s, scan::line_end(s, k + 2));
            }
            assert(scan::skip_blank(t, k, false) == scan::skip_blank(
                t,
                scan::line_end(t, k + 2),
                false,
            ));
        } else {
            assert(scan::block_comment_at(s, k));
            assert(s[k + 1] != s.last());
            assert(scan::block_comment_at(t, k));
            scan::lemma_block_end(s, k + 2);
            lemma_block_end_shortened(s, k + 2);
            if scan::block_end(s, k + 2) < s.len() {
                lemma_blank_shortened(s, scan::block_end(s, k + 2));
            }
            assert(scan::skip_blank(t, k, false) == scan::skip_blank(
                t,
                scan::block_end(t, k + 2),
                false,
            ));
        }
    }
}

/// The first stretch starts where the scan of it started, and reaches at least
/// to where the scan is.
proof fn lemma_first_stretch(s: Seq<char>, start: int, i: int) -> (e: int)
    requires
        0 <= start <= i <= s.len(),
    ensures
        i <= e <= s.len(),
        scan::stretches(s, start, i).len() > 0,
        scan::stretches(s, start, i)[0] == s.subrange(start, e),
    decreases s.len() - i,
{
    if i >= s.len() {
        i
    } else if s[i] == ';' {
        i
    } else {
        scan::lemma_unit_end(s, i);
        lemma_first_stretch(s, start, scan::unit_end(s, i))
    }
}

pub open spec fn all_blank(pieces: Seq<Seq<char>>) -> bool {
    forall|k: int| 0 <= k < pieces.len() ==> scan::is_blank(#[trigger] pieces[k])
}

/// In each stretch from `start`, the part before `i` is blank.
spec fn blank_up_to(s: Seq<char>, start: int, i: int) -> bool {
    forall|e: int|
        i <= e <= s.len() ==> #[trigger] scan::skip_blank(s.subrange(start, e), 0, false) == scan::skip_blank(
            s.subrange(start, e),
            i - start,
            false,
        )
}

proof fn lemma_blank_step(s: Seq<char>, start: int, i: int, next: int)
    requires
        0 <= start <= i < next <= s.len(),
        blank_up_to(s, start, i),
        ({
            ||| text::is_space(s[i]) && next == i + 1
            ||| scan::line_comment_at(s, i) && next == scan::line_end(s, i + 2)
            ||| scan::block_comment_at(s, i) && next == scan::block_end(s, i + 2)
        }),
    ensures
        blank_up_to(s, start, next),
{
    assert forall|e: int| next <= e <= s.len() implies #[trigger] scan::skip_blank(
        s.subrange(start, e),
        0,
        false,
    ) == scan::skip_blank(s.subrange(start, e), next - start, false) by {
        let sub = s.subrange(start, e);
        scan::lemma_line_end(s, i + 2);
        scan::lemma_block_end(s, i + 2);
        assert(sub[i - start] == s[i]);
        if text::is_space(s[i]) {
        } else if scan::line_comment_at(s, i) {
            assert(sub[i - start + 1] == s[i + 1]);
            lemma_line_end_within(s, start, e, i + 2);
        } else {
            assert(sub[i - start + 1] == s[i + 1]);
            lemma_block_end_within(s, start, e, i + 2);
        }
    }
}

proof fn lemma_stretches_blank(s: Seq<char>, start: int, i: int)
    requires
        0 <= start <= i <= s.len(),
        blank_up_to(s, start, i),
    ensures
        all_blank(scan::stretches(s, start, i)) <==> scan::skip_blank(s, i, true) == s.len(),
    decreases s.len() - i,
{
    let pieces = scan::stretches(s, start, i);
    if i == s.len() {
        assert(scan::skip_blank(s.subrange(start, i), 0, false) == i - start);
    } else if s[i] == ';' {
        assert(scan::skip_blank(s.subrange(start, i), 0, false) == i - start);
        let rest = scan::stretches(s, i + 1, i + 1);
        lemma_stretches_blank(s, i + 1, i + 1);
        assert(scan::is_blank(pieces[0]));
        assert forall|k: int| 0 <= k < rest.len() implies rest[k] == #[trigger] pieces[k + 1] by {}
        if all_blank(pieces) {
            assert forall|k: int| 0 <= k < rest.len() implies scan::is_blank(#[trigger] rest[k]) by {
                assert(scan::is_blank(pieces[k + 1]));
            }
        }
        if all_blank(rest) {
            assert forall|k: int| 0 <= k < pieces.len() implies scan::is_blank(#[trigger] pieces[k]) by {
                if k > 0 {
                    assert(pieces[k] == rest[k - 1]);
                }
            }
        }
    } else {
        scan::lemma_unit_end(s, i);
        scan::lemma_line_end(s, i + 2);
        scan::lemma_block_end(s, i + 2);
        if text::is_space(s[i]) || scan::line_comment_at(s, i) || scan::block_comment_at(s, i) {
            lemma_blank_step(s, start, i, scan::unit_end(s, i));
            lemma_stretches_blank(s, start, scan::unit_end(s, i));
        } else {
            let e = lemma_first_stretch(s, start, scan::unit_end(s, i));
            let sub = s.subrange(start, e);
            assert(sub[i - start] == s[i]);
            assert(!scan::line_comment_at(sub, i - start));
            assert(!scan::block_comment_at(sub, i - start));
            assert(scan::skip_blank(sub, 0, false) == i - start);
            assert(!scan::is_blank(pieces[0]));
        }
    }
}

/// A text has no statements exactly when each stretch between its semicolons is
/// blank.
pub proof fn law_no_statements_by_stretch(s: Seq<char>)
    ensures
        scan::has_no_statements(s) <==> all_blank(scan::stretches(s, 0, 0)),
{
    assert forall|e: int| 0 <= e <= s.len() implies #[trigger] scan::skip_blank(
        s.subrange(0, e),
        0,
        false,
    ) == scan::skip_blank(s.subrange(0, e), 0 - 0, false) by {}
    lemma_stretches_blank(s, 0, 0);
}

proof fn lemma_no_texts(pieces: Seq<Seq<char>>)
    ensures
        scan::executable_texts(pieces).len() == 0 <==> (forall|k: int|
            0 <= k < pieces.len() ==> scan::is_blank(text::trim(#[trigger] pieces[k]))),
    decreases pieces.len(),
{
    if pieces.len() > 0 {
        let rest = pieces.skip(1);
        lemma_no_texts(rest);
        assert forall|k: int| 0 <= k < rest.len() implies rest[k] == #[trigger] pieces[k + 1] by {}
        if scan::executable_texts(pieces).len() == 0 {
            assert forall|k: int| 0 <= k < pieces.len() implies scan::is_blank(
                text::trim(#[trigger] pieces[k]),
            ) by {
                if k > 0 {
                    assert(pieces[k] == rest[k - 1]);
                }
            }
        } else if forall|k: int|
            0 <= k < pieces.len() ==> scan::is_blank(text::trim(#[trigger] pieces[k])) {
            assert(scan::is_blank(text::trim(pieces[0])));
            assert forall|k: int| 0 <= k < rest.len() implies scan::is_blank(
                text::trim(#[trigger] rest[k]),
            ) by {
                assert(scan::is_blank(text::trim(pieces[k + 1])));
            }
        }
    }
}

/// A blank text stays blank with whitespace behind it.
proof fn lemma_blank_lengthened(s: Seq<char>, k: int)
    requires
        0 <= k < s.len(),
        text::is_space(s.last()),
        scan::skip_blank(s.drop_last(), k, false) == s.len() - 1,
    ensures
        scan::skip_blank(s, k, false) == s.len(),
    decreases s.len() - k,
{
    let t = s.drop_last();
    assert(scan::skip_blank(s, s.len() as int, false) == s.len());
    if k < t.len() {
        assert(t[k] == s[k]);
        if scan::skips_char(s[k], false) {
            lemma_blank_lengthened(s, k + 1);
        } else if scan::line_comment_at(t, k) {
            assert(scan::line_comment_at(s, k));
            scan::lemma_line_end(s, k + 2);
            lemma_line_end_shortened(s, k + 2);
            if scan::line_end(s, k + 2) < s.len() {
                lemma_blank_lengthened(s, scan::line_end(s, k + 2));
            }
        } else {
            assert(scan::block_comment_at(t, k));
            assert(scan::block_comment_at(s, k));
            scan::lemma_block_end(s, k + 2);
            lemma_block_end_shortened(s, k + 2);
            if scan::block_end(s, k + 2) < s.len() {
                lemma_blank_lengthened(s, scan::block_end(s, k + 2));
            }
        }
    }
}

proof fn lemma_trimmed_start_blank(s: Seq<char>)
    ensures
        scan::is_blank(text::trim_start(s)) <==> scan::is_blank(s),
    decreases s.len(),
{
    if s.len() > 0 && text::is_space(s[0]) {
        lemma_skip_in_tail(s, 1, 1, false);
        lemma_trimmed_start_blank(s.skip(1));
    }
}

proof fn lemma_trimmed_end_blank(s: Seq<char>)
    ensures
        scan::is_blank(text::trim_end(s)) <==> scan::is_blank(s),
    decreases s.len(),
{
    if s.len() > 0 && text::is_space(s.last()) {
        if scan::is_blank(s) {
            lemma_blank_shortened(s, 0);
        }
        if scan::is_blank(s.drop_last()) {
            lemma_blank_lengthened(s, 0);
        }
        lemma_trimmed_end_blank(s.drop_last());
    }
}

/// A text is blank exactly when it is blank without the whitespace round it.
pub proof fn law_trimmed_blank(s: Seq<char>)
    ensures
        scan::is_blank(text::trim(s)) <==> scan::is_blank(s),
{
    lemma_trimmed_start_blank(s);
    lemma_trimmed_end_blank(text::trim_start(s));
}

/// `sql_has_no_statements` accepts exactly the texts that split into no
/// statements.
pub proof fn law_no_statements(s: Seq<char>)
    ensures
        scan::has_no_statements(s) <==> scan::statements_of(s).len() == 0,
{
    let pieces = scan::stretches(s, 0, 0);
    law_no_statements_by_stretch(s);
    assert forall|k: int| 0 <= k < pieces.len() implies (scan::is_blank(
        text::trim(#[trigger] pieces[k]),
    ) <==> scan::is_blank(pieces[k])) by {
        law_trimmed_blank(pieces[k]);
    }
    lemma_no_texts(pieces);
}

} // verus!
