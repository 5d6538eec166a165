//! Lexical scanning of raw SQL text: statement splitting, the leading keyword
//! of a statement, and the limits that hold before anything is parsed.
use vstd::prelude::*;
use crate::error;
use crate::error::SqlError;
use crate::text;

verus! {

/// The position of the first newline at or after `i`, or the end.
pub open spec fn line_end(s: Seq<char>, i: int) -> int
    decreases s.len() - i,
{
    if i >= s.len() {
        s.len() as int
    } else if s[i] == '\n' {
        i
    } else {
        line_end(s, i + 1)
    }
}

/// `*/` stands at `i`.
pub open spec fn closes_block(s: Seq<char>, i: int) -> bool {
    i + 1 < s.len() && s[i] == '*' && s[i + 1] == '/'
}

/// The position behind the first `*/` at or after `i`, or the end.
pub open spec fn block_end(s: Seq<char>, i: int) -> int
    decreases s.len() - i,
{
    if i >= s.len() {
        s.len() as int
    } else if closes_block(s, i) {
        i + 2
    } else {
        block_end(s, i + 1)
    }
}

pub open spec fn line_comment_at(s: Seq<char>, i: int) -> bool {
    i + 1 < s.len() && s[i] == '-' && s[i + 1] == '-'
}

pub open spec fn block_comment_at(s: Seq<char>, i: int) -> bool {
    i + 1 < s.len() && s[i] == '/' && s[i + 1] == '*'
}

/// A character that is skipped on its own: whitespace, and a semicolon where
/// `semicolons` says so.
pub open spec fn skips_char(c: char, semicolons: bool) -> bool {
    text::is_space(c) || (semicolons && c == ';')
}

/// The position behind the whitespace and comments (and semicolons, where they
/// count as blank) that stand at `i`.
pub open spec fn skip_blank(s: Seq<char>, i: int, semicolons: bool) -> int
    decreases s.len() - i,
{
    if i < 0 || i >= s.len() {
        s.len() as int
    } else if skips_char(s[i], semicolons) {
        skip_blank(s, i + 1, semicolons)
    } else if line_comment_at(s, i) {
        proof {
            lemma_line_end(s, i + 2);
        }
        skip_blank(s, line_end(s, i + 2), semicolons)
    } else if block_comment_at(s, i) {
        proof {
            lemma_block_end(s, i + 2);
        }
        skip_blank(s, block_end(s, i + 2), semicolons)
    } else {
        i
    }
}

/// The text holds nothing but whitespace and comments.
pub open spec fn is_blank(s: Seq<char>) -> bool {
    skip_blank(s, 0, false) == s.len()
}

/// The text holds nothing but whitespace, comments and semicolons.
pub open spec fn has_no_statements(s: Seq<char>) -> bool {
    skip_blank(s, 0, true) == s.len()
}

/// The end of the run of letters and underscores that starts at `i`.
pub open spec fn keyword_end(s: Seq<char>, i: int) -> int
    decreases s.len() - i,
{
    if 0 <= i < s.len() && (text::is_alpha(s[i]) || s[i] == '_') {
        keyword_end(s, i + 1)
    } else {
        i
    }
}

/// The first keyword of a text, if it starts with one.
pub open spec fn first_keyword(s: Seq<char>) -> Option<Seq<char>> {
    let start = skip_blank(s, 0, true);
    let end = keyword_end(s, start);
    if end > start {
        Some(s.subrange(start, end))
    } else {
        None
    }
}

/// The position behind the quoted text whose body starts at `i`, in which a
/// doubled quote stands for the quote itself; or the end.
pub open spec fn quoted_end(s: Seq<char>, i: int, quote: char) -> int
    decreases s.len() - i,
{
    if i >= s.len() {
        s.len() as int
    } else if s[i] != quote {
        quoted_end(s, i + 1, quote)
    } else if i + 1 < s.len() && s[i + 1] == quote {
        quoted_end(s, i + 2, quote)
    } else {
        i + 1
    }
}

/// The end of the run of word characters that starts at `i`.
pub open spec fn word_end(s: Seq<char>, i: int) -> int
    decreases s.len() - i,
{
    if 0 <= i < s.len() && text::is_word(s[i]) {
        word_end(s, i + 1)
    } else {
        i
    }
}

/// The position behind the dollar-quote delimiter (`$$` or `$tag$`) at `i`, if
/// one stands there.
pub open spec fn delimiter_end(s: Seq<char>, i: int) -> Option<int> {
    let j = word_end(s, i + 1);
    if 0 <= i < s.len() && s[i] == '$' && j < s.len() && s[j] == '$' {
        Some(j + 1)
    } else {
        None
    }
}

/// The position behind the dollar-quoted text whose opening delimiter spans
/// `i..j`; or the end.
pub open spec fn dollar_end(s: Seq<char>, i: int, j: int) -> int {
    match text::find_from(s, s.subrange(i, j), j) {
        Some(k) => k + (j - i),
        None => s.len() as int,
    }
}

/// The end of the lexical unit that starts at `i`: a string literal, a quoted
/// identifier, a comment, a dollar-quoted text, or else one character.
pub open spec fn unit_end(s: Seq<char>, i: int) -> int {
    if s[i] == '\'' {
        quoted_end(s, i + 1, '\'')
    } else if s[i] == '"' {
        quoted_end(s, i + 1, '"')
    } else if line_comment_at(s, i) {
        line_end(s, i + 2)
    } else if block_comment_at(s, i) {
        block_end(s, i + 2)
    } else {
        match delimiter_end(s, i) {
            Some(j) => dollar_end(s, i, j),
            None => i + 1,
        }
    }
}

/// The stretches between the semicolons that stand outside every literal,
/// quoted identifier and comment; the scan is at `i`, and the current stretch
/// started at `start`.
pub open spec fn stretches(s: Seq<char>, start: int, i: int) -> Seq<Seq<char>>
    decreases s.len() - i,
{
    if i < 0 || i >= s.len() {
        seq![s.subrange(start, s.len() as int)]
    } else if s[i] == ';' {
        seq![s.subrange(start, i)] + stretches(s, i + 1, i + 1)
    } else {
        proof {
            lemma_unit_end(s, i);
        }
        stretches(s, start, unit_end(s, i))
    }
}

/// Of each stretch its trimmed text, where that holds more than whitespace and
/// comments.
pub open spec fn executable_texts(pieces: Seq<Seq<char>>) -> Seq<Seq<char>>
    decreases pieces.len(),
{
    if pieces.len() == 0 {
        Seq::empty()
    } else {
        let rest = executable_texts(pieces.skip(1));
        let piece = text::trim(pieces[0]);
        if is_blank(piece) {
            rest
        } else {
            seq![piece] + rest
        }
    }
}

/// The statements of a SQL text.
pub open spec fn statements_of(s: Seq<char>) -> Seq<Seq<char>> {
    executable_texts(stretches(s, 0, 0))
}

pub proof fn lemma_line_end(s: Seq<char>, i: int)
    ensures
        i <= s.len() ==> i <= line_end(s, i) <= s.len(),
        line_end(s, i) == s.len() || s[line_end(s, i)] == '\n',
    decreases s.len() - i,
{
    if i < s.len() && s[i] != '\n' {
        lemma_line_end(s, i + 1);
    }
}

pub proof fn lemma_block_end(s: Seq<char>, i: int)
    ensures
        i <= s.len() ==> i <= block_end(s, i) <= s.len(),
    decreases s.len() - i,
{
    if i < s.len() && !closes_block(s, i) {
        lemma_block_end(s, i + 1);
    }
}

pub proof fn lemma_quoted_end(s: Seq<char>, i: int, quote: char)
    ensures
        i <= s.len() ==> i <= quoted_end(s, i, quote) <= s.len(),
    decreases s.len() - i,
{
    if i >= s.len() {
    } else if s[i] != quote {
        lemma_quoted_end(s, i + 1, quote);
    } else if i + 1 < s.len() && s[i + 1] == quote {
        lemma_quoted_end(s, i + 2, quote);
    }
}

pub proof fn lemma_word_end(s: Seq<char>, i: int)
    ensures
        i <= word_end(s, i),
        0 <= i <= s.len() ==> word_end(s, i) <= s.len(),
    decreases s.len() - i,
{
    if 0 <= i < s.len() && text::is_word(s[i]) {
        lemma_word_end(s, i + 1);
    }
}

/// A lexical unit is not empty and ends within the text.
pub proof fn lemma_unit_end(s: Seq<char>, i: int)
    requires
        0 <= i < s.len(),
    ensures
        i < unit_end(s, i) <= s.len(),
{
    lemma_quoted_end(s, i + 1, '\'');
    lemma_quoted_end(s, i + 1, '"');
    lemma_line_end(s, i + 2);
    lemma_block_end(s, i + 2);
    lemma_word_end(s, i + 1);
    if let Some(j) = delimiter_end(s, i) {
        text::lemma_find_from(s, s.subrange(i, j), j);
    }
}

fn find_line_end(s: &[char], from: usize) -> (r: usize)
    requires
        from <= s.len(),
    ensures
        r == line_end(s@, from as int),
        from <= r <= s.len(),
{
    let mut i: usize = from;
    while i < s.len() && s[i] != '\n'
        invariant
            from <= i <= s.len(),
            line_end(s@, from as int) == line_end(s@, i as int),
        decreases s.len() - i,
    {
        i = i + 1;
    }
    i
}

fn find_block_end(s: &[char], from: usize) -> (r: usize)
    requires
        from <= s.len(),
    ensures
        r == block_end(s@, from as int),
        from <= r <= s.len(),
{
    let mut i: usize = from;
    while i < s.len()
        invariant
            from <= i <= s.len(),
            block_end(s@, from as int) == block_end(s@, i as int),
        decreases s.len() - i,
    {
        if s[i] == '*' && i + 1 < s.len() && s[i + 1] == '/' {
            return i + 2;
        }
        i = i + 1;
    }
    i
}

fn skip_blanks(s: &[char], semicolons: bool) -> (r: usize)
    ensures
        r == skip_blank(s@, 0, semicolons),
        r <= s.len(),
{
    let mut i: usize = 0;
    while i < s.len()
        invariant
            i <= s.len(),
            skip_blank(s@, 0, semicolons) == skip_blank(s@, i as int, semicolons),
        decreases s.len() - i,
    {
        let c = s[i];
        if text::space(c) || (semicolons && c == ';') {
            i = i + 1;
        } else if c == '-' && i + 1 < s.len() && s[i + 1] == '-' {
            i = find_line_end(s, i + 2);
        } else if c == '/' && i + 1 < s.len() && s[i + 1] == '*' {
            i = find_block_end(s, i + 2);
        } else {
            return i;
        }
    }
    i
}

/// Whether the text holds no executable statement: nothing but whitespace,
/// bare `;` and comments.
pub fn sql_has_no_statements(sql: &str) -> (r: bool)
    ensures
        r == has_no_statements(sql@),
{
    let chars = text::chars_of(sql);
    skip_blanks(chars.as_slice(), true) == chars.len()
}

/// Whether the text holds anything but whitespace and comments.
pub fn has_executable_sql(sql: &str) -> (r: bool)
    ensures
        r == !is_blank(sql@),
{
    let chars = text::chars_of(sql);
    skip_blanks(chars.as_slice(), false) != chars.len()
}

/// The first keyword of a statement, after leading whitespace, semicolons and
/// comments, or `None` when the text does not start with an identifier.
pub fn leading_sql_keyword(sql: &str) -> (r: Option<&str>)
    ensures
        match r {
            Some(keyword) => first_keyword(sql@) == Some(keyword@),
            None => first_keyword(sql@) is None,
        },
{
    let chars = text::chars_of(sql);
    let start = skip_blanks(chars.as_slice(), true);
    let mut i: usize = start;
    while i < chars.len() && (text::alpha(chars[i]) || chars[i] == '_')
        invariant
            start <= i <= chars.len(),
            keyword_end(chars@, start as int) == keyword_end(chars@, i as int),
        decreases chars.len() - i,
    {
        i = i + 1;
    }
    if i > start {
        Some(sql.substring_char(start, i))
    } else {
        None
    }
}

/// The verbs of the statements that go straight to the parser.
pub open spec fn bypasses_raw_probes(s: Seq<char>) -> bool {
    match first_keyword(s) {
        Some(k) => {
            ||| text::same_ignoring_case(k, "call"@)
            ||| text::same_ignoring_case(k, "insert"@)
            ||| text::same_ignoring_case(k, "update"@)
            ||| text::same_ignoring_case(k, "delete"@)
        },
        None => false,
    }
}

/// Whether a statement starts with a verb that none of the raw-text handlers
/// keys on, so that it goes straight to the parser.
pub fn leading_keyword_bypasses_raw_probes(sql: &str) -> (r: bool)
    ensures
        r == bypasses_raw_probes(sql@),
{
    match leading_sql_keyword(sql) {
        Some(k) => {
            text::eq_ignore_case(k, "call") || text::eq_ignore_case(k, "insert")
                || text::eq_ignore_case(k, "update") || text::eq_ignore_case(k, "delete")
        },
        None => false,
    }
}

fn find_quoted_end(s: &[char], from: usize, quote: char) -> (r: usize)
    requires
        from <= s.len(),
    ensures
        r == quoted_end(s@, from as int, quote),
        from <= r <= s.len(),
{
    let mut i: usize = from;
    while i < s.len()
        invariant
            from <= i <= s.len(),
            quoted_end(s@, from as int, quote) == quoted_end(s@, i as int, quote),
        decreases s.len() - i,
    {
        if s[i] != quote {
            i = i + 1;
        } else if i + 1 < s.len() && s[i + 1] == quote {
            i = i + 2;
        } else {
            return i + 1;
        }
    }
    i
}

fn find_delimiter_end(s: &[char], i: usize) -> (r: Option<usize>)
    requires
        i < s.len(),
    ensures
        match r {
            Some(j) => delimiter_end(s@, i as int) == Some(j as int) && i < j <= s.len(),
            None => delimiter_end(s@, i as int) is None,
        },
{
    if s[i] != '$' {
        return None;
    }
    let mut j: usize = i + 1;
    while j < s.len() && text::word(s[j])
        invariant
            i < j <= s.len(),
            word_end(s@, i + 1) == word_end(s@, j as int),
        decreases s.len() - j,
    {
        j = j + 1;
    }
    if j < s.len() && s[j] == '$' {
        Some(j + 1)
    } else {
        None
    }
}

/// The dollar-quote delimiter that a text starts with, if it starts with one.
pub fn dollar_quote_delimiter(sql: &str) -> (r: Option<String>)
    ensures
        match r {
            Some(d) => delimiter_end(sql@, 0) matches Some(j) && d@ == sql@.take(j),
            None => delimiter_end(sql@, 0) is None,
        },
{
    let chars = text::chars_of(sql);
    if chars.len() == 0 {
        return None;
    }
    match find_delimiter_end(chars.as_slice(), 0) {
        Some(j) => {
            let d = text::string_range(chars.as_slice(), 0, j);
            assert(d@ =~= sql@.take(j as int));
            Some(d)
        },
        None => None,
    }
}

fn find_dollar_end(s: &[char], i: usize, j: usize) -> (r: usize)
    requires
        i <= j <= s.len(),
    ensures
        r == dollar_end(s@, i as int, j as int),
        j <= r <= s.len(),
{
    let delimiter = vstd::slice::slice_subrange(s, i, j);
    let found = text::find(s, delimiter, j);
    proof {
        text::lemma_find_from(s@, delimiter@, j as int);
    }
    match found {
        Some(k) => k + (j - i),
        None => s.len(),
    }
}

fn find_unit_end(s: &[char], i: usize) -> (r: usize)
    requires
        i < s.len(),
    ensures
        r == unit_end(s@, i as int),
        i < r <= s.len(),
{
    let c = s[i];
    if c == '\'' || c == '"' {
        find_quoted_end(s, i + 1, c)
    } else if c == '-' && i + 1 < s.len() && s[i + 1] == '-' {
        find_line_end(s, i + 2)
    } else if c == '/' && i + 1 < s.len() && s[i + 1] == '*' {
        find_block_end(s, i + 2)
    } else {
        match find_delimiter_end(s, i) {
            Some(j) => find_dollar_end(s, i, j),
            None => i + 1,
        }
    }
}

/// The statements of a SQL text: the trimmed stretches between semicolons that
/// stand outside literals, quoted identifiers and comments, without those that
/// hold nothing to execute.
pub fn split_sql_statements(sql: &str) -> (r: Vec<String>)
    ensures
        text::views(r@) == statements_of(sql@),
{
    let chars = text::chars_of(sql);
    let s = chars.as_slice();
    let mut out: Vec<String> = Vec::new();
    let mut start: usize = 0;
    let mut i: usize = 0;
    while i < s.len()
        invariant
            s@ == sql@,
            start <= i <= s.len(),
            statements_of(sql@) == text::views(out@) + executable_texts(
                stretches(s@, start as int, i as int),
            ),
        decreases s.len() - i,
    {
        if s[i] == ';' {
            let ghost rest = stretches(s@, i as int + 1, i as int + 1);
            proof {
                let all = stretches(s@, start as int, i as int);
                assert(all.skip(1) =~= rest);
            }
            push_executable(&mut out, s, start, i);
            start = i + 1;
            i = i + 1;
        } else {
            i = find_unit_end(s, i);
        }
    }
    proof {
        let all = stretches(s@, start as int, i as int);
        assert(all.skip(1) =~= Seq::<Seq<char>>::empty());
    }
    push_executable(&mut out, s, start, s.len());
    out
}

/// Appends the trimmed text of `s[from..to]` where it holds something to
/// execute.
fn push_executable(out: &mut Vec<String>, s: &[char], from: usize, to: usize)
    requires
        from <= to <= s.len(),
    ensures
        text::views(final(out)@) == text::views(old(out)@) + executable_texts(
            seq![s@.subrange(from as int, to as int)],
        ),
        forall|rest: Seq<Seq<char>>|
            text::views(old(out)@) + #[trigger] executable_texts(
                seq![s@.subrange(from as int, to as int)] + rest,
            ) == text::views(final(out)@) + executable_texts(rest),
{
    let (a, b) = text::trim_range(s, from, to);
    let piece = text::string_range(s, a, b);
    let ghost whole = s@.subrange(from as int, to as int);
    proof {
        let one = seq![whole];
        assert(one.skip(1) =~= Seq::<Seq<char>>::empty());
        assert(executable_texts(one.skip(1)) =~= Seq::<Seq<char>>::empty());
        assert forall|rest: Seq<Seq<char>>| #[trigger]
            executable_texts(one + rest) == executable_texts(one) + executable_texts(rest) by {
            assert((one + rest).skip(1) =~= rest);
            assert((one + rest)[0] == whole);
        }
    }
    let ghost before = out@;
    if has_executable_sql(piece.as_str()) {
        out.push(piece);
        assert(text::views(out@) =~= text::views(before).push(piece@));
        assert(executable_texts(seq![whole]) =~= seq![piece@]);
    } else {
        assert(executable_texts(seq![whole]) =~= Seq::<Seq<char>>::empty());
        assert(text::views(out@) =~= text::views(before) + Seq::<Seq<char>>::empty());
    }
    proof {
        assert(text::views(out@) =~= text::views(before) + executable_texts(seq![whole]));
        assert forall|rest: Seq<Seq<char>>|
            text::views(before) + #[trigger] executable_texts(seq![whole] + rest) == text::views(out@)
                + executable_texts(rest) by {
            assert(text::views(before) + (executable_texts(seq![whole]) + executable_texts(rest)) =~= (
            text::views(before) + executable_texts(seq![whole])) + executable_texts(rest));
        }
    }
}

/// The deepest nesting of parentheses and brackets that the scan meets from
/// `i` on, where it starts inside `depth` of them. What stands in literals,
/// quoted identifiers and comments does not count, and a closing bracket too
/// many is passed over.
pub open spec fn deepest_nesting(s: Seq<char>, i: int, depth: nat) -> nat
    decreases s.len() - i,
{
    if i < 0 || i >= s.len() {
        depth
    } else if s[i] == '(' || s[i] == '[' {
        deepest_nesting(s, i + 1, depth + 1)
    } else if s[i] == ')' || s[i] == ']' {
        let rest = deepest_nesting(
            s,
            i + 1,
            if depth > 0 {
                (depth - 1) as nat
            } else {
                0
            },
        );
        if rest > depth {
            rest
        } else {
            depth
        }
    } else {
        proof {
            lemma_unit_end(s, i);
        }
        deepest_nesting(s, unit_end(s, i), depth)
    }
}

proof fn lemma_nesting_at_least(s: Seq<char>, i: int, depth: nat)
    ensures
        deepest_nesting(s, i, depth) >= depth,
    decreases s.len() - i,
{
    if i < 0 || i >= s.len() {
    } else if s[i] == '(' || s[i] == '[' {
        lemma_nesting_at_least(s, i + 1, depth + 1);
    } else if s[i] == ')' || s[i] == ']' {
    } else {
        lemma_unit_end(s, i);
        lemma_nesting_at_least(s, unit_end(s, i), depth);
    }
}

pub open spec fn nesting_message(limit: nat) -> Seq<char> {
    "SQL nests parentheses/brackets deeper than the limit of "@ + text::decimal(limit)
        + "; simplify the query or raise BICDB_MAX_PARSE_NESTING_DEPTH"@
}

/// Refuses a text whose parentheses and brackets nest deeper than `limit`.
pub fn reject_deep_parse_nesting(sql: &str, limit: usize) -> (r: Result<(), SqlError>)
    ensures
        match r {
            Ok(_) => deepest_nesting(sql@, 0, 0) <= limit,
            Err(e) => deepest_nesting(sql@, 0, 0) > limit && e@ == error::resource_limit_error(
                "54001"@,
                nesting_message(limit as nat),
            ),
        },
{
    let chars = text::chars_of(sql);
    let s = chars.as_slice();
    let mut depth: usize = 0;
    let mut i: usize = 0;
    while i < s.len()
        invariant
            s@ == sql@,
            i <= s.len(),
            depth <= limit,
            depth <= i,
            (deepest_nesting(s@, 0, 0) > limit) == (deepest_nesting(s@, i as int, depth as nat)
                > limit),
        decreases s.len() - i,
    {
        let c = s[i];
        if c == '(' || c == '[' {
            depth = depth + 1;
            if depth > limit {
                proof {
                    lemma_nesting_at_least(s@, i as int + 1, depth as nat);
                }
                let message = text::concat3(
                    "SQL nests parentheses/brackets deeper than the limit of ",
                    text::decimal_text(limit as u64).as_str(),
                    "; simplify the query or raise BICDB_MAX_PARSE_NESTING_DEPTH",
                );
                return Err(SqlError::resource_limit("54001", message));
            }
            i = i + 1;
        } else if c == ')' || c == ']' {
            if depth > 0 {
                depth = depth - 1;
            }
            i = i + 1;
        } else {
            i = find_unit_end(s, i);
        }
    }
    Ok(())
}

/// The bytes that a text takes in UTF-8.
pub open spec fn byte_len(s: Seq<char>) -> nat {
    vstd::utf8::encode_utf8(s).len()
}

pub open spec fn sql_size_message(size: nat, limit: nat) -> Seq<char> {
    "SQL statement is "@ + text::decimal(size) + " bytes, over the limit of "@ + text::decimal(
        limit,
    ) + "; split it or raise                  BICDB_MAX_SQL_BYTES"@
}

/// Refuses a text of more than `limit` bytes.
pub fn reject_oversized_sql(sql: &str, limit: usize) -> (r: Result<(), SqlError>)
    ensures
        match r {
            Ok(_) => byte_len(sql@) <= limit,
            Err(e) => byte_len(sql@) > limit && e@ == error::resource_limit_error(
                "54000"@,
                sql_size_message(byte_len(sql@), limit as nat),
            ),
        },
{
    let size: usize = sql.as_bytes().len();
    if size > limit {
        let head = text::concat3(
            "SQL statement is ",
            text::decimal_text(size as u64).as_str(),
            " bytes, over the limit of ",
        );
        let message = text::concat3(
            head.as_str(),
            text::decimal_text(limit as u64).as_str(),
            "; split it or raise                  BICDB_MAX_SQL_BYTES",
        );
        return Err(SqlError::resource_limit("54000", message));
    }
    Ok(())
}

pub open spec fn regex_size_message(size: nat, limit: nat) -> Seq<char> {
    "regular expression pattern is "@ + text::decimal(size) + " bytes, over the limit of "@
        + text::decimal(limit) + "; shorten it or raise BICDB_MAX_REGEX_PATTERN_BYTES"@
}

/// Refuses a regular-expression pattern of more than `limit` bytes.
pub fn reject_oversized_regex(pattern: &str, limit: usize) -> (r: Result<(), SqlError>)
    ensures
        match r {
            Ok(_) => byte_len(pattern@) <= limit,
            Err(e) => byte_len(pattern@) > limit && e@ == error::resource_limit_error(
                "54000"@,
                regex_size_message(byte_len(pattern@), limit as nat),
            ),
        },
{
    let size: usize = pattern.as_bytes().len();
    if size > limit {
        let head = text::concat3(
            "regular expression pattern is ",
            text::decimal_text(size as u64).as_str(),
            " bytes, over the limit of ",
        );
        let message = text::concat3(
            head.as_str(),
            text::decimal_text(limit as u64).as_str(),
            "; shorten it or raise BICDB_MAX_REGEX_PATTERN_BYTES",
        );
        return Err(SqlError::resource_limit("54000", message));
    }
    Ok(())
}

/// The limit that a setting gives: its trimmed text as a positive number, or
/// else the default.
pub open spec fn limit_of(setting: Option<Seq<char>>, default: nat) -> nat {
    match setting {
        Some(value) => match text::unsigned_value(text::trim(value)) {
            Some(n) => if 0 < n <= usize::MAX {
                n
            } else {
                default
            },
            None => default,
        },
        None => default,
    }
}

fn limit_from_setting(setting: Option<&str>, default: usize) -> (r: usize)
    ensures
        r == limit_of(text::view_str(setting), default as nat),
{
    match setting {
        Some(value) => match text::parse_unsigned(text::trimmed(value).as_str()) {
            Some(n) => if n > 0 {
                n
            } else {
                default
            },
            None => default,
        },
        None => default,
    }
}

/// The deepest expression accepted, from the value of
/// `BICDB_MAX_EXPRESSION_DEPTH`.
pub fn max_expression_depth(setting: Option<&str>) -> (r: usize)
    ensures
        r == limit_of(text::view_str(setting), 500),
{
    limit_from_setting(setting, 500)
}

/// The longest SQL text accepted, from the value of `BICDB_MAX_SQL_BYTES`.
pub fn max_sql_bytes(setting: Option<&str>) -> (r: usize)
    ensures
        r == limit_of(text::view_str(setting), 16_777_216),
{
    limit_from_setting(setting, 16_777_216)
}

/// The most expression nodes accepted in a statement, from the value of
/// `BICDB_MAX_EXPRESSION_NODES`.
pub fn max_expression_nodes(setting: Option<&str>) -> (r: usize)
    ensures
        r == limit_of(text::view_str(setting), 100_000),
{
    limit_from_setting(setting, 100_000)
}

/// The deepest parenthesis nesting accepted in raw SQL, from the value of
/// `BICDB_MAX_PARSE_NESTING_DEPTH`.
pub fn max_parse_nesting_depth(setting: Option<&str>) -> (r: usize)
    ensures
        r == limit_of(text::view_str(setting), 40),
{
    limit_from_setting(setting, 40)
}

/// The longest regular-expression pattern accepted, from the value of
/// `BICDB_MAX_REGEX_PATTERN_BYTES`.
pub fn max_regex_pattern_bytes(setting: Option<&str>) -> (r: usize)
    ensures
        r == limit_of(text::view_str(setting), 8192),
{
    limit_from_setting(setting, 8192)
}

} // verus!
