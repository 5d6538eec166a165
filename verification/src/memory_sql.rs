//! Statements about memory columns and memory indexes.
use vstd::prelude::*;
use crate::dotted;
use crate::error;
use crate::error::SqlError;
use crate::settings;
use crate::settings::Settings;
use crate::text;

verus! {

/// The groups of the first match of the pattern that `regex::RegexBuilder` builds,
/// without regard to case, where a dot may stand for a line break too; none where it
/// matches nowhere or builds no pattern.
pub uninterp spec fn regex_captured(
    pattern: Seq<char>,
    dot_takes_line_breaks: bool,
    sql: Seq<char>,
) -> Option<Seq<Option<Seq<char>>>>;

pub open spec fn group_view(g: Option<String>) -> Option<Seq<char>> {
    error::view_option(g)
}

pub open spec fn groups_view(groups: Seq<Option<String>>) -> Seq<Option<Seq<char>>> {
    groups.map_values(|g: Option<String>| group_view(g))
}

pub open spec fn captures_view(c: Option<Vec<Option<String>>>) -> Option<Seq<Option<Seq<char>>>> {
    match c {
        Some(groups) => Some(groups_view(groups@)),
        None => None,
    }
}

/// `regex::RegexBuilder::build` without regard to case, and `Regex::captures`. Claims
/// that the groups depend on the pattern, on whether a dot stands for line breaks, and
/// on the text alone.
#[verifier::external_body]
fn capture_pattern(pattern: &str, dot_takes_line_breaks: bool, sql: &str) -> (r: Option<
    Vec<Option<String>>,
>)
    ensures
        captures_view(r) == regex_captured(pattern@, dot_takes_line_breaks, sql@),
{
    let mut builder = regex::RegexBuilder::new(pattern);
    builder.case_insensitive(true).dot_matches_new_line(dot_takes_line_breaks);
    match builder.build() {
        Ok(compiled) => compiled.captures(sql).map(
            |found| found.iter().map(|group| group.map(|m| m.as_str().to_owned())).collect(),
        ),
        Err(_) => None,
    }
}

/// Whether a text occurs in another, whatever the case of its letters.
pub open spec fn occurs_ignoring_case(haystack: Seq<char>, needle: Seq<char>) -> bool {
    text::find_from(text::lower(haystack), text::lower(needle), 0) is Some
}

/// Whether a text occurs in another, whatever the case of its letters.
pub fn contains_ascii_case_insensitive(haystack: &str, needle: &str) -> (r: bool)
    ensures
        r == occurs_ignoring_case(haystack@, needle@),
{
    let lowered = text::to_lower(haystack);
    let wanted = text::to_lower(needle);
    let h = text::chars_of(lowered.as_str());
    let n = text::chars_of(wanted.as_str());
    text::find(h.as_slice(), n.as_slice(), 0).is_some()
}

/// A text in which each pair of quotes is one.
pub open spec fn undoubled(s: Seq<char>, quote: char) -> Seq<char>
    decreases s.len(),
{
    if s.len() == 0 {
        Seq::empty()
    } else if s.len() >= 2 && s[0] == quote && s[1] == quote {
        seq![quote] + undoubled(s.skip(2), quote)
    } else {
        seq![s[0]] + undoubled(s.skip(1), quote)
    }
}

/// A text without the spaces round it, and without quotes where it stands in them.
pub open spec fn unquoted(value: Seq<char>, quote: char) -> Seq<char> {
    let s = text::trim(value);
    if s.len() >= 2 && s[0] == quote && s.last() == quote {
        undoubled(s.subrange(1, s.len() - 1), quote)
    } else {
        s
    }
}

fn unquote(value: &str, quote: char) -> (r: String)
    ensures
        r@ == unquoted(value@, quote),
{
    let trimmed = text::trimmed(value);
    let chars = text::chars_of(trimmed.as_str());
    let ghost s = text::trim(value@);
    if chars.len() >= 2 && chars[0] == quote && chars[chars.len() - 1] == quote {
        let end = chars.len() - 1;
        let ghost inner = s.subrange(1, s.len() - 1);
        let mut out: Vec<char> = Vec::new();
        let mut i: usize = 1;
        assert(s.subrange(1, end as int) =~= inner);
        assert(Seq::<char>::empty() + undoubled(inner, quote) =~= undoubled(inner, quote));
        while i < end
            invariant
                1 <= i <= end,
                end == chars.len() - 1,
                chars@ == s,
                out@ + undoubled(s.subrange(i as int, end as int), quote) == undoubled(inner, quote),
            decreases end - i,
        {
            let ghost rest = s.subrange(i as int, end as int);
            let ghost prior = out@;
            assert(rest[0] == s[i as int]);
            if i + 1 < end && chars[i] == quote && chars[i + 1] == quote {
                assert(rest[1] == s[i + 1]);
                assert(rest.skip(2) =~= s.subrange(i + 2, end as int));
                out.push(quote);
                assert(out@ + undoubled(rest.skip(2), quote) =~= prior + (seq![quote] + undoubled(
                    rest.skip(2),
                    quote,
                )));
                i = i + 2;
            } else {
                proof {
                    if rest.len() >= 2 {
                        assert(rest[1] == s[i + 1]);
                    }
                }
                assert(rest.skip(1) =~= s.subrange(i + 1, end as int));
                out.push(chars[i]);
                assert(out@ + undoubled(rest.skip(1), quote) =~= prior + (seq![s[i as int]]
                    + undoubled(rest.skip(1), quote)));
                i = i + 1;
            }
        }
        assert(s.subrange(i as int, end as int) =~= Seq::empty());
        assert(out@ + Seq::<char>::empty() =~= out@);
        return text::string_of(out.as_slice());
    }
    trimmed
}

/// A string literal without its quotes.
pub fn unquote_sql_string(value: &str) -> (r: String)
    ensures
        r@ == unquoted(value@, '\''),
{
    unquote(value, '\'')
}

/// An identifier without its quotes.
pub fn unquote_sql_identifier(value: &str) -> (r: String)
    ensures
        r@ == unquoted(value@, '"'),
{
    unquote(value, '"')
}

/// The name of a selected column: without what qualifies it, and without quotes.
pub open spec fn selected_column(value: Seq<char>) -> Seq<char> {
    let s = text::trim(value);
    match dotted::split_last_dot(s) {
        Some((_, name)) => unquoted(name, '"'),
        None => unquoted(s, '"'),
    }
}

/// The name of a selected column.
pub fn normalize_select_column_identifier(value: &str) -> (r: String)
    ensures
        r@ == selected_column(value@),
{
    let trimmed = text::trimmed(value);
    match dotted::rsplit_once_dot(trimmed.as_str()) {
        Some((_, name)) => unquote(name.as_str(), '"'),
        None => unquote(trimmed.as_str(), '"'),
    }
}

/// What stands before the first equals sign and after it.
pub open spec fn key_and_value(part: Seq<char>) -> Option<(Seq<char>, Seq<char>)> {
    match text::find_from(part, seq!['='], 0) {
        Some(at) => Some((part.take(at), part.skip(at + 1))),
        None => None,
    }
}

pub open spec fn option_error(part: Seq<char>) -> error::ErrorView {
    error::invalid_sql_error("invalid memory index option `"@ + text::trim(part) + "`"@)
}

/// The options that parts say: names in lower case, and values without quotes. An
/// option that is there twice has its last value.
pub open spec fn index_options(parts: Seq<Seq<char>>) -> Result<
    Map<Seq<char>, Seq<char>>,
    error::ErrorView,
>
    decreases parts.len(),
{
    if parts.len() == 0 {
        Ok(Map::empty())
    } else {
        match index_options(parts.drop_last()) {
            Err(e) => Err(e),
            Ok(before) => match key_and_value(parts.last()) {
                None => Err(option_error(parts.last())),
                Some((key, value)) => Ok(
                    before.insert(text::lower(text::trim(key)), unquoted(value, '\'')),
                ),
            },
        }
    }
}

proof fn lemma_option_error_stays(parts: Seq<Seq<char>>, i: int)
    requires
        0 <= i <= parts.len(),
        index_options(parts.take(i)) is Err,
    ensures
        index_options(parts) == index_options(parts.take(i)),
    decreases parts.len(),
{
    if i == parts.len() {
        assert(parts.take(i) =~= parts);
    } else {
        assert(parts.drop_last().take(i) =~= parts.take(i));
        lemma_option_error_stays(parts.drop_last(), i);
    }
}

/// The options of a memory index.
pub fn parse_memory_index_options(options: &str) -> (r: Result<Settings, SqlError>)
    ensures
        match (r, index_options(text::pieces(options@, ','))) {
            (Ok(s), Ok(view)) => s@ == view,
            (Err(e), Err(view)) => e@ == view,
            _ => false,
        },
{
    let parts = text::split_on(options, ',');
    let ghost all = text::views(parts@);
    let mut out = Settings::new();
    let mut i: usize = 0;
    while i < parts.len()
        invariant
            i <= parts.len(),
            all == text::views(parts@),
            all == text::pieces(options@, ','),
            index_options(all.take(i as int)) == Ok::<Map<Seq<char>, Seq<char>>, error::ErrorView>(
                out@,
            ),
        decreases parts.len() - i,
    {
        let ghost part = parts@[i as int]@;
        assert(all.take(i + 1).drop_last() =~= all.take(i as int));
        assert(all.take(i + 1).last() == part);
        let chars = text::chars_of(parts[i].as_str());
        let sign = ['='];
        assert(sign@ =~= seq!['=']);
        match text::find(chars.as_slice(), &sign, 0) {
            None => {
                proof {
                    lemma_option_error_stays(all, i + 1);
                }
                let trimmed = text::trimmed(parts[i].as_str());
                return Err(
                    SqlError::invalid_sql(
                        text::concat3("invalid memory index option `", trimmed.as_str(), "`"),
                    ),
                );
            },
            Some(at) => {
                proof {
                    text::lemma_find_from(part, seq!['='], 0);
                }
                let key = text::string_range(chars.as_slice(), 0, at);
                let value = text::string_range(chars.as_slice(), at + 1, chars.len());
                assert(key@ =~= part.take(at as int));
                assert(value@ =~= part.skip(at + 1));
                let name = text::trimmed(key.as_str());
                out.insert(text::to_lower(name.as_str()), unquote_sql_string(value.as_str()));
            },
        }
        i = i + 1;
    }
    assert(all.take(all.len() as int) =~= all);
    Ok(out)
}

/// Whether groups that must have matched are there.
pub open spec fn has_groups(groups: Seq<Option<Seq<char>>>, count: nat) -> bool {
    groups.len() > count && forall|k: int| 1 <= k <= count ==> (#[trigger] groups[k]) is Some
}

fn groups_there(groups: &Vec<Option<String>>, count: usize) -> (r: bool)
    ensures
        r == has_groups(groups_view(groups@), count as nat),
{
    assert(groups_view(groups@).len() == groups@.len());
    let total = groups.len();
    if total <= count {
        return false;
    }
    let mut i: usize = 1;
    while i <= count
        invariant
            1 <= i <= count + 1,
            count < total,
            total == groups@.len(),
            groups_view(groups@).len() == groups@.len(),
            forall|k: int| 1 <= k < i ==> (#[trigger] groups_view(groups@)[k]) is Some,
        decreases count + 1 - i,
    {
        assert(groups_view(groups@)[i as int] == group_view(groups@[i as int]));
        if groups[i].is_none() {
            return false;
        }
        i = i + 1;
    }
    true
}

fn group(groups: &Vec<Option<String>>, i: usize) -> (r: &str)
    requires
        i < groups@.len(),
        groups_view(groups@)[i as int] is Some,
    ensures
        Some(r@) == groups_view(groups@)[i as int],
{
    assert(groups_view(groups@)[i as int] == group_view(groups@[i as int]));
    match &groups[i] {
        Some(s) => s.as_str(),
        None => "",
    }
}

/// CREATE MEMORY INDEX: the index, its table and its field, and the model and the mode
/// where they are given.
#[derive(Debug)]
pub struct RawCreateMemoryIndex {
    pub index_name: String,
    pub table: String,
    pub field: String,
    pub model: Option<String>,
    pub mode: Option<String>,
}

pub struct MemoryIndexView {
    pub index_name: Seq<char>,
    pub table: Seq<char>,
    pub field: Seq<char>,
    pub model: Option<Seq<char>>,
    pub mode: Option<Seq<char>>,
}

impl View for RawCreateMemoryIndex {
    type V = MemoryIndexView;

    open spec fn view(&self) -> MemoryIndexView {
        MemoryIndexView {
            index_name: self.index_name@,
            table: self.table@,
            field: self.field@,
            model: error::view_option(self.model),
            mode: error::view_option(self.mode),
        }
    }
}

/// The options that a group of the statement says.
pub open spec fn options_of(group: Option<Seq<char>>) -> Result<
    Map<Seq<char>, Seq<char>>,
    error::ErrorView,
> {
    match group {
        Some(options) => index_options(text::pieces(options, ',')),
        None => Ok(Map::empty()),
    }
}

/// The index that the groups of CREATE MEMORY INDEX say: the table, the field and the
/// options.
pub open spec fn memory_index(groups: Seq<Option<Seq<char>>>) -> Result<
    MemoryIndexView,
    error::ErrorView,
> {
    let table = unquoted(groups[1]->0, '"');
    let field = unquoted(groups[2]->0, '"');
    match options_of(
        if groups.len() > 3 {
            groups[3]
        } else {
            None
        },
    ) {
        Err(e) => Err(e),
        Ok(options) => Ok(
            MemoryIndexView {
                index_name: "idx_"@ + table + "_"@ + field + "_memory"@,
                table,
                field,
                model: settings::setting(options, "model"@),
                mode: match settings::setting(options, "mode"@) {
                    Some(mode) => Some(text::lower(mode)),
                    None => None,
                },
            },
        ),
    }
}

/// The index that the groups of CREATE MEMORY INDEX say.
pub fn memory_index_from_groups(groups: &Vec<Option<String>>) -> (r: Result<
    RawCreateMemoryIndex,
    SqlError,
>)
    requires
        has_groups(groups_view(groups@), 2),
    ensures
        match (r, memory_index(groups_view(groups@))) {
            (Ok(index), Ok(view)) => index@ == view,
            (Err(e), Err(view)) => e@ == view,
            _ => false,
        },
{
    let ghost views = groups_view(groups@);
    assert(views.len() == groups@.len());
    assert(views[1] is Some && views[2] is Some);
    let table = unquote_sql_identifier(group(groups, 1));
    let field = unquote_sql_identifier(group(groups, 2));
    let options = if groups.len() > 3 {
        assert(views[3] == group_view(groups@[3]));
        match &groups[3] {
            Some(options) => match parse_memory_index_options(options.as_str()) {
                Ok(options) => options,
                Err(e) => {
                    return Err(e);
                },
            },
            None => Settings::new(),
        }
    } else {
        Settings::new()
    };
    let start = text::concat3("idx_", table.as_str(), "_");
    let index_name = text::concat3(start.as_str(), field.as_str(), "_memory");
    let model = match options.get("model") {
        Some(model) => Some(model.to_owned()),
        None => None,
    };
    let mode = match options.get("mode") {
        Some(mode) => Some(text::to_lower(mode)),
        None => None,
    };
    Ok(RawCreateMemoryIndex { index_name, table, field, model, mode })
}

pub open spec fn index_pattern() -> Seq<char> {
    "^\\s*CREATE\\s+MEMORY\\s+INDEX\\s+ON\\s+((?:[A-Za-z_][A-Za-z0-9_]*|\"(?:[^\"]|\"\")+\"))\\s*\\(\\s*((?:[A-Za-z_][A-Za-z0-9_]*|\"(?:[^\"]|\"\")+\"))\\s*\\)\\s*(?:WITH\\s*\\((.*)\\))?\\s*;?\\s*$"@
}

/// The groups of a statement, where it has the word that it needs and matches.
pub open spec fn screened(
    word: Seq<char>,
    pattern: Seq<char>,
    dot_takes_line_breaks: bool,
    count: nat,
    sql: Seq<char>,
) -> Option<Seq<Option<Seq<char>>>> {
    if !occurs_ignoring_case(sql, word) {
        None
    } else {
        match regex_captured(pattern, dot_takes_line_breaks, sql) {
            Some(groups) => if has_groups(groups, count) {
                Some(groups)
            } else {
                None
            },
            None => None,
        }
    }
}

fn screen(
    word: &str,
    pattern: &str,
    dot_takes_line_breaks: bool,
    count: usize,
    sql: &str,
) -> (r: Option<Vec<Option<String>>>)
    ensures
        captures_view(r) == screened(word@, pattern@, dot_takes_line_breaks, count as nat, sql@),
{
    if !contains_ascii_case_insensitive(sql, word) {
        return None;
    }
    match capture_pattern(pattern, dot_takes_line_breaks, sql) {
        Some(groups) => {
            if groups_there(&groups, count) {
                Some(groups)
            } else {
                None
            }
        },
        None => None,
    }
}

/// The index that CREATE MEMORY INDEX asks for. Another statement asks for none.
pub fn parse_raw_create_memory_index(sql: &str) -> (r: Result<Option<RawCreateMemoryIndex>, SqlError>)
    ensures
        match screened("MEMORY"@, index_pattern(), true, 2, sql@) {
            None => r is Ok && r->Ok_0 is None,
            Some(groups) => match (r, memory_index(groups)) {
                (Ok(Some(index)), Ok(view)) => index@ == view,
                (Err(e), Err(view)) => e@ == view,
                _ => false,
            },
        },
{
    let pattern =
        "^\\s*CREATE\\s+MEMORY\\s+INDEX\\s+ON\\s+((?:[A-Za-z_][A-Za-z0-9_]*|\"(?:[^\"]|\"\")+\"))\\s*\\(\\s*((?:[A-Za-z_][A-Za-z0-9_]*|\"(?:[^\"]|\"\")+\"))\\s*\\)\\s*(?:WITH\\s*\\((.*)\\))?\\s*;?\\s*$";
    match screen("MEMORY", pattern, true, 2, sql) {
        None => Ok(None),
        Some(groups) => match memory_index_from_groups(&groups) {
            Ok(index) => Ok(Some(index)),
            Err(e) => Err(e),
        },
    }
}

pub open spec fn jobs_pattern() -> Seq<char> {
    "^\\s*SELECT\\s+bicdb_process_memory_jobs\\s*\\(\\s*(\\d*)\\s*\\)\\s*;?\\s*$"@
}

pub open spec fn jobs_limit_error() -> error::ErrorView {
    error::invalid_sql_error("bicdb_process_memory_jobs limit must be an integer"@)
}

/// How many jobs are to be processed: as many as there are where no number is given.
pub open spec fn jobs_limit(group: Seq<char>) -> Result<usize, error::ErrorView> {
    if group.len() == 0 {
        Ok(usize::MAX)
    } else {
        match text::unsigned_value(group) {
            Some(n) => if n <= usize::MAX {
                Ok(n as usize)
            } else {
                Err(jobs_limit_error())
            },
            None => Err(jobs_limit_error()),
        }
    }
}

/// How many jobs are to be processed.
pub fn memory_jobs_limit(group: &str) -> (r: Result<usize, SqlError>)
    ensures
        match (r, jobs_limit(group@)) {
            (Ok(a), Ok(b)) => a == b,
            (Err(e), Err(view)) => e@ == view,
            _ => false,
        },
{
    if group.unicode_len() == 0 {
        return Ok(usize::MAX);
    }
    match text::parse_unsigned(group) {
        Some(n) => Ok(n),
        None => Err(
            SqlError::invalid_sql("bicdb_process_memory_jobs limit must be an integer".to_owned()),
        ),
    }
}

/// How many memory jobs a statement asks to process. Another statement asks for none.
pub fn parse_raw_process_memory_jobs(sql: &str) -> (r: Result<Option<usize>, SqlError>)
    ensures
        match screened("bicdb_process_memory_jobs"@, jobs_pattern(), false, 1, sql@) {
            None => r == Ok::<Option<usize>, SqlError>(None),
            Some(groups) => match (r, jobs_limit(groups[1]->0)) {
                (Ok(Some(a)), Ok(b)) => a == b,
                (Err(e), Err(view)) => e@ == view,
                _ => false,
            },
        },
{
    let pattern = "^\\s*SELECT\\s+bicdb_process_memory_jobs\\s*\\(\\s*(\\d*)\\s*\\)\\s*;?\\s*$";
    match screen("bicdb_process_memory_jobs", pattern, false, 1, sql) {
        None => Ok(None),
        Some(groups) => {
            assert(groups_view(groups@).len() == groups@.len());
            assert(groups_view(groups@)[1] is Some);
            match memory_jobs_limit(group(&groups, 1)) {
                Ok(limit) => Ok(Some(limit)),
                Err(e) => Err(e),
            }
        },
    }
}

/// A search by similarity: what is selected, from which table, by which field, for
/// which text, and how many rows.
#[derive(Debug)]
pub struct RawSimilarToSelect {
    pub columns: String,
    pub table: String,
    pub field: String,
    pub query: String,
    pub limit: usize,
}

pub struct SimilarView {
    pub columns: Seq<char>,
    pub table: Seq<char>,
    pub field: Seq<char>,
    pub query: Seq<char>,
    pub limit: nat,
}

impl View for RawSimilarToSelect {
    type V = SimilarView;

    open spec fn view(&self) -> SimilarView {
        SimilarView {
            columns: self.columns@,
            table: self.table@,
            field: self.field@,
            query: self.query@,
            limit: self.limit as nat,
        }
    }
}

/// The search that the groups of the statement say.
pub open spec fn similar_select(groups: Seq<Option<Seq<char>>>) -> Result<
    SimilarView,
    error::ErrorView,
> {
    match text::unsigned_value(groups[5]->0) {
        Some(limit) if limit <= usize::MAX => Ok(
            SimilarView {
                columns: text::trim(groups[1]->0),
                table: unquoted(groups[2]->0, '"'),
                field: unquoted(groups[3]->0, '"'),
                query: unquoted(groups[4]->0, '\''),
                limit,
            },
        ),
        _ => Err(error::invalid_sql_error("LIMIT must be an integer"@)),
    }
}

/// The search that the groups of the statement say.
pub fn similar_select_from_groups(groups: &Vec<Option<String>>) -> (r: Result<
    RawSimilarToSelect,
    SqlError,
>)
    requires
        has_groups(groups_view(groups@), 5),
    ensures
        match (r, similar_select(groups_view(groups@))) {
            (Ok(s), Ok(view)) => s@ == view,
            (Err(e), Err(view)) => e@ == view,
            _ => false,
        },
{
    let ghost views = groups_view(groups@);
    assert(views.len() == groups@.len());
    assert(views[1] is Some && views[2] is Some && views[3] is Some && views[4] is Some && views[5]
        is Some);
    match text::parse_unsigned(group(groups, 5)) {
        None => Err(SqlError::invalid_sql("LIMIT must be an integer".to_owned())),
        Some(limit) => Ok(
            RawSimilarToSelect {
                columns: text::trimmed(group(groups, 1)),
                table: unquote_sql_identifier(group(groups, 2)),
                field: unquote_sql_identifier(group(groups, 3)),
                query: unquote_sql_string(group(groups, 4)),
                limit,
            },
        ),
    }
}

pub open spec fn similar_pattern() -> Seq<char> {
    "^\\s*SELECT\\s+(.+?)\\s+FROM\\s+((?:[A-Za-z_][A-Za-z0-9_]*|\"(?:[^\"]|\"\")+\"))\\s+ORDER\\s+BY\\s+SIMILAR_TO\\s*\\(\\s*((?:[A-Za-z_][A-Za-z0-9_]*|\"(?:[^\"]|\"\")+\"))\\s*,\\s*('(?:''|[^'])*')\\s*\\)\\s+LIMIT\\s+(\\d+)\\s*;?\\s*$"@
}

/// The search by similarity that a statement asks for. Another statement asks for
/// none.
pub fn parse_raw_similar_to_select(sql: &str) -> (r: Result<Option<RawSimilarToSelect>, SqlError>)
    ensures
        match screened("SIMILAR_TO"@, similar_pattern(), true, 5, sql@) {
            None => r is Ok && r->Ok_0 is None,
            Some(groups) => match (r, similar_select(groups)) {
                (Ok(Some(s)), Ok(view)) => s@ == view,
                (Err(e), Err(view)) => e@ == view,
                _ => false,
            },
        },
{
    let pattern =
        "^\\s*SELECT\\s+(.+?)\\s+FROM\\s+((?:[A-Za-z_][A-Za-z0-9_]*|\"(?:[^\"]|\"\")+\"))\\s+ORDER\\s+BY\\s+SIMILAR_TO\\s*\\(\\s*((?:[A-Za-z_][A-Za-z0-9_]*|\"(?:[^\"]|\"\")+\"))\\s*,\\s*('(?:''|[^'])*')\\s*\\)\\s+LIMIT\\s+(\\d+)\\s*;?\\s*$";
    match screen("SIMILAR_TO", pattern, true, 5, sql) {
        None => Ok(None),
        Some(groups) => match similar_select_from_groups(&groups) {
            Ok(s) => Ok(Some(s)),
            Err(e) => Err(e),
        },
    }
}

/// A letter, a digit or an underscore.
pub open spec fn is_ident_char(c: char) -> bool {
    text::is_alpha(c) || text::is_digit(c) || c == '_'
}

/// A letter, a digit or an underscore.
pub fn is_sql_ident_char(c: char) -> (r: bool)
    ensures
        r == is_ident_char(c),
{
    text::alpha(c) || text::digit(c) || c == '_'
}

/// Whether the word `memory` begins at a place, and ends there as a word.
pub open spec fn memory_word_at(s: Seq<char>, i: int) -> bool {
    0 <= i && i + 6 <= s.len() && text::same_ignoring_case(s.subrange(i, i + 6), "memory"@) && (i + 6
        == s.len() || !is_ident_char(s[i + 6]))
}

/// The place of the word `memory` outside of brackets and strings, looking from a
/// place on.
pub open spec fn memory_place(s: Seq<char>, i: int, depth: int, in_string: bool) -> Option<int>
    decreases s.len() - i,
{
    if i < 0 || i >= s.len() {
        None
    } else if in_string {
        if s[i] != '\'' {
            memory_place(s, i + 1, depth, true)
        } else if i + 1 < s.len() && s[i + 1] == '\'' {
            memory_place(s, i + 2, depth, true)
        } else {
            memory_place(s, i + 1, depth, false)
        }
    } else if s[i] == '\'' {
        memory_place(s, i + 1, depth, true)
    } else if s[i] == '(' {
        memory_place(s, i + 1, depth + 1, false)
    } else if s[i] == ')' {
        memory_place(s, i + 1, depth - 1, false)
    } else if depth == 0 && (i == 0 || !is_ident_char(s[i - 1])) && memory_word_at(s, i) {
        Some(i)
    } else {
        memory_place(s, i + 1, depth, false)
    }
}

/// A definition without the word at a place, with one space where it stood between
/// others.
pub open spec fn without_word(s: Seq<char>, at: int) -> Seq<char> {
    let before = text::trim_end(s.take(at));
    let after = text::trim_start(s.skip(at + 6));
    if before.len() > 0 && after.len() > 0 {
        before + " "@ + after
    } else {
        before + after
    }
}

/// A definition without the word `memory`, and whether it had it.
pub open spec fn without_memory(s: Seq<char>) -> (Seq<char>, bool) {
    match memory_place(s, 0, 0, false) {
        Some(at) => (without_word(s, at), true),
        None => (s, false),
    }
}

/// Whether a text begins with the word `memory`.
pub fn starts_with_memory_keyword(value: &str) -> (r: bool)
    ensures
        r == memory_word_at(value@, 0),
{
    let chars = text::chars_of(value);
    memory_word(chars.as_slice(), 0)
}

fn memory_word(chars: &[char], i: usize) -> (r: bool)
    requires
        i <= chars@.len(),
    ensures
        r == memory_word_at(chars@, i as int),
{
    if chars.len() - i < 6 {
        return false;
    }
    let word = text::string_range(chars, i, i + 6);
    if !text::eq_ignore_case(word.as_str(), "memory") {
        return false;
    }
    i + 6 == chars.len() || !is_sql_ident_char(chars[i + 6])
}

/// A column definition without the word `memory`, and whether it had it.
pub fn strip_top_level_memory_keyword(value: &str) -> (r: (String, bool))
    ensures
        ((r.0)@, r.1) == without_memory(value@),
{
    let chars = text::chars_of(value);
    let mut i: usize = 0;
    let mut depth: i128 = 0;
    let mut in_string = false;
    let ghost s = value@;
    let count = chars.len();
    while i < count
        invariant
            i <= count,
            count == chars@.len(),
            chars@ == s,
            s == value@,
            -i <= depth <= i,
            memory_place(s, 0, 0, false) == memory_place(s, i as int, depth as int, in_string),
        decreases count - i,
    {
        let c = chars[i];
        if in_string {
            if c == '\'' {
                if i + 1 < count && chars[i + 1] == '\'' {
                    i = i + 2;
                    continue ;
                }
                in_string = false;
            }
        } else if c == '\'' {
            in_string = true;
        } else if c == '(' {
            depth = depth + 1;
        } else if c == ')' {
            depth = depth - 1;
        } else if depth == 0 && (i == 0 || !is_sql_ident_char(chars[i - 1])) && memory_word(
            chars.as_slice(),
            i,
        ) {
            let head = text::string_range(chars.as_slice(), 0, i);
            let tail = text::string_range(chars.as_slice(), i + 6, count);
            assert(head@ =~= s.take(i as int));
            assert(tail@ =~= s.skip(i + 6));
            let before = text::trimmed_end(head.as_str());
            let after = text::trimmed_start(tail.as_str());
            if before.as_str().unicode_len() > 0 && after.as_str().unicode_len() > 0 {
                return (text::concat3(before.as_str(), " ", after.as_str()), true);
            }
            return (text::concat(before.as_str(), after.as_str()), true);
        }
        i = i + 1;
    }
    (value.to_owned(), false)
}

/// The parts of CREATE TABLE: what stands before the name, the name as it is written,
/// what stands before the bracket, and what is in the brackets.
#[derive(Debug)]
pub struct MemoryTableHead {
    pub prefix: String,
    pub table_token: String,
    pub spacing: String,
    pub body: String,
}

pub open spec fn table_pattern() -> Seq<char> {
    "^\\s*(CREATE\\s+TABLE\\s+(?:IF\\s+NOT\\s+EXISTS\\s+)?)((?:[A-Za-z_][A-Za-z0-9_]*|\"(?:[^\"]|\"\")+\"))(\\s*)\\((.*)\\)\\s*;?\\s*$"@
}

/// The parts of a CREATE TABLE statement. Another statement has none.
pub fn memory_table_head(sql: &str) -> (r: Option<MemoryTableHead>)
    ensures
        match (r, screened("CREATE"@, table_pattern(), true, 4, sql@)) {
            (None, None) => true,
            (Some(head), Some(groups)) => Some(head.prefix@) == groups[1] && Some(
                head.table_token@,
            ) == groups[2] && Some(head.spacing@) == groups[3] && Some(head.body@) == groups[4],
            _ => false,
        },
{
    let pattern =
        "^\\s*(CREATE\\s+TABLE\\s+(?:IF\\s+NOT\\s+EXISTS\\s+)?)((?:[A-Za-z_][A-Za-z0-9_]*|\"(?:[^\"]|\"\")+\"))(\\s*)\\((.*)\\)\\s*;?\\s*$";
    match screen("CREATE", pattern, true, 4, sql) {
        None => None,
        Some(groups) => {
            let ghost views = groups_view(groups@);
            assert(views.len() == groups@.len());
            assert(views[1] is Some && views[2] is Some && views[3] is Some && views[4] is Some);
            Some(
                MemoryTableHead {
                    prefix: group(&groups, 1).to_owned(),
                    table_token: group(&groups, 2).to_owned(),
                    spacing: group(&groups, 3).to_owned(),
                    body: group(&groups, 4).to_owned(),
                },
            )
        },
    }
}

/// A part of what is in the brackets: its text, and its first identifier with what
/// follows it, where it begins with one.
#[derive(Debug)]
pub struct TablePart {
    pub written: String,
    pub head: Option<(String, String)>,
}

/// Whether a part is a constraint of the table and no column.
pub open spec fn is_constraint_word(token: Seq<char>) -> bool {
    seq![
        "constraint"@,
        "primary"@,
        "foreign"@,
        "unique"@,
        "check"@,
        "exclude"@,
    ].contains(text::lower(unquoted(token, '"')))
}

/// The memory column that a part defines: its name, and the part without the word.
pub open spec fn memory_column(p: TablePart) -> Option<(Seq<char>, Seq<char>)> {
    match p.head {
        None => None,
        Some((token, rest)) => if is_constraint_word(token@) || !without_memory(rest@).1 {
            None
        } else {
            Some((unquoted(token@, '"'), token@ + without_memory(rest@).0))
        },
    }
}

pub open spec fn memory_fields(parts: Seq<TablePart>) -> Seq<Seq<char>>
    decreases parts.len(),
{
    if parts.len() == 0 {
        Seq::empty()
    } else {
        match memory_column(parts.last()) {
            Some((name, _)) => memory_fields(parts.drop_last()).push(name),
            None => memory_fields(parts.drop_last()),
        }
    }
}

pub open spec fn plain_parts(parts: Seq<TablePart>) -> Seq<Seq<char>> {
    parts.map_values(
        |p: TablePart|
            match memory_column(p) {
                Some((_, written)) => written,
                None => p.written@,
            },
    )
}

/// CREATE TABLE with memory columns: the table, those columns, and the statement
/// without the word that makes them so.
#[derive(Debug)]
pub struct RawCreateMemoryTable {
    pub table: String,
    pub fields: Vec<String>,
    pub table_sql: String,
}

fn constraint_word(token: &str) -> (r: bool)
    ensures
        r == is_constraint_word(token@),
{
    let name = unquote_sql_identifier(token);
    let lowered = text::to_lower(name.as_str());
    let words = ["constraint", "primary", "foreign", "unique", "check", "exclude"];
    assert(text::slice_views(words@) =~= seq![
        "constraint"@,
        "primary"@,
        "foreign"@,
        "unique"@,
        "check"@,
        "exclude"@,
    ]);
    text::one_of(lowered.as_str(), &words)
}

fn column_of(p: &TablePart) -> (r: Option<(String, String)>)
    ensures
        match (r, memory_column(*p)) {
            (Some((name, written)), Some(view)) => (name@, written@) == view,
            (None, None) => true,
            _ => false,
        },
{
    match &p.head {
        None => None,
        Some((token, rest)) => {
            if constraint_word(token.as_str()) {
                return None;
            }
            let (plain, found) = strip_top_level_memory_keyword(rest.as_str());
            if !found {
                return None;
            }
            Some(
                (
                    unquote_sql_identifier(token.as_str()),
                    text::concat(token.as_str(), plain.as_str()),
                ),
            )
        },
    }
}

/// The memory columns of CREATE TABLE, and the statement without the word that makes
/// them so. A statement without memory columns is left to others.
pub fn parse_raw_create_memory_table(head: &MemoryTableHead, parts: &Vec<TablePart>) -> (r: Option<
    RawCreateMemoryTable,
>)
    ensures
        match r {
            None => memory_fields(parts@).len() == 0,
            Some(t) => memory_fields(parts@).len() > 0 && t.table@ == unquoted(
                head.table_token@,
                '"',
            ) && text::views(t.fields@) == memory_fields(parts@) && t.table_sql@ == head.prefix@
                + head.table_token@ + head.spacing@ + "("@ + text::joined(
                plain_parts(parts@),
                ", "@,
            ) + ")"@,
        },
{
    let mut fields: Vec<String> = Vec::new();
    let mut written: Vec<String> = Vec::new();
    let mut i: usize = 0;
    while i < parts.len()
        invariant
            i <= parts.len(),
            text::views(fields@) == memory_fields(parts@.take(i as int)),
            text::views(written@) == plain_parts(parts@.take(i as int)),
        decreases parts.len() - i,
    {
        assert(parts@.take(i + 1).drop_last() =~= parts@.take(i as int));
        assert(parts@.take(i + 1).last() == parts@[i as int]);
        let ghost prior = fields@;
        let ghost so_far = written@;
        match column_of(&parts[i]) {
            Some((name, plain)) => {
                let ghost n = name@;
                let ghost p = plain@;
                fields.push(name);
                written.push(plain);
                assert(text::views(fields@) =~= text::views(prior).push(n));
                assert(text::views(written@) =~= text::views(so_far).push(p));
            },
            None => {
                written.push(parts[i].written.clone());
                assert(text::views(written@) =~= text::views(so_far).push(
                    parts@[i as int].written@,
                ));
            },
        }
        assert(text::views(written@) =~= plain_parts(parts@.take(i + 1)));
        i = i + 1;
    }
    assert(parts@.take(parts@.len() as int) =~= parts@);
    assert(text::views(fields@).len() == fields@.len());
    if fields.len() == 0 {
        return None;
    }
    let inside = text::join(&written, ", ");
    let start = text::concat3(
        head.prefix.as_str(),
        head.table_token.as_str(),
        head.spacing.as_str(),
    );
    let open = text::concat3(start.as_str(), "(", inside.as_str());
    Some(
        RawCreateMemoryTable {
            table: unquote_sql_identifier(head.table_token.as_str()),
            fields,
            table_sql: text::concat(open.as_str(), ")"),
        },
    )
}

/// Text in quotes comes out of them as it was before it was put in, where it has none
/// of them in it.
pub proof fn law_unquoted(inner: Seq<char>, quote: char)
    requires
        !inner.contains(quote),
        !text::is_space(quote),
    ensures
        unquoted(seq![quote] + inner + seq![quote], quote) == inner,
{
    let s = seq![quote] + inner + seq![quote];
    assert(text::trim_start(s) == s);
    assert(text::trim_end(s) == s);
    assert(s.subrange(1, s.len() - 1) =~= inner);
    lemma_undoubled(inner, quote);
}

proof fn lemma_undoubled(s: Seq<char>, quote: char)
    requires
        !s.contains(quote),
    ensures
        undoubled(s, quote) == s,
    decreases s.len(),
{
    if s.len() > 0 {
        assert(s.contains(s[0]));
        assert(!s.skip(1).contains(quote)) by {
            if s.skip(1).contains(quote) {
                let k = choose|k: int| 0 <= k < s.skip(1).len() && s.skip(1)[k] == quote;
                assert(s[k + 1] == quote);
            }
        }
        lemma_undoubled(s.skip(1), quote);
        assert(seq![s[0]] + s.skip(1) =~= s);
    } else {
        assert(s =~= Seq::empty());
    }
}

/// A table without memory columns keeps its text, part by part.
pub proof fn law_no_memory_columns(parts: Seq<TablePart>)
    requires
        memory_fields(parts).len() == 0,
    ensures
        plain_parts(parts) == parts.map_values(|p: TablePart| p.written@),
    decreases parts.len(),
{
    if parts.len() > 0 {
        law_no_memory_columns(parts.drop_last());
        assert(memory_column(parts.last()) is None);
        assert(plain_parts(parts) =~= plain_parts(parts.drop_last()).push(parts.last().written@));
        assert(parts.map_values(|p: TablePart| p.written@) =~= parts.drop_last().map_values(
            |p: TablePart| p.written@,
        ).push(parts.last().written@));
    } else {
        assert(plain_parts(parts) =~= parts.map_values(|p: TablePart| p.written@));
    }
}

} // verus!
