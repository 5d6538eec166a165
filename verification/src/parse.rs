//! From SQL text to checked statements.
use vstd::prelude::*;
use sqlparser::ast::{AlterTableOperation, Statement};
use sqlparser::dialect::PostgreSqlDialect;
use sqlparser::parser::Parser;
use sqlparser::tokenizer::Tokenizer;
use crate::chains;
use crate::depth;
use crate::error;
use crate::error::{ErrorView, SqlError};
use crate::json;
use crate::json::{Json, JsonView, Member};
use crate::precedence;
use crate::scan;
use crate::text;

verus! {

#[verifier::external_type_specification]
#[verifier::external_body]
pub struct ExJsonValue(serde_json::Value);

/// A parsed statement: its normalised text, its syntax as a JSON tree, and the
/// texts of the parts that migration planning reports on (the operations of an
/// `ALTER TABLE`, the object type of a `DROP`).
#[derive(Debug)]
pub struct ParsedStatement {
    pub text: String,
    pub tree: Json,
    pub parts: Vec<String>,
}

#[verifier::ext_equal]
pub struct ParsedView {
    pub text: Seq<char>,
    pub tree: JsonView,
    pub parts: Seq<Seq<char>>,
}

impl View for ParsedStatement {
    type V = ParsedView;

    open spec fn view(&self) -> ParsedView {
        ParsedView { text: self.text@, tree: self.tree@, parts: text::views(self.parts@) }
    }
}

pub open spec fn parsed_views(v: Seq<ParsedStatement>) -> Seq<ParsedView> {
    v.map_values(|p: ParsedStatement| p@)
}

/// What sqlparser makes of a SQL text in its PostgreSQL dialect: the
/// statements, each with its `Display` text, its serde tree and the texts of
/// its parts; or the message of the parse error.
pub uninterp spec fn sqlparser_statements(sql: Seq<char>) -> Result<Seq<ParsedView>, Seq<char>>;

/// The texts of the tokens that sqlparser makes of a SQL text in its PostgreSQL
/// dialect, or nothing where it makes none of it.
pub uninterp spec fn sqlparser_tokens(sql: Seq<char>) -> Option<Seq<Seq<char>>>;

/// The room on the stack that the walk of a document has left where it takes more,
/// and what it takes then.
const LEAST_LEFT: usize = 262_144;

const NEXT_PIECE: usize = 4_194_304;

/// Turns a `serde_json::Value` into a tree of the library, node by node, with more
/// room on the stack from `stacker::maybe_grow` wherever it runs short.
#[verifier::external_body]
fn json_from(value: serde_json::Value) -> (r: Json) {
    stacker::maybe_grow(LEAST_LEFT, NEXT_PIECE, || match value {
        serde_json::Value::Null => Json::Null,
        serde_json::Value::Bool(b) => Json::Bool(b),
        serde_json::Value::Number(n) => Json::Number(n.to_string()),
        serde_json::Value::String(s) => Json::Text(s),
        serde_json::Value::Array(items) => Json::Array(items.into_iter().map(json_from).collect()),
        serde_json::Value::Object(map) => Json::Object(
            map.into_iter().map(|(name, v)| Member { name, value: json_from(v) }).collect(),
        ),
    })
}

/// `sqlparser::tokenizer::Tokenizer::tokenize` in the PostgreSQL dialect, each token
/// by its `Display` text. Claims that the outcome depends on the text alone.
#[verifier::external_body]
fn tokens_of(sql: &str) -> (r: Option<Vec<String>>)
    ensures
        match r {
            Some(tokens) => sqlparser_tokens(sql@) == Some(text::views(tokens@)),
            None => sqlparser_tokens(sql@) is None,
        },
{
    match Tokenizer::new(&PostgreSqlDialect {}, sql).tokenize() {
        Ok(tokens) => Some(tokens.iter().map(|token| token.to_string()).collect()),
        Err(_) => None,
    }
}

/// The room on the stack that any text is parsed with, and the room more for each
/// token that can stand in another: what the parser makes of them is written and let go
/// of level by level.
pub const LEAST_STACK: usize = 4_194_304;

pub const STACK_PER_TOKEN: usize = 8192;

/// The longest chain of tokens for which the memory for that room is asked for.
pub const MOST_CHAIN: usize = 300_000;

/// The room on the stack that a text is parsed with.
pub open spec fn room_for(chain: nat) -> nat {
    LEAST_STACK as nat + chain * STACK_PER_TOKEN as nat
}

/// How deep the syntax of a text can be; where sqlparser makes no tokens of it, it
/// makes no syntax of it either.
pub open spec fn chain_of(tokens: Option<Seq<Seq<char>>>) -> nat {
    match tokens {
        Some(tokens) => chains::longest_chain(tokens),
        None => 0,
    }
}

/// `sqlparser::parser::Parser::parse_sql` in the PostgreSQL dialect, with the
/// `Display` text of each statement, its tree from `serde_json::to_value`, and the
/// texts of its parts: each operation of an `ALTER TABLE` (of an `ALTER COLUMN` its
/// column operation), and the object type of a `DROP`. All of it is run by
/// `stacker::maybe_grow` with that much room on the stack, for a tree as deep as the
/// tokens allow. Claims that the outcome depends on the text alone.
#[verifier::external_body]
fn parse_with_sqlparser(sql: &str, room: usize) -> (r: Result<Vec<ParsedStatement>, String>)
    requires
        room >= room_for(chain_of(sqlparser_tokens(sql@))),
    ensures
        match r {
            Ok(statements) => sqlparser_statements(sql@) == Ok::<Seq<ParsedView>, Seq<char>>(
                parsed_views(statements@),
            ),
            Err(message) => sqlparser_statements(sql@) == Err::<Seq<ParsedView>, Seq<char>>(
                message@,
            ),
        },
{
    stacker::maybe_grow(room, room, || match Parser::parse_sql(&PostgreSqlDialect {}, sql) {
        Ok(list) => Ok(list.iter().map(|s| ParsedStatement {
            text: s.to_string(),
            tree: json_from(serde_json::to_value(s).unwrap_or(serde_json::Value::Null)),
            parts: match s {
                Statement::AlterTable(alter) => alter.operations.iter().map(|o| match o {
                    AlterTableOperation::AlterColumn { op, .. } => op.to_string(),
                    other => other.to_string(),
                }).collect(),
                Statement::Drop { object_type, .. } => vec![object_type.to_string()],
                _ => Vec::new(),
            },
        }).collect()),
        Err(error) => Err(error.to_string()),
    })
}

fn parsing_room(chain: usize) -> (r: usize)
    requires
        chain <= MOST_CHAIN,
    ensures
        r == room_for(chain as nat),
{
    LEAST_STACK + chain * STACK_PER_TOKEN
}

/// The limits that hold for SQL text and its statements.
#[derive(Clone, Copy, Debug)]
pub struct SqlLimits {
    pub sql_bytes: usize,
    pub parse_nesting_depth: usize,
    pub expression_depth: usize,
    pub expression_nodes: usize,
}

pub open spec fn trees_of(statements: Seq<ParsedView>) -> Seq<JsonView> {
    statements.map_values(|p: ParsedView| p.tree)
}

/// A statement with the operator precedence repaired.
pub open spec fn repaired_statement(p: ParsedView) -> ParsedView {
    ParsedView { text: p.text, tree: precedence::repaired(p.tree), parts: p.parts }
}

/// What becomes of statements that the parser accepted.
pub open spec fn accepted(statements: Seq<ParsedView>, limits: SqlLimits) -> Result<
    Seq<ParsedView>,
    ErrorView,
> {
    match depth::refusal_of(
        trees_of(statements),
        limits.expression_depth as nat,
        limits.expression_nodes as nat,
    ) {
        Some(refusal) => Err(
            depth::refusal_error(
                refusal,
                limits.expression_depth as nat,
                limits.expression_nodes as nat,
            ),
        ),
        None => Ok(statements.map_values(|p: ParsedView| repaired_statement(p))),
    }
}

/// What parsing a text comes to. The parser is given `rewritten` where the text
/// had to be rewritten for it.
pub open spec fn parse_outcome(
    sql: Seq<char>,
    rewritten: Option<Seq<char>>,
    limits: SqlLimits,
) -> Result<Seq<ParsedView>, ErrorView> {
    let input = match rewritten {
        Some(t) => t,
        None => sql,
    };
    if scan::byte_len(sql) > limits.sql_bytes {
        Err(
            error::resource_limit_error(
                "54000"@,
                scan::sql_size_message(scan::byte_len(sql), limits.sql_bytes as nat),
            ),
        )
    } else if scan::deepest_nesting(input, 0, 0) > limits.parse_nesting_depth {
        Err(
            error::resource_limit_error(
                "54001"@,
                scan::nesting_message(limits.parse_nesting_depth as nat),
            ),
        )
    } else if chain_of(sqlparser_tokens(input)) > MOST_CHAIN {
        Err(
            depth::refusal_error(
                depth::Refusal::Depth,
                limits.expression_depth as nat,
                limits.expression_nodes as nat,
            ),
        )
    } else {
        match sqlparser_statements(input) {
            Ok(statements) => accepted(statements, limits),
            Err(message) => Err(error::invalid_sql_error(message)),
        }
    }
}

pub open spec fn outcome_view(r: Result<Vec<ParsedStatement>, SqlError>) -> Result<
    Seq<ParsedView>,
    ErrorView,
> {
    match r {
        Ok(v) => Ok(parsed_views(v@)),
        Err(e) => Err(e@),
    }
}

/// Lets go of statements level by level.
fn release_statements(statements: Vec<ParsedStatement>) {
    let mut rest = statements;
    let mut trees: Vec<Json> = Vec::new();
    while rest.len() > 0
        decreases rest@.len(),
    {
        let statement = rest.pop().unwrap();
        trees.push(statement.tree);
    }
    json::release(trees);
}

/// Checks the statements that the parser accepted against the limits on
/// expressions, and repairs the operator precedence in them.
pub fn accept_statements(statements: Vec<ParsedStatement>, limits: SqlLimits) -> (r: Result<
    Vec<ParsedStatement>,
    SqlError,
>)
    ensures
        outcome_view(r) == accepted(parsed_views(statements@), limits),
{
    let ghost all = parsed_views(statements@);
    let mut trees: Vec<&Json> = Vec::new();
    let mut i: usize = 0;
    while i < statements.len()
        invariant
            i <= statements.len(),
            all == parsed_views(statements@),
            json::refs_view(trees@) == trees_of(all).take(i as int),
        decreases statements.len() - i,
    {
        let ghost prior = trees@;
        trees.push(&statements[i].tree);
        assert(json::refs_view(trees@) =~= json::refs_view(prior).push(
            statements@[i as int].tree@,
        ));
        assert(trees_of(all).take(i as int + 1) =~= trees_of(all).take(i as int).push(
            statements@[i as int].tree@,
        ));
        i = i + 1;
    }
    assert(trees_of(all).take(all.len() as int) =~= trees_of(all));
    match depth::reject_deep_expressions(&trees, limits.expression_depth, limits.expression_nodes) {
        Ok(_) => {},
        Err(e) => {
            release_statements(statements);
            return Err(e);
        },
    }
    let mut rest = statements;
    let mut reversed: Vec<ParsedStatement> = Vec::new();
    while rest.len() > 0
        invariant
            rest@.len() + reversed@.len() == all.len(),
            parsed_views(rest@) == all.take(rest@.len() as int),
            forall|k: int|
                0 <= k < reversed@.len() ==> (#[trigger] reversed@[k])@ == repaired_statement(
                    all[all.len() - 1 - k],
                ),
        decreases rest@.len(),
    {
        let ghost before = rest@;
        let statement = rest.pop().unwrap();
        proof {
            assert(parsed_views(before)[before.len() - 1] == statement@);
            assert(parsed_views(rest@) =~= all.take(rest@.len() as int));
        }
        let tree = precedence::restore_postgres_distinct_boolean_precedence(statement.tree);
        let fixed = ParsedStatement { text: statement.text, tree, parts: statement.parts };
        assert(fixed@ =~= repaired_statement(statement@));
        reversed.push(fixed);
    }
    let mut out: Vec<ParsedStatement> = Vec::new();
    while reversed.len() > 0
        invariant
            reversed@.len() + out@.len() == all.len(),
            forall|k: int|
                0 <= k < reversed@.len() ==> (#[trigger] reversed@[k])@ == repaired_statement(
                    all[all.len() - 1 - k],
                ),
            forall|k: int|
                0 <= k < out@.len() ==> (#[trigger] out@[k])@ == repaired_statement(all[k]),
        decreases reversed@.len(),
    {
        let statement = reversed.pop().unwrap();
        out.push(statement);
    }
    assert(parsed_views(out@) =~= all.map_values(|p: ParsedView| repaired_statement(p)));
    Ok(out)
}

/// Parses a SQL text under the limits. `rewritten` is the form of the text that
/// the parser takes, where it differs from the text itself.
pub fn parse_statements(sql: &str, rewritten: Option<&str>, limits: SqlLimits) -> (r: Result<
    Vec<ParsedStatement>,
    SqlError,
>)
    ensures
        outcome_view(r) == parse_outcome(sql@, text::view_str(rewritten), limits),
{
    match scan::reject_oversized_sql(sql, limits.sql_bytes) {
        Ok(_) => {},
        Err(e) => {
            return Err(e);
        },
    }
    let input: &str = match rewritten {
        Some(t) => t,
        None => sql,
    };
    match scan::reject_deep_parse_nesting(input, limits.parse_nesting_depth) {
        Ok(_) => {},
        Err(e) => {
            return Err(e);
        },
    }
    let chain: usize = match tokens_of(input) {
        Some(tokens) => chains::chain_length(&tokens),
        None => 0,
    };
    if chain > MOST_CHAIN {
        return Err(depth::depth_error(limits.expression_depth));
    }
    match parse_with_sqlparser(input, parsing_room(chain)) {
        Ok(statements) => accept_statements(statements, limits),
        Err(message) => Err(SqlError::invalid_sql(message)),
    }
}

/// The last statement of a text as a query.
pub open spec fn query_of(
    outcome: Result<Seq<ParsedView>, ErrorView>,
    sql: Seq<char>,
) -> Result<ParsedView, ErrorView> {
    match outcome {
        Err(e) => Err(e),
        Ok(statements) => if statements.len() > 0 && json::is_variant(
            statements.last().tree,
            "Query"@,
        ) {
            Ok(statements.last())
        } else {
            Err(error::invalid_sql_error("invalid view query "@ + sql))
        },
    }
}

/// The query that the statements of a text end with.
pub fn last_query(statements: Vec<ParsedStatement>, sql: &str) -> (r: Result<
    ParsedStatement,
    SqlError,
>)
    ensures
        match (r, query_of(Ok(parsed_views(statements@)), sql@)) {
            (Ok(q), Ok(v)) => q@ == v,
            (Err(e), Err(v)) => e@ == v,
            _ => false,
        },
{
    let mut statements = statements;
    let ghost all = parsed_views(statements@);
    match statements.pop() {
        Some(last) => {
            assert(last@ == all.last());
            if json::has_variant(&last.tree, "Query") {
                return Ok(last);
            }
        },
        None => {},
    }
    Err(SqlError::invalid_sql(text::concat("invalid view query ", sql)))
}

/// Parses a text whose last statement is a query, and returns that query.
pub fn parse_query(sql: &str, rewritten: Option<&str>, limits: SqlLimits) -> (r: Result<
    ParsedStatement,
    SqlError,
>)
    ensures
        match (r, query_of(parse_outcome(sql@, text::view_str(rewritten), limits), sql@)) {
            (Ok(q), Ok(v)) => q@ == v,
            (Err(e), Err(v)) => e@ == v,
            _ => false,
        },
{
    match parse_statements(sql, rewritten, limits) {
        Ok(statements) => last_query(statements, sql),
        Err(e) => Err(e),
    }
}

} // verus!
