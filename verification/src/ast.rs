//! The parts of a query's syntax that planning reads.
use vstd::prelude::*;

verus! {

/// An identifier: its value, whether it stands in quotes, and how it is
/// written.
#[derive(Clone, Debug)]
pub struct Ident {
    pub value: String,
    pub quoted: bool,
    pub text: String,
}

/// The kinds of expressions.
#[derive(Clone, Copy, Debug, PartialEq, Eq, Structural)]
pub enum ExprKind {
    Identifier,
    CompoundIdentifier,
    CompoundFieldAccess,
    JsonAccess,
    IsFalse,
    IsNotFalse,
    IsTrue,
    IsNotTrue,
    IsNull,
    IsNotNull,
    IsUnknown,
    IsNotUnknown,
    IsDistinctFrom,
    IsNotDistinctFrom,
    IsNormalized,
    InList,
    InSubquery,
    InUnnest,
    Between,
    BinaryOp,
    /// `->` and `->>`.
    JsonArrow,
    Like,
    ILike,
    SimilarTo,
    RLike,
    AnyOp,
    AllOp,
    UnaryOp,
    Convert,
    Cast,
    AtTimeZone,
    Extract,
    Ceil,
    Floor,
    Position,
    Substring,
    Trim,
    Overlay,
    Collate,
    Nested,
    Value,
    Prefixed,
    TypedString,
    Function,
    Case,
    Exists,
    Subquery,
    GroupingSets,
    Cube,
    Rollup,
    Tuple,
    Struct,
    Named,
    Dictionary,
    MapLiteral,
    Array,
    Interval,
    MatchAgainst,
    Wildcard,
    QualifiedWildcard,
    OuterJoin,
    Prior,
    Lambda,
    MemberOf,
}

/// The place that an operand has in an expression.
#[derive(Clone, Copy, Debug, PartialEq, Eq, Structural)]
pub enum Role {
    /// An operand of the expression itself, in the order in which it is written.
    Operand,
    /// The array of `IN UNNEST (...)`.
    UnnestArray,
    /// A step `.expr` of a field access.
    FieldStep,
    /// A part of a subscript of a field access.
    Subscript,
}

#[derive(Debug)]
pub struct Operand {
    pub role: Role,
    pub expr: Expr,
}

/// An expression: its kind, the names that an identifier is made of, its
/// operands, the type that a cast names, the call that a function expression
/// makes, and the query that a subquery expression embeds. `constant_path` says
/// of a JSON arrow whether its right operand is a constant path.
#[derive(Debug)]
pub struct Expr {
    pub kind: ExprKind,
    pub names: Vec<String>,
    pub operands: Vec<Operand>,
    pub data_type: Option<String>,
    pub constant_path: bool,
    pub call: Option<Box<Function>>,
    pub query: Option<Box<Query>>,
}

/// A function call. `name` is the dotted name as it is written, `text` the
/// whole call as it is written, and `args` its argument expressions; a star
/// argument is no expression. `aggregate` says whether the name is that of an
/// aggregate, `spatial_predicate` whether it is that of a spatial predicate.
#[derive(Debug)]
pub struct Function {
    pub name: String,
    pub text: String,
    pub args: Vec<Expr>,
    pub star: bool,
    pub distinct: bool,
    pub aggregate: bool,
    pub spatial_predicate: bool,
    pub order_by: Vec<OrderByExpr>,
    pub filter: Option<Box<Expr>>,
    pub within_group: Vec<OrderByExpr>,
    pub null_treatment: bool,
    pub over: Option<WindowType>,
}

#[derive(Debug)]
pub enum WindowType {
    WindowSpec(WindowSpec),
    NamedWindow(Ident),
}

#[derive(Debug)]
pub struct WindowSpec {
    pub window_name: Option<Ident>,
    pub partition_by: Vec<Expr>,
    pub order_by: Vec<OrderByExpr>,
    pub window_frame: Option<String>,
}

#[derive(Debug)]
pub enum NamedWindowExpr {
    WindowSpec(WindowSpec),
    NamedWindow(Ident),
}

#[derive(Debug)]
pub struct NamedWindowDefinition {
    pub name: Ident,
    pub window: NamedWindowExpr,
}

#[derive(Debug)]
pub struct OrderByExpr {
    pub expr: Expr,
    pub options: OrderByOptions,
}

#[derive(Clone, Copy, Debug, PartialEq, Eq, Structural)]
pub struct OrderByOptions {
    pub asc: Option<bool>,
    pub nulls_first: Option<bool>,
}

#[derive(Debug)]
pub enum OrderBy {
    Expressions(Vec<OrderByExpr>),
    All,
}

/// An item of a projection. Wildcards and the forms that are not told apart are
/// kept as they are written.
#[derive(Debug)]
pub enum SelectItem {
    UnnamedExpr(Expr),
    ExprWithAlias { expr: Expr, alias: Ident },
    Wildcard(String),
    QualifiedWildcard(String),
    Other(String),
}

/// A GROUP BY clause; the counts are those of its modifiers.
#[derive(Debug)]
pub enum GroupByExpr {
    All(usize),
    Expressions(Vec<Expr>, usize),
}

#[derive(Debug)]
pub struct Select {
    pub projection: Vec<SelectItem>,
    pub selection: Option<Expr>,
    pub group_by: GroupByExpr,
    pub having: Option<Expr>,
    pub named_window: Vec<NamedWindowDefinition>,
}

/// The body of a query. A statement that changes data is kept as it is written.
#[derive(Debug)]
pub enum SetExpr {
    Select(Box<Select>),
    Query(Box<Query>),
    SetOperation { left: Box<SetExpr>, right: Box<SetExpr> },
    Insert(String),
    Update(String),
    Delete(String),
    Other,
}

#[derive(Debug)]
pub struct Query {
    pub body: Box<SetExpr>,
    pub order_by: Option<OrderBy>,
}

} // verus!
