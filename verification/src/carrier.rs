//! The grants that a runtime role needs so that the functions and views it may
//! use can use what they depend on.
use vstd::prelude::*;
use crate::caches::RoutineKind;
use crate::error;
use crate::error::SqlError;
use crate::grants;
use crate::privileges;
use crate::privileges::{GrantView, PrivilegeGrant, PrivilegeObjectType, RelationInfo};
use crate::reach;
use crate::roles;
use crate::roles::RoleCatalog;
use crate::sets;
use crate::text;

verus! {

/// The characters that mean something of their own in a pattern.
pub open spec fn is_meta(c: char) -> bool {
    "\\.+*?()|[]{}^$#&-~"@.contains(c)
}

/// A text as a pattern that matches it alone: each character that means something of
/// its own has a backslash before it.
pub open spec fn regex_escaped(s: Seq<char>) -> Seq<char>
    decreases s.len(),
{
    if s.len() == 0 {
        Seq::empty()
    } else if is_meta(s.last()) {
        regex_escaped(s.drop_last()).push('\\').push(s.last())
    } else {
        regex_escaped(s.drop_last()).push(s.last())
    }
}

/// `regex::escape`. Claims that it puts a backslash before each of those characters
/// and changes nothing else.
#[verifier::external_body]
fn escape(s: &str) -> (r: String)
    ensures
        r@ == regex_escaped(s@),
{
    regex::escape(s)
}

/// Whether the pattern that `regex::RegexBuilder` builds, without regard to
/// case, matches somewhere in a text, or what it says where it builds none.
pub uninterp spec fn regex_found(pattern: Seq<char>, sql: Seq<char>) -> Result<bool, Seq<char>>;

pub open spec fn view_found(r: Result<bool, String>) -> Result<bool, Seq<char>> {
    match r {
        Ok(b) => Ok(b),
        Err(e) => Err(e@),
    }
}

/// `regex::RegexBuilder::build` without regard to case, and `Regex::is_match`.
/// Claims that the answer depends on the pattern and the text alone.
#[verifier::external_body]
fn find_pattern(pattern: &str, sql: &str) -> (r: Result<bool, String>)
    ensures
        view_found(r) == regex_found(pattern@, sql@),
{
    match regex::RegexBuilder::new(pattern).case_insensitive(true).build() {
        Ok(compiled) => Ok(compiled.is_match(sql)),
        Err(error) => Err(error.to_string()),
    }
}

/// The last part of a dotted name, without the quotes round it.
pub open spec fn last_part(name: Seq<char>) -> Seq<char> {
    text::strip(text::pieces(text::strip(name, '"'), '.').last(), '"')
}

fn last_part_of(name: &str) -> (r: String)
    ensures
        r@ == last_part(name@),
{
    let bare = text::stripped(name, '"');
    let parts = text::split_on(bare.as_str(), '.');
    proof {
        text::lemma_pieces(bare@, '.');
        assert(text::views(parts@).last() == parts@.last()@);
    }
    text::stripped(parts[parts.len() - 1].as_str(), '"')
}

/// A relation name without its schema and its quotes, in lower case.
pub open spec fn unqualified(name: Seq<char>) -> Seq<char> {
    text::lower(last_part(name))
}

/// A relation name without its schema and its quotes, in lower case.
pub fn unqualified_relation(name: &str) -> (r: String)
    ensures
        r@ == unqualified(name@),
{
    let part = last_part_of(name);
    text::to_lower(part.as_str())
}

/// What is done to a relation.
#[derive(Clone, Copy, Debug, PartialEq, Eq, Structural)]
pub enum Operation {
    Select,
    Insert,
    Update,
    Delete,
}

pub open spec fn operations() -> Seq<Operation> {
    seq![Operation::Select, Operation::Insert, Operation::Update, Operation::Delete]
}

/// The privilege that an operation takes.
pub open spec fn operation_text(op: Operation) -> Seq<char> {
    match op {
        Operation::Select => "SELECT"@,
        Operation::Insert => "INSERT"@,
        Operation::Update => "UPDATE"@,
        Operation::Delete => "DELETE"@,
    }
}

fn operation_name(op: Operation) -> (r: &'static str)
    ensures
        r@ == operation_text(op),
{
    match op {
        Operation::Select => "SELECT",
        Operation::Insert => "INSERT",
        Operation::Update => "UPDATE",
        Operation::Delete => "DELETE",
    }
}

/// The pattern of a call of a routine.
pub open spec fn routine_pattern(name: Seq<char>) -> Seq<char> {
    "(^|[^[:alnum:]_$])((public|carrier_private)[.])?"@ + regex_escaped(unqualified(name))
        + "[[:space:]]*[(]"@
}

/// The pattern of what comes before the relation of an operation.
pub open spec fn operation_prefix(op: Operation) -> Seq<char> {
    match op {
        Operation::Select => "(FROM|JOIN)[[:space:]]+(ONLY[[:space:]]+|LATERAL[[:space:]]+)*"@,
        Operation::Insert => "INSERT[[:space:]]+INTO[[:space:]]+(ONLY[[:space:]]+)*"@,
        Operation::Update => "UPDATE[[:space:]]+(ONLY[[:space:]]+)*"@,
        Operation::Delete => "DELETE[[:space:]]+FROM[[:space:]]+(ONLY[[:space:]]+)*"@,
    }
}

fn operation_prefix_of(op: Operation) -> (r: &'static str)
    ensures
        r@ == operation_prefix(op),
{
    match op {
        Operation::Select => "(FROM|JOIN)[[:space:]]+(ONLY[[:space:]]+|LATERAL[[:space:]]+)*",
        Operation::Insert => "INSERT[[:space:]]+INTO[[:space:]]+(ONLY[[:space:]]+)*",
        Operation::Update => "UPDATE[[:space:]]+(ONLY[[:space:]]+)*",
        Operation::Delete => "DELETE[[:space:]]+FROM[[:space:]]+(ONLY[[:space:]]+)*",
    }
}

/// The pattern of an operation on a relation.
pub open spec fn relation_pattern(name: Seq<char>, op: Operation) -> Seq<char> {
    "(^|[^[:alnum:]_$])"@ + operation_prefix(op) + "((public|carrier_private)[.])?"@
        + regex_escaped(unqualified(name)) + "([^[:alnum:]_$]|$)"@
}

/// The text calls the routine.
pub open spec fn calls(sql: Seq<char>, routine: Seq<char>) -> Result<bool, Seq<char>> {
    regex_found(routine_pattern(routine), sql)
}

/// The text does that to the relation.
pub open spec fn touches(sql: Seq<char>, relation: Seq<char>, op: Operation) -> Result<
    bool,
    Seq<char>,
> {
    regex_found(relation_pattern(relation, op), sql)
}

/// The refusal of a pattern that cannot be built.
pub open spec fn pattern_error(message: Seq<char>) -> error::ErrorView {
    error::invalid_sql_error("invalid dependency pattern: "@ + message)
}

/// A search and the outcome that it has to be.
pub open spec fn search_result(r: Result<bool, SqlError>, v: Result<bool, Seq<char>>) -> bool {
    match (r, v) {
        (Ok(b), Ok(view)) => b == view,
        (Err(e), Err(message)) => is_pattern_error(e) && failure(e) == message,
        _ => false,
    }
}

/// What an error that a pattern cannot be built goes on to say.
pub open spec fn failure(e: SqlError) -> Seq<char> {
    e.message@.skip("invalid dependency pattern: "@.len() as int)
}

/// The error says that a pattern cannot be built.
pub open spec fn is_pattern_error(e: SqlError) -> bool {
    e@ == pattern_error(failure(e))
}

/// Whether a pattern is found in a text.
pub fn reviewed_dependency_regex(pattern: &str, sql: &str) -> (r: Result<bool, SqlError>)
    ensures
        search_result(r, regex_found(pattern@, sql@)),
{
    match find_pattern(pattern, sql) {
        Ok(b) => Ok(b),
        Err(message) => {
            let whole = text::concat("invalid dependency pattern: ", message.as_str());
            assert(whole@.skip("invalid dependency pattern: "@.len() as int) =~= message@);
            Err(SqlError::invalid_sql(whole))
        },
    }
}

/// Whether a text calls a routine.
pub fn sql_mentions_routine(sql: &str, routine: &str) -> (r: Result<bool, SqlError>)
    ensures
        search_result(r, calls(sql@, routine@)),
{
    let name = unqualified_relation(routine);
    let escaped = escape(name.as_str());
    let pattern = text::concat3(
        "(^|[^[:alnum:]_$])((public|carrier_private)[.])?",
        escaped.as_str(),
        "[[:space:]]*[(]",
    );
    reviewed_dependency_regex(pattern.as_str(), sql)
}

/// Whether a text does that to a relation.
pub fn sql_mentions_relation_operation(sql: &str, relation: &str, op: Operation) -> (r: Result<
    bool,
    SqlError,
>)
    ensures
        search_result(r, touches(sql@, relation@, op)),
{
    let name = unqualified_relation(relation);
    let escaped = escape(name.as_str());
    let prefix = operation_prefix_of(op);
    let head = text::concat3("(^|[^[:alnum:]_$])", prefix, "((public|carrier_private)[.])?");
    let pattern = text::concat3(head.as_str(), escaped.as_str(), "([^[:alnum:]_$]|$)");
    reviewed_dependency_regex(pattern.as_str(), sql)
}

/// A routine: its kind, its name and its bare name, the schema it is stored with, its
/// language and definition, its owner, and, where it runs with the rights of its
/// definer, that one.
#[derive(Debug)]
pub struct CarrierRoutine {
    pub kind: RoutineKind,
    pub name: String,
    pub bare_name: String,
    pub schema: String,
    pub language: String,
    pub definition: String,
    pub owner: String,
    pub security_definer: bool,
    pub definer_owner: Option<String>,
}

/// A trigger: its event, the table it is on, and the bare name of its function.
#[derive(Debug)]
pub struct CarrierTrigger {
    pub event: String,
    pub relation: RelationInfo,
    pub function: String,
}

/// A policy of a table: the expressions that it checks.
#[derive(Debug)]
pub struct CarrierPolicy {
    pub using_expr: Option<String>,
    pub check_expr: Option<String>,
}

#[derive(Debug)]
pub struct CarrierTable {
    pub name: String,
    pub schema_name: String,
    pub relation: RelationInfo,
    pub policies: Vec<CarrierPolicy>,
}

#[derive(Debug)]
pub struct CarrierView {
    pub name: String,
    pub relation: RelationInfo,
    pub query_sql: String,
    pub security_invoker: bool,
    pub owner: Option<String>,
}

/// What the grants are derived from.
#[derive(Debug)]
pub struct CarrierCatalog {
    pub roles: RoleCatalog,
    pub grants: Vec<PrivilegeGrant>,
    pub routines: Vec<CarrierRoutine>,
    pub triggers: Vec<CarrierTrigger>,
    pub tables: Vec<CarrierTable>,
    pub views: Vec<CarrierView>,
}

/// Only the tables of two schemas take part.
pub open spec fn takes_part(t: CarrierTable) -> bool {
    t.schema_name@ == "public"@ || t.schema_name@ == "carrier_private"@
}

fn table_takes_part(t: &CarrierTable) -> (r: bool)
    ensures
        r == takes_part(*t),
{
    text::text_eq(t.schema_name.as_str(), "public") || text::text_eq(
        t.schema_name.as_str(),
        "carrier_private",
    )
}

/// The grant of a privilege on an object, as it is stored.
pub open spec fn runtime_grant(
    kind: PrivilegeObjectType,
    name: Seq<char>,
    grantee: Seq<char>,
    privilege: Seq<char>,
) -> GrantView {
    GrantView {
        column: None,
        object_type: kind,
        object_name: last_part(name),
        grantee: roles::normal_role(grantee),
        privilege: text::upper(privilege),
    }
}

fn save_runtime_privilege(
    saved: &mut Vec<PrivilegeGrant>,
    kind: PrivilegeObjectType,
    name: &str,
    grantee: &str,
    privilege: &str,
)
    ensures
        forall|g: GrantView| #[trigger]
            privileges::grant_views(final(saved)@).contains(g) <==> privileges::grant_views(
                old(saved)@,
            ).contains(g) || g == runtime_grant(kind, name@, grantee@, privilege@),
{
    let ghost before = privileges::grant_views(saved@);
    let grant = PrivilegeGrant {
        column: None,
        object_type: kind,
        object_name: last_part_of(name),
        grantee: roles::normalize_role_name(grantee),
        privilege: text::to_upper(privilege),
    };
    let ghost shown = grant@;
    assert(shown =~= runtime_grant(kind, name@, grantee@, privilege@));
    saved.push(grant);
    proof {
        let after = privileges::grant_views(saved@);
        assert(after =~= before.push(shown));
        assert forall|g: GrantView| #[trigger] after.contains(g) <==> before.contains(g) || g
            == shown by {
            if before.contains(g) {
                let i = choose|i: int| 0 <= i < before.len() && before[i] == g;
                assert(after[i] == g);
            }
            assert(after[before.len() as int] == shown);
        }
    }
}

/// A function to look at: the bare name of a routine, and who it runs as.
#[derive(Debug)]
pub struct FunctionItem {
    pub routine: String,
    pub executor: String,
}

/// A view to look at: its bare name, who uses it, and how.
#[derive(Debug)]
pub struct RelationItem {
    pub relation: String,
    pub executor: String,
    pub operation: Operation,
}

pub open spec fn function_views(v: Seq<FunctionItem>) -> Seq<(Seq<char>, Seq<char>)> {
    v.map_values(|i: FunctionItem| (i.routine@, i.executor@))
}

pub open spec fn relation_views(v: Seq<RelationItem>) -> Seq<((Seq<char>, Seq<char>), Operation)> {
    v.map_values(|i: RelationItem| ((i.relation@, i.executor@), i.operation))
}

fn enqueue_function_dependency(work: &mut Vec<FunctionItem>, routine: &str, executor: &str)
    ensures
        function_views(final(work)@) == sets::added(
            function_views(old(work)@),
            (routine@, roles::normal_role(executor@)),
        ),
        old(work)@.is_prefix_of(final(work)@),
{
    let ghost all = function_views(work@);
    let who = roles::normalize_role_name(executor);
    let ghost item = (routine@, who@);
    let mut i: usize = 0;
    while i < work.len()
        invariant
            i <= work.len(),
            all == function_views(work@),
            work@ == old(work)@,
            item == (routine@, who@),
            who@ == roles::normal_role(executor@),
            forall|k: int| 0 <= k < i ==> #[trigger] all[k] != item,
        decreases work.len() - i,
    {
        assert(all[i as int] == (work@[i as int].routine@, work@[i as int].executor@));
        if text::text_eq(work[i].routine.as_str(), routine) && text::text_eq(
            work[i].executor.as_str(),
            who.as_str(),
        ) {
            assert(all.contains(item));
            return ;
        }
        i = i + 1;
    }
    work.push(FunctionItem { routine: routine.to_owned(), executor: who });
    assert(function_views(work@) =~= all.push(item));
}

fn enqueue_relation_dependency(
    work: &mut Vec<RelationItem>,
    relation: &str,
    executor: &str,
    operation: Operation,
)
    ensures
        relation_views(final(work)@) == sets::added(
            relation_views(old(work)@),
            ((unqualified(relation@), roles::normal_role(executor@)), operation),
        ),
        old(work)@.is_prefix_of(final(work)@),
{
    let ghost all = relation_views(work@);
    let name = unqualified_relation(relation);
    let who = roles::normalize_role_name(executor);
    let ghost item = ((name@, who@), operation);
    let mut i: usize = 0;
    while i < work.len()
        invariant
            i <= work.len(),
            all == relation_views(work@),
            work@ == old(work)@,
            item == ((name@, who@), operation),
            name@ == unqualified(relation@),
            who@ == roles::normal_role(executor@),
            forall|k: int| 0 <= k < i ==> #[trigger] all[k] != item,
        decreases work.len() - i,
    {
        assert(all[i as int] == (
            (work@[i as int].relation@, work@[i as int].executor@),
            work@[i as int].operation,
        ));
        if text::text_eq(work[i].relation.as_str(), name.as_str()) && text::text_eq(
            work[i].executor.as_str(),
            who.as_str(),
        ) && work[i].operation == operation {
            assert(all.contains(item));
            return ;
        }
        i = i + 1;
    }
    work.push(RelationItem { relation: name, executor: who, operation });
    assert(relation_views(work@) =~= all.push(item));
}

/// The texts of a policy.
pub open spec fn policy_source(p: CarrierPolicy) -> Seq<char> {
    text_or_empty(p.using_expr) + " "@ + text_or_empty(p.check_expr)
}

pub open spec fn text_or_empty(t: Option<String>) -> Seq<char> {
    match t {
        Some(s) => s@,
        None => Seq::empty(),
    }
}

fn source_of(p: &CarrierPolicy) -> (r: String)
    ensures
        r@ == policy_source(*p),
{
    let using_text = match &p.using_expr {
        Some(s) => s.clone(),
        None => String::new(),
    };
    let check_text = match &p.check_expr {
        Some(s) => s.clone(),
        None => String::new(),
    };
    assert(using_text@ =~= text_or_empty(p.using_expr));
    assert(check_text@ =~= text_or_empty(p.check_expr));
    text::concat3(using_text.as_str(), " ", check_text.as_str())
}

/// The role may do that to the relation.
pub open spec fn may(c: CarrierCatalog, role: Seq<char>, r: RelationInfo, op: Operation) -> bool {
    privileges::may_use_table(
        c.roles,
        privileges::grant_views(c.grants@),
        role,
        r,
        operation_text(op),
    )
}

fn may_do(c: &CarrierCatalog, role: &str, r: &RelationInfo, op: Operation) -> (b: bool)
    ensures
        b == may(*c, role@, *r, op),
{
    privileges::role_has_table_privilege(&c.roles, &c.grants, role, r, operation_name(op))
}

/// The policies of the table can come to bear for the role.
pub open spec fn policies_apply(c: CarrierCatalog, role: Seq<char>, t: CarrierTable) -> bool {
    takes_part(t) && exists|op: Operation| #[trigger] may(c, role, t.relation, op)
}

/// A policy that can come to bear for the role calls the routine.
pub open spec fn policy_calls(
    c: CarrierCatalog,
    role: Seq<char>,
    t: int,
    p: int,
    routine: int,
) -> bool {
    &&& 0 <= t < c.tables@.len()
    &&& policies_apply(c, role, c.tables@[t])
    &&& 0 <= p < c.tables@[t].policies@.len()
    &&& 0 <= routine < c.routines@.len()
    &&& calls(policy_source(c.tables@[t].policies@[p]), c.routines@[routine].name@) == Ok::<
        bool,
        Seq<char>,
    >(true)
}

/// The first routine of a kind that is stored under a bare name.
pub open spec fn stored_routine(
    routines: Seq<CarrierRoutine>,
    kind: RoutineKind,
    bare_name: Seq<char>,
    from: int,
) -> Option<int>
    decreases routines.len() - from,
{
    if from < 0 || from >= routines.len() {
        None
    } else if routines[from].kind == kind && routines[from].bare_name@ == bare_name {
        Some(from)
    } else {
        stored_routine(routines, kind, bare_name, from + 1)
    }
}

/// Whose a bare name is: the owner of the function, or of the procedure where there is
/// no such function.
pub open spec fn name_owner(routines: Seq<CarrierRoutine>, bare_name: Seq<char>) -> Option<
    Seq<char>,
> {
    match stored_routine(routines, RoutineKind::Function, bare_name, 0) {
        Some(i) => Some(routines[i].owner@),
        None => match stored_routine(routines, RoutineKind::Procedure, bare_name, 0) {
            Some(i) => Some(routines[i].owner@),
            None => None,
        },
    }
}

fn find_stored_routine(
    routines: &Vec<CarrierRoutine>,
    kind: RoutineKind,
    bare_name: &str,
) -> (r: Option<usize>)
    ensures
        match (r, stored_routine(routines@, kind, bare_name@, 0)) {
            (Some(i), Some(k)) => i == k && i < routines.len(),
            (None, None) => true,
            _ => false,
        },
{
    let mut i: usize = 0;
    while i < routines.len()
        invariant
            i <= routines.len(),
            stored_routine(routines@, kind, bare_name@, 0) == stored_routine(
                routines@,
                kind,
                bare_name@,
                i as int,
            ),
        decreases routines.len() - i,
    {
        if routines[i].kind == kind && text::text_eq(routines[i].bare_name.as_str(), bare_name) {
            return Some(i);
        }
        i = i + 1;
    }
    None
}

fn owner_of_name<'a>(routines: &'a Vec<CarrierRoutine>, bare_name: &str) -> (r: Option<&'a str>)
    ensures
        text::view_str(r) == name_owner(routines@, bare_name@),
{
    match find_stored_routine(routines, RoutineKind::Function, bare_name) {
        Some(i) => Some(routines[i].owner.as_str()),
        None => match find_stored_routine(routines, RoutineKind::Procedure, bare_name) {
            Some(i) => Some(routines[i].owner.as_str()),
            None => None,
        },
    }
}

/// The role may execute the routine.
pub open spec fn executes(c: CarrierCatalog, role: Seq<char>, i: int) -> bool {
    0 <= i < c.routines@.len() && privileges::may_execute(
        c.roles,
        privileges::grant_views(c.grants@),
        role,
        c.routines@[i].bare_name@,
        name_owner(c.routines@, c.routines@[i].bare_name@),
    )
}

/// The operation that sets off a trigger.
pub open spec fn trigger_operation(event: Seq<char>) -> Option<Operation> {
    let upper = text::upper(event);
    if upper == "INSERT"@ {
        Some(Operation::Insert)
    } else if upper == "UPDATE"@ {
        Some(Operation::Update)
    } else if upper == "DELETE"@ {
        Some(Operation::Delete)
    } else {
        None
    }
}

fn trigger_operation_of(event: &str) -> (r: Option<Operation>)
    ensures
        r == trigger_operation(event@),
{
    let upper = text::to_upper(event);
    if text::text_eq(upper.as_str(), "INSERT") {
        Some(Operation::Insert)
    } else if text::text_eq(upper.as_str(), "UPDATE") {
        Some(Operation::Update)
    } else if text::text_eq(upper.as_str(), "DELETE") {
        Some(Operation::Delete)
    } else {
        None
    }
}

/// The role may set off the trigger.
pub open spec fn sets_off(c: CarrierCatalog, role: Seq<char>, i: int) -> bool {
    &&& 0 <= i < c.triggers@.len()
    &&& trigger_operation(c.triggers@[i].event@) is Some
    &&& may(c, role, c.triggers@[i].relation, trigger_operation(c.triggers@[i].event@)->0)
}

/// The functions that run for the role itself.
pub open spec fn first_function(
    c: CarrierCatalog,
    role: Seq<char>,
    x: (Seq<char>, Seq<char>),
) -> bool {
    x.1 == roles::normal_role(role) && {
        ||| exists|i: int| #[trigger] executes(c, role, i) && x.0 == c.routines@[i].bare_name@
        ||| exists|i: int| #[trigger] sets_off(c, role, i) && x.0 == c.triggers@[i].function@
        ||| exists|t: int, p: int, i: int| #[trigger]
            policy_calls(c, role, t, p, i) && x.0 == c.routines@[i].bare_name@
    }
}

/// The first routine with that name from there on, whatever the case of its
/// letters.
pub open spec fn routine_named(routines: Seq<CarrierRoutine>, name: Seq<char>, from: int) -> Option<
    int,
>
    decreases routines.len() - from,
{
    if from < 0 || from >= routines.len() {
        None
    } else if text::same_ignoring_case(routines[from].name@, name) {
        Some(from)
    } else {
        routine_named(routines, name, from + 1)
    }
}

/// The routine that an item is about, where its text can be looked into.
pub open spec fn caller_of(c: CarrierCatalog, x: (Seq<char>, Seq<char>)) -> Option<int> {
    match routine_named(c.routines@, x.0, 0) {
        Some(i) => if c.routines@[i].language@ == "sql"@ || c.routines@[i].language@
            == "plpgsql"@ {
            Some(i)
        } else {
            None
        },
        None => None,
    }
}

/// Who a routine runs as: its definer, where it says so and the definer is
/// known, or who calls it.
pub open spec fn runs_as(f: CarrierRoutine, executor: Seq<char>) -> Seq<char> {
    match f.definer_owner {
        Some(owner) => if f.security_definer {
            owner@
        } else {
            executor
        },
        None => executor,
    }
}

/// One routine calls another.
pub open spec fn routine_calls(c: CarrierCatalog, caller: int, callee: int) -> bool {
    &&& 0 <= callee < c.routines@.len()
    &&& !text::same_ignoring_case(c.routines@[callee].name@, c.routines@[caller].name@)
    &&& calls(c.routines@[caller].definition@, c.routines@[callee].name@) == Ok::<bool, Seq<char>>(
        true,
    )
}

/// The text does that to a table that takes part.
pub open spec fn text_touches_table(c: CarrierCatalog, sql: Seq<char>, t: int, op: Operation) -> bool {
    &&& 0 <= t < c.tables@.len()
    &&& takes_part(c.tables@[t])
    &&& touches(sql, c.tables@[t].name@, op) == Ok::<bool, Seq<char>>(true)
}

/// The text does that to a view.
pub open spec fn text_touches_view(c: CarrierCatalog, sql: Seq<char>, v: int, op: Operation) -> bool {
    &&& 0 <= v < c.views@.len()
    &&& touches(sql, c.views@[v].name@, op) == Ok::<bool, Seq<char>>(true)
}

/// One function leads to another: it calls it.
pub open spec fn function_leads_to(
    c: CarrierCatalog,
    x: (Seq<char>, Seq<char>),
    y: (Seq<char>, Seq<char>),
) -> bool {
    match caller_of(c, x) {
        Some(caller) => y.1 == roles::normal_role(runs_as(c.routines@[caller], x.1)) && exists|
            callee: int,
        | #[trigger]
            routine_calls(c, caller, callee) && y.0 == c.routines@[callee].bare_name@,
        None => false,
    }
}

/// The function is run, by the role or by a function that is.
pub open spec fn is_run(c: CarrierCatalog, role: Seq<char>, x: (Seq<char>, Seq<char>)) -> bool {
    reach::reachable(
        |x: (Seq<char>, Seq<char>)| first_function(c, role, x),
        |x: (Seq<char>, Seq<char>), y: (Seq<char>, Seq<char>)| function_leads_to(c, x, y),
        x,
    )
}

/// A routine that is run as somebody takes the grant, for the routines that it
/// calls.
pub open spec fn call_grant(
    c: CarrierCatalog,
    caller: int,
    executor: Seq<char>,
    callee: int,
    g: GrantView,
) -> bool {
    routine_calls(c, caller, callee) && (g == runtime_grant(
        PrivilegeObjectType::Schema,
        grants::routine_schema(c.routines@[callee].schema@, c.routines@[callee].definition@),
        executor,
        "USAGE"@,
    ) || g == runtime_grant(
        PrivilegeObjectType::Function,
        c.routines@[callee].name@,
        executor,
        "EXECUTE"@,
    ))
}

/// A text that is run as somebody takes the grant, for the tables it is about.
pub open spec fn table_grant(
    c: CarrierCatalog,
    sql: Seq<char>,
    executor: Seq<char>,
    t: int,
    op: Operation,
    g: GrantView,
) -> bool {
    text_touches_table(c, sql, t, op) && (g == runtime_grant(
        PrivilegeObjectType::Schema,
        c.tables@[t].schema_name@,
        executor,
        "USAGE"@,
    ) || g == runtime_grant(
        PrivilegeObjectType::Table,
        c.tables@[t].name@,
        executor,
        operation_text(op),
    ))
}

/// A routine that is run as somebody takes the grant, for the views it is about.
pub open spec fn view_grant(
    c: CarrierCatalog,
    sql: Seq<char>,
    executor: Seq<char>,
    v: int,
    op: Operation,
    g: GrantView,
) -> bool {
    text_touches_view(c, sql, v, op) && (g == runtime_grant(
        PrivilegeObjectType::Schema,
        "public"@,
        executor,
        "USAGE"@,
    ) || g == runtime_grant(
        PrivilegeObjectType::Table,
        c.views@[v].name@,
        executor,
        operation_text(op),
    ))
}

/// A function that is run takes the grant.
pub open spec fn function_takes(
    c: CarrierCatalog,
    x: (Seq<char>, Seq<char>),
    g: GrantView,
) -> bool {
    match caller_of(c, x) {
        Some(caller) => {
            let executor = runs_as(c.routines@[caller], x.1);
            let sql = c.routines@[caller].definition@;
            ||| exists|callee: int| #[trigger] call_grant(c, caller, executor, callee, g)
            ||| exists|t: int, op: Operation| #[trigger] table_grant(c, sql, executor, t, op, g)
            ||| exists|v: int, op: Operation| #[trigger] view_grant(c, sql, executor, v, op, g)
        },
        None => false,
    }
}

/// A function that is run uses the view.
pub open spec fn function_uses(
    c: CarrierCatalog,
    x: (Seq<char>, Seq<char>),
    y: ((Seq<char>, Seq<char>), Operation),
) -> bool {
    match caller_of(c, x) {
        Some(caller) => (y.0).1 == roles::normal_role(runs_as(c.routines@[caller], x.1)) && exists|
            v: int,
        | #[trigger]
            text_touches_view(c, c.routines@[caller].definition@, v, y.1) && (y.0).0 == unqualified(
                c.views@[v].name@,
            ),
        None => false,
    }
}

/// The first view with that name from there on, whatever the case of its
/// letters.
pub open spec fn view_named(views: Seq<CarrierView>, name: Seq<char>, from: int) -> Option<int>
    decreases views.len() - from,
{
    if from < 0 || from >= views.len() {
        None
    } else if text::same_ignoring_case(views[from].name@, name) {
        Some(from)
    } else {
        view_named(views, name, from + 1)
    }
}

/// Who the query of a view runs as: its owner, unless it runs as who uses it.
pub open spec fn view_runs_as(v: CarrierView, executor: Seq<char>) -> Seq<char> {
    if v.security_invoker {
        executor
    } else {
        match v.owner {
            Some(owner) => owner@,
            None => roles::bootstrap_role(),
        }
    }
}

/// The views that are used by the role itself or by a function that is run.
pub open spec fn first_view(
    c: CarrierCatalog,
    role: Seq<char>,
    y: ((Seq<char>, Seq<char>), Operation),
) -> bool {
    ||| (y.0).1 == roles::normal_role(role) && exists|v: int|
        0 <= v < c.views@.len() && may(c, role, (#[trigger] c.views@[v]).relation, y.1) && (y.0).0
            == unqualified(c.views@[v].name@)
    ||| exists|x: (Seq<char>, Seq<char>)| #[trigger] is_run(c, role, x) && function_uses(c, x, y)
}

/// The query of one view does that to another.
pub open spec fn view_touches(c: CarrierCatalog, v: int, w: int, op: Operation) -> bool {
    text_touches_view(c, c.views@[v].query_sql@, w, op) && !text::same_ignoring_case(
        c.views@[w].name@,
        c.views@[v].name@,
    )
}

/// One view leads to another: its query does to it what is done to the view.
pub open spec fn view_leads_to(
    c: CarrierCatalog,
    y: ((Seq<char>, Seq<char>), Operation),
    z: ((Seq<char>, Seq<char>), Operation),
) -> bool {
    match view_named(c.views@, (y.0).0, 0) {
        Some(v) => z.1 == y.1 && (z.0).1 == roles::normal_role(
            view_runs_as(c.views@[v], (y.0).1),
        ) && exists|w: int| #[trigger]
            view_touches(c, v, w, y.1) && (z.0).0 == unqualified(c.views@[w].name@),
        None => false,
    }
}

/// The view is used, by the role, by a function that is run, or by a view that
/// is.
pub open spec fn is_used(
    c: CarrierCatalog,
    role: Seq<char>,
    y: ((Seq<char>, Seq<char>), Operation),
) -> bool {
    reach::reachable(
        |y: ((Seq<char>, Seq<char>), Operation)| first_view(c, role, y),
        |
            y: ((Seq<char>, Seq<char>), Operation),
            z: ((Seq<char>, Seq<char>), Operation),
        | view_leads_to(c, y, z),
        y,
    )
}

/// A view that is used takes the grant on another view.
pub open spec fn inner_view_grant(
    c: CarrierCatalog,
    v: int,
    executor: Seq<char>,
    w: int,
    op: Operation,
    g: GrantView,
) -> bool {
    view_touches(c, v, w, op) && g == runtime_grant(
        PrivilegeObjectType::Table,
        c.views@[w].name@,
        executor,
        operation_text(op),
    )
}

/// A view that is used takes the grant.
pub open spec fn view_takes(
    c: CarrierCatalog,
    y: ((Seq<char>, Seq<char>), Operation),
    g: GrantView,
) -> bool {
    match view_named(c.views@, (y.0).0, 0) {
        Some(v) => {
            let executor = view_runs_as(c.views@[v], (y.0).1);
            ||| exists|t: int| #[trigger]
                table_grant(c, c.views@[v].query_sql@, executor, t, y.1, g)
            ||| exists|w: int| #[trigger] inner_view_grant(c, v, executor, w, y.1, g)
        },
        None => false,
    }
}

/// The grant is needed so that what the role may use can use what it depends
/// on.
pub open spec fn is_needed(c: CarrierCatalog, role: Seq<char>, g: GrantView) -> bool {
    ||| exists|t: int, p: int, i: int| #[trigger]
        policy_calls(c, role, t, p, i) && g == runtime_grant(
            PrivilegeObjectType::Function,
            c.routines@[i].name@,
            role,
            "EXECUTE"@,
        )
    ||| exists|x: (Seq<char>, Seq<char>)| #[trigger] is_run(c, role, x) && function_takes(c, x, g)
    ||| exists|y: ((Seq<char>, Seq<char>), Operation)| #[trigger]
        is_used(c, role, y) && view_takes(c, y, g)
}

/// Every operation on that name can be searched for in the text.
pub open spec fn operations_searchable(sql: Seq<char>, name: Seq<char>) -> bool {
    forall|op: Operation| (#[trigger] touches(sql, name, op)) is Ok
}

/// The operations on the tables that take part can be searched for in the text.
pub open spec fn tables_searchable(c: CarrierCatalog, sql: Seq<char>) -> bool {
    forall|t: int|
        0 <= t < c.tables@.len() && takes_part(#[trigger] c.tables@[t]) ==> operations_searchable(
            sql,
            c.tables@[t].name@,
        )
}

/// The operations on the views can be searched for in the text.
pub open spec fn views_searchable(c: CarrierCatalog, sql: Seq<char>) -> bool {
    forall|v: int|
        0 <= v < c.views@.len() ==> operations_searchable(sql, (#[trigger] c.views@[v]).name@)
}

/// The calls of other routines can be searched for in a routine.
pub open spec fn calls_searchable(c: CarrierCatalog, caller: int) -> bool {
    forall|i: int|
        0 <= i < c.routines@.len() && !text::same_ignoring_case(
            (#[trigger] c.routines@[i]).name@,
            c.routines@[caller].name@,
        ) ==> calls(c.routines@[caller].definition@, c.routines@[i].name@) is Ok
}

/// Whatever a function that is run depends on can be searched for.
pub open spec fn function_searchable(c: CarrierCatalog, x: (Seq<char>, Seq<char>)) -> bool {
    match caller_of(c, x) {
        Some(caller) => calls_searchable(c, caller) && tables_searchable(
            c,
            c.routines@[caller].definition@,
        ) && views_searchable(c, c.routines@[caller].definition@),
        None => true,
    }
}

/// The operation on the tables that take part can be searched for in the text.
pub open spec fn tables_searchable_for(c: CarrierCatalog, sql: Seq<char>, op: Operation) -> bool {
    forall|t: int|
        0 <= t < c.tables@.len() && takes_part(#[trigger] c.tables@[t]) ==> touches(
            sql,
            c.tables@[t].name@,
            op,
        ) is Ok
}

/// The operation on the other views can be searched for in the query of a view.
pub open spec fn inner_views_searchable(c: CarrierCatalog, v: int, op: Operation) -> bool {
    forall|w: int|
        0 <= w < c.views@.len() && !text::same_ignoring_case(
            (#[trigger] c.views@[w]).name@,
            c.views@[v].name@,
        ) ==> touches(c.views@[v].query_sql@, c.views@[w].name@, op) is Ok
}

/// Whatever a view that is used depends on can be searched for.
pub open spec fn view_searchable(
    c: CarrierCatalog,
    y: ((Seq<char>, Seq<char>), Operation),
) -> bool {
    match view_named(c.views@, (y.0).0, 0) {
        Some(v) => tables_searchable_for(c, c.views@[v].query_sql@, y.1) && inner_views_searchable(
            c,
            v,
            y.1,
        ),
        None => true,
    }
}

/// The calls of a routine can be searched for in a policy.
pub open spec fn policy_searchable(c: CarrierCatalog, t: int, p: int, i: int) -> bool {
    0 <= p < c.tables@[t].policies@.len() && 0 <= i < c.routines@.len() ==> calls(
        policy_source(c.tables@[t].policies@[p]),
        c.routines@[i].name@,
    ) is Ok
}

/// The calls of routines can be searched for in the policies that can come to
/// bear.
pub open spec fn policies_searchable(c: CarrierCatalog, role: Seq<char>) -> bool {
    forall|t: int, p: int, i: int|
        0 <= t < c.tables@.len() && policies_apply(c, role, c.tables@[t])
            ==> #[trigger] policy_searchable(c, t, p, i)
}

/// Everything that has to be searched for can be.
pub open spec fn all_searchable(c: CarrierCatalog, role: Seq<char>) -> bool {
    &&& policies_searchable(c, role)
    &&& forall|x: (Seq<char>, Seq<char>)| #[trigger] is_run(c, role, x) ==> function_searchable(c, x)
    &&& forall|y: ((Seq<char>, Seq<char>), Operation)| #[trigger]
        is_used(c, role, y) ==> view_searchable(c, y)
}

/// A search for an operation on that name in the text fails like that.
pub open spec fn operations_fail(sql: Seq<char>, name: Seq<char>, message: Seq<char>) -> bool {
    exists|op: Operation| #[trigger] touches(sql, name, op) == Err::<bool, Seq<char>>(message)
}

/// A search for a table that takes part fails like that.
pub open spec fn tables_fail(c: CarrierCatalog, sql: Seq<char>, message: Seq<char>) -> bool {
    exists|t: int|
        0 <= t < c.tables@.len() && takes_part(#[trigger] c.tables@[t]) && operations_fail(
            sql,
            c.tables@[t].name@,
            message,
        )
}

/// A search for a view fails like that.
pub open spec fn views_fail(c: CarrierCatalog, sql: Seq<char>, message: Seq<char>) -> bool {
    exists|v: int|
        0 <= v < c.views@.len() && operations_fail(sql, (#[trigger] c.views@[v]).name@, message)
}

/// A search for the call of another routine fails like that.
pub open spec fn calls_fail(c: CarrierCatalog, caller: int, message: Seq<char>) -> bool {
    exists|i: int|
        0 <= i < c.routines@.len() && !text::same_ignoring_case(
            (#[trigger] c.routines@[i]).name@,
            c.routines@[caller].name@,
        ) && calls(c.routines@[caller].definition@, c.routines@[i].name@) == Err::<bool, Seq<char>>(
            message,
        )
}

/// A search for what a function that is run depends on fails like that.
pub open spec fn function_fails(
    c: CarrierCatalog,
    x: (Seq<char>, Seq<char>),
    message: Seq<char>,
) -> bool {
    match caller_of(c, x) {
        Some(caller) => calls_fail(c, caller, message) || tables_fail(
            c,
            c.routines@[caller].definition@,
            message,
        ) || views_fail(c, c.routines@[caller].definition@, message),
        None => false,
    }
}

/// A search for the operation on a table that takes part fails like that.
pub open spec fn tables_fail_for(
    c: CarrierCatalog,
    sql: Seq<char>,
    op: Operation,
    message: Seq<char>,
) -> bool {
    exists|t: int|
        0 <= t < c.tables@.len() && takes_part(#[trigger] c.tables@[t]) && touches(
            sql,
            c.tables@[t].name@,
            op,
        ) == Err::<bool, Seq<char>>(message)
}

/// A search for the operation on another view fails like that.
pub open spec fn inner_views_fail(
    c: CarrierCatalog,
    v: int,
    op: Operation,
    message: Seq<char>,
) -> bool {
    exists|w: int|
        0 <= w < c.views@.len() && !text::same_ignoring_case(
            (#[trigger] c.views@[w]).name@,
            c.views@[v].name@,
        ) && touches(c.views@[v].query_sql@, c.views@[w].name@, op) == Err::<bool, Seq<char>>(
            message,
        )
}

/// A search for what a view that is used depends on fails like that.
pub open spec fn view_fails(
    c: CarrierCatalog,
    y: ((Seq<char>, Seq<char>), Operation),
    message: Seq<char>,
) -> bool {
    match view_named(c.views@, (y.0).0, 0) {
        Some(v) => tables_fail_for(c, c.views@[v].query_sql@, y.1, message) || inner_views_fail(
            c,
            v,
            y.1,
            message,
        ),
        None => false,
    }
}

/// A search for the call of a routine in a policy fails like that.
pub open spec fn policy_fails(
    c: CarrierCatalog,
    t: int,
    p: int,
    i: int,
    message: Seq<char>,
) -> bool {
    0 <= p < c.tables@[t].policies@.len() && 0 <= i < c.routines@.len() && calls(
        policy_source(c.tables@[t].policies@[p]),
        c.routines@[i].name@,
    ) == Err::<bool, Seq<char>>(message)
}

/// A search in the policies that can come to bear fails like that.
pub open spec fn policies_fail(c: CarrierCatalog, role: Seq<char>, message: Seq<char>) -> bool {
    exists|t: int, p: int, i: int|
        0 <= t < c.tables@.len() && policies_apply(c, role, c.tables@[t]) && #[trigger]
            policy_fails(c, t, p, i, message)
}

/// One of the searches that are made fails like that.
pub open spec fn search_fails(c: CarrierCatalog, role: Seq<char>, message: Seq<char>) -> bool {
    ||| policies_fail(c, role, message)
    ||| exists|x: (Seq<char>, Seq<char>)| #[trigger]
        is_run(c, role, x) && function_fails(c, x, message)
    ||| exists|y: ((Seq<char>, Seq<char>), Operation)| #[trigger]
        is_used(c, role, y) && view_fails(c, y, message)
}

/// The operations that a text does to a relation.
fn touched(sql: &str, name: &str) -> (r: Result<Vec<Operation>, SqlError>)
    ensures
        match r {
            Ok(list) => operations_searchable(sql@, name@) && forall|op: Operation| #[trigger]
                list@.contains(op) <==> touches(sql@, name@, op) == Ok::<bool, Seq<char>>(true),
            Err(e) => is_pattern_error(e) && operations_fail(sql@, name@, failure(e)),
        },
{
    let all = [Operation::Select, Operation::Insert, Operation::Update, Operation::Delete];
    let mut list: Vec<Operation> = Vec::new();
    let mut i: usize = 0;
    while i < 4
        invariant
            i <= 4,
            all@ == operations(),
            forall|k: int| 0 <= k < i ==> touches(sql@, name@, #[trigger] operations()[k]) is Ok,
            forall|op: Operation| #[trigger]
                list@.contains(op) <==> exists|k: int|
                    0 <= k < i && op == #[trigger] operations()[k] && touches(sql@, name@, op)
                        == Ok::<bool, Seq<char>>(true),
        decreases 4 - i,
    {
        let op = all[i];
        assert(op == operations()[i as int]);
        let ghost prior = list@;
        match sql_mentions_relation_operation(sql, name, op) {
            Ok(found) => {
                if found {
                    list.push(op);
                }
                proof {
                    assert forall|o: Operation| #[trigger]
                        list@.contains(o) <==> exists|k: int|
                            0 <= k < i + 1 && o == #[trigger] operations()[k] && touches(
                                sql@,
                                name@,
                                o,
                            ) == Ok::<bool, Seq<char>>(true) by {
                        assert(prior.contains(o) <==> exists|k: int|
                            0 <= k < i && o == #[trigger] operations()[k] && touches(
                                sql@,
                                name@,
                                o,
                            ) == Ok::<bool, Seq<char>>(true));
                        if found {
                            lemma_push_contains(prior, op, o);
                        }
                    }
                }
            },
            Err(e) => {
                proof {
                    assert(touches(sql@, name@, op) == Err::<bool, Seq<char>>(failure(e)));
                }
                return Err(e);
            },
        }
        i = i + 1;
    }
    proof {
        assert forall|op: Operation| (#[trigger] touches(sql@, name@, op)) is Ok by {
            let k = operation_index(op);
            assert(operations()[k] == op);
        }
        assert forall|op: Operation| #[trigger]
            list@.contains(op) <==> touches(sql@, name@, op) == Ok::<bool, Seq<char>>(true) by {
            let k = operation_index(op);
            assert(operations()[k] == op);
        }
    }
    Ok(list)
}

spec fn operation_index(op: Operation) -> int {
    match op {
        Operation::Select => 0,
        Operation::Insert => 1,
        Operation::Update => 2,
        Operation::Delete => 3,
    }
}

proof fn lemma_push_contains<T>(list: Seq<T>, item: T, x: T)
    ensures
        list.push(item).contains(x) <==> list.contains(x) || x == item,
{
    let longer = list.push(item);
    if list.contains(x) {
        let i = choose|i: int| 0 <= i < list.len() && list[i] == x;
        assert(longer[i] == x);
    }
    assert(longer[list.len() as int] == item);
}

/// Saves the grants that a text needs on the tables it is about.
fn save_table_grants(
    c: &CarrierCatalog,
    sql: &str,
    executor: &str,
    saved: &mut Vec<PrivilegeGrant>,
) -> (r: Result<(), SqlError>)
    ensures
        match r {
            Ok(_) => tables_searchable(*c, sql@) && forall|g: GrantView| #[trigger]
                privileges::grant_views(final(saved)@).contains(g) <==> privileges::grant_views(
                    old(saved)@,
                ).contains(g) || exists|t: int, op: Operation| #[trigger]
                    table_grant(*c, sql@, executor@, t, op, g),
            Err(e) => is_pattern_error(e) && tables_fail(*c, sql@, failure(e)),
        },
{
    let ghost start = privileges::grant_views(saved@);
    let mut t: usize = 0;
    while t < c.tables.len()
        invariant
            t <= c.tables.len(),
            forall|k: int|
                0 <= k < t && takes_part(#[trigger] c.tables@[k]) ==> operations_searchable(
                    sql@,
                    c.tables@[k].name@,
                ),
            forall|g: GrantView| #[trigger]
                privileges::grant_views(saved@).contains(g) <==> start.contains(g) || exists|
                    k: int,
                    op: Operation,
                |
                    k < t && #[trigger] table_grant(*c, sql@, executor@, k, op, g),
        decreases c.tables.len() - t,
    {
        let table = &c.tables[t];
        let ghost before = privileges::grant_views(saved@);
        if table_takes_part(table) {
            match touched(sql, table.name.as_str()) {
                Err(e) => {
                    assert(operations_fail(sql@, c.tables@[t as int].name@, failure(e)));
                    return Err(e);
                },
                Ok(list) => {
                    let mut i: usize = 0;
                    while i < list.len()
                        invariant
                            i <= list.len(),
                            *table == c.tables@[t as int],
                            forall|g: GrantView| #[trigger]
                                privileges::grant_views(saved@).contains(g) <==> before.contains(g)
                                    || exists|k: int|
                                    0 <= k < i && one_table_grant(
                                        *table,
                                        executor@,
                                        #[trigger] list@[k],
                                        g,
                                    ),
                        decreases list.len() - i,
                    {
                        let op = list[i];
                        let ghost prior = privileges::grant_views(saved@);
                        save_runtime_privilege(
                            saved,
                            PrivilegeObjectType::Schema,
                            table.schema_name.as_str(),
                            executor,
                            "USAGE",
                        );
                        let ghost middle = privileges::grant_views(saved@);
                        save_runtime_privilege(
                            saved,
                            PrivilegeObjectType::Table,
                            table.name.as_str(),
                            executor,
                            operation_name(op),
                        );
                        proof {
                            assert forall|g: GrantView| #[trigger]
                                privileges::grant_views(saved@).contains(g) <==> before.contains(g)
                                    || exists|k: int|
                                    0 <= k < i + 1 && one_table_grant(
                                        *table,
                                        executor@,
                                        #[trigger] list@[k],
                                        g,
                                    ) by {
                                assert(middle.contains(g) <==> prior.contains(g) || g
                                    == runtime_grant(
                                    PrivilegeObjectType::Schema,
                                    table.schema_name@,
                                    executor@,
                                    "USAGE"@,
                                ));
                                assert(prior.contains(g) <==> before.contains(g) || exists|k: int|
                                    0 <= k < i && one_table_grant(
                                        *table,
                                        executor@,
                                        #[trigger] list@[k],
                                        g,
                                    ));
                                assert(list@[i as int] == op);
                            }
                        }
                        i = i + 1;
                    }
                    proof {
                        assert forall|g: GrantView| #[trigger]
                            privileges::grant_views(saved@).contains(g) <==> before.contains(g)
                                || exists|op: Operation| #[trigger]
                                table_grant(*c, sql@, executor@, t as int, op, g) by {
                            if exists|k: int|
                                0 <= k < list@.len() && one_table_grant(
                                    *table,
                                    executor@,
                                    #[trigger] list@[k],
                                    g,
                                ) {
                                let k = choose|k: int|
                                    0 <= k < list@.len() && one_table_grant(
                                        *table,
                                        executor@,
                                        #[trigger] list@[k],
                                        g,
                                    );
                                assert(list@.contains(list@[k]));
                                assert(table_grant(*c, sql@, executor@, t as int, list@[k], g));
                            }
                            if exists|op: Operation| #[trigger]
                                table_grant(*c, sql@, executor@, t as int, op, g) {
                                let op = choose|op: Operation| #[trigger]
                                    table_grant(*c, sql@, executor@, t as int, op, g);
                                assert(list@.contains(op));
                                let k = choose|k: int| 0 <= k < list@.len() && list@[k] == op;
                                assert(one_table_grant(*table, executor@, list@[k], g));
                            }
                        }
                    }
                },
            }
        }
        proof {
            assert forall|g: GrantView| #[trigger]
                privileges::grant_views(saved@).contains(g) <==> start.contains(g) || exists|
                    k: int,
                    op: Operation,
                |
                    k < t + 1 && #[trigger] table_grant(*c, sql@, executor@, k, op, g) by {
                assert(before.contains(g) <==> start.contains(g) || exists|
                    k: int,
                    op: Operation,
                |
                    k < t && #[trigger] table_grant(*c, sql@, executor@, k, op, g));
            }
        }
        t = t + 1;
    }
    Ok(())
}

/// A grant that an operation on a table takes.
spec fn one_table_grant(t: CarrierTable, executor: Seq<char>, op: Operation, g: GrantView) -> bool {
    g == runtime_grant(PrivilegeObjectType::Schema, t.schema_name@, executor, "USAGE"@) || g
        == runtime_grant(PrivilegeObjectType::Table, t.name@, executor, operation_text(op))
}

/// Saves the grants that a routine needs on those that it calls, and enqueues
/// them.
fn save_call_grants(
    c: &CarrierCatalog,
    caller: usize,
    executor: &str,
    saved: &mut Vec<PrivilegeGrant>,
    work: &mut Vec<FunctionItem>,
) -> (r: Result<(), SqlError>)
    requires
        caller < c.routines@.len(),
    ensures
        old(work)@.is_prefix_of(final(work)@),
        function_views(old(work)@).no_duplicates() ==> function_views(
            final(work)@,
        ).no_duplicates(),
        match r {
            Ok(_) => {
                &&& calls_searchable(*c, caller as int)
                &&& forall|g: GrantView| #[trigger]
                    privileges::grant_views(final(saved)@).contains(g) <==> privileges::grant_views(
                        old(saved)@,
                    ).contains(g) || exists|i: int| #[trigger]
                        call_grant(*c, caller as int, executor@, i, g)
                &&& forall|x: (Seq<char>, Seq<char>)| #[trigger]
                    function_views(final(work)@).contains(x) <==> function_views(
                        old(work)@,
                    ).contains(x) || (x.1 == roles::normal_role(executor@) && exists|i: int|
                        #[trigger]
                        routine_calls(*c, caller as int, i) && x.0 == c.routines@[i].bare_name@)
            },
            Err(e) => is_pattern_error(e) && calls_fail(*c, caller as int, failure(e)),
        },
{
    let ghost start = privileges::grant_views(saved@);
    let ghost first = function_views(work@);
    let ghost given = work@;
    let ghost n = caller as int;
    let who = &c.routines[caller];
    let mut i: usize = 0;
    while i < c.routines.len()
        invariant
            i <= c.routines.len(),
            n == caller,
            caller < c.routines@.len(),
            *who == c.routines@[n],
            given == old(work)@,
            given.is_prefix_of(work@),
            first == function_views(given),
            first.no_duplicates() ==> function_views(work@).no_duplicates(),
            forall|k: int|
                0 <= k < i && !text::same_ignoring_case(
                    (#[trigger] c.routines@[k]).name@,
                    who.name@,
                ) ==> calls(who.definition@, c.routines@[k].name@) is Ok,
            forall|g: GrantView| #[trigger]
                privileges::grant_views(saved@).contains(g) <==> start.contains(g) || exists|
                    k: int,
                |
                    k < i && #[trigger] call_grant(*c, n, executor@, k, g),
            forall|x: (Seq<char>, Seq<char>)| #[trigger]
                function_views(work@).contains(x) <==> first.contains(x) || (x.1
                    == roles::normal_role(executor@) && exists|k: int|
                    k < i && #[trigger] routine_calls(*c, n, k) && x.0
                        == c.routines@[k].bare_name@),
        decreases c.routines.len() - i,
    {
        let candidate = &c.routines[i];
        let ghost before = privileges::grant_views(saved@);
        let ghost queued = function_views(work@);
        let ghost list = work@;
        let mut called = false;
        if !text::eq_ignore_case(candidate.name.as_str(), who.name.as_str()) {
            match sql_mentions_routine(who.definition.as_str(), candidate.name.as_str()) {
                Err(e) => {
                    assert(calls(c.routines@[n].definition@, c.routines@[i as int].name@) == Err::<
                        bool,
                        Seq<char>,
                    >(failure(e)));
                    return Err(e);
                },
                Ok(found) => {
                    called = found;
                },
            }
        }
        assert(called == routine_calls(*c, n, i as int));
        if called {
            let schema = grants::routine_schema_name(
                candidate.schema.as_str(),
                candidate.definition.as_str(),
            );
            save_runtime_privilege(
                saved,
                PrivilegeObjectType::Schema,
                schema.as_str(),
                executor,
                "USAGE",
            );
            let ghost middle = privileges::grant_views(saved@);
            save_runtime_privilege(
                saved,
                PrivilegeObjectType::Function,
                candidate.name.as_str(),
                executor,
                "EXECUTE",
            );
            enqueue_function_dependency(work, candidate.bare_name.as_str(), executor);
            proof {
                let item = (candidate.bare_name@, roles::normal_role(executor@));
                if queued.no_duplicates() {
                    sets::law_added(queued, item);
                }
                assert forall|g: GrantView| #[trigger]
                    privileges::grant_views(saved@).contains(g) <==> before.contains(g)
                        || call_grant(*c, n, executor@, i as int, g) by {
                    assert(middle.contains(g) <==> before.contains(g) || g == runtime_grant(
                        PrivilegeObjectType::Schema,
                        schema@,
                        executor@,
                        "USAGE"@,
                    ));
                }
                assert forall|x: (Seq<char>, Seq<char>)| #[trigger]
                    function_views(work@).contains(x) <==> queued.contains(x) || x == item by {
                    sets::law_added_contains(queued, item, x);
                }
                lemma_prefix_of_prefix(given, list, work@);
            }
        }
        proof {
            assert forall|g: GrantView| #[trigger]
                privileges::grant_views(saved@).contains(g) <==> start.contains(g) || exists|
                    k: int,
                |
                    k < i + 1 && #[trigger] call_grant(*c, n, executor@, k, g) by {
                assert(before.contains(g) <==> start.contains(g) || exists|k: int|
                    k < i && #[trigger] call_grant(*c, n, executor@, k, g));
            }
            assert forall|x: (Seq<char>, Seq<char>)| #[trigger]
                function_views(work@).contains(x) <==> first.contains(x) || (x.1
                    == roles::normal_role(executor@) && exists|k: int|
                    k < i + 1 && #[trigger] routine_calls(*c, n, k) && x.0
                        == c.routines@[k].bare_name@) by {
                assert(queued.contains(x) <==> first.contains(x) || (x.1 == roles::normal_role(
                    executor@,
                ) && exists|k: int|
                    k < i && #[trigger] routine_calls(*c, n, k) && x.0
                        == c.routines@[k].bare_name@));
                if called && x == (candidate.bare_name@, roles::normal_role(executor@)) {
                    assert(routine_calls(*c, n, i as int));
                }
            }
        }
        i = i + 1;
    }
    Ok(())
}

proof fn lemma_prefix_of_prefix<T>(a: Seq<T>, b: Seq<T>, c: Seq<T>)
    requires
        a.is_prefix_of(b),
        b.is_prefix_of(c),
    ensures
        a.is_prefix_of(c),
{
    assert(c.take(a.len() as int) =~= c.take(b.len() as int).take(a.len() as int));
}

/// A grant that an operation on a view takes from a routine.
spec fn one_view_grant(name: Seq<char>, executor: Seq<char>, op: Operation, g: GrantView) -> bool {
    g == runtime_grant(PrivilegeObjectType::Schema, "public"@, executor, "USAGE"@) || g
        == runtime_grant(PrivilegeObjectType::Table, name, executor, operation_text(op))
}

/// Saves the grants that operations on one view take, and enqueues them.
fn save_one_view(
    view: &CarrierView,
    list: &Vec<Operation>,
    executor: &str,
    saved: &mut Vec<PrivilegeGrant>,
    used: &mut Vec<RelationItem>,
)
    ensures
        old(used)@.is_prefix_of(final(used)@),
        relation_views(old(used)@).no_duplicates() ==> relation_views(
            final(used)@,
        ).no_duplicates(),
        forall|g: GrantView| #[trigger]
            privileges::grant_views(final(saved)@).contains(g) <==> privileges::grant_views(
                old(saved)@,
            ).contains(g) || exists|op: Operation|
                list@.contains(op) && #[trigger] one_view_grant(view.name@, executor@, op, g),
        forall|y: ((Seq<char>, Seq<char>), Operation)| #[trigger]
            relation_views(final(used)@).contains(y) <==> relation_views(old(used)@).contains(y)
                || (list@.contains(y.1) && y.0 == (
                unqualified(view.name@),
                roles::normal_role(executor@),
            )),
{
    let ghost start = privileges::grant_views(saved@);
    let ghost first = relation_views(used@);
    let ghost given = used@;
    let ghost pair = (unqualified(view.name@), roles::normal_role(executor@));
    let mut i: usize = 0;
    while i < list.len()
        invariant
            i <= list.len(),
            given.is_prefix_of(used@),
            first == relation_views(given),
            pair == (unqualified(view.name@), roles::normal_role(executor@)),
            first.no_duplicates() ==> relation_views(used@).no_duplicates(),
            forall|g: GrantView| #[trigger]
                privileges::grant_views(saved@).contains(g) <==> start.contains(g) || exists|
                    k: int,
                |
                    0 <= k < i && one_view_grant(view.name@, executor@, #[trigger] list@[k], g),
            forall|y: ((Seq<char>, Seq<char>), Operation)| #[trigger]
                relation_views(used@).contains(y) <==> first.contains(y) || (y.0 == pair && exists|
                    k: int,
                |
                    0 <= k < i && #[trigger] list@[k] == y.1),
        decreases list.len() - i,
    {
        let op = list[i];
        let ghost before = privileges::grant_views(saved@);
        let ghost queued = relation_views(used@);
        let ghost items = used@;
        save_runtime_privilege(saved, PrivilegeObjectType::Schema, "public", executor, "USAGE");
        let ghost middle = privileges::grant_views(saved@);
        save_runtime_privilege(
            saved,
            PrivilegeObjectType::Table,
            view.name.as_str(),
            executor,
            operation_name(op),
        );
        enqueue_relation_dependency(used, view.name.as_str(), executor, op);
        proof {
            if queued.no_duplicates() {
                sets::law_added(queued, (pair, op));
            }
            lemma_prefix_of_prefix(given, items, used@);
            assert forall|g: GrantView| #[trigger]
                privileges::grant_views(saved@).contains(g) <==> start.contains(g) || exists|
                    k: int,
                |
                    0 <= k < i + 1 && one_view_grant(
                        view.name@,
                        executor@,
                        #[trigger] list@[k],
                        g,
                    ) by {
                assert(middle.contains(g) <==> before.contains(g) || g == runtime_grant(
                    PrivilegeObjectType::Schema,
                    "public"@,
                    executor@,
                    "USAGE"@,
                ));
                assert(before.contains(g) <==> start.contains(g) || exists|k: int|
                    0 <= k < i && one_view_grant(view.name@, executor@, #[trigger] list@[k], g));
                assert(list@[i as int] == op);
            }
            assert forall|y: ((Seq<char>, Seq<char>), Operation)| #[trigger]
                relation_views(used@).contains(y) <==> first.contains(y) || (y.0 == pair && exists|
                    k: int,
                |
                    0 <= k < i + 1 && #[trigger] list@[k] == y.1) by {
                sets::law_added_contains(queued, (pair, op), y);
                assert(queued.contains(y) <==> first.contains(y) || (y.0 == pair && exists|k: int|
                    0 <= k < i && #[trigger] list@[k] == y.1));
                assert(list@[i as int] == op);
            }
        }
        i = i + 1;
    }
    proof {
        assert forall|g: GrantView| #[trigger]
            privileges::grant_views(saved@).contains(g) <==> start.contains(g) || exists|
                op: Operation,
            |
                list@.contains(op) && #[trigger] one_view_grant(view.name@, executor@, op, g) by {
            if exists|k: int|
                0 <= k < list@.len() && one_view_grant(
                    view.name@,
                    executor@,
                    #[trigger] list@[k],
                    g,
                ) {
                let k = choose|k: int|
                    0 <= k < list@.len() && one_view_grant(
                        view.name@,
                        executor@,
                        #[trigger] list@[k],
                        g,
                    );
                assert(list@.contains(list@[k]));
            }
            if exists|op: Operation|
                list@.contains(op) && #[trigger] one_view_grant(view.name@, executor@, op, g) {
                let op = choose|op: Operation|
                    list@.contains(op) && #[trigger] one_view_grant(view.name@, executor@, op, g);
                let k = choose|k: int| 0 <= k < list@.len() && list@[k] == op;
                assert(one_view_grant(view.name@, executor@, list@[k], g));
            }
        }
        assert forall|y: ((Seq<char>, Seq<char>), Operation)| #[trigger]
            relation_views(used@).contains(y) <==> first.contains(y) || (list@.contains(y.1) && y.0
                == pair) by {
            if list@.contains(y.1) {
                let k = choose|k: int| 0 <= k < list@.len() && list@[k] == y.1;
                assert(list@[k] == y.1);
            }
        }
    }
}

/// Saves the grants that a routine needs on the views it is about, and enqueues
/// them.
fn save_view_grants(
    c: &CarrierCatalog,
    sql: &str,
    executor: &str,
    saved: &mut Vec<PrivilegeGrant>,
    used: &mut Vec<RelationItem>,
) -> (r: Result<(), SqlError>)
    ensures
        old(used)@.is_prefix_of(final(used)@),
        relation_views(old(used)@).no_duplicates() ==> relation_views(
            final(used)@,
        ).no_duplicates(),
        match r {
            Ok(_) => {
                &&& views_searchable(*c, sql@)
                &&& forall|g: GrantView| #[trigger]
                    privileges::grant_views(final(saved)@).contains(g) <==> privileges::grant_views(
                        old(saved)@,
                    ).contains(g) || exists|v: int, op: Operation| #[trigger]
                        view_grant(*c, sql@, executor@, v, op, g)
                &&& forall|y: ((Seq<char>, Seq<char>), Operation)| #[trigger]
                    relation_views(final(used)@).contains(y) <==> relation_views(
                        old(used)@,
                    ).contains(y) || ((y.0).1 == roles::normal_role(executor@) && exists|v: int|
                        #[trigger]
                        text_touches_view(*c, sql@, v, y.1) && (y.0).0 == unqualified(
                            c.views@[v].name@,
                        ))
            },
            Err(e) => is_pattern_error(e) && views_fail(*c, sql@, failure(e)),
        },
{
    let ghost start = privileges::grant_views(saved@);
    let ghost first = relation_views(used@);
    let ghost given = used@;
    let mut v: usize = 0;
    while v < c.views.len()
        invariant
            v <= c.views.len(),
            given == old(used)@,
            given.is_prefix_of(used@),
            first == relation_views(given),
            first.no_duplicates() ==> relation_views(used@).no_duplicates(),
            forall|k: int|
                0 <= k < v ==> operations_searchable(sql@, (#[trigger] c.views@[k]).name@),
            forall|g: GrantView| #[trigger]
                privileges::grant_views(saved@).contains(g) <==> start.contains(g) || exists|
                    k: int,
                    op: Operation,
                |
                    k < v && #[trigger] view_grant(*c, sql@, executor@, k, op, g),
            forall|y: ((Seq<char>, Seq<char>), Operation)| #[trigger]
                relation_views(used@).contains(y) <==> first.contains(y) || ((y.0).1
                    == roles::normal_role(executor@) && exists|k: int|
                    k < v && #[trigger] text_touches_view(*c, sql@, k, y.1) && (y.0).0
                        == unqualified(c.views@[k].name@)),
        decreases c.views.len() - v,
    {
        let view = &c.views[v];
        let ghost before = privileges::grant_views(saved@);
        let ghost queued = relation_views(used@);
        let ghost items = used@;
        match touched(sql, view.name.as_str()) {
            Err(e) => {
                assert(operations_fail(sql@, c.views@[v as int].name@, failure(e)));
                return Err(e);
            },
            Ok(list) => {
                save_one_view(view, &list, executor, saved, used);
                proof {
                    lemma_prefix_of_prefix(given, items, used@);
                    assert forall|g: GrantView| #[trigger]
                        privileges::grant_views(saved@).contains(g) <==> start.contains(g)
                            || exists|k: int, op: Operation|
                            k < v + 1 && #[trigger] view_grant(*c, sql@, executor@, k, op, g) by {
                        assert(before.contains(g) <==> start.contains(g) || exists|
                            k: int,
                            op: Operation,
                        |
                            k < v && #[trigger] view_grant(*c, sql@, executor@, k, op, g));
                        if exists|op: Operation|
                            list@.contains(op) && #[trigger] one_view_grant(
                                view.name@,
                                executor@,
                                op,
                                g,
                            ) {
                            let op = choose|op: Operation|
                                list@.contains(op) && #[trigger] one_view_grant(
                                    view.name@,
                                    executor@,
                                    op,
                                    g,
                                );
                            assert(view_grant(*c, sql@, executor@, v as int, op, g));
                        }
                        if exists|op: Operation| #[trigger]
                            view_grant(*c, sql@, executor@, v as int, op, g) {
                            let op = choose|op: Operation| #[trigger]
                                view_grant(*c, sql@, executor@, v as int, op, g);
                            assert(list@.contains(op));
                            assert(one_view_grant(view.name@, executor@, op, g));
                        }
                    }
                    assert forall|y: ((Seq<char>, Seq<char>), Operation)| #[trigger]
                        relation_views(used@).contains(y) <==> first.contains(y) || ((y.0).1
                            == roles::normal_role(executor@) && exists|k: int|
                            k < v + 1 && #[trigger] text_touches_view(*c, sql@, k, y.1) && (y.0).0
                                == unqualified(c.views@[k].name@)) by {
                        assert(queued.contains(y) <==> first.contains(y) || ((y.0).1
                            == roles::normal_role(executor@) && exists|k: int|
                            k < v && #[trigger] text_touches_view(*c, sql@, k, y.1) && (y.0).0
                                == unqualified(c.views@[k].name@)));
                        assert(list@.contains(y.1) <==> text_touches_view(
                            *c,
                            sql@,
                            v as int,
                            y.1,
                        ));
                    }
                }
            },
        }
        v = v + 1;
    }
    Ok(())
}

/// Enqueues the routines that the role may execute.
fn enqueue_executable(c: &CarrierCatalog, role: &str, work: &mut Vec<FunctionItem>)
    ensures
        function_views(old(work)@).no_duplicates() ==> function_views(
            final(work)@,
        ).no_duplicates(),
        forall|x: (Seq<char>, Seq<char>)| #[trigger]
            function_views(final(work)@).contains(x) <==> function_views(old(work)@).contains(x)
                || (x.1 == roles::normal_role(role@) && exists|i: int| #[trigger]
                executes(*c, role@, i) && x.0 == c.routines@[i].bare_name@),
{
    let ghost first = function_views(work@);
    let mut i: usize = 0;
    while i < c.routines.len()
        invariant
            i <= c.routines.len(),
            first.no_duplicates() ==> function_views(work@).no_duplicates(),
            forall|x: (Seq<char>, Seq<char>)| #[trigger]
                function_views(work@).contains(x) <==> first.contains(x) || (x.1
                    == roles::normal_role(role@) && exists|k: int|
                    k < i && #[trigger] executes(*c, role@, k) && x.0 == c.routines@[k].bare_name@),
        decreases c.routines.len() - i,
    {
        let f = &c.routines[i];
        let ghost queued = function_views(work@);
        let allowed = privileges::role_can_execute_routine(
            &c.roles,
            &c.grants,
            role,
            f.bare_name.as_str(),
            owner_of_name(&c.routines, f.bare_name.as_str()),
        );
        assert(allowed == executes(*c, role@, i as int));
        if allowed {
            enqueue_function_dependency(work, f.bare_name.as_str(), role);
        }
        proof {
            let item = (f.bare_name@, roles::normal_role(role@));
            if queued.no_duplicates() {
                sets::law_added(queued, item);
            }
            assert forall|x: (Seq<char>, Seq<char>)| #[trigger]
                function_views(work@).contains(x) <==> first.contains(x) || (x.1
                    == roles::normal_role(role@) && exists|k: int|
                    k < i + 1 && #[trigger] executes(*c, role@, k) && x.0
                        == c.routines@[k].bare_name@) by {
                assert(queued.contains(x) <==> first.contains(x) || (x.1 == roles::normal_role(
                    role@,
                ) && exists|k: int|
                    k < i && #[trigger] executes(*c, role@, k) && x.0 == c.routines@[k].bare_name@));
                if allowed {
                    sets::law_added_contains(queued, item, x);
                }
            }
        }
        i = i + 1;
    }
}

/// Enqueues the functions of the triggers that the role may set off.
fn enqueue_triggered(c: &CarrierCatalog, role: &str, work: &mut Vec<FunctionItem>)
    ensures
        function_views(old(work)@).no_duplicates() ==> function_views(
            final(work)@,
        ).no_duplicates(),
        forall|x: (Seq<char>, Seq<char>)| #[trigger]
            function_views(final(work)@).contains(x) <==> function_views(old(work)@).contains(x)
                || (x.1 == roles::normal_role(role@) && exists|i: int| #[trigger]
                sets_off(*c, role@, i) && x.0 == c.triggers@[i].function@),
{
    let ghost first = function_views(work@);
    let mut i: usize = 0;
    while i < c.triggers.len()
        invariant
            i <= c.triggers.len(),
            first.no_duplicates() ==> function_views(work@).no_duplicates(),
            forall|x: (Seq<char>, Seq<char>)| #[trigger]
                function_views(work@).contains(x) <==> first.contains(x) || (x.1
                    == roles::normal_role(role@) && exists|k: int|
                    k < i && #[trigger] sets_off(*c, role@, k) && x.0 == c.triggers@[k].function@),
        decreases c.triggers.len() - i,
    {
        let t = &c.triggers[i];
        let ghost queued = function_views(work@);
        let allowed = match trigger_operation_of(t.event.as_str()) {
            Some(op) => may_do(c, role, &t.relation, op),
            None => false,
        };
        assert(allowed == sets_off(*c, role@, i as int));
        if allowed {
            enqueue_function_dependency(work, t.function.as_str(), role);
        }
        proof {
            let item = (t.function@, roles::normal_role(role@));
            if queued.no_duplicates() {
                sets::law_added(queued, item);
            }
            assert forall|x: (Seq<char>, Seq<char>)| #[trigger]
                function_views(work@).contains(x) <==> first.contains(x) || (x.1
                    == roles::normal_role(role@) && exists|k: int|
                    k < i + 1 && #[trigger] sets_off(*c, role@, k) && x.0
                        == c.triggers@[k].function@) by {
                assert(queued.contains(x) <==> first.contains(x) || (x.1 == roles::normal_role(
                    role@,
                ) && exists|k: int|
                    k < i && #[trigger] sets_off(*c, role@, k) && x.0 == c.triggers@[k].function@));
                if allowed {
                    sets::law_added_contains(queued, item, x);
                }
            }
        }
        i = i + 1;
    }
}

/// A policy of a table that can come to bear calls the routine.
spec fn called_by_policy(
    c: CarrierCatalog,
    role: Seq<char>,
    tables: int,
    t: int,
    policies: int,
    p: int,
    routines: int,
    i: int,
) -> bool {
    policy_calls(c, role, t, p, i) && (t < tables || (t == tables && (p < policies || (p
        == policies && i < routines))))
}

spec fn policy_grant(c: CarrierCatalog, role: Seq<char>, i: int) -> GrantView {
    runtime_grant(PrivilegeObjectType::Function, c.routines@[i].name@, role, "EXECUTE"@)
}

/// What is saved and enqueued for the policies so far.
spec fn policies_done(
    c: CarrierCatalog,
    role: Seq<char>,
    saved: Seq<GrantView>,
    first: Seq<(Seq<char>, Seq<char>)>,
    work: Seq<(Seq<char>, Seq<char>)>,
    tables: int,
    policies: int,
    routines: int,
) -> bool {
    &&& forall|g: GrantView| #[trigger]
        saved.contains(g) <==> exists|t: int, p: int, i: int| #[trigger]
            called_by_policy(c, role, tables, t, policies, p, routines, i) && g == policy_grant(
                c,
                role,
                i,
            )
    &&& forall|x: (Seq<char>, Seq<char>)| #[trigger]
        work.contains(x) <==> first.contains(x) || (x.1 == roles::normal_role(role) && exists|
            t: int,
            p: int,
            i: int,
        | #[trigger]
            called_by_policy(c, role, tables, t, policies, p, routines, i) && x.0
                == c.routines@[i].bare_name@)
}

proof fn lemma_policies_same(
    c: CarrierCatalog,
    role: Seq<char>,
    saved: Seq<GrantView>,
    first: Seq<(Seq<char>, Seq<char>)>,
    work: Seq<(Seq<char>, Seq<char>)>,
    tables: int,
    policies: int,
    routines: int,
    tables_after: int,
    policies_after: int,
    routines_after: int,
)
    requires
        policies_done(c, role, saved, first, work, tables, policies, routines),
        forall|t: int, p: int, i: int|
            called_by_policy(c, role, tables, t, policies, p, routines, i)
                <==> #[trigger] called_by_policy(
                c,
                role,
                tables_after,
                t,
                policies_after,
                p,
                routines_after,
                i,
            ),
    ensures
        policies_done(
            c,
            role,
            saved,
            first,
            work,
            tables_after,
            policies_after,
            routines_after,
        ),
{
    assert forall|t: int, p: int, i: int| #[trigger]
        called_by_policy(c, role, tables, t, policies, p, routines, i) implies called_by_policy(
        c,
        role,
        tables_after,
        t,
        policies_after,
        p,
        routines_after,
        i,
    ) by {
        assert(called_by_policy(c, role, tables, t, policies, p, routines, i) <==> called_by_policy(
            c,
            role,
            tables_after,
            t,
            policies_after,
            p,
            routines_after,
            i,
        ));
    }
    assert forall|g: GrantView| #[trigger]
        saved.contains(g) <==> exists|t: int, p: int, i: int| #[trigger]
            called_by_policy(
                c,
                role,
                tables_after,
                t,
                policies_after,
                p,
                routines_after,
                i,
            ) && g == policy_grant(c, role, i) by {
        assert(saved.contains(g) <==> exists|t: int, p: int, i: int| #[trigger]
            called_by_policy(c, role, tables, t, policies, p, routines, i) && g == policy_grant(
                c,
                role,
                i,
            ));
    }
    assert forall|x: (Seq<char>, Seq<char>)| #[trigger]
        work.contains(x) <==> first.contains(x) || (x.1 == roles::normal_role(role) && exists|
            t: int,
            p: int,
            i: int,
        | #[trigger]
            called_by_policy(
                c,
                role,
                tables_after,
                t,
                policies_after,
                p,
                routines_after,
                i,
            ) && x.0 == c.routines@[i].bare_name@) by {
        assert(work.contains(x) <==> first.contains(x) || (x.1 == roles::normal_role(role)
            && exists|t: int, p: int, i: int| #[trigger]
            called_by_policy(c, role, tables, t, policies, p, routines, i) && x.0
                == c.routines@[i].bare_name@));
    }
}

fn any_operation(c: &CarrierCatalog, role: &str, r: &RelationInfo) -> (b: bool)
    ensures
        b == exists|op: Operation| #[trigger] may(*c, role@, *r, op),
{
    if may_do(c, role, r, Operation::Select) {
        return true;
    }
    if may_do(c, role, r, Operation::Insert) {
        return true;
    }
    if may_do(c, role, r, Operation::Update) {
        return true;
    }
    if may_do(c, role, r, Operation::Delete) {
        return true;
    }
    proof {
        assert forall|op: Operation| !(#[trigger] may(*c, role@, *r, op)) by {
            match op {
                Operation::Select => {},
                Operation::Insert => {},
                Operation::Update => {},
                Operation::Delete => {},
            }
        }
    }
    false
}

/// Saves the grants that the policies need on the routines that they call, and
/// enqueues these.
fn save_policy_grants(
    c: &CarrierCatalog,
    role: &str,
    saved: &mut Vec<PrivilegeGrant>,
    work: &mut Vec<FunctionItem>,
) -> (r: Result<(), SqlError>)
    requires
        old(saved)@.len() == 0,
    ensures
        function_views(old(work)@).no_duplicates() ==> function_views(
            final(work)@,
        ).no_duplicates(),
        match r {
            Ok(_) => {
                &&& policies_searchable(*c, role@)
                &&& forall|g: GrantView| #[trigger]
                    privileges::grant_views(final(saved)@).contains(g) <==> exists|
                        t: int,
                        p: int,
                        i: int,
                    | #[trigger]
                        policy_calls(*c, role@, t, p, i) && g == policy_grant(*c, role@, i)
                &&& forall|x: (Seq<char>, Seq<char>)| #[trigger]
                    function_views(final(work)@).contains(x) <==> function_views(
                        old(work)@,
                    ).contains(x) || (x.1 == roles::normal_role(role@) && exists|
                        t: int,
                        p: int,
                        i: int,
                    | #[trigger]
                        policy_calls(*c, role@, t, p, i) && x.0 == c.routines@[i].bare_name@)
            },
            Err(e) => is_pattern_error(e) && policies_fail(*c, role@, failure(e)),
        },
{
    let ghost first = function_views(work@);
    let mut t: usize = 0;
    assert(policies_done(
        *c,
        role@,
        privileges::grant_views(saved@),
        first,
        function_views(work@),
        0,
        0,
        0,
    ));
    while t < c.tables.len()
        invariant
            t <= c.tables.len(),
            first == function_views(old(work)@),
            first.no_duplicates() ==> function_views(work@).no_duplicates(),
            forall|k: int, p: int, i: int|
                0 <= k < t && policies_apply(*c, role@, c.tables@[k])
                    ==> #[trigger] policy_searchable(*c, k, p, i),
            policies_done(
                *c,
                role@,
                privileges::grant_views(saved@),
                first,
                function_views(work@),
                t as int,
                0,
                0,
            ),
        decreases c.tables.len() - t,
    {
        let table = &c.tables[t];
        let applies = table_takes_part(table) && any_operation(c, role, &table.relation);
        if applies {
            let mut p: usize = 0;
            while p < table.policies.len()
                invariant
                    p <= table.policies.len(),
                    t < c.tables.len(),
                    *table == c.tables@[t as int],
                    policies_apply(*c, role@, *table),
                    first == function_views(old(work)@),
                    first.no_duplicates() ==> function_views(work@).no_duplicates(),
                    forall|q: int, i: int|
                        0 <= q < p ==> #[trigger] policy_searchable(*c, t as int, q, i),
                    policies_done(
                        *c,
                        role@,
                        privileges::grant_views(saved@),
                        first,
                        function_views(work@),
                        t as int,
                        p as int,
                        0,
                    ),
                decreases table.policies.len() - p,
            {
                let source = source_of(&table.policies[p]);
                let mut i: usize = 0;
                while i < c.routines.len()
                    invariant
                        i <= c.routines.len(),
                        p < table.policies.len(),
                        t < c.tables.len(),
                        *table == c.tables@[t as int],
                        source@ == policy_source(table.policies@[p as int]),
                        policies_apply(*c, role@, *table),
                        first == function_views(old(work)@),
                        first.no_duplicates() ==> function_views(work@).no_duplicates(),
                        forall|k: int|
                            0 <= k < i ==> #[trigger] policy_searchable(
                                *c,
                                t as int,
                                p as int,
                                k,
                            ),
                        policies_done(
                            *c,
                            role@,
                            privileges::grant_views(saved@),
                            first,
                            function_views(work@),
                            t as int,
                            p as int,
                            i as int,
                        ),
                    decreases c.routines.len() - i,
                {
                    let f = &c.routines[i];
                    let ghost before = privileges::grant_views(saved@);
                    let ghost queued = function_views(work@);
                    match sql_mentions_routine(source.as_str(), f.name.as_str()) {
                        Err(e) => {
                            assert(policy_fails(*c, t as int, p as int, i as int, failure(e)));
                            return Err(e);
                        },
                        Ok(found) => {
                            assert(found == policy_calls(
                                *c,
                                role@,
                                t as int,
                                p as int,
                                i as int,
                            ));
                            if found {
                                save_runtime_privilege(
                                    saved,
                                    PrivilegeObjectType::Function,
                                    f.name.as_str(),
                                    role,
                                    "EXECUTE",
                                );
                                enqueue_function_dependency(work, f.bare_name.as_str(), role);
                                proof {
                                    let item = (f.bare_name@, roles::normal_role(role@));
                                    if queued.no_duplicates() {
                                        sets::law_added(queued, item);
                                    }
                                    assert(called_by_policy(
                                        *c,
                                        role@,
                                        t as int,
                                        t as int,
                                        p as int,
                                        p as int,
                                        i as int + 1,
                                        i as int,
                                    ));
                                    lemma_policy_added(
                                        *c,
                                        role@,
                                        before,
                                        privileges::grant_views(saved@),
                                        first,
                                        queued,
                                        function_views(work@),
                                        t as int,
                                        p as int,
                                        i as int,
                                    );
                                }
                            } else {
                                proof {
                                    lemma_policies_same(
                                        *c,
                                        role@,
                                        before,
                                        first,
                                        queued,
                                        t as int,
                                        p as int,
                                        i as int,
                                        t as int,
                                        p as int,
                                        i as int + 1,
                                    );
                                }
                            }
                        },
                    }
                    i = i + 1;
                }
                proof {
                    lemma_policies_same(
                        *c,
                        role@,
                        privileges::grant_views(saved@),
                        first,
                        function_views(work@),
                        t as int,
                        p as int,
                        i as int,
                        t as int,
                        p as int + 1,
                        0,
                    );
                    assert forall|q: int, k: int|
                        0 <= q < p + 1 implies #[trigger] policy_searchable(
                        *c,
                        t as int,
                        q,
                        k,
                    ) by {
                        if q == p && 0 <= k < c.routines@.len() {
                            assert(policy_searchable(*c, t as int, p as int, k));
                        }
                    }
                }
                p = p + 1;
            }
            proof {
                lemma_policies_same(
                    *c,
                    role@,
                    privileges::grant_views(saved@),
                    first,
                    function_views(work@),
                    t as int,
                    p as int,
                    0,
                    t as int + 1,
                    0,
                    0,
                );
            }
        } else {
            proof {
                lemma_policies_same(
                    *c,
                    role@,
                    privileges::grant_views(saved@),
                    first,
                    function_views(work@),
                    t as int,
                    0,
                    0,
                    t as int + 1,
                    0,
                    0,
                );
            }
        }
        proof {
            assert forall|k: int, p: int, i: int|
                0 <= k < t + 1 && policies_apply(
                    *c,
                    role@,
                    c.tables@[k],
                ) implies #[trigger] policy_searchable(*c, k, p, i) by {
                if k == t && 0 <= p < table.policies@.len() {
                    assert(applies);
                    assert(policy_searchable(*c, t as int, p, i));
                }
            }
        }
        t = t + 1;
    }
    proof {
        let n = c.tables@.len() as int;
        assert forall|t: int, p: int, i: int| policy_calls(*c, role@, t, p, i)
            <==> #[trigger] called_by_policy(*c, role@, n, t, 0, p, 0, i) by {}
        assert forall|g: GrantView| #[trigger]
            privileges::grant_views(saved@).contains(g) <==> exists|t: int, p: int, i: int|
                #[trigger]
                policy_calls(*c, role@, t, p, i) && g == policy_grant(*c, role@, i) by {
            if exists|t: int, p: int, i: int| #[trigger]
                policy_calls(*c, role@, t, p, i) && g == policy_grant(*c, role@, i) {
                let (t, p, i) = choose|t: int, p: int, i: int| #[trigger]
                    policy_calls(*c, role@, t, p, i) && g == policy_grant(*c, role@, i);
                assert(called_by_policy(*c, role@, n, t, 0, p, 0, i));
            }
        }
        assert forall|x: (Seq<char>, Seq<char>)| #[trigger]
            function_views(work@).contains(x) <==> first.contains(x) || (x.1
                == roles::normal_role(role@) && exists|t: int, p: int, i: int| #[trigger]
                policy_calls(*c, role@, t, p, i) && x.0 == c.routines@[i].bare_name@) by {
            if exists|t: int, p: int, i: int| #[trigger]
                policy_calls(*c, role@, t, p, i) && x.0 == c.routines@[i].bare_name@ {
                let (t, p, i) = choose|t: int, p: int, i: int| #[trigger]
                    policy_calls(*c, role@, t, p, i) && x.0 == c.routines@[i].bare_name@;
                assert(called_by_policy(*c, role@, n, t, 0, p, 0, i));
            }
        }
    }
    Ok(())
}

proof fn lemma_policy_added(
    c: CarrierCatalog,
    role: Seq<char>,
    saved: Seq<GrantView>,
    saved_after: Seq<GrantView>,
    first: Seq<(Seq<char>, Seq<char>)>,
    work: Seq<(Seq<char>, Seq<char>)>,
    work_after: Seq<(Seq<char>, Seq<char>)>,
    t: int,
    p: int,
    i: int,
)
    requires
        policies_done(c, role, saved, first, work, t, p, i),
        policy_calls(c, role, t, p, i),
        forall|g: GrantView| #[trigger]
            saved_after.contains(g) <==> saved.contains(g) || g == policy_grant(c, role, i),
        work_after == sets::added(
            work,
            (c.routines@[i].bare_name@, roles::normal_role(role)),
        ),
    ensures
        policies_done(c, role, saved_after, first, work_after, t, p, i + 1),
{
    let item = (c.routines@[i].bare_name@, roles::normal_role(role));
    assert(called_by_policy(c, role, t, t, p, p, i + 1, i));
    assert forall|g: GrantView| #[trigger]
        saved_after.contains(g) <==> exists|t2: int, p2: int, i2: int| #[trigger]
            called_by_policy(c, role, t, t2, p, p2, i + 1, i2) && g == policy_grant(
                c,
                role,
                i2,
            ) by {
        if saved.contains(g) {
            let (t2, p2, i2) = choose|t2: int, p2: int, i2: int| #[trigger]
                called_by_policy(c, role, t, t2, p, p2, i, i2) && g == policy_grant(c, role, i2);
            assert(called_by_policy(c, role, t, t2, p, p2, i + 1, i2));
        }
        if exists|t2: int, p2: int, i2: int| #[trigger]
            called_by_policy(c, role, t, t2, p, p2, i + 1, i2) && g == policy_grant(c, role, i2) {
            let (t2, p2, i2) = choose|t2: int, p2: int, i2: int| #[trigger]
                called_by_policy(c, role, t, t2, p, p2, i + 1, i2) && g == policy_grant(
                    c,
                    role,
                    i2,
                );
            if !(t2 == t && p2 == p && i2 == i) {
                assert(called_by_policy(c, role, t, t2, p, p2, i, i2));
            }
        }
    }
    assert forall|x: (Seq<char>, Seq<char>)| #[trigger]
        work_after.contains(x) <==> first.contains(x) || (x.1 == roles::normal_role(role)
            && exists|t2: int, p2: int, i2: int| #[trigger]
            called_by_policy(c, role, t, t2, p, p2, i + 1, i2) && x.0
                == c.routines@[i2].bare_name@) by {
        sets::law_added_contains(work, item, x);
        assert(work.contains(x) <==> first.contains(x) || (x.1 == roles::normal_role(role)
            && exists|t2: int, p2: int, i2: int| #[trigger]
            called_by_policy(c, role, t, t2, p, p2, i, i2) && x.0
                == c.routines@[i2].bare_name@));
        if exists|t2: int, p2: int, i2: int| #[trigger]
            called_by_policy(c, role, t, t2, p, p2, i, i2) && x.0 == c.routines@[i2].bare_name@ {
            let (t2, p2, i2) = choose|t2: int, p2: int, i2: int| #[trigger]
                called_by_policy(c, role, t, t2, p, p2, i, i2) && x.0
                    == c.routines@[i2].bare_name@;
            assert(called_by_policy(c, role, t, t2, p, p2, i + 1, i2));
        }
        if exists|t2: int, p2: int, i2: int| #[trigger]
            called_by_policy(c, role, t, t2, p, p2, i + 1, i2) && x.0
                == c.routines@[i2].bare_name@ {
            let (t2, p2, i2) = choose|t2: int, p2: int, i2: int| #[trigger]
                called_by_policy(c, role, t, t2, p, p2, i + 1, i2) && x.0
                    == c.routines@[i2].bare_name@;
            if !(t2 == t && p2 == p && i2 == i) {
                assert(called_by_policy(c, role, t, t2, p, p2, i, i2));
            }
        }
    }
}

fn find_routine(routines: &Vec<CarrierRoutine>, name: &str) -> (r: Option<usize>)
    ensures
        match (r, routine_named(routines@, name@, 0)) {
            (Some(i), Some(k)) => i == k && i < routines@.len(),
            (None, None) => true,
            _ => false,
        },
{
    let mut i: usize = 0;
    while i < routines.len()
        invariant
            i <= routines.len(),
            routine_named(routines@, name@, 0) == routine_named(routines@, name@, i as int),
        decreases routines.len() - i,
    {
        if text::eq_ignore_case(routines[i].name.as_str(), name) {
            return Some(i);
        }
        i = i + 1;
    }
    None
}

fn find_view(views: &Vec<CarrierView>, name: &str) -> (r: Option<usize>)
    ensures
        match (r, view_named(views@, name@, 0)) {
            (Some(i), Some(k)) => i == k && i < views@.len(),
            (None, None) => true,
            _ => false,
        },
{
    let mut i: usize = 0;
    while i < views.len()
        invariant
            i <= views.len(),
            view_named(views@, name@, 0) == view_named(views@, name@, i as int),
        decreases views.len() - i,
    {
        if text::eq_ignore_case(views[i].name.as_str(), name) {
            return Some(i);
        }
        i = i + 1;
    }
    None
}

proof fn lemma_function_takes(
    c: CarrierCatalog,
    x: (Seq<char>, Seq<char>),
    caller: int,
    executor: Seq<char>,
    sql: Seq<char>,
    g: GrantView,
)
    requires
        caller_of(c, x) == Some(caller),
        executor == runs_as(c.routines@[caller], x.1),
        sql == c.routines@[caller].definition@,
    ensures
        function_takes(c, x, g) <==> {
            ||| exists|i: int| #[trigger] call_grant(c, caller, executor, i, g)
            ||| exists|t: int, op: Operation| #[trigger] table_grant(c, sql, executor, t, op, g)
            ||| exists|v: int, op: Operation| #[trigger] view_grant(c, sql, executor, v, op, g)
        },
{
}

/// Saves the grants that a function that is run takes, and enqueues what it
/// depends on.
fn process_function(
    c: &CarrierCatalog,
    routine: &str,
    executor: &str,
    saved: &mut Vec<PrivilegeGrant>,
    work: &mut Vec<FunctionItem>,
    used: &mut Vec<RelationItem>,
) -> (r: Result<(), SqlError>)
    ensures
        old(work)@.is_prefix_of(final(work)@),
        function_views(old(work)@).no_duplicates() ==> function_views(
            final(work)@,
        ).no_duplicates(),
        relation_views(old(used)@).no_duplicates() ==> relation_views(
            final(used)@,
        ).no_duplicates(),
        match r {
            Ok(_) => {
                &&& function_searchable(*c, (routine@, executor@))
                &&& forall|g: GrantView| #[trigger]
                    privileges::grant_views(final(saved)@).contains(g) <==> privileges::grant_views(
                        old(saved)@,
                    ).contains(g) || function_takes(*c, (routine@, executor@), g)
                &&& forall|x: (Seq<char>, Seq<char>)| #[trigger]
                    function_views(final(work)@).contains(x) <==> function_views(
                        old(work)@,
                    ).contains(x) || function_leads_to(*c, (routine@, executor@), x)
                &&& forall|y: ((Seq<char>, Seq<char>), Operation)| #[trigger]
                    relation_views(final(used)@).contains(y) <==> relation_views(
                        old(used)@,
                    ).contains(y) || function_uses(*c, (routine@, executor@), y)
            },
            Err(e) => is_pattern_error(e) && function_fails(*c, (routine@, executor@), failure(e)),
        },
{
    let ghost x = (routine@, executor@);
    let caller = match find_routine(&c.routines, routine) {
        Some(i) => i,
        None => {
            return Ok(());
        },
    };
    let f = &c.routines[caller];
    if !text::text_eq(f.language.as_str(), "sql") && !text::text_eq(
        f.language.as_str(),
        "plpgsql",
    ) {
        return Ok(());
    }
    assert(caller_of(*c, x) == Some(caller as int));
    let who = match &f.definer_owner {
        Some(owner) => if f.security_definer {
            owner.clone()
        } else {
            executor.to_owned()
        },
        None => executor.to_owned(),
    };
    assert(who@ == runs_as(*f, executor@));
    let ghost start = privileges::grant_views(saved@);
    match save_call_grants(c, caller, who.as_str(), saved, work) {
        Err(e) => {
            return Err(e);
        },
        Ok(_) => {},
    }
    let ghost second = privileges::grant_views(saved@);
    match save_table_grants(c, f.definition.as_str(), who.as_str(), saved) {
        Err(e) => {
            return Err(e);
        },
        Ok(_) => {},
    }
    let ghost third = privileges::grant_views(saved@);
    match save_view_grants(c, f.definition.as_str(), who.as_str(), saved, used) {
        Err(e) => {
            return Err(e);
        },
        Ok(_) => {},
    }
    proof {
        assert forall|g: GrantView| #[trigger]
            privileges::grant_views(saved@).contains(g) <==> start.contains(g) || function_takes(
                *c,
                x,
                g,
            ) by {
            assert(third.contains(g) <==> second.contains(g) || exists|t: int, op: Operation|
                #[trigger]
                table_grant(*c, f.definition@, who@, t, op, g));
            assert(second.contains(g) <==> start.contains(g) || exists|i: int| #[trigger]
                call_grant(*c, caller as int, who@, i, g));
            let by_call = exists|i: int| #[trigger] call_grant(*c, caller as int, who@, i, g);
            let by_table = exists|t: int, op: Operation| #[trigger]
                table_grant(*c, f.definition@, who@, t, op, g);
            let by_view = exists|v: int, op: Operation| #[trigger]
                view_grant(*c, f.definition@, who@, v, op, g);
            assert(privileges::grant_views(saved@).contains(g) <==> third.contains(g) || by_view);
            assert(*f == c.routines@[caller as int]);
            lemma_function_takes(*c, x, caller as int, who@, f.definition@, g);
        }
    }
    Ok(())
}

/// The functions of the catalog: what routines and triggers name.
spec fn function_names(c: CarrierCatalog) -> Seq<Seq<char>> {
    c.routines@.map_values(|f: CarrierRoutine| f.bare_name@) + c.triggers@.map_values(
        |t: CarrierTrigger| t.function@,
    )
}

/// Who anything in the catalog can run as for the role.
spec fn executors(c: CarrierCatalog, role: Seq<char>) -> Seq<Seq<char>> {
    c.routines@.map_values(|f: CarrierRoutine| roles::normal_role(runs_as(f, role)))
        + c.views@.map_values(|v: CarrierView| roles::normal_role(view_runs_as(v, role))).push(
        roles::normal_role(role),
    )
}

proof fn lemma_executors(c: CarrierCatalog, role: Seq<char>)
    ensures
        executors(c, role).contains(roles::normal_role(role)),
        forall|e: Seq<char>| #[trigger]
            executors(c, role).contains(e) ==> roles::normal_role(e) == e,
{
    let all = executors(c, role);
    assert(all[all.len() - 1] == roles::normal_role(role));
    assert forall|e: Seq<char>| #[trigger] all.contains(e) implies roles::normal_role(e) == e by {
        let i = choose|i: int| 0 <= i < all.len() && all[i] == e;
        let n = c.routines@.len() as int;
        if i < n {
            roles::law_normal_role(runs_as(c.routines@[i], role));
        } else if i < n + c.views@.len() {
            roles::law_normal_role(view_runs_as(c.views@[i - n], role));
        } else {
            roles::law_normal_role(role);
        }
    }
}

proof fn lemma_runs_as_known(c: CarrierCatalog, role: Seq<char>, caller: int, e: Seq<char>)
    requires
        0 <= caller < c.routines@.len(),
        executors(c, role).contains(e),
    ensures
        executors(c, role).contains(roles::normal_role(runs_as(c.routines@[caller], e))),
{
    lemma_executors(c, role);
    let f = c.routines@[caller];
    if f.definer_owner is Some && f.security_definer {
        assert(executors(c, role)[caller] == roles::normal_role(runs_as(f, role)));
    } else {
        assert(roles::normal_role(e) == e);
    }
}

proof fn lemma_view_runs_as_known(c: CarrierCatalog, role: Seq<char>, v: int, e: Seq<char>)
    requires
        0 <= v < c.views@.len(),
        executors(c, role).contains(e),
    ensures
        executors(c, role).contains(roles::normal_role(view_runs_as(c.views@[v], e))),
{
    lemma_executors(c, role);
    let view = c.views@[v];
    if !view.security_invoker {
        assert(executors(c, role)[c.routines@.len() + v] == roles::normal_role(
            view_runs_as(view, role),
        ));
    } else {
        assert(roles::normal_role(e) == e);
    }
}

proof fn lemma_first_function_known(
    c: CarrierCatalog,
    role: Seq<char>,
    x: (Seq<char>, Seq<char>),
)
    requires
        first_function(c, role, x),
    ensures
        function_names(c).contains(x.0),
        executors(c, role).contains(x.1),
{
    lemma_executors(c, role);
    let names = function_names(c);
    if exists|i: int| #[trigger] executes(c, role, i) && x.0 == c.routines@[i].bare_name@ {
        let i = choose|i: int| #[trigger]
            executes(c, role, i) && x.0 == c.routines@[i].bare_name@;
        assert(names[i] == x.0);
    } else if exists|i: int| #[trigger] sets_off(c, role, i) && x.0 == c.triggers@[i].function@ {
        let i = choose|i: int| #[trigger] sets_off(c, role, i) && x.0 == c.triggers@[i].function@;
        assert(names[c.routines@.len() + i] == x.0);
    } else {
        let (t, p, i) = choose|t: int, p: int, i: int| #[trigger]
            policy_calls(c, role, t, p, i) && x.0 == c.routines@[i].bare_name@;
        assert(names[i] == x.0);
    }
}

proof fn lemma_routine_named(routines: Seq<CarrierRoutine>, name: Seq<char>, from: int)
    requires
        0 <= from,
    ensures
        routine_named(routines, name, from) is Some ==> 0 <= routine_named(
            routines,
            name,
            from,
        )->0 < routines.len(),
    decreases routines.len() - from,
{
    if from < routines.len() {
        lemma_routine_named(routines, name, from + 1);
    }
}

proof fn lemma_led_function_known(
    c: CarrierCatalog,
    role: Seq<char>,
    x: (Seq<char>, Seq<char>),
    y: (Seq<char>, Seq<char>),
)
    requires
        executors(c, role).contains(x.1),
        function_leads_to(c, x, y),
    ensures
        function_names(c).contains(y.0),
        executors(c, role).contains(y.1),
{
    lemma_routine_named(c.routines@, x.0, 0);
    let caller = caller_of(c, x)->0;
    lemma_runs_as_known(c, role, caller, x.1);
    let i = choose|i: int| #[trigger]
        routine_calls(c, caller, i) && y.0 == c.routines@[i].bare_name@;
    assert(function_names(c)[i] == y.0);
}

/// Looks at every function that is run.
fn run_functions(
    c: &CarrierCatalog,
    role: &str,
    saved: &mut Vec<PrivilegeGrant>,
    work: Vec<FunctionItem>,
    used: &mut Vec<RelationItem>,
) -> (r: Result<(), SqlError>)
    requires
        function_views(work@).no_duplicates(),
        forall|x: (Seq<char>, Seq<char>)| #[trigger]
            function_views(work@).contains(x) <==> first_function(*c, role@, x),
    ensures
        relation_views(old(used)@).no_duplicates() ==> relation_views(
            final(used)@,
        ).no_duplicates(),
        match r {
            Ok(_) => {
                &&& forall|x: (Seq<char>, Seq<char>)| #[trigger]
                    is_run(*c, role@, x) ==> function_searchable(*c, x)
                &&& forall|g: GrantView| #[trigger]
                    privileges::grant_views(final(saved)@).contains(g) <==> privileges::grant_views(
                        old(saved)@,
                    ).contains(g) || exists|x: (Seq<char>, Seq<char>)| #[trigger]
                        is_run(*c, role@, x) && function_takes(*c, x, g)
                &&& forall|y: ((Seq<char>, Seq<char>), Operation)| #[trigger]
                    relation_views(final(used)@).contains(y) <==> relation_views(
                        old(used)@,
                    ).contains(y) || exists|x: (Seq<char>, Seq<char>)| #[trigger]
                        is_run(*c, role@, x) && function_uses(*c, x, y)
            },
            Err(e) => is_pattern_error(e) && exists|x: (Seq<char>, Seq<char>)| #[trigger]
                is_run(*c, role@, x) && function_fails(*c, x, failure(e)),
        },
{
    let ghost start = privileges::grant_views(saved@);
    let ghost first = relation_views(used@);
    let ghost seeds = |x: (Seq<char>, Seq<char>)| first_function(*c, role@, x);
    let ghost step = |x: (Seq<char>, Seq<char>), y: (Seq<char>, Seq<char>)|
        function_leads_to(*c, x, y);
    let ghost all = reach::pairs(function_names(*c), executors(*c, role@));
    let mut work = work;
    let mut i: usize = 0;
    proof {
        assert forall|x: (Seq<char>, Seq<char>)| #[trigger]
            function_views(work@).contains(x) implies function_names(*c).contains(x.0)
            && executors(*c, role@).contains(x.1) && is_run(*c, role@, x) && all.contains(x) by {
            lemma_first_function_known(*c, role@, x);
            assert(seeds(x));
            reach::law_seed(seeds, step, x);
            reach::lemma_pairs(function_names(*c), executors(*c, role@), x.0, x.1);
        }
        sets::lemma_not_longer(function_views(work@), all);
    }
    while i < work.len()
        invariant
            i <= work.len(),
            seeds == (|x: (Seq<char>, Seq<char>)| first_function(*c, role@, x)),
            step == (|x: (Seq<char>, Seq<char>), y: (Seq<char>, Seq<char>)|
                function_leads_to(*c, x, y)),
            all == reach::pairs(function_names(*c), executors(*c, role@)),
            first == relation_views(old(used)@),
            first.no_duplicates() ==> relation_views(used@).no_duplicates(),
            function_views(work@).no_duplicates(),
            work@.len() <= all.len(),
            forall|x: (Seq<char>, Seq<char>)| #[trigger]
                function_views(work@).contains(x) ==> function_names(*c).contains(x.0)
                    && executors(*c, role@).contains(x.1) && is_run(*c, role@, x) && all.contains(
                    x,
                ),
            forall|x: (Seq<char>, Seq<char>)|
                first_function(*c, role@, x) ==> #[trigger] function_views(work@).contains(x),
            forall|k: int| 0 <= k < i ==> function_searchable(
                *c,
                #[trigger] function_views(work@)[k],
            ),
            forall|k: int, y: (Seq<char>, Seq<char>)|
                0 <= k < i && #[trigger] function_leads_to(
                    *c,
                    #[trigger] function_views(work@)[k],
                    y,
                ) ==> function_views(work@).contains(y),
            forall|g: GrantView| #[trigger]
                privileges::grant_views(saved@).contains(g) <==> start.contains(g) || exists|
                    k: int,
                |
                    0 <= k < i && function_takes(*c, #[trigger] function_views(work@)[k], g),
            forall|y: ((Seq<char>, Seq<char>), Operation)| #[trigger]
                relation_views(used@).contains(y) <==> first.contains(y) || exists|k: int|
                    0 <= k < i && function_uses(*c, #[trigger] function_views(work@)[k], y),
        decreases all.len() - i,
    {
        let routine = work[i].routine.clone();
        let executor = work[i].executor.clone();
        let ghost x = (routine@, executor@);
        let ghost before = function_views(work@);
        let ghost list = work@;
        let ghost held = privileges::grant_views(saved@);
        let ghost queued = relation_views(used@);
        assert(before[i as int] == x);
        assert(before.contains(x));
        match process_function(
            c,
            routine.as_str(),
            executor.as_str(),
            saved,
            &mut work,
            used,
        ) {
            Err(e) => {
                assert(is_run(*c, role@, x));
                return Err(e);
            },
            Ok(_) => {},
        }
        proof {
            let after = function_views(work@);
            assert forall|k: int| 0 <= k < before.len() implies #[trigger] after[k]
                == before[k] by {
                assert(work@.take(list.len() as int)[k] == list[k]);
            }
            assert(after[i as int] == x);
            assert forall|y: (Seq<char>, Seq<char>)| #[trigger]
                after.contains(y) implies function_names(*c).contains(y.0) && executors(
                *c,
                role@,
            ).contains(y.1) && is_run(*c, role@, y) && all.contains(y) by {
                if !before.contains(y) {
                    assert(function_leads_to(*c, x, y));
                    lemma_led_function_known(*c, role@, x, y);
                    assert(step(x, y));
                    reach::law_step(seeds, step, x, y);
                    reach::lemma_pairs(function_names(*c), executors(*c, role@), y.0, y.1);
                }
            }
            sets::lemma_not_longer(after, all);
            assert forall|y: (Seq<char>, Seq<char>)|
                first_function(*c, role@, y) implies #[trigger] after.contains(y) by {
                assert(before.contains(y));
            }
            assert forall|k: int, y: (Seq<char>, Seq<char>)|
                0 <= k < i + 1 && #[trigger] function_leads_to(
                    *c,
                    #[trigger] after[k],
                    y,
                ) implies after.contains(y) by {
                if k < i {
                    assert(function_leads_to(*c, before[k], y));
                    assert(before.contains(y));
                }
            }
            assert forall|g: GrantView| #[trigger]
                privileges::grant_views(saved@).contains(g) <==> start.contains(g) || exists|
                    k: int,
                |
                    0 <= k < i + 1 && function_takes(*c, #[trigger] after[k], g) by {
                assert(held.contains(g) <==> start.contains(g) || exists|k: int|
                    0 <= k < i && function_takes(*c, #[trigger] before[k], g));
                if held.contains(g) && !start.contains(g) {
                    let k = choose|k: int|
                        0 <= k < i && function_takes(*c, #[trigger] before[k], g);
                    assert(after[k] == before[k]);
                }
                if exists|k: int| 0 <= k < i + 1 && function_takes(*c, #[trigger] after[k], g) {
                    let k = choose|k: int|
                        0 <= k < i + 1 && function_takes(*c, #[trigger] after[k], g);
                    if k < i {
                        assert(function_takes(*c, before[k], g));
                    }
                }
            }
            assert forall|y: ((Seq<char>, Seq<char>), Operation)| #[trigger]
                relation_views(used@).contains(y) <==> first.contains(y) || exists|k: int|
                    0 <= k < i + 1 && function_uses(*c, #[trigger] after[k], y) by {
                assert(queued.contains(y) <==> first.contains(y) || exists|k: int|
                    0 <= k < i && function_uses(*c, #[trigger] before[k], y));
                if queued.contains(y) && !first.contains(y) {
                    let k = choose|k: int| 0 <= k < i && function_uses(*c, #[trigger] before[k], y);
                    assert(after[k] == before[k]);
                }
                if exists|k: int| 0 <= k < i + 1 && function_uses(*c, #[trigger] after[k], y) {
                    let k = choose|k: int|
                        0 <= k < i + 1 && function_uses(*c, #[trigger] after[k], y);
                    if k < i {
                        assert(function_uses(*c, before[k], y));
                    }
                }
            }
        }
        i = i + 1;
    }
    proof {
        let views = function_views(work@);
        assert forall|x: (Seq<char>, Seq<char>)| #[trigger]
            is_run(*c, role@, x) implies exists|k: int|
            0 <= k < views.len() && #[trigger] views[k] == x by {
            assert forall|a: (Seq<char>, Seq<char>), b: (Seq<char>, Seq<char>)|
                views.contains(a) && #[trigger] step(a, b) implies views.contains(b) by {
                let k = choose|k: int| 0 <= k < views.len() && views[k] == a;
                assert(function_leads_to(*c, views[k], b));
            }
            assert forall|s: (Seq<char>, Seq<char>)| #[trigger] seeds(s) implies views.contains(
                s,
            ) by {
                assert(first_function(*c, role@, s));
            }
            reach::law_closed(seeds, step, views, x);
        }
        assert forall|k: int| 0 <= k < views.len() implies is_run(
            *c,
            role@,
            #[trigger] views[k],
        ) by {
            assert(views.contains(views[k]));
        }
        assert forall|g: GrantView| #[trigger]
            privileges::grant_views(saved@).contains(g) <==> start.contains(g) || exists|
                x: (Seq<char>, Seq<char>),
            | #[trigger]
                is_run(*c, role@, x) && function_takes(*c, x, g) by {
            if exists|x: (Seq<char>, Seq<char>)| #[trigger]
                is_run(*c, role@, x) && function_takes(*c, x, g) {
                let x = choose|x: (Seq<char>, Seq<char>)| #[trigger]
                    is_run(*c, role@, x) && function_takes(*c, x, g);
                let k = choose|k: int| 0 <= k < views.len() && #[trigger] views[k] == x;
                assert(function_takes(*c, views[k], g));
            }
        }
        assert forall|y: ((Seq<char>, Seq<char>), Operation)| #[trigger]
            relation_views(used@).contains(y) <==> first.contains(y) || exists|
                x: (Seq<char>, Seq<char>),
            | #[trigger]
                is_run(*c, role@, x) && function_uses(*c, x, y) by {
            if exists|x: (Seq<char>, Seq<char>)| #[trigger]
                is_run(*c, role@, x) && function_uses(*c, x, y) {
                let x = choose|x: (Seq<char>, Seq<char>)| #[trigger]
                    is_run(*c, role@, x) && function_uses(*c, x, y);
                let k = choose|k: int| 0 <= k < views.len() && #[trigger] views[k] == x;
                assert(function_uses(*c, views[k], y));
            }
        }
        assert forall|x: (Seq<char>, Seq<char>)| #[trigger]
            is_run(*c, role@, x) implies function_searchable(*c, x) by {
            let k = choose|k: int| 0 <= k < views.len() && #[trigger] views[k] == x;
            assert(function_searchable(*c, views[k]));
        }
    }
    Ok(())
}

/// Enqueues the views that the role may use.
fn enqueue_usable(c: &CarrierCatalog, role: &str) -> (used: Vec<RelationItem>)
    ensures
        relation_views(used@).no_duplicates(),
        forall|y: ((Seq<char>, Seq<char>), Operation)| #[trigger]
            relation_views(used@).contains(y) <==> (y.0).1 == roles::normal_role(role@) && exists|
                v: int,
            |
                0 <= v < c.views@.len() && may(*c, role@, (#[trigger] c.views@[v]).relation, y.1)
                    && (y.0).0 == unqualified(c.views@[v].name@),
{
    let all = [Operation::Select, Operation::Insert, Operation::Update, Operation::Delete];
    let ghost who = roles::normal_role(role@);
    let mut used: Vec<RelationItem> = Vec::new();
    let mut v: usize = 0;
    assert(relation_views(used@) =~= Seq::<((Seq<char>, Seq<char>), Operation)>::empty());
    while v < c.views.len()
        invariant
            v <= c.views.len(),
            all@ == operations(),
            who == roles::normal_role(role@),
            relation_views(used@).no_duplicates(),
            forall|y: ((Seq<char>, Seq<char>), Operation)| #[trigger]
                relation_views(used@).contains(y) <==> (y.0).1 == who && exists|k: int|
                    0 <= k < v && may(*c, role@, (#[trigger] c.views@[k]).relation, y.1) && (y.0).0
                        == unqualified(c.views@[k].name@),
        decreases c.views.len() - v,
    {
        let view = &c.views[v];
        let ghost before = relation_views(used@);
        let mut j: usize = 0;
        while j < 4
            invariant
                j <= 4,
                v < c.views.len(),
                *view == c.views@[v as int],
                all@ == operations(),
                who == roles::normal_role(role@),
                relation_views(used@).no_duplicates(),
                forall|y: ((Seq<char>, Seq<char>), Operation)| #[trigger]
                    relation_views(used@).contains(y) <==> before.contains(y) || (y.0 == (
                        unqualified(view.name@),
                        who,
                    ) && operation_index(y.1) < j && may(*c, role@, view.relation, y.1)),
            decreases 4 - j,
        {
            let op = all[j];
            assert(op == operations()[j as int]);
            assert(operation_index(op) == j);
            let ghost queued = relation_views(used@);
            let allowed = may_do(c, role, &view.relation, op);
            if allowed {
                enqueue_relation_dependency(&mut used, view.name.as_str(), role, op);
            }
            proof {
                let item = ((unqualified(view.name@), who), op);
                sets::law_added(queued, item);
                assert forall|y: ((Seq<char>, Seq<char>), Operation)| #[trigger]
                    relation_views(used@).contains(y) <==> before.contains(y) || (y.0 == (
                        unqualified(view.name@),
                        who,
                    ) && operation_index(y.1) < j + 1 && may(*c, role@, view.relation, y.1)) by {
                    assert(queued.contains(y) <==> before.contains(y) || (y.0 == (
                        unqualified(view.name@),
                        who,
                    ) && operation_index(y.1) < j && may(*c, role@, view.relation, y.1)));
                    assert(operation_index(y.1) == j ==> y.1 == op) by {
                        assert(operations()[operation_index(y.1)] == y.1);
                    }
                }
            }
            j = j + 1;
        }
        proof {
            assert forall|y: ((Seq<char>, Seq<char>), Operation)| #[trigger]
                relation_views(used@).contains(y) <==> (y.0).1 == who && exists|k: int|
                    0 <= k < v + 1 && may(*c, role@, (#[trigger] c.views@[k]).relation, y.1)
                        && (y.0).0 == unqualified(c.views@[k].name@) by {
                assert(before.contains(y) <==> (y.0).1 == who && exists|k: int|
                    0 <= k < v && may(*c, role@, (#[trigger] c.views@[k]).relation, y.1) && (y.0).0
                        == unqualified(c.views@[k].name@));
                assert(operation_index(y.1) < 4);
                assert(c.views@[v as int] == *view);
            }
        }
        v = v + 1;
    }
    used
}

/// Saves the grants that a view that is used takes on the tables it is about.
fn save_inner_tables(
    c: &CarrierCatalog,
    sql: &str,
    op: Operation,
    executor: &str,
    saved: &mut Vec<PrivilegeGrant>,
) -> (r: Result<(), SqlError>)
    ensures
        match r {
            Ok(_) => tables_searchable_for(*c, sql@, op) && forall|g: GrantView| #[trigger]
                privileges::grant_views(final(saved)@).contains(g) <==> privileges::grant_views(
                    old(saved)@,
                ).contains(g) || exists|t: int| #[trigger]
                    table_grant(*c, sql@, executor@, t, op, g),
            Err(e) => is_pattern_error(e) && tables_fail_for(*c, sql@, op, failure(e)),
        },
{
    let ghost start = privileges::grant_views(saved@);
    let mut t: usize = 0;
    while t < c.tables.len()
        invariant
            t <= c.tables.len(),
            forall|k: int|
                0 <= k < t && takes_part(#[trigger] c.tables@[k]) ==> touches(
                    sql@,
                    c.tables@[k].name@,
                    op,
                ) is Ok,
            forall|g: GrantView| #[trigger]
                privileges::grant_views(saved@).contains(g) <==> start.contains(g) || exists|
                    k: int,
                |
                    k < t && #[trigger] table_grant(*c, sql@, executor@, k, op, g),
        decreases c.tables.len() - t,
    {
        let table = &c.tables[t];
        let ghost before = privileges::grant_views(saved@);
        let mut found = false;
        if table_takes_part(table) {
            match sql_mentions_relation_operation(sql, table.name.as_str(), op) {
                Err(e) => {
                    assert(touches(sql@, c.tables@[t as int].name@, op) == Err::<bool, Seq<char>>(
                        failure(e),
                    ));
                    return Err(e);
                },
                Ok(b) => {
                    found = b;
                },
            }
        }
        assert(found == text_touches_table(*c, sql@, t as int, op));
        let ghost mut middle = before;
        if found {
            save_runtime_privilege(
                saved,
                PrivilegeObjectType::Schema,
                table.schema_name.as_str(),
                executor,
                "USAGE",
            );
            proof {
                middle = privileges::grant_views(saved@);
            }
            save_runtime_privilege(
                saved,
                PrivilegeObjectType::Table,
                table.name.as_str(),
                executor,
                operation_name(op),
            );
        }
        proof {
            assert forall|g: GrantView| #[trigger]
                privileges::grant_views(saved@).contains(g) <==> start.contains(g) || exists|
                    k: int,
                |
                    k < t + 1 && #[trigger] table_grant(*c, sql@, executor@, k, op, g) by {
                assert(before.contains(g) <==> start.contains(g) || exists|k: int|
                    k < t && #[trigger] table_grant(*c, sql@, executor@, k, op, g));
                if found {
                    assert(middle.contains(g) <==> before.contains(g) || g == runtime_grant(
                        PrivilegeObjectType::Schema,
                        table.schema_name@,
                        executor@,
                        "USAGE"@,
                    ));
                }
                assert(table_grant(*c, sql@, executor@, t as int, op, g) <==> found && (
                privileges::grant_views(saved@).contains(g) && (g == runtime_grant(
                    PrivilegeObjectType::Schema,
                    table.schema_name@,
                    executor@,
                    "USAGE"@,
                ) || g == runtime_grant(
                    PrivilegeObjectType::Table,
                    table.name@,
                    executor@,
                    operation_text(op),
                ))));
            }
        }
        t = t + 1;
    }
    Ok(())
}

/// Saves the grants that a view that is used takes on other views, and enqueues
/// these.
fn save_inner_views(
    c: &CarrierCatalog,
    v: usize,
    op: Operation,
    executor: &str,
    saved: &mut Vec<PrivilegeGrant>,
    used: &mut Vec<RelationItem>,
) -> (r: Result<(), SqlError>)
    requires
        v < c.views@.len(),
    ensures
        old(used)@.is_prefix_of(final(used)@),
        relation_views(old(used)@).no_duplicates() ==> relation_views(
            final(used)@,
        ).no_duplicates(),
        match r {
            Ok(_) => {
                &&& inner_views_searchable(*c, v as int, op)
                &&& forall|g: GrantView| #[trigger]
                    privileges::grant_views(final(saved)@).contains(g) <==> privileges::grant_views(
                        old(saved)@,
                    ).contains(g) || exists|w: int| #[trigger]
                        inner_view_grant(*c, v as int, executor@, w, op, g)
                &&& forall|y: ((Seq<char>, Seq<char>), Operation)| #[trigger]
                    relation_views(final(used)@).contains(y) <==> relation_views(
                        old(used)@,
                    ).contains(y) || (y.1 == op && (y.0).1 == roles::normal_role(executor@)
                        && exists|w: int| #[trigger]
                        view_touches(*c, v as int, w, op) && (y.0).0 == unqualified(
                            c.views@[w].name@,
                        ))
            },
            Err(e) => is_pattern_error(e) && inner_views_fail(*c, v as int, op, failure(e)),
        },
{
    let ghost n = v as int;
    let ghost start = privileges::grant_views(saved@);
    let ghost first = relation_views(used@);
    let ghost given = used@;
    let ghost who = roles::normal_role(executor@);
    let view = &c.views[v];
    let mut w: usize = 0;
    while w < c.views.len()
        invariant
            w <= c.views.len(),
            n == v,
            v < c.views@.len(),
            *view == c.views@[n],
            who == roles::normal_role(executor@),
            given == old(used)@,
            given.is_prefix_of(used@),
            first == relation_views(given),
            first.no_duplicates() ==> relation_views(used@).no_duplicates(),
            forall|k: int|
                0 <= k < w && !text::same_ignoring_case(
                    (#[trigger] c.views@[k]).name@,
                    view.name@,
                ) ==> touches(view.query_sql@, c.views@[k].name@, op) is Ok,
            forall|g: GrantView| #[trigger]
                privileges::grant_views(saved@).contains(g) <==> start.contains(g) || exists|
                    k: int,
                |
                    k < w && #[trigger] inner_view_grant(*c, n, executor@, k, op, g),
            forall|y: ((Seq<char>, Seq<char>), Operation)| #[trigger]
                relation_views(used@).contains(y) <==> first.contains(y) || (y.1 == op && (y.0).1
                    == who && exists|k: int|
                    k < w && #[trigger] view_touches(*c, n, k, op) && (y.0).0 == unqualified(
                        c.views@[k].name@,
                    )),
        decreases c.views.len() - w,
    {
        let candidate = &c.views[w];
        let ghost before = privileges::grant_views(saved@);
        let ghost queued = relation_views(used@);
        let ghost items = used@;
        let mut found = false;
        if !text::eq_ignore_case(candidate.name.as_str(), view.name.as_str()) {
            match sql_mentions_relation_operation(
                view.query_sql.as_str(),
                candidate.name.as_str(),
                op,
            ) {
                Err(e) => {
                    assert(touches(c.views@[n].query_sql@, c.views@[w as int].name@, op) == Err::<
                        bool,
                        Seq<char>,
                    >(failure(e)));
                    return Err(e);
                },
                Ok(b) => {
                    found = b;
                },
            }
        }
        assert(found == view_touches(*c, n, w as int, op));
        if found {
            save_runtime_privilege(
                saved,
                PrivilegeObjectType::Table,
                candidate.name.as_str(),
                executor,
                operation_name(op),
            );
            enqueue_relation_dependency(used, candidate.name.as_str(), executor, op);
            proof {
                let item = ((unqualified(candidate.name@), who), op);
                if queued.no_duplicates() {
                    sets::law_added(queued, item);
                }
                lemma_prefix_of_prefix(given, items, used@);
                assert forall|y: ((Seq<char>, Seq<char>), Operation)| #[trigger]
                    relation_views(used@).contains(y) <==> queued.contains(y) || y == item by {
                    sets::law_added_contains(queued, item, y);
                }
            }
        }
        proof {
            assert forall|g: GrantView| #[trigger]
                privileges::grant_views(saved@).contains(g) <==> start.contains(g) || exists|
                    k: int,
                |
                    k < w + 1 && #[trigger] inner_view_grant(*c, n, executor@, k, op, g) by {
                assert(before.contains(g) <==> start.contains(g) || exists|k: int|
                    k < w && #[trigger] inner_view_grant(*c, n, executor@, k, op, g));
                assert(inner_view_grant(*c, n, executor@, w as int, op, g) <==> found && g
                    == runtime_grant(
                    PrivilegeObjectType::Table,
                    candidate.name@,
                    executor@,
                    operation_text(op),
                ));
            }
            assert forall|y: ((Seq<char>, Seq<char>), Operation)| #[trigger]
                relation_views(used@).contains(y) <==> first.contains(y) || (y.1 == op && (y.0).1
                    == who && exists|k: int|
                    k < w + 1 && #[trigger] view_touches(*c, n, k, op) && (y.0).0 == unqualified(
                        c.views@[k].name@,
                    )) by {
                assert(queued.contains(y) <==> first.contains(y) || (y.1 == op && (y.0).1 == who
                    && exists|k: int|
                    k < w && #[trigger] view_touches(*c, n, k, op) && (y.0).0 == unqualified(
                        c.views@[k].name@,
                    )));
                if found && y == ((unqualified(candidate.name@), who), op) {
                    assert(view_touches(*c, n, w as int, op));
                }
            }
        }
        w = w + 1;
    }
    Ok(())
}

proof fn lemma_view_takes(
    c: CarrierCatalog,
    y: ((Seq<char>, Seq<char>), Operation),
    v: int,
    executor: Seq<char>,
    g: GrantView,
)
    requires
        view_named(c.views@, (y.0).0, 0) == Some(v),
        executor == view_runs_as(c.views@[v], (y.0).1),
    ensures
        view_takes(c, y, g) <==> {
            ||| exists|t: int| #[trigger]
                table_grant(c, c.views@[v].query_sql@, executor, t, y.1, g)
            ||| exists|w: int| #[trigger] inner_view_grant(c, v, executor, w, y.1, g)
        },
{
}

/// Saves the grants that a view that is used takes, and enqueues what it depends
/// on.
fn process_view(
    c: &CarrierCatalog,
    relation: &str,
    executor: &str,
    op: Operation,
    saved: &mut Vec<PrivilegeGrant>,
    used: &mut Vec<RelationItem>,
) -> (r: Result<(), SqlError>)
    ensures
        old(used)@.is_prefix_of(final(used)@),
        relation_views(old(used)@).no_duplicates() ==> relation_views(
            final(used)@,
        ).no_duplicates(),
        match r {
            Ok(_) => {
                &&& view_searchable(*c, ((relation@, executor@), op))
                &&& forall|g: GrantView| #[trigger]
                    privileges::grant_views(final(saved)@).contains(g) <==> privileges::grant_views(
                        old(saved)@,
                    ).contains(g) || view_takes(*c, ((relation@, executor@), op), g)
                &&& forall|z: ((Seq<char>, Seq<char>), Operation)| #[trigger]
                    relation_views(final(used)@).contains(z) <==> relation_views(
                        old(used)@,
                    ).contains(z) || view_leads_to(*c, ((relation@, executor@), op), z)
            },
            Err(e) => is_pattern_error(e) && view_fails(*c, ((relation@, executor@), op), failure(e)),
        },
{
    let ghost y = ((relation@, executor@), op);
    let v = match find_view(&c.views, relation) {
        Some(v) => v,
        None => {
            return Ok(());
        },
    };
    let view = &c.views[v];
    let who = if view.security_invoker {
        executor.to_owned()
    } else {
        match &view.owner {
            Some(owner) => owner.clone(),
            None => roles::current_role_name(),
        }
    };
    assert(who@ == view_runs_as(c.views@[v as int], (y.0).1));
    let ghost start = privileges::grant_views(saved@);
    match save_inner_tables(c, view.query_sql.as_str(), op, who.as_str(), saved) {
        Err(e) => {
            return Err(e);
        },
        Ok(_) => {},
    }
    let ghost second = privileges::grant_views(saved@);
    assert(*view == c.views@[v as int]);
    match save_inner_views(c, v, op, who.as_str(), saved, used) {
        Err(e) => {
            return Err(e);
        },
        Ok(_) => {},
    }
    proof {
        assert forall|g: GrantView| #[trigger]
            privileges::grant_views(saved@).contains(g) <==> start.contains(g) || view_takes(
                *c,
                y,
                g,
            ) by {
            let by_table = exists|t: int| #[trigger]
                table_grant(*c, c.views@[v as int].query_sql@, who@, t, y.1, g);
            let by_view = exists|w: int| #[trigger]
                inner_view_grant(*c, v as int, who@, w, y.1, g);
            assert(second.contains(g) <==> start.contains(g) || by_table);
            assert(privileges::grant_views(saved@).contains(g) <==> second.contains(g) || by_view);
            lemma_view_takes(*c, y, v as int, who@, g);
            assert(view_takes(*c, y, g) <==> by_table || by_view);
        }
    }
    Ok(())
}

/// The bare names of the views.
spec fn view_names(c: CarrierCatalog) -> Seq<Seq<char>> {
    c.views@.map_values(|v: CarrierView| unqualified(v.name@))
}

proof fn lemma_view_named(views: Seq<CarrierView>, name: Seq<char>, from: int)
    requires
        0 <= from,
    ensures
        view_named(views, name, from) is Some ==> 0 <= view_named(views, name, from)->0
            < views.len(),
    decreases views.len() - from,
{
    if from < views.len() {
        lemma_view_named(views, name, from + 1);
    }
}

proof fn lemma_run_known(c: CarrierCatalog, role: Seq<char>, x: (Seq<char>, Seq<char>), steps: nat)
    requires
        reach::reached(
            |x: (Seq<char>, Seq<char>)| first_function(c, role, x),
            |x: (Seq<char>, Seq<char>), y: (Seq<char>, Seq<char>)| function_leads_to(c, x, y),
            steps,
        ).contains(x),
    ensures
        executors(c, role).contains(x.1),
    decreases steps,
{
    let seeds = |x: (Seq<char>, Seq<char>)| first_function(c, role, x);
    let step = |x: (Seq<char>, Seq<char>), y: (Seq<char>, Seq<char>)| function_leads_to(c, x, y);
    if steps == 0 {
        assert(seeds(x));
        lemma_first_function_known(c, role, x);
    } else {
        let before = reach::reached(seeds, step, (steps - 1) as nat);
        if before.contains(x) {
            lemma_run_known(c, role, x, (steps - 1) as nat);
        } else {
            let a = choose|a: (Seq<char>, Seq<char>)| #[trigger] before.contains(a) && step(a, x);
            lemma_run_known(c, role, a, (steps - 1) as nat);
            lemma_led_function_known(c, role, a, x);
        }
    }
}

proof fn lemma_first_view_known(
    c: CarrierCatalog,
    role: Seq<char>,
    y: ((Seq<char>, Seq<char>), Operation),
)
    requires
        first_view(c, role, y),
    ensures
        view_names(c).contains((y.0).0),
        executors(c, role).contains((y.0).1),
{
    lemma_executors(c, role);
    if exists|x: (Seq<char>, Seq<char>)| #[trigger] is_run(c, role, x) && function_uses(c, x, y) {
        let x = choose|x: (Seq<char>, Seq<char>)| #[trigger]
            is_run(c, role, x) && function_uses(c, x, y);
        let seeds = |x: (Seq<char>, Seq<char>)| first_function(c, role, x);
        let step = |x: (Seq<char>, Seq<char>), y: (Seq<char>, Seq<char>)|
            function_leads_to(c, x, y);
        let steps = choose|steps: nat| #[trigger] reach::reached(seeds, step, steps).contains(x);
        lemma_run_known(c, role, x, steps);
        lemma_routine_named(c.routines@, x.0, 0);
        let caller = caller_of(c, x)->0;
        lemma_runs_as_known(c, role, caller, x.1);
        let v = choose|v: int| #[trigger]
            text_touches_view(c, c.routines@[caller].definition@, v, y.1) && (y.0).0 == unqualified(
                c.views@[v].name@,
            );
        assert(view_names(c)[v] == (y.0).0);
    } else {
        let v = choose|v: int|
            0 <= v < c.views@.len() && may(c, role, (#[trigger] c.views@[v]).relation, y.1)
                && (y.0).0 == unqualified(c.views@[v].name@);
        assert(view_names(c)[v] == (y.0).0);
    }
}

proof fn lemma_led_view_known(
    c: CarrierCatalog,
    role: Seq<char>,
    y: ((Seq<char>, Seq<char>), Operation),
    z: ((Seq<char>, Seq<char>), Operation),
)
    requires
        executors(c, role).contains((y.0).1),
        view_leads_to(c, y, z),
    ensures
        view_names(c).contains((z.0).0),
        executors(c, role).contains((z.0).1),
{
    lemma_view_named(c.views@, (y.0).0, 0);
    let v = view_named(c.views@, (y.0).0, 0)->0;
    lemma_view_runs_as_known(c, role, v, (y.0).1);
    let w = choose|w: int| #[trigger]
        view_touches(c, v, w, y.1) && (z.0).0 == unqualified(c.views@[w].name@);
    assert(view_names(c)[w] == (z.0).0);
}

/// All that the search for views can come upon.
spec fn view_universe(c: CarrierCatalog, role: Seq<char>) -> Seq<
    ((Seq<char>, Seq<char>), Operation),
> {
    reach::pairs(reach::pairs(view_names(c), executors(c, role)), operations())
}

proof fn lemma_view_universe(
    c: CarrierCatalog,
    role: Seq<char>,
    y: ((Seq<char>, Seq<char>), Operation),
)
    requires
        view_names(c).contains((y.0).0),
        executors(c, role).contains((y.0).1),
    ensures
        view_universe(c, role).contains(y),
{
    reach::lemma_pairs(view_names(c), executors(c, role), (y.0).0, (y.0).1);
    assert(operations()[operation_index(y.1)] == y.1);
    reach::lemma_pairs(
        reach::pairs(view_names(c), executors(c, role)),
        operations(),
        y.0,
        y.1,
    );
}

/// Looks at every view that is used.
fn use_views(
    c: &CarrierCatalog,
    role: &str,
    saved: &mut Vec<PrivilegeGrant>,
    used: Vec<RelationItem>,
) -> (r: Result<(), SqlError>)
    requires
        relation_views(used@).no_duplicates(),
        forall|y: ((Seq<char>, Seq<char>), Operation)| #[trigger]
            relation_views(used@).contains(y) <==> first_view(*c, role@, y),
    ensures
        match r {
            Ok(_) => {
                &&& forall|y: ((Seq<char>, Seq<char>), Operation)| #[trigger]
                    is_used(*c, role@, y) ==> view_searchable(*c, y)
                &&& forall|g: GrantView| #[trigger]
                    privileges::grant_views(final(saved)@).contains(g) <==> privileges::grant_views(
                        old(saved)@,
                    ).contains(g) || exists|y: ((Seq<char>, Seq<char>), Operation)| #[trigger]
                        is_used(*c, role@, y) && view_takes(*c, y, g)
            },
            Err(e) => is_pattern_error(e) && exists|y: ((Seq<char>, Seq<char>), Operation)|
                #[trigger]
                is_used(*c, role@, y) && view_fails(*c, y, failure(e)),
        },
{
    let ghost start = privileges::grant_views(saved@);
    let ghost seeds = |y: ((Seq<char>, Seq<char>), Operation)| first_view(*c, role@, y);
    let ghost step = |
        y: ((Seq<char>, Seq<char>), Operation),
        z: ((Seq<char>, Seq<char>), Operation),
    | view_leads_to(*c, y, z);
    let ghost all = view_universe(*c, role@);
    let mut used = used;
    let mut i: usize = 0;
    proof {
        assert forall|y: ((Seq<char>, Seq<char>), Operation)| #[trigger]
            relation_views(used@).contains(y) implies executors(*c, role@).contains((y.0).1)
            && is_used(*c, role@, y) && all.contains(y) by {
            lemma_first_view_known(*c, role@, y);
            lemma_view_universe(*c, role@, y);
            assert(seeds(y));
            reach::law_seed(seeds, step, y);
        }
        sets::lemma_not_longer(relation_views(used@), all);
    }
    while i < used.len()
        invariant
            i <= used.len(),
            seeds == (|y: ((Seq<char>, Seq<char>), Operation)| first_view(*c, role@, y)),
            step == (|
                y: ((Seq<char>, Seq<char>), Operation),
                z: ((Seq<char>, Seq<char>), Operation),
            | view_leads_to(*c, y, z)),
            all == view_universe(*c, role@),
            relation_views(used@).no_duplicates(),
            used@.len() <= all.len(),
            forall|y: ((Seq<char>, Seq<char>), Operation)| #[trigger]
                relation_views(used@).contains(y) ==> executors(*c, role@).contains((y.0).1)
                    && is_used(*c, role@, y) && all.contains(y),
            forall|y: ((Seq<char>, Seq<char>), Operation)|
                first_view(*c, role@, y) ==> #[trigger] relation_views(used@).contains(y),
            forall|k: int| 0 <= k < i ==> view_searchable(*c, #[trigger] relation_views(used@)[k]),
            forall|k: int, z: ((Seq<char>, Seq<char>), Operation)|
                0 <= k < i && #[trigger] view_leads_to(
                    *c,
                    #[trigger] relation_views(used@)[k],
                    z,
                ) ==> relation_views(used@).contains(z),
            forall|g: GrantView| #[trigger]
                privileges::grant_views(saved@).contains(g) <==> start.contains(g) || exists|
                    k: int,
                |
                    0 <= k < i && view_takes(*c, #[trigger] relation_views(used@)[k], g),
        decreases all.len() - i,
    {
        let relation = used[i].relation.clone();
        let executor = used[i].executor.clone();
        let op = used[i].operation;
        let ghost y = ((relation@, executor@), op);
        let ghost before = relation_views(used@);
        let ghost list = used@;
        let ghost held = privileges::grant_views(saved@);
        assert(before[i as int] == y);
        assert(before.contains(y));
        match process_view(c, relation.as_str(), executor.as_str(), op, saved, &mut used) {
            Err(e) => {
                assert(is_used(*c, role@, y));
                return Err(e);
            },
            Ok(_) => {},
        }
        proof {
            let after = relation_views(used@);
            assert forall|k: int| 0 <= k < before.len() implies #[trigger] after[k]
                == before[k] by {
                assert(used@.take(list.len() as int)[k] == list[k]);
            }
            assert(after[i as int] == y);
            assert forall|z: ((Seq<char>, Seq<char>), Operation)| #[trigger]
                after.contains(z) implies executors(*c, role@).contains((z.0).1) && is_used(
                *c,
                role@,
                z,
            ) && all.contains(z) by {
                if !before.contains(z) {
                    assert(view_leads_to(*c, y, z));
                    lemma_led_view_known(*c, role@, y, z);
                    lemma_view_universe(*c, role@, z);
                    assert(step(y, z));
                    reach::law_step(seeds, step, y, z);
                }
            }
            sets::lemma_not_longer(after, all);
            assert forall|z: ((Seq<char>, Seq<char>), Operation)|
                first_view(*c, role@, z) implies #[trigger] after.contains(z) by {
                assert(before.contains(z));
            }
            assert forall|k: int, z: ((Seq<char>, Seq<char>), Operation)|
                0 <= k < i + 1 && #[trigger] view_leads_to(
                    *c,
                    #[trigger] after[k],
                    z,
                ) implies after.contains(z) by {
                if k < i {
                    assert(view_leads_to(*c, before[k], z));
                    assert(before.contains(z));
                }
            }
            assert forall|g: GrantView| #[trigger]
                privileges::grant_views(saved@).contains(g) <==> start.contains(g) || exists|
                    k: int,
                |
                    0 <= k < i + 1 && view_takes(*c, #[trigger] after[k], g) by {
                assert(held.contains(g) <==> start.contains(g) || exists|k: int|
                    0 <= k < i && view_takes(*c, #[trigger] before[k], g));
                if held.contains(g) && !start.contains(g) {
                    let k = choose|k: int| 0 <= k < i && view_takes(*c, #[trigger] before[k], g);
                    assert(after[k] == before[k]);
                }
                if exists|k: int| 0 <= k < i + 1 && view_takes(*c, #[trigger] after[k], g) {
                    let k = choose|k: int| 0 <= k < i + 1 && view_takes(*c, #[trigger] after[k], g);
                    if k < i {
                        assert(view_takes(*c, before[k], g));
                    }
                }
            }
        }
        i = i + 1;
    }
    proof {
        let views = relation_views(used@);
        assert forall|y: ((Seq<char>, Seq<char>), Operation)| #[trigger]
            is_used(*c, role@, y) implies exists|k: int|
            0 <= k < views.len() && #[trigger] views[k] == y by {
            assert forall|
                a: ((Seq<char>, Seq<char>), Operation),
                b: ((Seq<char>, Seq<char>), Operation),
            |
                views.contains(a) && #[trigger] step(a, b) implies views.contains(b) by {
                let k = choose|k: int| 0 <= k < views.len() && views[k] == a;
                assert(view_leads_to(*c, views[k], b));
            }
            assert forall|s: ((Seq<char>, Seq<char>), Operation)| #[trigger]
                seeds(s) implies views.contains(s) by {
                assert(first_view(*c, role@, s));
            }
            reach::law_closed(seeds, step, views, y);
        }
        assert forall|k: int| 0 <= k < views.len() implies is_used(
            *c,
            role@,
            #[trigger] views[k],
        ) by {
            assert(views.contains(views[k]));
        }
        assert forall|g: GrantView| #[trigger]
            privileges::grant_views(saved@).contains(g) <==> start.contains(g) || exists|
                y: ((Seq<char>, Seq<char>), Operation),
            | #[trigger]
                is_used(*c, role@, y) && view_takes(*c, y, g) by {
            if exists|y: ((Seq<char>, Seq<char>), Operation)| #[trigger]
                is_used(*c, role@, y) && view_takes(*c, y, g) {
                let y = choose|y: ((Seq<char>, Seq<char>), Operation)| #[trigger]
                    is_used(*c, role@, y) && view_takes(*c, y, g);
                let k = choose|k: int| 0 <= k < views.len() && #[trigger] views[k] == y;
                assert(view_takes(*c, views[k], g));
            }
        }
        assert forall|y: ((Seq<char>, Seq<char>), Operation)| #[trigger]
            is_used(*c, role@, y) implies view_searchable(*c, y) by {
            let k = choose|k: int| 0 <= k < views.len() && #[trigger] views[k] == y;
            assert(view_searchable(*c, views[k]));
        }
    }
    Ok(())
}

/// The role is one of the database's.
pub open spec fn is_known(c: CarrierCatalog, role: Seq<char>) -> bool {
    roles::is_role(
        roles::roles_sorted(roles::known_roles(roles::role_views(c.roles.roles@))),
        role,
    )
}

/// The grants that a runtime role needs so that whatever it may execute, set off
/// or use can use what it depends on in turn.
pub fn apply_carrier_function_dependency_grants(c: &CarrierCatalog, runtime_role: &str) -> (r: Result<
    Vec<PrivilegeGrant>,
    SqlError,
>)
    ensures
        match r {
            Ok(saved) => {
                &&& is_known(*c, roles::normal_role(runtime_role@))
                &&& all_searchable(*c, roles::normal_role(runtime_role@))
                &&& forall|g: GrantView| #[trigger]
                    privileges::grant_views(saved@).contains(g) <==> is_needed(
                        *c,
                        roles::normal_role(runtime_role@),
                        g,
                    )
            },
            Err(e) => if is_known(*c, roles::normal_role(runtime_role@)) {
                &&& is_pattern_error(e)
                &&& search_fails(*c, roles::normal_role(runtime_role@), failure(e))
                &&& !all_searchable(*c, roles::normal_role(runtime_role@))
            } else {
                e@ == error::undefined_role_error(roles::normal_role(runtime_role@))
            },
        },
{
    let name = roles::normalize_role_name(runtime_role);
    let role = name.as_str();
    let known = roles::list_roles(&c.roles.roles);
    match roles::ensure_known_role(&known, role) {
        Err(e) => {
            return Err(e);
        },
        Ok(_) => {},
    }
    let mut saved: Vec<PrivilegeGrant> = Vec::new();
    let mut work: Vec<FunctionItem> = Vec::new();
    assert(function_views(work@) =~= Seq::<(Seq<char>, Seq<char>)>::empty());
    let ghost none = function_views(work@);
    enqueue_executable(c, role, &mut work);
    let ghost executable = function_views(work@);
    enqueue_triggered(c, role, &mut work);
    let ghost triggered = function_views(work@);
    match save_policy_grants(c, role, &mut saved, &mut work) {
        Err(e) => {
            proof {
                let (t, p, i) = choose|t: int, p: int, i: int|
                    0 <= t < c.tables@.len() && policies_apply(*c, role@, c.tables@[t])
                        && #[trigger] policy_fails(*c, t, p, i, failure(e));
                assert(!policy_searchable(*c, t, p, i));
            }
            return Err(e);
        },
        Ok(_) => {},
    }
    let ghost by_policy = privileges::grant_views(saved@);
    proof {
        assert forall|x: (Seq<char>, Seq<char>)| #[trigger]
            function_views(work@).contains(x) <==> first_function(*c, role@, x) by {
            assert(triggered.contains(x) <==> executable.contains(x) || (x.1 == roles::normal_role(
                role@,
            ) && exists|i: int| #[trigger]
                sets_off(*c, role@, i) && x.0 == c.triggers@[i].function@));
            assert(executable.contains(x) <==> none.contains(x) || (x.1 == roles::normal_role(role@)
                && exists|i: int| #[trigger]
                executes(*c, role@, i) && x.0 == c.routines@[i].bare_name@));
        }
    }
    let mut used = enqueue_usable(c, role);
    let ghost usable = relation_views(used@);
    match run_functions(c, role, &mut saved, work, &mut used) {
        Err(e) => {
            return Err(e);
        },
        Ok(_) => {},
    }
    let ghost by_function = privileges::grant_views(saved@);
    proof {
        assert forall|y: ((Seq<char>, Seq<char>), Operation)| #[trigger]
            relation_views(used@).contains(y) <==> first_view(*c, role@, y) by {
            assert(usable.contains(y) <==> (y.0).1 == roles::normal_role(role@) && exists|v: int|
                0 <= v < c.views@.len() && may(*c, role@, (#[trigger] c.views@[v]).relation, y.1)
                    && (y.0).0 == unqualified(c.views@[v].name@));
        }
    }
    match use_views(c, role, &mut saved, used) {
        Err(e) => {
            return Err(e);
        },
        Ok(_) => {},
    }
    proof {
        assert forall|g: GrantView| #[trigger]
            privileges::grant_views(saved@).contains(g) <==> is_needed(*c, role@, g) by {
            assert(by_function.contains(g) <==> by_policy.contains(g) || exists|
                x: (Seq<char>, Seq<char>),
            | #[trigger]
                is_run(*c, role@, x) && function_takes(*c, x, g));
            assert(by_policy.contains(g) <==> exists|t: int, p: int, i: int| #[trigger]
                policy_calls(*c, role@, t, p, i) && g == policy_grant(*c, role@, i));
        }
    }
    Ok(saved)
}

} // verus!
