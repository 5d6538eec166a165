//! The columns that rows have.
use vstd::prelude::*;
use crate::authority;
use crate::carrier;
use crate::catalog_columns;
use crate::dotted;
use crate::error;
use crate::error::SqlError;
use crate::sets;
use crate::text;

verus! {

pub open spec fn alias_count_error(
    table: Seq<char>,
    alias: Seq<char>,
    available: nat,
    specified: nat,
) -> error::ErrorView {
    error::invalid_sql_error(
        "table alias \""@ + alias + "\" has "@ + text::decimal(available)
            + " columns available but "@ + text::decimal(specified) + " columns specified for \""@
            + table + "\""@,
    )
}

/// The columns of a relation under an alias: those that the alias lists, which must
/// be as many as there are, or those that there are where it lists none.
pub fn table_alias_columns(
    table: &str,
    alias: &str,
    aliases: &Vec<String>,
    result_columns: &Vec<String>,
) -> (r: Result<Vec<String>, SqlError>)
    ensures
        match r {
            Ok(columns) => if aliases@.len() == 0 {
                text::views(columns@) == text::views(result_columns@)
            } else {
                aliases@.len() == result_columns@.len() && text::views(columns@) == text::views(
                    aliases@,
                )
            },
            Err(e) => aliases@.len() > 0 && aliases@.len() != result_columns@.len() && e@
                == alias_count_error(
                table@,
                alias@,
                result_columns@.len(),
                aliases@.len(),
            ),
        },
{
    if aliases.len() == 0 {
        return Ok(text::copy_names(result_columns));
    }
    if aliases.len() != result_columns.len() {
        let available = text::decimal_text(result_columns.len() as u64);
        let specified = text::decimal_text(aliases.len() as u64);
        let start = text::concat3("table alias \"", alias, "\" has ");
        let middle = text::concat3(start.as_str(), available.as_str(), " columns available but ");
        let end = text::concat3(middle.as_str(), specified.as_str(), " columns specified for \"");
        return Err(SqlError::invalid_sql(text::concat3(end.as_str(), table, "\"")));
    }
    Ok(text::copy_names(aliases))
}

/// The columns of a common table expression.
pub fn cte_columns(name: &str, aliases: &Vec<String>, result_columns: &Vec<String>) -> (r: Result<
    Vec<String>,
    SqlError,
>)
    ensures
        match r {
            Ok(columns) => if aliases@.len() == 0 {
                text::views(columns@) == text::views(result_columns@)
            } else {
                aliases@.len() == result_columns@.len() && text::views(columns@) == text::views(
                    aliases@,
                )
            },
            Err(e) => aliases@.len() > 0 && aliases@.len() != result_columns@.len() && e@
                == alias_count_error(name@, name@, result_columns@.len(), aliases@.len()),
        },
{
    table_alias_columns(name, name, aliases, result_columns)
}

/// Columns followed by those of another list that are not there yet.
pub open spec fn merged(left: Seq<Seq<char>>, right: Seq<Seq<char>>) -> Seq<Seq<char>>
    decreases right.len(),
{
    if right.len() == 0 {
        left
    } else {
        sets::added(merged(left, right.drop_last()), right.last())
    }
}

/// Columns followed by those of another list that are not there yet.
pub fn merge_row_set_columns(left: Vec<String>, right: &Vec<String>) -> (r: Vec<String>)
    ensures
        text::views(r@) == merged(text::views(left@), text::views(right@)),
{
    let ghost start = text::views(left@);
    let ghost all = text::views(right@);
    let mut out = left;
    let mut i: usize = 0;
    while i < right.len()
        invariant
            i <= right.len(),
            all == text::views(right@),
            text::views(out@) == merged(start, all.take(i as int)),
        decreases right.len() - i,
    {
        assert(all.take(i + 1).drop_last() =~= all.take(i as int));
        assert(all.take(i + 1).last() == right@[i as int]@);
        sets::add_text(&mut out, right[i].clone());
        i = i + 1;
    }
    assert(all.take(all.len() as int) =~= all);
    out
}

/// Where a column of a joined row comes from: a place in the left row, or one in
/// the right row.
#[derive(Clone, Copy, Debug, PartialEq, Eq, Structural)]
pub enum JoinedSlotSource {
    Left(usize),
    Right(usize),
}

/// The sources of the right row: the places of the columns that the left has not.
pub open spec fn right_sources(left: Seq<Seq<char>>, right: Seq<Seq<char>>) -> Seq<JoinedSlotSource>
    decreases right.len(),
{
    if right.len() == 0 {
        Seq::empty()
    } else {
        let before = right_sources(left, right.drop_last());
        if left.contains(right.last()) {
            before
        } else {
            before.push(JoinedSlotSource::Right((right.len() - 1) as usize))
        }
    }
}

/// The sources of a joined row: all places of the left, then those of the right
/// whose columns the left has not.
pub open spec fn slot_sources(left: Seq<Seq<char>>, right: Seq<Seq<char>>) -> Seq<JoinedSlotSource> {
    Seq::new(left.len(), |i: int| JoinedSlotSource::Left(i as usize)) + right_sources(left, right)
}

/// The sources of a joined row.
pub fn merged_slot_sources(left_columns: &Vec<String>, right_columns: &Vec<String>) -> (r: Vec<
    JoinedSlotSource,
>)
    ensures
        r@ == slot_sources(text::views(left_columns@), text::views(right_columns@)),
{
    let ghost left = text::views(left_columns@);
    let ghost right = text::views(right_columns@);
    let ghost own = Seq::new(left.len(), |i: int| JoinedSlotSource::Left(i as usize));
    let mut out: Vec<JoinedSlotSource> = Vec::new();
    let mut i: usize = 0;
    while i < left_columns.len()
        invariant
            i <= left_columns.len(),
            out@.len() == i,
            forall|k: int| 0 <= k < i ==> #[trigger] out@[k] == JoinedSlotSource::Left(k as usize),
        decreases left_columns.len() - i,
    {
        out.push(JoinedSlotSource::Left(i));
        i = i + 1;
    }
    assert(out@ =~= own);
    let mut j: usize = 0;
    assert(right.take(0) =~= Seq::empty());
    assert(own + Seq::<JoinedSlotSource>::empty() =~= own);
    while j < right_columns.len()
        invariant
            j <= right_columns.len(),
            left == text::views(left_columns@),
            right == text::views(right_columns@),
            out@ == own + right_sources(left, right.take(j as int)),
        decreases right_columns.len() - j,
    {
        assert(right.take(j + 1).drop_last() =~= right.take(j as int));
        assert(right.take(j + 1).last() == right_columns@[j as int]@);
        if !sets::holds_text(left_columns, right_columns[j].as_str()) {
            let ghost prior = right_sources(left, right.take(j as int));
            out.push(JoinedSlotSource::Right(j));
            assert(out@ =~= own + prior.push(JoinedSlotSource::Right(j)));
        }
        j = j + 1;
    }
    assert(right.take(right.len() as int) =~= right);
    out
}

/// The column at a source.
pub open spec fn source_column(
    left: Seq<Seq<char>>,
    right: Seq<Seq<char>>,
    source: JoinedSlotSource,
) -> Seq<char> {
    match source {
        JoinedSlotSource::Left(i) => left[i as int],
        JoinedSlotSource::Right(i) => right[i as int],
    }
}

proof fn lemma_right_sources(left: Seq<Seq<char>>, right: Seq<Seq<char>>, whole: Seq<Seq<char>>)
    requires
        left.len() <= usize::MAX,
        whole.len() <= usize::MAX,
        right.len() <= whole.len(),
        right == whole.take(right.len() as int),
        right.no_duplicates(),
    ensures
        merged(left, right) == left + right_sources(left, right).map_values(
            |s: JoinedSlotSource| source_column(left, whole, s),
        ),
        forall|c: Seq<char>| #[trigger]
            merged(left, right).contains(c) <==> left.contains(c) || right.contains(c),
    decreases right.len(),
{
    let columns = |s: JoinedSlotSource| source_column(left, whole, s);
    if right.len() == 0 {
        assert(merged(left, right) =~= left + right_sources(left, right).map_values(columns));
    } else {
        let rest = right.drop_last();
        let last = right.last();
        assert(rest =~= whole.take(rest.len() as int));
        lemma_right_sources(left, rest, whole);
        assert(!rest.contains(last)) by {
            if rest.contains(last) {
                let k = choose|k: int| 0 <= k < rest.len() && rest[k] == last;
                assert(right[k] == right[right.len() - 1]);
            }
        }
        assert forall|c: Seq<char>| #[trigger] merged(left, right).contains(c) <==> left.contains(
            c,
        ) || right.contains(c) by {
            sets::law_added_contains(merged(left, rest), last, c);
            assert(merged(left, rest).contains(c) <==> left.contains(c) || rest.contains(c));
            if rest.contains(c) {
                let k = choose|k: int| 0 <= k < rest.len() && rest[k] == c;
                assert(right[k] == c);
            }
            if right.contains(c) && c != last {
                let k = choose|k: int| 0 <= k < right.len() && right[k] == c;
                assert(rest[k] == c);
            }
            if c == last {
                assert(right[right.len() - 1] == c);
            }
        }
        assert(merged(left, rest).contains(last) <==> left.contains(last));
        if left.contains(last) {
            assert(merged(left, right) == merged(left, rest));
        } else {
            assert(whole[right.len() - 1] == last);
            assert(merged(left, right) =~= left + right_sources(left, right).map_values(columns));
        }
    }
}

/// The sources of a joined row are those of its merged columns, one for each, where
/// the right has no column twice.
pub proof fn law_sources_give_merged_columns(left: Seq<Seq<char>>, right: Seq<Seq<char>>)
    requires
        left.len() <= usize::MAX,
        right.len() <= usize::MAX,
        right.no_duplicates(),
    ensures
        merged(left, right) == slot_sources(left, right).map_values(
            |s: JoinedSlotSource| source_column(left, right, s),
        ),
{
    assert(right =~= right.take(right.len() as int));
    lemma_right_sources(left, right, right);
    assert(merged(left, right) =~= slot_sources(left, right).map_values(
        |s: JoinedSlotSource| source_column(left, right, s),
    ));
}

/// Columns with that of the table's identifier put first, where the table has one
/// and it is not there yet.
pub open spec fn with_tableoid(columns: Seq<Seq<char>>, has_oid: bool) -> Seq<Seq<char>> {
    if has_oid && !authority::has_ignoring_case(columns, "tableoid"@) {
        seq!["tableoid"@] + columns
    } else {
        columns
    }
}

/// Puts the column of the table's identifier first, where the table has one and it
/// is not there yet.
pub fn add_virtual_tableoid_column(has_oid: bool, columns: &mut Vec<String>)
    ensures
        text::views(final(columns)@) == with_tableoid(text::views(old(columns)@), has_oid),
{
    if has_oid && !authority::contains_ignoring_case(columns, "tableoid") {
        let ghost before = columns@;
        columns.insert(0, "tableoid".to_owned());
        assert(text::views(columns@) =~= seq!["tableoid"@] + text::views(before));
    }
}

/// Adding the column of the table's identifier a second time changes nothing.
pub proof fn law_tableoid_once(columns: Seq<Seq<char>>, has_oid: bool)
    ensures
        with_tableoid(with_tableoid(columns, has_oid), has_oid) == with_tableoid(columns, has_oid),
{
    let once = with_tableoid(columns, has_oid);
    if has_oid && !authority::has_ignoring_case(columns, "tableoid"@) {
        assert(text::same_ignoring_case(once[0], "tableoid"@));
    }
}

/// Columns under an alias.
pub open spec fn aliased(alias: Seq<char>, columns: Seq<Seq<char>>) -> Seq<Seq<char>> {
    columns.map_values(|column: Seq<char>| alias + "."@ + column)
}

/// Columns under an alias.
pub fn aliased_row_output_columns(alias: &str, columns: &Vec<String>) -> (r: Vec<String>)
    ensures
        text::views(r@) == aliased(alias@, text::views(columns@)),
{
    let mut out: Vec<String> = Vec::new();
    let mut i: usize = 0;
    while i < columns.len()
        invariant
            i <= columns.len(),
            out@.len() == i,
            forall|k: int| 0 <= k < i ==> (#[trigger] out@[k])@ == alias@ + "."@ + columns@[k]@,
        decreases columns.len() - i,
    {
        out.push(text::concat3(alias, ".", columns[i].as_str()));
        i = i + 1;
    }
    assert(text::views(out@) =~= aliased(alias@, text::views(columns@)));
    out
}

/// The name of a column without what qualifies it.
pub open spec fn output_column(column: Seq<char>) -> Seq<char> {
    match dotted::split_last_dot(column) {
        Some((_, name)) => name,
        None => column,
    }
}

/// The name of a column without what qualifies it.
pub fn row_wildcard_output_column(column: &str) -> (r: String)
    ensures
        r@ == output_column(column@),
{
    match dotted::rsplit_once_dot(column) {
        Some((_, name)) => name,
        None => column.to_owned(),
    }
}

/// A column under an alias has its own name as output, where that has no dot.
pub proof fn law_alias_comes_off(alias: Seq<char>, column: Seq<char>)
    requires
        !column.contains('.'),
    ensures
        output_column(alias + "."@ + column) == column,
{
    reveal_strlit(".");
    let name = alias + "."@ + column;
    dotted::law_split(name);
    assert(name[alias.len() as int] == '.');
    assert(name.contains('.'));
    let (a, b) = dotted::split_last_dot(name)->0;
    assert(name =~= a + seq!['.'] + b);
    if a.len() < alias.len() {
        let k = alias.len() - a.len() - 1;
        assert(name[alias.len() as int] == b[k]);
        assert(b.contains('.'));
    }
    if a.len() > alias.len() {
        let k = a.len() - alias.len() - 1;
        assert(name[a.len() as int] == '.');
        assert(name[a.len() as int] == column[k]);
        assert(column.contains('.'));
    }
    assert(b =~= column) by {
        assert forall|k: int| 0 <= k < column.len() implies b[k] == column[k] by {
            assert(name[alias.len() + 1 + k] == column[k]);
        }
    }
}

/// What a qualified wildcard is qualified by: a name, as an object and as a
/// relation, or an expression as it is written.
#[derive(Debug)]
pub enum WildcardQualifier {
    ObjectName { object: String, relation: String },
    Expr(String),
}

/// A column, and the name that it has in the output.
#[derive(Debug)]
pub struct WildcardColumn {
    pub column: String,
    pub output: String,
}

pub open spec fn column_views(v: Seq<WildcardColumn>) -> Seq<(Seq<char>, Seq<char>)> {
    v.map_values(|c: WildcardColumn| (c.column@, c.output@))
}

/// The columns that the system has on every table.
pub open spec fn is_system_column(name: Seq<char>) -> bool {
    seq!["tableoid"@, "xmin"@, "xmax"@, "cmin"@, "cmax"@, "ctid"@].contains(text::lower(name))
}

fn system_column(name: &str) -> (r: bool)
    ensures
        r == is_system_column(name@),
{
    let lowered = text::to_lower(name);
    let names = ["tableoid", "xmin", "xmax", "cmin", "cmax", "ctid"];
    assert(text::slice_views(names@) =~= seq![
        "tableoid"@,
        "xmin"@,
        "xmax"@,
        "cmin"@,
        "cmax"@,
        "ctid"@,
    ]);
    text::one_of(lowered.as_str(), &names)
}

/// Whether a table is the one that the qualifier names: as an object, as a relation,
/// or by its name alone.
pub open spec fn qualifies(object: Seq<char>, relation: Seq<char>, prefix: Seq<char>) -> bool {
    ||| text::same_ignoring_case(prefix, object)
    ||| text::same_ignoring_case(prefix, relation)
    ||| text::same_ignoring_case(prefix, carrier::unqualified(object))
}

/// The columns of the table that a qualifier names, without those of the system.
pub open spec fn qualified(
    object: Seq<char>,
    relation: Seq<char>,
    columns: Seq<Seq<char>>,
) -> Seq<(Seq<char>, Seq<char>)>
    decreases columns.len(),
{
    if columns.len() == 0 {
        Seq::empty()
    } else {
        let before = qualified(object, relation, columns.drop_last());
        match dotted::split_first_dot(columns.last()) {
            Some((prefix, output)) => if !is_system_column(output) && qualifies(
                object,
                relation,
                prefix,
            ) {
                before.push((columns.last(), output))
            } else {
                before
            },
            None => before,
        }
    }
}

/// Columns without those of the system.
pub open spec fn plain_columns(columns: Seq<Seq<char>>) -> Seq<(Seq<char>, Seq<char>)>
    decreases columns.len(),
{
    if columns.len() == 0 {
        Seq::empty()
    } else {
        let before = plain_columns(columns.drop_last());
        if is_system_column(columns.last()) {
            before
        } else {
            before.push((columns.last(), columns.last()))
        }
    }
}

pub open spec fn all_undotted(columns: Seq<Seq<char>>) -> bool {
    forall|i: int| 0 <= i < columns.len() ==> !(#[trigger] columns[i]).contains('.')
}

/// The columns that a qualified wildcard stands for: those of the table it names, or
/// all where none is qualified.
pub open spec fn wildcard(
    object: Seq<char>,
    relation: Seq<char>,
    columns: Seq<Seq<char>>,
) -> Result<Seq<(Seq<char>, Seq<char>)>, error::ErrorView> {
    let found = qualified(object, relation, columns);
    if found.len() > 0 {
        Ok(found)
    } else if all_undotted(columns) {
        Ok(plain_columns(columns))
    } else {
        Err(
            error::invalid_sql_error(
                "missing FROM-clause entry for table \""@ + object + "\""@,
            ),
        )
    }
}

fn qualified_columns(object: &str, relation: &str, columns: &Vec<String>) -> (r: Vec<WildcardColumn>)
    ensures
        column_views(r@) == qualified(object@, relation@, text::views(columns@)),
{
    let bare = carrier::unqualified_relation(object);
    let ghost all = text::views(columns@);
    let mut out: Vec<WildcardColumn> = Vec::new();
    assert(column_views(out@) =~= Seq::empty());
    let mut i: usize = 0;
    while i < columns.len()
        invariant
            i <= columns.len(),
            all == text::views(columns@),
            bare@ == carrier::unqualified(object@),
            column_views(out@) == qualified(object@, relation@, all.take(i as int)),
        decreases columns.len() - i,
    {
        assert(all.take(i + 1).drop_last() =~= all.take(i as int));
        assert(all.take(i + 1).last() == columns@[i as int]@);
        match dotted::split_once_dot(columns[i].as_str()) {
            Some((prefix, output)) => {
                if !system_column(output.as_str()) && (text::eq_ignore_case(
                    prefix.as_str(),
                    object,
                ) || text::eq_ignore_case(prefix.as_str(), relation) || text::eq_ignore_case(
                    prefix.as_str(),
                    bare.as_str(),
                )) {
                    let ghost prior = out@;
                    let ghost view = output@;
                    out.push(WildcardColumn { column: columns[i].clone(), output });
                    assert(column_views(out@) =~= column_views(prior).push(
                        (columns@[i as int]@, view),
                    ));
                }
            },
            None => {},
        }
        i = i + 1;
    }
    assert(all.take(all.len() as int) =~= all);
    out
}

fn undotted_columns(columns: &Vec<String>) -> (r: Option<Vec<WildcardColumn>>)
    ensures
        match r {
            Some(list) => all_undotted(text::views(columns@)) && column_views(list@)
                == plain_columns(text::views(columns@)),
            None => !all_undotted(text::views(columns@)),
        },
{
    let ghost all = text::views(columns@);
    let mut out: Vec<WildcardColumn> = Vec::new();
    assert(column_views(out@) =~= Seq::empty());
    let mut i: usize = 0;
    while i < columns.len()
        invariant
            i <= columns.len(),
            all == text::views(columns@),
            forall|k: int| 0 <= k < i ==> !(#[trigger] all[k]).contains('.'),
            column_views(out@) == plain_columns(all.take(i as int)),
        decreases columns.len() - i,
    {
        assert(all.take(i + 1).drop_last() =~= all.take(i as int));
        assert(all.take(i + 1).last() == columns@[i as int]@);
        assert(all[i as int] == columns@[i as int]@);
        proof {
            dotted::law_split(all[i as int]);
        }
        if dotted::split_once_dot(columns[i].as_str()).is_some() {
            return None;
        }
        if !system_column(columns[i].as_str()) {
            let ghost prior = out@;
            out.push(WildcardColumn { column: columns[i].clone(), output: columns[i].clone() });
            assert(column_views(out@) =~= column_views(prior).push(
                (columns@[i as int]@, columns@[i as int]@),
            ));
        }
        i = i + 1;
    }
    assert(all.take(all.len() as int) =~= all);
    Some(out)
}

/// The columns that a qualified wildcard stands for.
pub fn qualified_wildcard_columns(qualifier: &WildcardQualifier, wildcard_columns: &Vec<String>) -> (r:
    Result<Vec<WildcardColumn>, SqlError>)
    ensures
        match *qualifier {
            WildcardQualifier::Expr(written) => r is Err && r->Err_0@ == error::unsupported_error(
                "unsupported row projection "@ + written@,
            ),
            WildcardQualifier::ObjectName { object, relation } => match (
                r,
                wildcard(object@, relation@, text::views(wildcard_columns@)),
            ) {
                (Ok(list), Ok(view)) => column_views(list@) == view,
                (Err(e), Err(view)) => e@ == view,
                _ => false,
            },
        },
{
    match qualifier {
        WildcardQualifier::Expr(written) => Err(
            SqlError::unsupported(text::concat("unsupported row projection ", written.as_str())),
        ),
        WildcardQualifier::ObjectName { object, relation } => {
            let found = qualified_columns(object.as_str(), relation.as_str(), wildcard_columns);
            assert(column_views(found@).len() == found@.len());
            if found.len() > 0 {
                return Ok(found);
            }
            match undotted_columns(wildcard_columns) {
                Some(list) => Ok(list),
                None => Err(
                    SqlError::invalid_sql(
                        text::concat3(
                            "missing FROM-clause entry for table \"",
                            object.as_str(),
                            "\"",
                        ),
                    ),
                ),
            }
        },
    }
}

proof fn lemma_qualified(
    object: Seq<char>,
    relation: Seq<char>,
    columns: Seq<Seq<char>>,
    column: Seq<char>,
    output: Seq<char>,
)
    ensures
        qualified(object, relation, columns).contains((column, output)) ==> columns.contains(column)
            && !is_system_column(output),
    decreases columns.len(),
{
    if columns.len() > 0 {
        let rest = columns.drop_last();
        lemma_qualified(object, relation, rest, column, output);
        let now = qualified(object, relation, columns);
        let before = qualified(object, relation, rest);
        if now.contains((column, output)) {
            let k = choose|k: int| 0 <= k < now.len() && now[k] == (column, output);
            if k < before.len() {
                assert(before[k] == (column, output));
                let j = choose|j: int| 0 <= j < rest.len() && rest[j] == column;
                assert(columns[j] == column);
            } else {
                assert(columns[columns.len() - 1] == column);
            }
        }
    }
}

/// A qualified wildcard stands for columns that are there, and never for one that the
/// system has on every table.
pub proof fn law_wildcard(
    object: Seq<char>,
    relation: Seq<char>,
    columns: Seq<Seq<char>>,
    i: int,
)
    requires
        wildcard(object, relation, columns) is Ok,
        0 <= i < wildcard(object, relation, columns)->Ok_0.len(),
    ensures
        columns.contains(wildcard(object, relation, columns)->Ok_0[i].0),
        !is_system_column(wildcard(object, relation, columns)->Ok_0[i].1),
{
    let found = qualified(object, relation, columns);
    let (column, output) = wildcard(object, relation, columns)->Ok_0[i];
    if found.len() > 0 {
        assert(found.contains((column, output)));
        lemma_qualified(object, relation, columns, column, output);
    } else {
        lemma_plain(columns, i);
    }
}

proof fn lemma_plain(columns: Seq<Seq<char>>, i: int)
    requires
        0 <= i < plain_columns(columns).len(),
    ensures
        columns.contains(plain_columns(columns)[i].0),
        !is_system_column(plain_columns(columns)[i].1),
    decreases columns.len(),
{
    if columns.len() > 0 {
        let rest = columns.drop_last();
        let before = plain_columns(rest);
        if i < before.len() {
            lemma_plain(rest, i);
            let j = choose|j: int| 0 <= j < rest.len() && rest[j] == before[i].0;
            assert(columns[j] == before[i].0);
        } else {
            assert(columns[columns.len() - 1] == plain_columns(columns)[i].0);
        }
    }
}

/// The columns of the catalog tables that are read from their rows, in the order of
/// their names.
#[derive(Debug)]
pub struct CatalogRowColumns {
    pub pg_class: Vec<String>,
    pub pg_index: Vec<String>,
    pub pg_constraint: Vec<String>,
    pub pg_type: Vec<String>,
}

pub open spec fn row_columns(table: Seq<char>, rows: CatalogRowColumns) -> Option<Seq<Seq<char>>> {
    if table == "pg_class"@ {
        Some(text::views(rows.pg_class@))
    } else if table == "pg_index"@ {
        Some(text::views(rows.pg_index@))
    } else if table == "pg_constraint"@ {
        Some(text::views(rows.pg_constraint@))
    } else if table == "pg_namespace"@ {
        Some(seq!["nspacl"@, "nspname"@, "nspowner"@, "oid"@])
    } else if table == "pg_type"@ {
        Some(text::views(rows.pg_type@))
    } else if table == "pg_enum"@ {
        Some(seq!["enumlabel"@, "enumsortorder"@, "enumtypid"@, "oid"@])
    } else {
        None
    }
}

/// The columns that a virtual table has in a join though it has no rows: those that
/// are listed for it, or those of its rows, in the order of their names.
pub fn virtual_table_columns_for_empty_join(table: &str, rows: &CatalogRowColumns) -> (r: Option<
    Vec<String>,
>)
    ensures
        catalog_columns::list_view(r) == (match catalog_columns::columns_of(table@) {
            Some(columns) => Some(columns),
            None => row_columns(catalog_columns::without_catalog(table@), *rows),
        }),
{
    let found = catalog_columns::virtual_table_columns(table);
    if found.is_some() {
        return found;
    }
    let name = catalog_columns::strip_catalog(table);
    let bare = name.as_str();
    if text::text_eq(bare, "pg_class") {
        Some(text::copy_names(&rows.pg_class))
    } else if text::text_eq(bare, "pg_index") {
        Some(text::copy_names(&rows.pg_index))
    } else if text::text_eq(bare, "pg_constraint") {
        Some(text::copy_names(&rows.pg_constraint))
    } else if text::text_eq(bare, "pg_namespace") {
        let columns = ["nspacl", "nspname", "nspowner", "oid"];
        assert(text::slice_views(columns@) =~= seq!["nspacl"@, "nspname"@, "nspowner"@, "oid"@]);
        Some(text::names(&columns))
    } else if text::text_eq(bare, "pg_type") {
        Some(text::copy_names(&rows.pg_type))
    } else if text::text_eq(bare, "pg_enum") {
        let columns = ["enumlabel", "enumsortorder", "enumtypid", "oid"];
        assert(text::slice_views(columns@) =~= seq![
            "enumlabel"@,
            "enumsortorder"@,
            "enumtypid"@,
            "oid"@,
        ]);
        Some(text::names(&columns))
    } else {
        None
    }
}

} // verus!
