//! Rows as maps from names to values, and how a name is looked up in them.
use vstd::prelude::*;
use crate::error;
use crate::error::SqlError;
use crate::named;
use crate::named::Named;
use crate::order;
use crate::text;
use crate::values;
use crate::values::{SqlValue, ValueView};

verus! {

/// A row: values under names.
#[derive(Debug)]
pub struct SqlRow {
    named: Named<SqlValue>,
}

impl View for SqlRow {
    type V = Map<Seq<char>, ValueView>;

    closed spec fn view(&self) -> Map<Seq<char>, ValueView> {
        values::map_views(self.named@)
    }
}

/// Whether a name of a row is one but for the case of its letters.
pub open spec fn loose_match(
    row: Map<Seq<char>, ValueView>,
    name: Seq<char>,
    key: Seq<char>,
) -> bool {
    row.dom().contains(key) && text::same_ignoring_case(key, name)
}

/// Whether a name of a row is the first one, in the order of names, that is the given
/// one but for the case of its letters.
pub open spec fn first_match(
    row: Map<Seq<char>, ValueView>,
    name: Seq<char>,
    key: Seq<char>,
) -> bool {
    loose_match(row, name, key) && forall|other: Seq<char>| #[trigger]
        loose_match(row, name, other) && other != key ==> order::precedes(key, other)
}

/// The name under which a row has a value: the exact one, or else the first that is
/// the written one but for the case of its letters.
pub open spec fn found_key(
    row: Map<Seq<char>, ValueView>,
    exact: Seq<char>,
    written: Seq<char>,
) -> Option<Seq<char>> {
    if row.dom().contains(exact) {
        Some(exact)
    } else if exists|key: Seq<char>| #[trigger] loose_match(row, written, key) {
        Some(choose|key: Seq<char>| #[trigger] first_match(row, written, key))
    } else {
        None
    }
}

/// The value that is found under a name.
pub open spec fn found(
    row: Map<Seq<char>, ValueView>,
    exact: Seq<char>,
    written: Seq<char>,
) -> Option<ValueView> {
    match found_key(row, exact, written) {
        Some(key) => Some(row[key]),
        None => None,
    }
}

proof fn lemma_first_match(
    row: Map<Seq<char>, ValueView>,
    name: Seq<char>,
    a: Seq<char>,
    b: Seq<char>,
)
    requires
        first_match(row, name, a),
        first_match(row, name, b),
    ensures
        a == b,
{
    order::law_total(a, b);
    assert(loose_match(row, name, a));
    assert(loose_match(row, name, b));
}

pub open spec fn option_view(v: Option<&SqlValue>) -> Option<ValueView> {
    match v {
        Some(v) => Some(v@),
        None => None,
    }
}

pub open spec fn owned_view(v: Option<SqlValue>) -> Option<ValueView> {
    match v {
        Some(v) => Some(v@),
        None => None,
    }
}

impl SqlRow {
    pub fn new() -> (row: SqlRow)
        ensures
            row@ == Map::<Seq<char>, ValueView>::empty(),
    {
        let row = SqlRow { named: Named::new() };
        assert(row@ =~= Map::empty());
        row
    }

    pub fn get(&self, name: &str) -> (r: Option<&SqlValue>)
        ensures
            option_view(r) == named::value(self@, name@),
    {
        self.named.get(name)
    }

    pub fn insert(&mut self, name: String, value: SqlValue)
        ensures
            final(self)@ == old(self)@.insert(name@, value@),
    {
        let ghost before = self.named@;
        let ghost n = name@;
        let ghost v = value@;
        self.named.insert(name, value);
        assert(self@ =~= values::map_views(before).insert(n, v));
    }

    pub fn names(&self) -> (r: Vec<String>)
        ensures
            forall|name: Seq<char>| #[trigger]
                text::views(r@).contains(name) <==> self@.dom().contains(name),
    {
        self.named.names()
    }

    /// The value under a name: the exact one, or else the first, in the order of
    /// names, that is the written one but for the case of its letters.
    pub fn look_up(&self, exact: &str, written: &str) -> (r: Option<&SqlValue>)
        ensures
            option_view(r) == found(self@, exact@, written@),
    {
        let direct = self.get(exact);
        if direct.is_some() {
            return direct;
        }
        let names = self.names();
        let ghost all = text::views(names@);
        let mut best: Option<usize> = None;
        let mut i: usize = 0;
        while i < names.len()
            invariant
                i <= names.len(),
                all == text::views(names@),
                match best {
                    Some(b) => b < i && text::same_ignoring_case(all[b as int], written@)
                        && forall|k: int|
                        0 <= k < i && text::same_ignoring_case(#[trigger] all[k], written@) && all[k]
                            != all[b as int] ==> order::precedes(all[b as int], all[k]),
                    None => forall|k: int|
                        0 <= k < i ==> !text::same_ignoring_case(#[trigger] all[k], written@),
                },
            decreases names.len() - i,
        {
            assert(all[i as int] == names@[i as int]@);
            if text::eq_ignore_case(names[i].as_str(), written) {
                match best {
                    None => {
                        best = Some(i);
                    },
                    Some(b) => {
                        assert(all[b as int] == names@[b as int]@);
                        proof {
                            order::law_total(all[i as int], all[b as int]);
                        }
                        if order::before(names[i].as_str(), names[b].as_str()) {
                            proof {
                                assert forall|k: int|
                                    0 <= k < i + 1 && text::same_ignoring_case(
                                        #[trigger] all[k],
                                        written@,
                                    ) && all[k] != all[i as int] implies order::precedes(
                                    all[i as int],
                                    all[k],
                                ) by {
                                    if all[k] != all[b as int] {
                                        order::law_transitive(all[i as int], all[b as int], all[k]);
                                    }
                                }
                            }
                            best = Some(i);
                        }
                    },
                }
            }
            i = i + 1;
        }
        match best {
            None => {
                proof {
                    assert forall|key: Seq<char>| !#[trigger] loose_match(self@, written@, key) by {
                        if loose_match(self@, written@, key) {
                            assert(all.contains(key));
                            let k = choose|k: int| 0 <= k < all.len() && all[k] == key;
                            assert(text::same_ignoring_case(all[k], written@));
                        }
                    }
                }
                None
            },
            Some(b) => {
                assert(all[b as int] == names@[b as int]@);
                proof {
                    let key = all[b as int];
                    assert(all.contains(key));
                    assert(loose_match(self@, written@, key));
                    assert forall|other: Seq<char>| #[trigger]
                        loose_match(self@, written@, other) && other != key implies order::precedes(
                        key,
                        other,
                    ) by {
                        assert(all.contains(other));
                        let k = choose|k: int| 0 <= k < all.len() && all[k] == other;
                        assert(text::same_ignoring_case(all[k], written@));
                    }
                    assert(first_match(self@, written@, key));
                    let chosen = choose|k: Seq<char>| #[trigger] first_match(self@, written@, k);
                    lemma_first_match(self@, written@, key, chosen);
                }
                self.get(names[b].as_str())
            },
        }
    }

    /// The same row.
    pub fn copied(&self) -> (row: SqlRow)
        ensures
            row@ == self@,
    {
        let none = SqlRow::new();
        let row = merge_rows(self, &none);
        assert(row@ =~= self@);
        row
    }
}

/// The value under a name of a row.
pub fn row_value_for_key<'a>(row: &'a SqlRow, key: &str) -> (r: Option<&'a SqlValue>)
    ensures
        option_view(r) == found(row@, key@, key@),
{
    row.look_up(key, key)
}

/// A row with the values of another: of the names with a dot the other's count, of
/// those without one the row's own do where it has them.
pub open spec fn merged_rows(
    left: Map<Seq<char>, ValueView>,
    right: Map<Seq<char>, ValueView>,
) -> Map<Seq<char>, ValueView> {
    Map::new(
        |name: Seq<char>| left.dom().contains(name) || right.dom().contains(name),
        |name: Seq<char>|
            if right.dom().contains(name) && (name.contains('.') || !left.dom().contains(name)) {
                right[name]
            } else {
                left[name]
            },
    )
}

fn has_dot(name: &str) -> (r: bool)
    ensures
        r == name@.contains('.'),
{
    let chars = text::chars_of(name);
    let mut i: usize = 0;
    while i < chars.len()
        invariant
            i <= chars.len(),
            chars@ == name@,
            forall|k: int| 0 <= k < i ==> #[trigger] name@[k] != '.',
        decreases chars.len() - i,
    {
        if chars[i] == '.' {
            assert(name@[i as int] == '.');
            return true;
        }
        i = i + 1;
    }
    false
}

fn put_row(
    out: &mut SqlRow,
    row: &SqlRow,
    only_new: bool,
)
    ensures
        final(out)@ == (if only_new {
            merged_rows(old(out)@, row@)
        } else {
            old(out)@.union_prefer_right(row@)
        }),
{
    let names = row.names();
    let ghost all = text::views(names@);
    let ghost start = out@;
    let mut i: usize = 0;
    while i < names.len()
        invariant
            i <= names.len(),
            all == text::views(names@),
            start == old(out)@,
            forall|name: Seq<char>| #[trigger] all.contains(name) <==> row@.dom().contains(name),
            forall|name: Seq<char>| #[trigger]
                out@.dom().contains(name) <==> start.dom().contains(name) || all.take(
                    i as int,
                ).contains(name),
            forall|name: Seq<char>| #[trigger]
                out@.dom().contains(name) ==> out@[name] == (if all.take(i as int).contains(name)
                    && (!only_new || name.contains('.') || !start.dom().contains(name)) {
                    row@[name]
                } else {
                    start[name]
                }),
        decreases names.len() - i,
    {
        let ghost name = names@[i as int]@;
        assert(all[i as int] == name);
        assert(all.contains(name));
        let ghost before = out@;
        proof {
            let longer = all.take(i + 1);
            let shorter = all.take(i as int);
            assert forall|n: Seq<char>| #[trigger] longer.contains(n) <==> shorter.contains(n) || n
                == name by {
                if longer.contains(n) {
                    let k = choose|k: int| 0 <= k < longer.len() && longer[k] == n;
                    if k < i {
                        assert(shorter[k] == n);
                    }
                }
                if shorter.contains(n) {
                    let k = choose|k: int| 0 <= k < shorter.len() && shorter[k] == n;
                    assert(longer[k] == n);
                }
                if n == name {
                    assert(longer[i as int] == n);
                }
            }
        }
        match row.get(names[i].as_str()) {
            Some(v) => {
                if !only_new || has_dot(names[i].as_str()) || out.get(names[i].as_str()).is_none() {
                    out.insert(names[i].clone(), v.copied());
                }
            },
            None => {},
        }
        assert forall|n: Seq<char>| #[trigger] out@.dom().contains(n) implies out@[n] == (if all.take(
            i + 1,
        ).contains(n) && (!only_new || n.contains('.') || !start.dom().contains(n)) {
            row@[n]
        } else {
            start[n]
        }) by {
            assert(all.take(i + 1).contains(n) <==> all.take(i as int).contains(n) || n == name);
            assert(before.dom().contains(n) <==> start.dom().contains(n) || all.take(
                i as int,
            ).contains(n));
        }
        i = i + 1;
    }
    proof {
        assert(all.take(all.len() as int) =~= all);
        if only_new {
            assert(out@ =~= merged_rows(start, row@));
        } else {
            assert(out@ =~= start.union_prefer_right(row@));
        }
    }
}

/// A row with the values of another.
pub fn merge_rows(left: &SqlRow, right: &SqlRow) -> (row: SqlRow)
    ensures
        row@ == merged_rows(left@, right@),
{
    let mut row = SqlRow::new();
    put_row(&mut row, left, false);
    assert(row@ =~= left@);
    put_row(&mut row, right, true);
    row
}

/// Merging a row twice changes nothing, and what a row has under a name without a dot
/// stays.
pub proof fn law_merged_rows(
    left: Map<Seq<char>, ValueView>,
    right: Map<Seq<char>, ValueView>,
    name: Seq<char>,
)
    ensures
        merged_rows(merged_rows(left, right), right) == merged_rows(left, right),
        left.dom().contains(name) && !name.contains('.') ==> named::value(
            merged_rows(left, right),
            name,
        ) == named::value(left, name),
        right.dom().contains(name) && name.contains('.') ==> named::value(
            merged_rows(left, right),
            name,
        ) == named::value(right, name),
{
    assert(merged_rows(merged_rows(left, right), right) =~= merged_rows(left, right));
}

/// A row with the value of a column, under its name where that is not there yet, and
/// under its name with the alias and with the table.
pub open spec fn with_column(
    row: Map<Seq<char>, ValueView>,
    table: Seq<char>,
    alias: Seq<char>,
    column: Seq<char>,
    value: ValueView,
) -> Map<Seq<char>, ValueView> {
    let plain = if row.dom().contains(column) {
        row
    } else {
        row.insert(column, value)
    };
    let aliased = plain.insert(alias + "."@ + column, value);
    if alias != table {
        aliased.insert(table + "."@ + column, value)
    } else {
        aliased
    }
}

/// Puts the value of a column into a row.
pub fn insert_row_value(row: &mut SqlRow, table: &str, alias: &str, column: &str, value: SqlValue)
    ensures
        final(row)@ == with_column(old(row)@, table@, alias@, column@, value@),
{
    if row.get(column).is_none() {
        row.insert(column.to_owned(), value.copied());
    }
    row.insert(text::concat3(alias, ".", column), value.copied());
    if !text::text_eq(alias, table) {
        row.insert(text::concat3(table, ".", column), value);
    }
}

/// A column that has been put into a row is found under its table and its alias.
pub proof fn law_column_is_found(
    row: Map<Seq<char>, ValueView>,
    table: Seq<char>,
    alias: Seq<char>,
    column: Seq<char>,
    value: ValueView,
)
    ensures
        ({
            let after = with_column(row, table, alias, column, value);
            let qualified = alias + "."@ + column;
            let of_table = table + "."@ + column;
            &&& found(after, of_table, of_table) == Some(value)
            &&& found(after, qualified, qualified) == Some(value)
            &&& after.dom().contains(column)
        }),
{
}

/// A row in which each column is null.
pub fn btree_null_row_for_columns(columns: &Vec<String>) -> (row: SqlRow)
    ensures
        row@ == Map::new(
            |name: Seq<char>| text::views(columns@).contains(name),
            |name: Seq<char>| ValueView::Null,
        ),
{
    let ghost all = text::views(columns@);
    let mut row = SqlRow::new();
    let mut i: usize = 0;
    while i < columns.len()
        invariant
            i <= columns.len(),
            all == text::views(columns@),
            forall|name: Seq<char>| #[trigger]
                row@.dom().contains(name) ==> all.contains(name) && row@[name] == ValueView::Null,
            forall|k: int| 0 <= k < i ==> row@.dom().contains(#[trigger] all[k]),
        decreases columns.len() - i,
    {
        assert(all[i as int] == columns@[i as int]@);
        assert(all.contains(all[i as int]));
        row.insert(columns[i].clone(), SqlValue::Null);
        i = i + 1;
    }
    assert(row@ =~= Map::new(
        |name: Seq<char>| all.contains(name),
        |name: Seq<char>| ValueView::Null,
    )) by {
        assert forall|name: Seq<char>| all.contains(name) implies row@.dom().contains(name) by {
            let k = choose|k: int| 0 <= k < all.len() && all[k] == name;
            assert(row@.dom().contains(all[k]));
        }
    }
    row
}

/// The row that columns and values make. A column that is there twice has its last
/// value.
pub open spec fn row_of(columns: Seq<Seq<char>>, row: Seq<ValueView>) -> Map<Seq<char>, ValueView>
    decreases columns.len(),
{
    if columns.len() == 0 || columns.len() != row.len() {
        Map::empty()
    } else {
        row_of(columns.drop_last(), row.drop_last()).insert(columns.last(), row.last())
    }
}

pub open spec fn row_count_error(count: nat, columns: nat) -> error::ErrorView {
    error::invalid_sql_error(
        "result row has "@ + text::decimal(count) + " values for "@ + text::decimal(columns)
            + " columns"@,
    )
}

/// The row that the columns of a result and its values make.
pub fn result_row_map(columns: &Vec<String>, list: &Vec<SqlValue>) -> (r: Result<SqlRow, SqlError>)
    ensures
        match r {
            Ok(row) => columns@.len() == list@.len() && row@ == row_of(
                text::views(columns@),
                values::value_views(list@),
            ),
            Err(e) => columns@.len() != list@.len() && e@ == row_count_error(
                list@.len(),
                columns@.len(),
            ),
        },
{
    if columns.len() != list.len() {
        let count = text::decimal_text(list.len() as u64);
        let wanted = text::decimal_text(columns.len() as u64);
        let start = text::concat3("result row has ", count.as_str(), " values for ");
        return Err(
            SqlError::invalid_sql(text::concat3(start.as_str(), wanted.as_str(), " columns")),
        );
    }
    let ghost names = text::views(columns@);
    let ghost views = values::value_views(list@);
    let mut row = SqlRow::new();
    let mut i: usize = 0;
    while i < columns.len()
        invariant
            i <= columns.len(),
            columns.len() == list.len(),
            names == text::views(columns@),
            views == values::value_views(list@),
            row@ == row_of(names.take(i as int), views.take(i as int)),
        decreases columns.len() - i,
    {
        assert(names.take(i + 1).drop_last() =~= names.take(i as int));
        assert(views.take(i + 1).drop_last() =~= views.take(i as int));
        assert(names.take(i + 1).last() == columns@[i as int]@);
        assert(views.take(i + 1).last() == list@[i as int]@);
        row.insert(columns[i].clone(), list[i].copied());
        i = i + 1;
    }
    assert(names.take(names.len() as int) =~= names);
    assert(views.take(views.len() as int) =~= views);
    Ok(row)
}

/// What is found inside the documents that the first parts of a name lead to: below
/// the column that the first two parts name, below the metadata, and below the
/// column that the first part names.
#[derive(Debug)]
pub struct PathValues {
    pub below_qualified: Option<SqlValue>,
    pub below_metadata: Option<SqlValue>,
    pub below_head: Option<SqlValue>,
}

/// A value, or null where there is none.
pub open spec fn or_null(v: Option<SqlValue>) -> ValueView {
    match v {
        Some(v) => v@,
        None => ValueView::Null,
    }
}

/// The value that a name of several parts has in a row: of the whole name; of its
/// first two parts, and what is below them; below the metadata; below the first part;
/// or of the last part.
pub open spec fn value_of_parts(
    row: Map<Seq<char>, ValueView>,
    parts: Seq<Seq<char>>,
    paths: PathValues,
) -> Option<ValueView> {
    if parts.len() == 0 {
        None
    } else if parts.len() == 1 {
        found(row, parts[0], parts[0])
    } else {
        let full = text::joined(parts, "."@);
        let qualified = parts[0] + "."@ + parts[1];
        if found(row, full, full) is Some {
            found(row, full, full)
        } else if found(row, qualified, qualified) is Some {
            if parts.len() == 2 {
                found(row, qualified, qualified)
            } else {
                Some(or_null(paths.below_qualified))
            }
        } else if text::same_ignoring_case(parts[0], "metadata"@) && found(
            row,
            "metadata"@,
            "metadata"@,
        ) is Some {
            Some(or_null(paths.below_metadata))
        } else if found(row, parts[0], parts[0]) is Some && paths.below_head is Some {
            Some(paths.below_head->0@)
        } else {
            found(row, parts.last(), parts.last())
        }
    }
}

fn copy_option(v: &Option<SqlValue>) -> (r: SqlValue)
    ensures
        r@ == or_null(*v),
{
    match v {
        Some(v) => v.copied(),
        None => SqlValue::Null,
    }
}

fn copy_found(v: Option<&SqlValue>) -> (r: Option<SqlValue>)
    ensures
        owned_view(r) == option_view(v),
{
    match v {
        Some(v) => Some(v.copied()),
        None => None,
    }
}

/// The value that a name of several parts has in a row, if any.
pub fn row_value_from_parts_opt(row: &SqlRow, parts: &Vec<String>, paths: &PathValues) -> (r: Option<
    SqlValue,
>)
    ensures
        owned_view(r) == value_of_parts(row@, text::views(parts@), *paths),
{
    let ghost all = text::views(parts@);
    assert(all.len() == parts@.len());
    if parts.len() == 0 {
        return None;
    }
    assert(all[0] == parts@[0]@);
    if parts.len() == 1 {
        return copy_found(row_value_for_key(row, parts[0].as_str()));
    }
    assert(all[1] == parts@[1]@);
    let full = text::join(parts, ".");
    let whole = row_value_for_key(row, full.as_str());
    if whole.is_some() {
        return copy_found(whole);
    }
    let qualified = text::concat3(parts[0].as_str(), ".", parts[1].as_str());
    let column = row_value_for_key(row, qualified.as_str());
    if column.is_some() {
        if parts.len() == 2 {
            return copy_found(column);
        }
        return Some(copy_option(&paths.below_qualified));
    }
    if text::eq_ignore_case(parts[0].as_str(), "metadata") && row_value_for_key(
        row,
        "metadata",
    ).is_some() {
        return Some(copy_option(&paths.below_metadata));
    }
    if row_value_for_key(row, parts[0].as_str()).is_some() {
        match &paths.below_head {
            Some(v) => {
                return Some(v.copied());
            },
            None => {},
        }
    }
    assert(all.last() == parts@[parts@.len() - 1]@);
    copy_found(row_value_for_key(row, parts[parts.len() - 1].as_str()))
}

/// The value that a name of several parts has in a row, or null.
pub fn row_value_from_parts(row: &SqlRow, parts: &Vec<String>, paths: &PathValues) -> (r: SqlValue)
    ensures
        r@ == (match value_of_parts(row@, text::views(parts@), *paths) {
            Some(v) => v,
            None => ValueView::Null,
        }),
{
    match row_value_from_parts_opt(row, parts, paths) {
        Some(v) => v,
        None => SqlValue::Null,
    }
}

/// The value of a variable: under its normal name, or else under the first that is
/// the written one but for the case of its letters.
pub fn routine_var_from_name(vars: &SqlRow, normal: &str, name: &str) -> (r: Option<SqlValue>)
    ensures
        owned_view(r) == found(vars@, normal@, name@),
{
    copy_found(vars.look_up(normal, name))
}

/// The value of the variable that an identifier names. One in quotes names none.
pub fn routine_var_from_ident(vars: &SqlRow, normal: &str, name: &str, quoted: bool) -> (r: Option<
    SqlValue,
>)
    ensures
        owned_view(r) == (if quoted {
            None
        } else {
            found(vars@, normal@, name@)
        }),
{
    if quoted {
        return None;
    }
    routine_var_from_name(vars, normal, name)
}

/// The value of the variable that a placeholder names. Another value names none.
pub fn routine_var_from_value(vars: &SqlRow, normal: &str, placeholder: Option<&str>) -> (r: Option<
    SqlValue,
>)
    ensures
        owned_view(r) == (match placeholder {
            Some(name) => found(vars@, normal@, name@),
            None => None,
        }),
{
    match placeholder {
        Some(name) => routine_var_from_name(vars, normal, name),
        None => None,
    }
}

/// The value that a name of several parts has among variables: that of the first
/// part, or what is below it where it is a document, and null otherwise.
pub open spec fn variable_of_parts(
    vars: Map<Seq<char>, ValueView>,
    normal: Seq<char>,
    parts: Seq<Seq<char>>,
    below: Option<SqlValue>,
) -> Option<ValueView> {
    if parts.len() == 0 {
        None
    } else {
        match found(vars, normal, parts[0]) {
            None => None,
            Some(v) => if parts.len() == 1 {
                Some(v)
            } else if values::is_document(v) {
                Some(or_null(below))
            } else {
                Some(ValueView::Null)
            },
        }
    }
}

/// The value that a name of several parts has among variables. `normal` is the first
/// part in its normal form, `below` what the other parts lead to in its value.
pub fn routine_var_from_parts(
    vars: &SqlRow,
    normal: &str,
    parts: &Vec<String>,
    below: &Option<SqlValue>,
) -> (r: Option<SqlValue>)
    ensures
        owned_view(r) == variable_of_parts(vars@, normal@, text::views(parts@), *below),
{
    let ghost all = text::views(parts@);
    assert(all.len() == parts@.len());
    if parts.len() == 0 {
        return None;
    }
    assert(all[0] == parts@[0]@);
    match routine_var_from_name(vars, normal, parts[0].as_str()) {
        None => None,
        Some(v) => {
            if parts.len() == 1 {
                Some(v)
            } else if v.document() {
                Some(copy_option(below))
            } else {
                Some(SqlValue::Null)
            }
        },
    }
}

} // verus!
