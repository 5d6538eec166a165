//! Calling a routine: its arguments, and what its statements assign.
use vstd::prelude::*;
use crate::dotted;
use crate::error;
use crate::error::{SqlError, SqlErrorKind};
use crate::named;
use crate::named::Named;
use crate::pseudo_types::ArgumentMode;
use crate::routine_frame;
use crate::routine_frame::{
    Assigned,
    FrameView,
    RoutineFrame,
    RoutineFrameTemplate,
    RoutineParam,
    RoutineType,
    TypeView,
};
use crate::settings::Settings;
use crate::text;
use crate::values;
use crate::values::{SqlValue, ValueView};

verus! {

/// A parameter with what its default is, where it has one.
#[derive(Debug)]
pub struct RoutineArgument {
    pub param: RoutineParam,
    pub default: Option<Result<SqlValue, SqlError>>,
}

/// A call: the frame, and the arguments by their place, the defaults with them.
#[derive(Debug)]
pub struct RoutineCall {
    pub frame: RoutineFrame,
    pub positional: Vec<SqlValue>,
}

/// What a call has come to: its frame, the arguments by their place, and how many
/// it has taken.
pub struct CallView {
    pub frame: FrameView,
    pub positional: Seq<ValueView>,
    pub taken: nat,
}

pub open spec fn missing_argument(number: nat) -> error::ErrorView {
    error::invalid_sql_error("stored routine argument "@ + text::decimal(number) + " is missing"@)
}

/// The value of a parameter that goes in: the next argument, or else its default.
pub open spec fn input_value(
    taken: nat,
    a: RoutineArgument,
    args: Seq<ValueView>,
) -> Result<ValueView, error::ErrorView> {
    if taken < args.len() {
        Ok(args[taken as int])
    } else {
        match a.default {
            Some(Ok(v)) => Ok(v@),
            Some(Err(e)) => Err(e@),
            None => Err(missing_argument(taken + 1)),
        }
    }
}

/// A frame with a parameter set, under its place and its name.
pub open spec fn with_parameter(f: FrameView, p: RoutineParam, v: ValueView) -> FrameView {
    let placed = routine_frame::with_variable(
        f,
        routine_frame::positional((p.index + 1) as nat),
        v,
    );
    match p.name {
        Some(name) => routine_frame::with_variable(placed, name@, v),
        None => placed,
    }
}

/// A call with one more parameter bound.
pub open spec fn bound(
    c: CallView,
    a: RoutineArgument,
    args: Seq<ValueView>,
) -> Result<CallView, error::ErrorView> {
    if a.param.mode == ArgumentMode::Output {
        Ok(CallView { frame: with_parameter(c.frame, a.param, ValueView::Null), ..c })
    } else {
        match input_value(c.taken, a, args) {
            Err(e) => Err(e),
            Ok(v) => Ok(
                CallView {
                    frame: with_parameter(c.frame, a.param, v),
                    positional: if c.taken >= c.positional.len() {
                        c.positional.push(v)
                    } else {
                        c.positional
                    },
                    taken: c.taken + 1,
                },
            ),
        }
    }
}

/// A call with parameters bound in their order.
pub open spec fn all_bound(
    c: CallView,
    list: Seq<RoutineArgument>,
    args: Seq<ValueView>,
) -> Result<CallView, error::ErrorView>
    decreases list.len(),
{
    if list.len() == 0 {
        Ok(c)
    } else {
        match all_bound(c, list.drop_last(), args) {
            Err(e) => Err(e),
            Ok(before) => bound(before, list.last(), args),
        }
    }
}

proof fn lemma_error_stays(
    c: CallView,
    list: Seq<RoutineArgument>,
    args: Seq<ValueView>,
    i: int,
)
    requires
        0 <= i <= list.len(),
        all_bound(c, list.take(i), args) is Err,
    ensures
        all_bound(c, list, args) == all_bound(c, list.take(i), args),
    decreases list.len(),
{
    if i == list.len() {
        assert(list.take(i) =~= list);
    } else {
        assert(list.drop_last().take(i) =~= list.take(i));
        lemma_error_stays(c, list.drop_last(), args, i);
    }
}

/// A call of a routine before its parameters are bound.
pub open spec fn call_start(slots: Seq<Seq<char>>, args: Seq<ValueView>) -> CallView {
    CallView { frame: routine_frame::fresh(slots), positional: args, taken: 0 }
}

fn set_parameter(frame: &mut RoutineFrame, p: &RoutineParam, value: SqlValue)
    requires
        routine_frame::sound(old(frame)@),
        p.index < usize::MAX,
    ensures
        final(frame)@ == with_parameter(old(frame)@, *p, value@),
        routine_frame::sound(final(frame)@),
{
    let digits = text::decimal_text(p.index as u64 + 1);
    let key = text::concat("$", digits.as_str());
    match &p.name {
        Some(name) => {
            frame.set(key.as_str(), value.copied());
            frame.set(name.as_str(), value);
        },
        None => {
            frame.set(key.as_str(), value);
        },
    }
}

impl RoutineFrame {
    /// The frame for one call, from the routine's shared template. An argument that
    /// goes in is the next one given, or else its default; one that only goes out
    /// is null.
    pub fn from_template(
        template: &RoutineFrameTemplate,
        list: &Vec<RoutineArgument>,
        args: &Vec<SqlValue>,
    ) -> (r: Result<RoutineCall, SqlError>)
        requires
            text::views(template.slot_names@).no_duplicates(),
            forall|k: int| 0 <= k < list@.len() ==> (#[trigger] list@[k]).param.index < usize::MAX,
        ensures
            match (
                r,
                all_bound(
                    call_start(
                        text::views(template.slot_names@),
                        values::value_views(args@),
                    ),
                    list@,
                    values::value_views(args@),
                ),
            ) {
                (Ok(c), Ok(view)) => c.frame@ == view.frame && values::value_views(
                    c.positional@,
                ) == view.positional && routine_frame::sound(c.frame@),
                (Err(e), Err(view)) => e@ == view,
                _ => false,
            },
    {
        let ghost views = values::value_views(args@);
        let ghost start = call_start(text::views(template.slot_names@), views);
        let mut frame = RoutineFrame::with_slots(&template.slot_names);
        let mut positional = values::copy_values(args);
        let mut taken: usize = 0;
        let mut i: usize = 0;
        assert(list@.take(0) =~= Seq::empty());
        while i < list.len()
            invariant
                i <= list.len(),
                taken <= i,
                views == values::value_views(args@),
                start == call_start(text::views(template.slot_names@), views),
                routine_frame::sound(frame@),
                forall|k: int|
                    0 <= k < list@.len() ==> (#[trigger] list@[k]).param.index < usize::MAX,
                all_bound(start, list@.take(i as int), views) == Ok::<
                    CallView,
                    error::ErrorView,
                >(
                    CallView {
                        frame: frame@,
                        positional: values::value_views(positional@),
                        taken: taken as nat,
                    },
                ),
            decreases list.len() - i,
        {
            assert(list@.take(i + 1).drop_last() =~= list@.take(i as int));
            assert(list@.take(i + 1).last() == list@[i as int]);
            let a = &list[i];
            if a.param.mode == ArgumentMode::Output {
                set_parameter(&mut frame, &a.param, SqlValue::Null);
            } else {
                let value = if taken < args.len() {
                    assert(views[taken as int] == args@[taken as int]@);
                    args[taken].copied()
                } else {
                    match &a.default {
                        Some(Ok(v)) => v.copied(),
                        Some(Err(e)) => {
                            proof {
                                lemma_error_stays(start, list@, views, i + 1);
                            }
                            return Err(e.copied());
                        },
                        None => {
                            let digits = text::decimal_text(taken as u64 + 1);
                            proof {
                                lemma_error_stays(start, list@, views, i + 1);
                            }
                            return Err(
                                SqlError::invalid_sql(
                                    text::concat3(
                                        "stored routine argument ",
                                        digits.as_str(),
                                        " is missing",
                                    ),
                                ),
                            );
                        },
                    }
                };
                if taken >= positional.len() {
                    let ghost prior = positional@;
                    positional.push(value.copied());
                    assert(values::value_views(positional@)
                        =~= values::value_views(prior).push(value@));
                }
                set_parameter(&mut frame, &a.param, value);
                taken = taken + 1;
            }
            i = i + 1;
        }
        assert(list@.take(list@.len() as int) =~= list@);
        Ok(RoutineCall { frame, positional })
    }
}

/// Each argument that is given keeps its place, whatever the parameters are.
pub proof fn law_arguments_kept(
    slots: Seq<Seq<char>>,
    list: Seq<RoutineArgument>,
    args: Seq<ValueView>,
)
    requires
        all_bound(call_start(slots, args), list, args) is Ok,
    ensures
        ({
            let c = all_bound(call_start(slots, args), list, args)->Ok_0;
            &&& c.positional.len() >= args.len()
            &&& c.positional.take(args.len() as int) == args
        }),
    decreases list.len(),
{
    if list.len() > 0 {
        law_arguments_kept(slots, list.drop_last(), args);
        let before = all_bound(call_start(slots, args), list.drop_last(), args)->Ok_0;
        let c = all_bound(call_start(slots, args), list, args)->Ok_0;
        assert(c.positional.take(args.len() as int) =~= before.positional.take(
            args.len() as int,
        ));
    }
    assert(all_bound(call_start(slots, args), list, args)->Ok_0.positional.take(args.len() as int)
        =~= args);
}

/// A call whose parameters all go in needs an argument or a default for each, and
/// with an argument for each it is made.
pub proof fn law_enough_arguments(
    slots: Seq<Seq<char>>,
    list: Seq<RoutineArgument>,
    args: Seq<ValueView>,
)
    requires
        list.len() <= args.len(),
    ensures
        all_bound(call_start(slots, args), list, args) matches Ok(c) && c.taken <= list.len()
            && c.positional == args,
    decreases list.len(),
{
    if list.len() > 0 {
        law_enough_arguments(slots, list.drop_last(), args);
    }
}

/// What is assigned to an element of an array: the element, and what the cast to
/// the element type of the variable made of it; and what the variable is as a
/// vector of numbers, where it is a text.
#[derive(Debug)]
pub struct ElementAssigned {
    pub offset: usize,
    pub element: String,
    pub cast: Result<String, SqlError>,
    pub vector: Option<Vec<String>>,
}

/// The element that is assigned, or the error: of a variable that is declared, its
/// type must be that of an array, and the cast must have succeeded.
pub open spec fn assigned_element(
    types: Map<Seq<char>, TypeView>,
    name: Seq<char>,
    written: Seq<char>,
    a: ElementAssigned,
) -> Result<Seq<char>, error::ErrorView> {
    match named::value(types, name) {
        None => Ok(a.element@),
        Some(t) => if !text::ends_with(t.pg_type, "[]"@) {
            Err(routine_frame::non_array_error(written))
        } else {
            match a.cast {
                Ok(v) => Ok(v@),
                Err(e) => Err(e@),
            }
        },
    }
}

pub open spec fn vector_view(v: Option<Vec<String>>) -> Option<Seq<Seq<char>>> {
    match v {
        Some(v) => Some(text::views(v@)),
        None => None,
    }
}

/// The array that a variable becomes when an element of it is assigned.
pub open spec fn with_assigned_element(
    f: FrameView,
    name: Seq<char>,
    written: Seq<char>,
    a: ElementAssigned,
    element: Seq<char>,
) -> Result<FrameView, error::ErrorView> {
    match routine_frame::elements(routine_frame::variable(f, name), vector_view(a.vector)) {
        None => Err(routine_frame::non_array_error(written)),
        Some(items) => Ok(
            routine_frame::with_variable(
                f,
                name,
                ValueView::Array(
                    routine_frame::with_element(items, a.offset as nat, element),
                ),
            ),
        ),
    }
}

impl RoutineFrame {
    /// Assigns an element of an array. `written` is the name as it is written. Where
    /// that fails, no variable changes.
    pub fn set_array_element(
        &mut self,
        types: &Named<RoutineType>,
        name: &str,
        written: &str,
        a: ElementAssigned,
    ) -> (r: Result<(), SqlError>)
        requires
            routine_frame::sound(old(self)@),
            a.offset < usize::MAX,
        ensures
            routine_frame::sound(final(self)@),
            match assigned_element(routine_frame::type_views(types@), name@, written@, a) {
                Err(view) => r is Err && r->Err_0@ == view && final(self)@ == old(self)@,
                Ok(element) => match with_assigned_element(
                    old(self)@,
                    name@,
                    written@,
                    a,
                    element,
                ) {
                    Err(view) => r is Err && r->Err_0@ == view && final(self)@ == old(self)@,
                    Ok(after) => r is Ok && final(self)@ == after,
                },
            },
    {
        let element = match types.get(name) {
            None => a.element,
            Some(t) => {
                if !text::has_suffix(t.pg_type.as_str(), "[]") {
                    return Err(
                        SqlError::invalid_sql(
                            text::concat(
                                "cannot assign array element on non-array routine variable ",
                                written,
                            ),
                        ),
                    );
                }
                match a.cast {
                    Ok(v) => v,
                    Err(e) => {
                        return Err(e);
                    },
                }
            },
        };
        let current = self.get(name);
        match routine_frame::routine_array_set_value(written, current, a.vector, a.offset, element) {
            Ok(v) => {
                self.set(name, v);
                Ok(())
            },
            Err((e, _)) => Err(e),
        }
    }
}

/// A column of a row: its value, and the document that it is.
#[derive(Debug)]
pub struct RowItem {
    pub value: SqlValue,
    pub document: String,
}

/// The fields that columns and items give, as far as both go.
pub open spec fn row_fields(columns: Seq<Seq<char>>, documents: Seq<Seq<char>>) -> Map<
    Seq<char>,
    Seq<char>,
>
    decreases columns.len(),
{
    if columns.len() == 0 {
        Map::empty()
    } else if columns.len() > documents.len() {
        row_fields(columns.drop_last(), documents)
    } else {
        row_fields(columns.drop_last(), documents).insert(
            columns.last(),
            documents[columns.len() - 1],
        )
    }
}

pub open spec fn documents(row: Seq<RowItem>) -> Seq<Seq<char>> {
    row.map_values(|item: RowItem| item.document@)
}

/// What the targets of INTO get of a row: one target for several columns gets them
/// all as a row, other targets each get the column at their place, or null.
pub open spec fn into_value(
    target_count: nat,
    columns: Seq<Seq<char>>,
    row: Option<Seq<RowItem>>,
    at: int,
) -> ValueView {
    match row {
        None => ValueView::Null,
        Some(items) => if target_count == 1 && columns.len() > 1 {
            ValueView::Row(row_fields(columns, documents(items)))
        } else if at < items.len() {
            items[at].value@
        } else {
            ValueView::Null
        },
    }
}

pub open spec fn row_view(row: Option<&Vec<RowItem>>) -> Option<Seq<RowItem>> {
    match row {
        Some(items) => Some(items@),
        None => None,
    }
}

fn fields_of(columns: &Vec<String>, row: &Vec<RowItem>) -> (r: Settings)
    ensures
        r@ == row_fields(text::views(columns@), documents(row@)),
{
    let ghost all = text::views(columns@);
    let ghost docs = documents(row@);
    let mut out = Settings::new();
    let mut i: usize = 0;
    while i < columns.len()
        invariant
            i <= columns.len(),
            all == text::views(columns@),
            docs == documents(row@),
            out@ == row_fields(all.take(i as int), docs),
        decreases columns.len() - i,
    {
        assert(all.take(i + 1).drop_last() =~= all.take(i as int));
        assert(all.take(i + 1).last() == columns@[i as int]@);
        if i < row.len() {
            assert(docs[i as int] == row@[i as int].document@);
            out.insert(columns[i].clone(), row[i].document.clone());
        }
        i = i + 1;
    }
    assert(all.take(all.len() as int) =~= all);
    out
}

/// The values that the targets of INTO are to be assigned. A row that is missing is
/// an error where that is asked for, and gives nulls otherwise.
pub fn assign_routine_targets_with_columns(
    target_count: usize,
    columns: &Vec<String>,
    row: Option<&Vec<RowItem>>,
    missing_row_fails: bool,
) -> (r: Result<Vec<SqlValue>, SqlError>)
    ensures
        match r {
            Ok(values) => (row is Some || !missing_row_fails) && values@.len() == target_count
                && forall|i: int|
                0 <= i < target_count ==> (#[trigger] values@[i])@ == into_value(
                    target_count as nat,
                    text::views(columns@),
                    row_view(row),
                    i,
                ),
            Err(e) => row is None && missing_row_fails && e@ == error::plain_error(
                SqlErrorKind::NoDataFound,
                Seq::empty(),
            ),
        },
{
    if row.is_none() && missing_row_fails {
        let message = String::new();
        assert(message@ =~= Seq::empty());
        return Err(SqlError::plain(SqlErrorKind::NoDataFound, message));
    }
    let mut out: Vec<SqlValue> = Vec::new();
    let mut i: usize = 0;
    assert(text::views(columns@).len() == columns@.len());
    while i < target_count
        invariant
            i <= target_count,
            out@.len() == i,
            text::views(columns@).len() == columns@.len(),
            forall|k: int|
                0 <= k < i ==> (#[trigger] out@[k])@ == into_value(
                    target_count as nat,
                    text::views(columns@),
                    row_view(row),
                    k,
                ),
        decreases target_count - i,
    {
        let value = match row {
            None => SqlValue::Null,
            Some(items) => {
                if target_count == 1 && columns.len() > 1 {
                    SqlValue::Row(fields_of(columns, items))
                } else if i < items.len() {
                    items[i].value.copied()
                } else {
                    SqlValue::Null
                }
            },
        };
        out.push(value);
        i = i + 1;
    }
    Ok(out)
}

/// A frame after assignments, one after the other, up to the first that fails.
pub open spec fn after_assignments(
    f: FrameView,
    types: Map<Seq<char>, TypeView>,
    targets: Seq<Seq<char>>,
    values: Seq<Assigned>,
) -> (FrameView, Option<error::ErrorView>)
    decreases targets.len(),
{
    if targets.len() == 0 {
        (f, None)
    } else {
        let before = after_assignments(f, types, targets.drop_last(), values);
        match before.1 {
            Some(e) => before,
            None => match routine_frame::assigned_value(
                types,
                targets.last(),
                values[targets.len() - 1],
            ) {
                Ok(v) => (routine_frame::with_variable(before.0, targets.last(), v), None),
                Err(e) => (before.0, Some(e)),
            },
        }
    }
}

proof fn lemma_assignment_error_stays(
    f: FrameView,
    types: Map<Seq<char>, TypeView>,
    targets: Seq<Seq<char>>,
    values: Seq<Assigned>,
    i: int,
)
    requires
        0 <= i <= targets.len(),
        after_assignments(f, types, targets.take(i), values).1 is Some,
    ensures
        after_assignments(f, types, targets, values) == after_assignments(
            f,
            types,
            targets.take(i),
            values,
        ),
    decreases targets.len(),
{
    if i == targets.len() {
        assert(targets.take(i) =~= targets);
    } else {
        assert(targets.drop_last().take(i) =~= targets.take(i));
        lemma_assignment_error_stays(f, types, targets.drop_last(), values, i);
    }
}

fn copy_assigned(a: &Assigned) -> (r: Assigned)
    ensures
        r.value@ == a.value@,
        match (r.cast, a.cast) {
            (Ok(x), Ok(y)) => x@ == y@,
            (Err(x), Err(y)) => x@ == y@,
            _ => false,
        },
{
    Assigned {
        value: a.value.copied(),
        cast: match &a.cast {
            Ok(v) => Ok(v.copied()),
            Err(e) => Err(e.copied()),
        },
    }
}

/// Assigns values to targets one after the other, up to the first that fails.
pub fn assign_routine_targets(
    frame: &mut RoutineFrame,
    types: &Named<RoutineType>,
    targets: &Vec<String>,
    values: &Vec<Assigned>,
) -> (r: Result<(), SqlError>)
    requires
        routine_frame::sound(old(frame)@),
        values@.len() == targets@.len(),
    ensures
        routine_frame::sound(final(frame)@),
        ({
            let after = after_assignments(
                old(frame)@,
                routine_frame::type_views(types@),
                text::views(targets@),
                values@,
            );
            &&& final(frame)@ == after.0
            &&& match (r, after.1) {
                (Ok(()), None) => true,
                (Err(e), Some(view)) => e@ == view,
                _ => false,
            }
        }),
{
    let ghost start = frame@;
    let ghost all = text::views(targets@);
    let ghost declared = routine_frame::type_views(types@);
    let mut i: usize = 0;
    while i < targets.len()
        invariant
            i <= targets.len(),
            values@.len() == targets@.len(),
            all == text::views(targets@),
            start == old(frame)@,
            declared == routine_frame::type_views(types@),
            routine_frame::sound(frame@),
            after_assignments(start, declared, all.take(i as int), values@) == (
                frame@,
                None::<error::ErrorView>,
            ),
        decreases targets.len() - i,
    {
        assert(all.take(i + 1).drop_last() =~= all.take(i as int));
        assert(all.take(i + 1).last() == targets@[i as int]@);
        let value = copy_assigned(&values[i]);
        match frame.assign(types, targets[i].as_str(), value) {
            Ok(()) => {},
            Err(e) => {
                proof {
                    lemma_assignment_error_stays(start, declared, all, values@, i + 1);
                }
                return Err(e);
            },
        }
        i = i + 1;
    }
    assert(all.take(all.len() as int) =~= all);
    Ok(())
}

/// The schema and the name of a routine. One without a schema is in `public`.
pub open spec fn schema_and_name(
    name: Seq<char>,
    normal_schema: Seq<char>,
    normal: Seq<char>,
) -> (Seq<char>, Seq<char>) {
    match dotted::split_last_dot(name) {
        Some((schema, _)) if schema.len() > 0 => (normal_schema, normal),
        _ => ("public"@, normal),
    }
}

/// The schema and the name of a routine. `normal` is its name in its normal form, and
/// `normal_schema` what stands before its last dot in that form.
pub fn routine_schema_and_name(name: &str, normal_schema: &str, normal: &str) -> (r: (String, String))
    ensures
        ((r.0)@, (r.1)@) == schema_and_name(name@, normal_schema@, normal@),
{
    let schema = match dotted::rsplit_once_dot(name) {
        Some((schema, _)) => {
            if schema.as_str().unicode_len() > 0 {
                normal_schema.to_owned()
            } else {
                "public".to_owned()
            }
        },
        None => "public".to_owned(),
    };
    (schema, normal.to_owned())
}

/// How the value that a routine returns is taken: as it is, or cast to the type
/// that is given by its normal name.
pub open spec fn return_cast(
    return_type: Seq<char>,
    regtype: Option<Seq<char>>,
    collapsed: Seq<char>,
) -> Option<Seq<char>> {
    let t = text::trim(return_type);
    if t.len() == 0 || routine_frame::takes_any(t) {
        None
    } else {
        match regtype {
            Some(name) => Some(name),
            None => Some(text::lower(collapsed)),
        }
    }
}

/// The type that the value that a routine returns is cast to. `regtype` is the
/// normal name of the type where it has one, `collapsed` the type as it is written,
/// with single spaces.
pub fn cast_routine_return_value(
    return_type: &str,
    regtype: Option<&str>,
    collapsed: &str,
) -> (r: Option<String>)
    ensures
        error::view_option(r) == return_cast(return_type@, text::view_str(regtype), collapsed@),
{
    let t = text::trimmed(return_type);
    let name = t.as_str();
    if name.unicode_len() == 0 || text::text_eq(name, "record") || text::text_eq(name, "trigger")
        || text::text_eq(name, "void") {
        None
    } else {
        match regtype {
            Some(name) => Some(name.to_owned()),
            None => Some(text::to_lower(collapsed)),
        }
    }
}

} // verus!
