//! The variables of a routine while it runs.
//!
//! Declared variables have slots; others are kept by name. What the statements of
//! a routine read is a map by name, which is brought up to date from the slots
//! that have changed since.
use vstd::prelude::*;
use crate::error;
use crate::error::SqlError;
use crate::named;
use crate::named::Named;
use crate::pseudo_types::ArgumentMode;
use crate::sets;
use crate::text;
use crate::values;
use crate::values::{SqlValue, ValueView};

verus! {

/// The type that a variable is declared with.
#[derive(Debug)]
pub struct RoutineType {
    pub pg_type: String,
    pub type_modifier: Option<String>,
}

/// A parameter of a routine: its name in its normal form, where it stands, how it
/// goes, and its type.
#[derive(Debug)]
pub struct RoutineParam {
    pub name: Option<String>,
    pub index: usize,
    pub mode: ArgumentMode,
    pub declared: Option<RoutineType>,
}

/// A declaration in a routine: a variable, another name for a parameter, or
/// something else. Names are in their normal form.
#[derive(Debug)]
pub enum RoutineDecl {
    Variable { name: String, declared: Option<RoutineType> },
    Alias { name: String, position: u64 },
    Other,
}

pub struct TypeView {
    pub pg_type: Seq<char>,
    pub modifier: Option<Seq<char>>,
}

impl View for RoutineType {
    type V = TypeView;

    open spec fn view(&self) -> TypeView {
        TypeView { pg_type: self.pg_type@, modifier: error::view_option(self.type_modifier) }
    }
}

impl RoutineType {
    pub fn copied(&self) -> (r: RoutineType)
        ensures
            r@ == self@,
    {
        RoutineType {
            pg_type: self.pg_type.clone(),
            type_modifier: match &self.type_modifier {
                Some(m) => Some(m.clone()),
                None => None,
            },
        }
    }
}

pub open spec fn type_views(m: Map<Seq<char>, RoutineType>) -> Map<Seq<char>, TypeView> {
    Map::new(|name: Seq<char>| m.dom().contains(name), |name: Seq<char>| m[name]@)
}

/// The name that a parameter has by its place.
pub open spec fn positional(number: nat) -> Seq<char> {
    "$"@ + text::decimal(number)
}

fn positional_key(number: u64) -> (r: String)
    ensures
        r@ == positional(number as nat),
{
    let digits = text::decimal_text(number);
    text::concat("$", digits.as_str())
}

/// The types with those of a parameter, under its place and its name.
pub open spec fn with_param(types: Map<Seq<char>, TypeView>, p: RoutineParam) -> Map<
    Seq<char>,
    TypeView,
> {
    match p.declared {
        None => types,
        Some(t) => {
            let placed = types.insert(positional((p.index + 1) as nat), t@);
            match p.name {
                Some(name) => placed.insert(name@, t@),
                None => placed,
            }
        },
    }
}

/// The types with that of a declaration. Another name for a parameter has its
/// type.
pub open spec fn with_declaration(types: Map<Seq<char>, TypeView>, d: RoutineDecl) -> Map<
    Seq<char>,
    TypeView,
> {
    match d {
        RoutineDecl::Variable { name, declared } => match declared {
            Some(t) => types.insert(name@, t@),
            None => types,
        },
        RoutineDecl::Alias { name, position } => match named::value(
            types,
            positional(position as nat),
        ) {
            Some(t) => types.insert(name@, t),
            None => types,
        },
        RoutineDecl::Other => types,
    }
}

pub open spec fn with_params(types: Map<Seq<char>, TypeView>, params: Seq<RoutineParam>) -> Map<
    Seq<char>,
    TypeView,
>
    decreases params.len(),
{
    if params.len() == 0 {
        types
    } else {
        with_param(with_params(types, params.drop_last()), params.last())
    }
}

pub open spec fn with_declarations(
    types: Map<Seq<char>, TypeView>,
    declarations: Seq<RoutineDecl>,
) -> Map<Seq<char>, TypeView>
    decreases declarations.len(),
{
    if declarations.len() == 0 {
        types
    } else {
        with_declaration(with_declarations(types, declarations.drop_last()), declarations.last())
    }
}

/// The slots for symbols: one for each name that is not empty.
pub open spec fn slots_for(names: Seq<Seq<char>>) -> Seq<Seq<char>>
    decreases names.len(),
{
    if names.len() == 0 {
        Seq::empty()
    } else {
        let before = slots_for(names.drop_last());
        if names.last().len() == 0 {
            before
        } else {
            sets::added(before, names.last())
        }
    }
}

/// The names of the parameters that go out.
pub open spec fn outputs(params: Seq<RoutineParam>) -> Seq<Seq<char>>
    decreases params.len(),
{
    if params.len() == 0 {
        Seq::empty()
    } else {
        let before = outputs(params.drop_last());
        let p = params.last();
        if p.mode == ArgumentMode::Input {
            before
        } else {
            before.push(
                match p.name {
                    Some(name) => name@,
                    None => "arg"@ + text::decimal((p.index + 1) as nat),
                },
            )
        }
    }
}

/// What all calls of a routine share: the types of its variables, its slots, and
/// the names of what goes out.
#[derive(Debug)]
pub struct RoutineFrameTemplate {
    pub assignment_types: Named<RoutineType>,
    pub slot_names: Vec<String>,
    pub output_names: Vec<String>,
}

/// The slots of a routine: those of its symbols, and that of `found`.
pub open spec fn template_slots(symbol_names: Seq<Seq<char>>) -> Seq<Seq<char>> {
    sets::added(slots_for(symbol_names), "found"@)
}

fn put_param(types: &mut Named<RoutineType>, p: &RoutineParam)
    requires
        p.index < usize::MAX,
    ensures
        type_views(final(types)@) == with_param(type_views(old(types)@), *p),
{
    match &p.declared {
        None => {},
        Some(t) => {
            let ghost before = types@;
            types.insert(positional_key(p.index as u64 + 1), t.copied());
            let ghost placed = types@;
            assert(type_views(placed) =~= type_views(before).insert(
                positional((p.index + 1) as nat),
                t@,
            ));
            match &p.name {
                Some(name) => {
                    types.insert(name.clone(), t.copied());
                    assert(type_views(types@) =~= type_views(placed).insert(name@, t@));
                },
                None => {},
            }
        },
    }
}

fn put_declaration(types: &mut Named<RoutineType>, d: &RoutineDecl)
    ensures
        type_views(final(types)@) == with_declaration(type_views(old(types)@), *d),
{
    let ghost before = types@;
    match d {
        RoutineDecl::Variable { name, declared } => match declared {
            Some(t) => {
                types.insert(name.clone(), t.copied());
                assert(type_views(types@) =~= type_views(before).insert(name@, t@));
            },
            None => {},
        },
        RoutineDecl::Alias { name, position } => {
            let key = positional_key(*position);
            let found = match types.get(key.as_str()) {
                Some(t) => Some(t.copied()),
                None => None,
            };
            match found {
                Some(t) => {
                    let ghost view = t@;
                    types.insert(name.clone(), t);
                    assert(type_views(types@) =~= type_views(before).insert(name@, view));
                },
                None => {},
            }
        },
        RoutineDecl::Other => {},
    }
}

fn slot_names_for(names: &Vec<String>) -> (r: Vec<String>)
    ensures
        text::views(r@) == template_slots(text::views(names@)),
{
    let ghost all = text::views(names@);
    let mut out: Vec<String> = Vec::new();
    assert(text::views(out@) =~= Seq::empty());
    let mut i: usize = 0;
    while i < names.len()
        invariant
            i <= names.len(),
            all == text::views(names@),
            text::views(out@) == slots_for(all.take(i as int)),
        decreases names.len() - i,
    {
        assert(all.take(i + 1).drop_last() =~= all.take(i as int));
        assert(all.take(i + 1).last() == names@[i as int]@);
        if names[i].as_str().unicode_len() != 0 {
            sets::add_text(&mut out, names[i].clone());
        }
        i = i + 1;
    }
    assert(all.take(all.len() as int) =~= all);
    sets::add_text(&mut out, "found".to_owned());
    out
}

fn output_names_of(params: &Vec<RoutineParam>) -> (r: Vec<String>)
    requires
        forall|k: int| 0 <= k < params@.len() ==> (#[trigger] params@[k]).index < usize::MAX,
    ensures
        text::views(r@) == outputs(params@),
{
    let mut out: Vec<String> = Vec::new();
    let mut i: usize = 0;
    while i < params.len()
        invariant
            i <= params.len(),
            forall|k: int| 0 <= k < params@.len() ==> (#[trigger] params@[k]).index < usize::MAX,
            text::views(out@) == outputs(params@.take(i as int)),
        decreases params.len() - i,
    {
        assert(params@.take(i + 1).drop_last() =~= params@.take(i as int));
        assert(params@.take(i + 1).last() == params@[i as int]);
        let ghost prior = out@;
        if params[i].mode != ArgumentMode::Input {
            let name = match &params[i].name {
                Some(name) => name.clone(),
                None => {
                    let digits = text::decimal_text(params[i].index as u64 + 1);
                    text::concat("arg", digits.as_str())
                },
            };
            let ghost view = name@;
            out.push(name);
            assert(text::views(out@) =~= text::views(prior).push(view));
        }
        i = i + 1;
    }
    assert(params@.take(params@.len() as int) =~= params@);
    out
}

impl RoutineFrameTemplate {
    /// The template of a routine without declarations.
    pub fn build(params: &Vec<RoutineParam>, symbol_names: &Vec<String>) -> (t: RoutineFrameTemplate)
        requires
            forall|k: int| 0 <= k < params@.len() ==> (#[trigger] params@[k]).index < usize::MAX,
        ensures
            type_views(t.assignment_types@) == with_params(Map::empty(), params@),
            text::views(t.slot_names@) == template_slots(text::views(symbol_names@)),
            text::views(t.output_names@) == outputs(params@),
    {
        let none: Vec<RoutineDecl> = Vec::new();
        RoutineFrameTemplate::build_with_declarations(params, symbol_names, &none)
    }

    /// The template of a routine: from its parameters, its symbols in their normal
    /// form, and its declarations.
    pub fn build_with_declarations(
        params: &Vec<RoutineParam>,
        symbol_names: &Vec<String>,
        declarations: &Vec<RoutineDecl>,
    ) -> (t: RoutineFrameTemplate)
        requires
            forall|k: int| 0 <= k < params@.len() ==> (#[trigger] params@[k]).index < usize::MAX,
        ensures
            type_views(t.assignment_types@) == with_declarations(
                with_params(Map::empty(), params@),
                declarations@,
            ),
            text::views(t.slot_names@) == template_slots(text::views(symbol_names@)),
            text::views(t.output_names@) == outputs(params@),
    {
        let mut types: Named<RoutineType> = Named::new();
        assert(type_views(types@) =~= Map::empty());
        let mut i: usize = 0;
        while i < params.len()
            invariant
                i <= params.len(),
                forall|k: int|
                    0 <= k < params@.len() ==> (#[trigger] params@[k]).index < usize::MAX,
                type_views(types@) == with_params(Map::empty(), params@.take(i as int)),
            decreases params.len() - i,
        {
            assert(params@.take(i + 1).drop_last() =~= params@.take(i as int));
            assert(params@.take(i + 1).last() == params@[i as int]);
            put_param(&mut types, &params[i]);
            i = i + 1;
        }
        assert(params@.take(params@.len() as int) =~= params@);
        let ghost base = with_params(Map::empty(), params@);
        let mut j: usize = 0;
        while j < declarations.len()
            invariant
                j <= declarations.len(),
                type_views(types@) == with_declarations(base, declarations@.take(j as int)),
            decreases declarations.len() - j,
        {
            assert(declarations@.take(j + 1).drop_last() =~= declarations@.take(j as int));
            assert(declarations@.take(j + 1).last() == declarations@[j as int]);
            put_declaration(&mut types, &declarations[j]);
            j = j + 1;
        }
        assert(declarations@.take(declarations@.len() as int) =~= declarations@);
        RoutineFrameTemplate {
            assignment_types: types,
            slot_names: slot_names_for(symbol_names),
            output_names: output_names_of(params),
        }
    }
}

/// The slots of a routine are its own: none is there twice, none has an empty
/// name, and `found` has one.
pub proof fn law_template_slots(symbol_names: Seq<Seq<char>>)
    ensures
        template_slots(symbol_names).no_duplicates(),
        template_slots(symbol_names).contains("found"@),
        forall|name: Seq<char>|
            symbol_names.contains(name) && name.len() > 0 ==> #[trigger] template_slots(
                symbol_names,
            ).contains(name),
{
    lemma_slots_for(symbol_names);
    sets::law_added(slots_for(symbol_names), "found"@);
    sets::law_added_contains(slots_for(symbol_names), "found"@, "found"@);
    assert forall|name: Seq<char>| symbol_names.contains(name) && name.len() > 0 implies #[trigger] template_slots(
        symbol_names,
    ).contains(name) by {
        sets::law_added_contains(slots_for(symbol_names), "found"@, name);
        assert(slots_for(symbol_names).contains(name));
    }
}

proof fn lemma_slots_for(names: Seq<Seq<char>>)
    ensures
        slots_for(names).no_duplicates(),
        forall|name: Seq<char>|
            names.contains(name) && name.len() > 0 ==> #[trigger] slots_for(names).contains(name),
    decreases names.len(),
{
    if names.len() > 0 {
        let rest = names.drop_last();
        let last = names.last();
        lemma_slots_for(rest);
        sets::law_added(slots_for(rest), last);
        assert forall|name: Seq<char>| names.contains(name) && name.len() > 0 implies #[trigger] slots_for(
            names,
        ).contains(name) by {
            let k = choose|k: int| 0 <= k < names.len() && names[k] == name;
            if k < rest.len() {
                assert(rest[k] == name);
                assert(rest.contains(name));
                assert(slots_for(rest).contains(name));
            }
            sets::law_added_contains(slots_for(rest), last, name);
        }
    }
}

/// The variables of a call: the values of the slots, which of them have changed
/// since the map by name was brought up to date, whether it ever was, and the map.
#[derive(Debug)]
pub struct RoutineFrame {
    slot_names: Vec<String>,
    slot_values: Vec<SqlValue>,
    dirty_slots: Vec<bool>,
    values: Named<SqlValue>,
    values_dirty: bool,
    full_resync: bool,
}

/// What a frame holds: the values of its slots, whether its map is out of date and
/// whether it is yet to be made, which slots have changed, and the map.
#[verifier::ext_equal]
pub struct FrameView {
    pub names: Seq<Seq<char>>,
    pub slots: Seq<ValueView>,
    pub dirty: Seq<bool>,
    pub values: Map<Seq<char>, ValueView>,
    pub values_dirty: bool,
    pub full_resync: bool,
}

impl View for RoutineFrame {
    type V = FrameView;

    closed spec fn view(&self) -> FrameView {
        FrameView {
            names: text::views(self.slot_names@),
            slots: values::value_views(self.slot_values@),
            dirty: self.dirty_slots@,
            values: values::map_views(self.values@),
            values_dirty: self.values_dirty,
            full_resync: self.full_resync,
        }
    }
}

/// Whether a frame is sound: each slot has one name and one value, and the map, once
/// it has been made, has the value of each slot that has not changed.
pub open spec fn sound(f: FrameView) -> bool {
    &&& f.names.len() == f.slots.len()
    &&& f.names.len() == f.dirty.len()
    &&& f.names.no_duplicates()
    &&& !f.full_resync ==> forall|i: int|
        0 <= i < f.names.len() && !f.dirty[i] ==> named::value(f.values, #[trigger] f.names[i])
            == Some(f.slots[i])
}

/// A frame in which every slot is null and nothing has a name yet.
pub open spec fn fresh(names: Seq<Seq<char>>) -> FrameView {
    FrameView {
        names,
        slots: Seq::new(names.len(), |i: int| ValueView::Null),
        dirty: Seq::new(names.len(), |i: int| false),
        values: Map::empty(),
        values_dirty: false,
        full_resync: true,
    }
}

/// The slot with a name.
pub open spec fn slot_of(names: Seq<Seq<char>>, name: Seq<char>) -> Option<int> {
    if names.contains(name) {
        Some(choose|i: int| 0 <= i < names.len() && names[i] == name)
    } else {
        None
    }
}

/// The value that a variable has: that of its slot, or the one under its name, or
/// null.
pub open spec fn variable(f: FrameView, name: Seq<char>) -> ValueView {
    match slot_of(f.names, name) {
        Some(i) => f.slots[i],
        None => match named::value(f.values, name) {
            Some(v) => v,
            None => ValueView::Null,
        },
    }
}

/// The map with the values of slots from one on, of all or of those that have
/// changed.
pub open spec fn with_slots(
    values: Map<Seq<char>, ValueView>,
    f: FrameView,
    all: bool,
    count: nat,
) -> Map<Seq<char>, ValueView>
    decreases count,
{
    if count == 0 {
        values
    } else {
        let before = with_slots(values, f, all, (count - 1) as nat);
        let i = count - 1;
        if all || f.dirty[i] {
            before.insert(f.names[i], f.slots[i])
        } else {
            before
        }
    }
}

/// A frame whose map has been brought up to date.
pub open spec fn synced(f: FrameView) -> FrameView {
    if !f.values_dirty {
        f
    } else {
        FrameView {
            values: with_slots(f.values, f, f.full_resync, f.names.len()),
            dirty: Seq::new(f.names.len(), |i: int| false),
            values_dirty: false,
            full_resync: false,
            ..f
        }
    }
}

/// A frame in which a variable has been set.
pub open spec fn with_variable(f: FrameView, name: Seq<char>, value: ValueView) -> FrameView {
    match slot_of(f.names, name) {
        Some(i) => FrameView {
            slots: f.slots.update(i, value),
            dirty: f.dirty.update(i, true),
            values_dirty: true,
            ..f
        },
        None => {
            let up_to_date = synced(f);
            FrameView { values: up_to_date.values.insert(name, value), ..up_to_date }
        },
    }
}

proof fn lemma_slot_of(names: Seq<Seq<char>>, i: int)
    requires
        names.no_duplicates(),
        0 <= i < names.len(),
    ensures
        slot_of(names, names[i]) == Some(i),
{
    assert(names.contains(names[i]));
    let k = choose|k: int| 0 <= k < names.len() && names[k] == names[i];
    assert(k == i);
}

proof fn lemma_with_slots(
    values: Map<Seq<char>, ValueView>,
    f: FrameView,
    all: bool,
    count: nat,
    name: Seq<char>,
)
    requires
        f.names.no_duplicates(),
        count <= f.names.len(),
    ensures
        named::value(with_slots(values, f, all, count), name) == (match slot_of(f.names, name) {
            Some(i) => if i < count && (all || f.dirty[i]) {
                Some(f.slots[i])
            } else {
                named::value(values, name)
            },
            None => named::value(values, name),
        }),
    decreases count,
{
    if count > 0 {
        lemma_with_slots(values, f, all, (count - 1) as nat, name);
        let i = count - 1;
        lemma_slot_of(f.names, i);
        if slot_of(f.names, name) is Some {
            let k = slot_of(f.names, name)->0;
            assert(f.names[k] == name);
        }
    }
}

/// Bringing the map up to date keeps a frame sound and changes no variable, and the
/// map then has the value of every slot.
pub proof fn law_synced(f: FrameView, name: Seq<char>)
    requires
        sound(f),
    ensures
        sound(synced(f)),
        variable(synced(f), name) == variable(f, name),
        f.values_dirty && f.names.contains(name) ==> named::value(synced(f).values, name) == Some(
            variable(f, name),
        ),
{
    let s = synced(f);
    if f.values_dirty {
        lemma_with_slots(f.values, f, f.full_resync, f.names.len(), name);
        assert forall|i: int| 0 <= i < s.names.len() && !s.dirty[i] implies named::value(
            s.values,
            #[trigger] s.names[i],
        ) == Some(s.slots[i]) by {
            lemma_with_slots(f.values, f, f.full_resync, f.names.len(), f.names[i]);
            lemma_slot_of(f.names, i);
        }
        if f.names.contains(name) {
            let i = slot_of(f.names, name)->0;
            assert(0 <= i < f.names.len() && f.names[i] == name);
        }
    }
}

/// A variable that has been set has its value, no other variable changes, and the
/// frame stays sound.
pub proof fn law_set_then_get(f: FrameView, name: Seq<char>, value: ValueView, other: Seq<char>)
    requires
        sound(f),
    ensures
        sound(with_variable(f, name, value)),
        variable(with_variable(f, name, value), name) == value,
        other != name ==> variable(with_variable(f, name, value), other) == variable(f, other),
{
    let after = with_variable(f, name, value);
    match slot_of(f.names, name) {
        Some(i) => {
            assert(0 <= i < f.names.len() && f.names[i] == name);
            if f.names.contains(other) {
                let k = slot_of(f.names, other)->0;
                assert(f.names[k] == other);
            }
            assert forall|k: int| 0 <= k < after.names.len() && !after.dirty[k]
                && !after.full_resync implies named::value(after.values, #[trigger] after.names[k])
                == Some(after.slots[k]) by {
                assert(k != i);
                assert(!f.dirty[k]);
                assert(named::value(f.values, f.names[k]) == Some(f.slots[k]));
            }
        },
        None => {
            law_synced(f, name);
            law_synced(f, other);
            let up = synced(f);
            assert forall|k: int| 0 <= k < after.names.len() && !after.dirty[k]
                && !after.full_resync implies named::value(after.values, #[trigger] after.names[k])
                == Some(after.slots[k]) by {
                assert(f.names.contains(f.names[k]));
                assert(f.names[k] != name);
                assert(named::value(up.values, up.names[k]) == Some(up.slots[k]));
            }
        },
    }
}

impl RoutineFrame {
    /// A frame in which every slot is null.
    pub fn with_slots(slot_names: &Vec<String>) -> (f: RoutineFrame)
        requires
            text::views(slot_names@).no_duplicates(),
        ensures
            f@ == fresh(text::views(slot_names@)),
            sound(f@),
    {
        let mut slot_values: Vec<SqlValue> = Vec::new();
        let mut dirty_slots: Vec<bool> = Vec::new();
        let mut i: usize = 0;
        while i < slot_names.len()
            invariant
                i <= slot_names.len(),
                slot_values@.len() == i,
                dirty_slots@.len() == i,
                forall|k: int| 0 <= k < i ==> (#[trigger] slot_values@[k]) == SqlValue::Null,
                forall|k: int| 0 <= k < i ==> !(#[trigger] dirty_slots@[k]),
            decreases slot_names.len() - i,
        {
            slot_values.push(SqlValue::Null);
            dirty_slots.push(false);
            i = i + 1;
        }
        let f = RoutineFrame {
            slot_names: text::copy_names(slot_names),
            slot_values,
            dirty_slots,
            values: Named::new(),
            values_dirty: false,
            full_resync: true,
        };
        assert(text::views(f.slot_names@).len() == f.slot_names@.len());
        assert(text::views(slot_names@).len() == slot_names@.len());
        assert(values::map_views(f.values@) =~= Map::empty());
        assert(f@ =~= fresh(text::views(slot_names@)));
        f
    }

    fn find_slot(&self, name: &str) -> (r: Option<usize>)
        requires
            sound(self@),
        ensures
            match (r, slot_of(self@.names, name@)) {
                (Some(i), Some(view)) => i == view && i < self.slot_values@.len() && i
                    < self.dirty_slots@.len() && i < self.slot_names@.len(),
                (None, None) => true,
                _ => false,
            },
    {
        let ghost all = text::views(self.slot_names@);
        let mut i: usize = 0;
        while i < self.slot_names.len()
            invariant
                i <= self.slot_names.len(),
                all == text::views(self.slot_names@),
                all == self@.names,
                sound(self@),
                forall|k: int| 0 <= k < i ==> #[trigger] all[k] != name@,
            decreases self.slot_names.len() - i,
        {
            assert(all[i as int] == self.slot_names@[i as int]@);
            if text::text_eq(self.slot_names[i].as_str(), name) {
                proof {
                    lemma_slot_of(all, i as int);
                    assert(values::value_views(self.slot_values@).len() == self.slot_values@.len());
                }
                return Some(i);
            }
            i = i + 1;
        }
        None
    }

    fn put_in_slot(&mut self, at: usize, value: SqlValue)
        requires
            at < old(self).slot_values@.len(),
            at < old(self).dirty_slots@.len(),
        ensures
            final(self)@ == (FrameView {
                slots: old(self)@.slots.update(at as int, value@),
                dirty: old(self)@.dirty.update(at as int, true),
                ..old(self)@
            }),
    {
        let ghost before = self.slot_values@;
        let ghost view = value@;
        self.slot_values.set(at, value);
        self.dirty_slots.set(at, true);
        assert(values::value_views(self.slot_values@) =~= values::value_views(before).update(at as int, view));
    }

    /// Sets a variable.
    pub fn set(&mut self, name: &str, value: SqlValue)
        requires
            sound(old(self)@),
        ensures
            final(self)@ == with_variable(old(self)@, name@, value@),
            sound(final(self)@),
    {
        proof {
            law_set_then_get(self@, name@, value@, name@);
        }
        match self.find_slot(name) {
            Some(at) => {
                self.put_in_slot(at, value);
                self.values_dirty = true;
            },
            None => {
                self.sync_values();
                let ghost before = self.values@;
                let ghost view = value@;
                self.values.insert(name.to_owned(), value);
                assert(values::map_views(self.values@) =~= values::map_views(before).insert(name@, view));
            },
        }
    }

    /// Sets a variable that has a slot, and says whether it has one. The map by name
    /// does not count as out of date for it.
    pub fn set_slot_by_key(&mut self, key: &str, value: SqlValue) -> (r: bool)
        requires
            sound(old(self)@),
        ensures
            r == (slot_of(old(self)@.names, key@) is Some),
            final(self)@ == (match slot_of(old(self)@.names, key@) {
                Some(i) => FrameView {
                    slots: old(self)@.slots.update(i, value@),
                    dirty: old(self)@.dirty.update(i, true),
                    ..old(self)@
                },
                None => old(self)@,
            }),
            sound(final(self)@),
    {
        let ghost before = self@;
        match self.find_slot(key) {
            Some(at) => {
                self.put_in_slot(at, value);
                proof {
                    let f = self@;
                    assert forall|i: int| 0 <= i < f.names.len() && !f.dirty[i]
                        && !f.full_resync implies named::value(f.values, #[trigger] f.names[i])
                        == Some(f.slots[i]) by {
                        assert(!before.dirty[i]);
                        assert(named::value(before.values, before.names[i]) == Some(
                            before.slots[i],
                        ));
                    }
                }
                true
            },
            None => false,
        }
    }

    /// The value of a slot.
    pub fn slot_value_by_key(&self, key: &str) -> (r: Option<SqlValue>)
        requires
            sound(self@),
        ensures
            match (r, slot_of(self@.names, key@)) {
                (Some(v), Some(i)) => v@ == self@.slots[i],
                (None, None) => true,
                _ => false,
            },
    {
        match self.find_slot(key) {
            Some(at) => {
                assert(values::value_views(self.slot_values@)[at as int] == self.slot_values@[at as int]@);
                Some(self.slot_values[at].copied())
            },
            None => None,
        }
    }

    /// The value of a variable.
    pub fn get(&self, name: &str) -> (r: SqlValue)
        requires
            sound(self@),
        ensures
            r@ == variable(self@, name@),
    {
        match self.slot_value_by_key(name) {
            Some(v) => v,
            None => match self.values.get(name) {
                Some(v) => v.copied(),
                None => SqlValue::Null,
            },
        }
    }

    /// Brings the map by name up to date: the first time with all slots, then with
    /// those that have changed.
    pub fn sync_values(&mut self)
        requires
            sound(old(self)@),
        ensures
            final(self)@ == synced(old(self)@),
            sound(final(self)@),
    {
        let ghost before = self@;
        proof {
            law_synced(before, Seq::empty());
        }
        if !self.values_dirty {
            return ;
        }
        let all = self.full_resync;
        let ghost values = values::map_views(self.values@);
        proof {
            assert(text::views(self.slot_names@).len() == self.slot_names@.len());
            assert(values::value_views(self.slot_values@).len() == self.slot_values@.len());
        }
        let mut i: usize = 0;
        while i < self.slot_names.len()
            invariant
                i <= self.slot_names.len(),
                self.slot_names@.len() == self.slot_values@.len(),
                self.slot_names@.len() == self.dirty_slots@.len(),
                before == old(self)@,
                before.names == text::views(self.slot_names@),
                before.slots == values::value_views(self.slot_values@),
                before.dirty.len() == self.dirty_slots@.len(),
                values == before.values,
                forall|k: int|
                    i <= k < self.dirty_slots@.len() ==> #[trigger] self.dirty_slots@[k]
                        == before.dirty[k],
                forall|k: int| 0 <= k < i ==> !#[trigger] self.dirty_slots@[k],
                values::map_views(self.values@) == with_slots(values, before, all, i as nat),
            decreases self.slot_names.len() - i,
        {
            assert(before.names[i as int] == self.slot_names@[i as int]@);
            assert(before.slots[i as int] == self.slot_values@[i as int]@);
            if all || self.dirty_slots[i] {
                let ghost was = self.values@;
                self.values.insert(self.slot_names[i].clone(), self.slot_values[i].copied());
                assert(values::map_views(self.values@) =~= values::map_views(was).insert(
                    before.names[i as int],
                    before.slots[i as int],
                ));
            }
            self.dirty_slots.set(i, false);
            i = i + 1;
        }
        self.full_resync = false;
        self.values_dirty = false;
        assert(self.dirty_slots@ =~= Seq::new(before.names.len(), |i: int| false));
    }

    /// The map by name, up to date.
    pub fn materialized_values(&mut self) -> (r: &Named<SqlValue>)
        requires
            sound(old(self)@),
        ensures
            final(self)@ == synced(old(self)@),
            values::map_views(r@) == synced(old(self)@).values,
            sound(final(self)@),
    {
        self.sync_values();
        &self.values
    }
}

/// Whether values of a declared type are taken as they are.
pub open spec fn takes_any(pg_type: Seq<char>) -> bool {
    pg_type == "record"@ || pg_type == "trigger"@ || pg_type == "void"@
}

/// The type that a value must be cast to before it is assigned to a variable.
pub open spec fn wanted_cast(types: Map<Seq<char>, TypeView>, name: Seq<char>) -> Option<TypeView> {
    match named::value(types, name) {
        Some(t) => if takes_any(t.pg_type) {
            None
        } else {
            Some(t)
        },
        None => None,
    }
}

/// The type that a value must be cast to before it is assigned to a variable.
pub fn assignment_type<'a>(types: &'a Named<RoutineType>, name: &str) -> (r: Option<&'a RoutineType>)
    ensures
        match (r, wanted_cast(type_views(types@), name@)) {
            (Some(t), Some(view)) => t@ == view,
            (None, None) => true,
            _ => false,
        },
{
    match types.get(name) {
        Some(t) => {
            let pg_type = t.pg_type.as_str();
            if text::text_eq(pg_type, "record") || text::text_eq(pg_type, "trigger")
                || text::text_eq(pg_type, "void") {
                None
            } else {
                Some(t)
            }
        },
        None => None,
    }
}

/// An assignment: the value, and what the cast to the type of the variable made of
/// it.
#[derive(Debug)]
pub struct Assigned {
    pub value: SqlValue,
    pub cast: Result<SqlValue, SqlError>,
}

/// The value that is assigned to a variable, or the error of its cast.
pub open spec fn assigned_value(
    types: Map<Seq<char>, TypeView>,
    name: Seq<char>,
    a: Assigned,
) -> Result<ValueView, error::ErrorView> {
    if wanted_cast(types, name) is None {
        Ok(a.value@)
    } else {
        match a.cast {
            Ok(v) => Ok(v@),
            Err(e) => Err(e@),
        }
    }
}

impl RoutineFrame {
    /// Assigns a value to a variable, cast to the type that it is declared with.
    pub fn assign(&mut self, types: &Named<RoutineType>, name: &str, a: Assigned) -> (r: Result<
        (),
        SqlError,
    >)
        requires
            sound(old(self)@),
        ensures
            sound(final(self)@),
            match (r, assigned_value(type_views(types@), name@, a)) {
                (Ok(()), Ok(v)) => final(self)@ == with_variable(old(self)@, name@, v),
                (Err(e), Err(view)) => e@ == view && final(self)@ == old(self)@,
                _ => false,
            },
    {
        let value = match assignment_type(types, name) {
            None => a.value,
            Some(_) => match a.cast {
                Ok(v) => v,
                Err(e) => {
                    return Err(e);
                },
            },
        };
        self.set(name, value);
        Ok(())
    }
}

pub open spec fn non_array_error(name: Seq<char>) -> error::ErrorView {
    error::invalid_sql_error("cannot assign array element on non-array routine variable "@ + name)
}

/// The elements that a value has as an array. A text has those of the vector that
/// it is, if it is one.
pub open spec fn elements(value: ValueView, vector: Option<Seq<Seq<char>>>) -> Option<
    Seq<Seq<char>>,
> {
    match value {
        ValueView::Null => Some(Seq::empty()),
        ValueView::Array(items) => Some(items),
        ValueView::Text(_) => vector,
        _ => None,
    }
}

/// Elements with one set. What is missing before it is null.
pub open spec fn with_element(items: Seq<Seq<char>>, offset: nat, element: Seq<char>) -> Seq<
    Seq<char>,
> {
    if offset < items.len() {
        items.update(offset as int, element)
    } else {
        (items + Seq::new((offset - items.len()) as nat, |i: int| "null"@)).push(element)
    }
}

fn set_element(items: &mut Vec<String>, offset: usize, element: String)
    requires
        offset < usize::MAX,
    ensures
        text::views(final(items)@) == with_element(
            text::views(old(items)@),
            offset as nat,
            element@,
        ),
{
    let ghost before = text::views(items@);
    let ghost view = element@;
    if offset < items.len() {
        items.set(offset, element);
        assert(text::views(items@) =~= before.update(offset as int, view));
        return ;
    }
    assert(text::views(items@) =~= before + Seq::new(0, |i: int| "null"@));
    while items.len() < offset
        invariant
            before.len() <= items@.len() <= offset,
            text::views(items@) == before + Seq::new(
                (items@.len() - before.len()) as nat,
                |i: int| "null"@,
            ),
        decreases offset - items.len(),
    {
        let ghost prior = items@;
        items.push("null".to_owned());
        assert(text::views(items@) =~= text::views(prior).push("null"@));
        assert(text::views(items@) =~= before + Seq::new(
            (items@.len() - before.len()) as nat,
            |i: int| "null"@,
        ));
    }
    let ghost prior = items@;
    items.push(element);
    assert(text::views(items@) =~= text::views(prior).push(view));
}

/// Sets an element of the array that a value is. `vector` is what a text is as a
/// vector of numbers. A value that is no array stays as it is.
pub fn routine_array_set_value(
    name: &str,
    value: SqlValue,
    vector: Option<Vec<String>>,
    offset: usize,
    element: String,
) -> (r: Result<SqlValue, (SqlError, SqlValue)>)
    requires
        offset < usize::MAX,
    ensures
        match (
            r,
            elements(
                value@,
                match vector {
                    Some(v) => Some(text::views(v@)),
                    None => None,
                },
            ),
        ) {
            (Ok(v), Some(items)) => v@ == ValueView::Array(
                with_element(items, offset as nat, element@),
            ),
            (Err((e, kept)), None) => e@ == non_array_error(name@) && kept@ == value@,
            _ => false,
        },
{
    let mut items: Vec<String> = match value {
        SqlValue::Null => {
            let none: Vec<String> = Vec::new();
            assert(text::views(none@) =~= Seq::empty());
            none
        },
        SqlValue::Array(items) => items,
        SqlValue::Text(s) => match vector {
            Some(v) => v,
            None => {
                let e = SqlError::invalid_sql(
                    text::concat("cannot assign array element on non-array routine variable ", name),
                );
                return Err((e, SqlValue::Text(s)));
            },
        },
        kept => {
            let e = SqlError::invalid_sql(
                text::concat("cannot assign array element on non-array routine variable ", name),
            );
            return Err((e, kept));
        },
    };
    set_element(&mut items, offset, element);
    Ok(SqlValue::Array(items))
}

/// Setting an element leaves the others as they were, and the array is as long as
/// it needs to be.
pub proof fn law_with_element(items: Seq<Seq<char>>, offset: nat, element: Seq<char>, other: int)
    requires
        0 <= other < items.len(),
        other != offset,
    ensures
        with_element(items, offset, element)[offset as int] == element,
        with_element(items, offset, element)[other] == items[other],
        with_element(items, offset, element).len() == (if offset < items.len() {
            items.len()
        } else {
            offset + 1
        }),
{
}

/// The last word of a command tag.
pub open spec fn last_word(tag: Seq<char>) -> Seq<char> {
    text::pieces(tag, ' ').last()
}

/// Whether a statement found something: it returned rows, or its tag counts at
/// least one.
pub open spec fn found(rows: nat, tag: Option<Seq<char>>) -> bool {
    rows > 0 || (match tag {
        Some(tag) => match text::signed_value(last_word(tag)) {
            Some(n) => 0 < n <= i64::MAX,
            None => false,
        },
        None => false,
    })
}

/// Whether a statement found something.
pub fn sql_result_found(rows: usize, command_tag: Option<&str>) -> (r: bool)
    ensures
        r == found(rows as nat, text::view_str(command_tag)),
{
    if rows > 0 {
        return true;
    }
    match command_tag {
        Some(tag) => {
            let pieces = text::split_on(tag, ' ');
            proof {
                text::lemma_pieces(tag@, ' ');
            }
            assert(text::views(pieces@).last() == pieces@[pieces@.len() - 1]@);
            match text::parse_signed(pieces[pieces.len() - 1].as_str()) {
                Some(n) => n > 0,
                None => false,
            }
        },
        None => false,
    }
}

} // verus!
