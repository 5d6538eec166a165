//! What types, codecs, keys and databases have to be, stated of each of their parts.
use vstd::prelude::*;
use crate::databases;
use crate::databases::Creation;
use crate::error::ErrorView;
use crate::indexes;
use crate::indexes::{IndexKind, IndexView, KeyedTable, UniqueConstraint};
use crate::pseudo_types;
use crate::pseudo_types::ArgumentMode;
use crate::routine_types;
use crate::routine_types::{CodecDirection, CodecRoutine};
use crate::text;
use crate::user_types;
use crate::user_types::{CompositeAttribute, TableColumn, TypeCatalog, UserType, UserTypeKind};

verus! {

/// An argument goes in unless its mode is out, and comes out unless its mode is in: one
/// that does both is among both. The types of either are in the order of the
/// arguments.
pub proof fn law_argument_types(
    modes: Seq<ArgumentMode>,
    types: Seq<Seq<char>>,
    t: Seq<char>,
)
    requires
        modes.len() == types.len(),
    ensures
        pseudo_types::input_types(modes, types).contains(t) <==> exists|i: int|
            0 <= i < modes.len() && #[trigger] types[i] == t && modes[i] != ArgumentMode::Output,
        pseudo_types::output_types(modes, types).contains(t) <==> exists|i: int|
            0 <= i < modes.len() && #[trigger] types[i] == t && modes[i] != ArgumentMode::Input,
{
    lemma_input_types(modes, types, t);
    lemma_output_types(modes, types, t);
}

proof fn lemma_input_types(modes: Seq<ArgumentMode>, types: Seq<Seq<char>>, t: Seq<char>)
    requires
        modes.len() <= types.len(),
    ensures
        pseudo_types::input_types(modes, types).contains(t) <==> exists|i: int|
            0 <= i < modes.len() && #[trigger] types[i] == t && modes[i] != ArgumentMode::Output,
    decreases modes.len(),
{
    if modes.len() > 0 {
        let rest = modes.drop_last();
        let last = modes.len() - 1;
        lemma_input_types(rest, types, t);
        let before = pseudo_types::input_types(rest, types);
        let all = pseudo_types::input_types(modes, types);
        if before.contains(t) {
            let k = choose|k: int| 0 <= k < before.len() && before[k] == t;
            assert(all[k] == t);
            let i = choose|i: int|
                0 <= i < rest.len() && #[trigger] types[i] == t && rest[i] != ArgumentMode::Output;
            assert(types[i] == t && modes[i] != ArgumentMode::Output);
        }
        if all.contains(t) && !before.contains(t) {
            let k = choose|k: int| 0 <= k < all.len() && all[k] == t;
            if k < before.len() {
                assert(before[k] == t);
            }
            assert(types[last] == t);
        }
        if exists|i: int|
            0 <= i < modes.len() && #[trigger] types[i] == t && modes[i] != ArgumentMode::Output {
            let i = choose|i: int|
                0 <= i < modes.len() && #[trigger] types[i] == t && modes[i] != ArgumentMode::Output;
            if i < last {
                assert(types[i] == t && rest[i] != ArgumentMode::Output);
            } else {
                assert(all[before.len() as int] == t);
            }
        }
    }
}

proof fn lemma_output_types(modes: Seq<ArgumentMode>, types: Seq<Seq<char>>, t: Seq<char>)
    requires
        modes.len() <= types.len(),
    ensures
        pseudo_types::output_types(modes, types).contains(t) <==> exists|i: int|
            0 <= i < modes.len() && #[trigger] types[i] == t && modes[i] != ArgumentMode::Input,
    decreases modes.len(),
{
    if modes.len() > 0 {
        let rest = modes.drop_last();
        let last = modes.len() - 1;
        lemma_output_types(rest, types, t);
        let before = pseudo_types::output_types(rest, types);
        let all = pseudo_types::output_types(modes, types);
        if before.contains(t) {
            let k = choose|k: int| 0 <= k < before.len() && before[k] == t;
            assert(all[k] == t);
            let i = choose|i: int|
                0 <= i < rest.len() && #[trigger] types[i] == t && rest[i] != ArgumentMode::Input;
            assert(types[i] == t && modes[i] != ArgumentMode::Input);
        }
        if all.contains(t) && !before.contains(t) {
            let k = choose|k: int| 0 <= k < all.len() && all[k] == t;
            if k < before.len() {
                assert(before[k] == t);
            }
            assert(types[last] == t);
        }
        if exists|i: int|
            0 <= i < modes.len() && #[trigger] types[i] == t && modes[i] != ArgumentMode::Input {
            let i = choose|i: int|
                0 <= i < modes.len() && #[trigger] types[i] == t && modes[i] != ArgumentMode::Input;
            if i < last {
                assert(types[i] == t && rest[i] != ArgumentMode::Input);
            } else {
                assert(all[before.len() as int] == t);
            }
        }
    }
}

proof fn lemma_polymorphic_names()
    ensures
        "anyelement"@.len() == 10,
        "anyarray"@.len() == 8 && "anyarray"@[3] == 'a',
        "anynonarray"@.len() == 11,
        "anyenum"@.len() == 7,
        "anyrange"@.len() == 8 && "anyrange"@[3] == 'r',
        "anymultirange"@.len() == 13 && "anymultirange"@[3] == 'm',
        "anycompatible"@.len() == 13 && "anycompatible"@[3] == 'c',
        "anycompatiblearray"@.len() == 18 && "anycompatiblearray"@[13] == 'a',
        "anycompatiblenonarray"@.len() == 21,
        "anycompatiblerange"@.len() == 18 && "anycompatiblerange"@[13] == 'r',
        "anycompatiblemultirange"@.len() == 23,
{
    reveal_strlit("anyelement");
    reveal_strlit("anyarray");
    reveal_strlit("anynonarray");
    reveal_strlit("anyenum");
    reveal_strlit("anyrange");
    reveal_strlit("anymultirange");
    reveal_strlit("anycompatible");
    reveal_strlit("anycompatiblearray");
    reveal_strlit("anycompatiblenonarray");
    reveal_strlit("anycompatiblerange");
    reveal_strlit("anycompatiblemultirange");
}

proof fn lemma_families()
    ensures
        pseudo_types::family("anyelement"@) == Some(1u8),
        pseudo_types::family("anyarray"@) == Some(1u8),
        pseudo_types::family("anynonarray"@) == Some(1u8),
        pseudo_types::family("anyenum"@) == Some(1u8),
        pseudo_types::family("anyrange"@) == Some(1u8),
        pseudo_types::family("anymultirange"@) == Some(1u8),
        pseudo_types::family("anycompatible"@) == Some(2u8),
        pseudo_types::family("anycompatiblearray"@) == Some(2u8),
        pseudo_types::family("anycompatiblenonarray"@) == Some(2u8),
        pseudo_types::family("anycompatiblerange"@) == Some(2u8),
        pseudo_types::family("anycompatiblemultirange"@) == Some(2u8),
{
    lemma_polymorphic_names();
    let first = pseudo_types::plain_family();
    let second = pseudo_types::compatible_family();
    assert(first[0] == "anyelement"@);
    assert(first[1] == "anyarray"@);
    assert(first[2] == "anynonarray"@);
    assert(first[3] == "anyenum"@);
    assert(first[4] == "anyrange"@);
    assert(first[5] == "anymultirange"@);
    assert(second[0] == "anycompatible"@);
    assert(second[1] == "anycompatiblearray"@);
    assert(second[2] == "anycompatiblenonarray"@);
    assert(second[3] == "anycompatiblerange"@);
    assert(second[4] == "anycompatiblemultirange"@);
    assert(!first.contains("anycompatible"@)) by {
        if first.contains("anycompatible"@) {
            let k = choose|k: int| 0 <= k < first.len() && first[k] == "anycompatible"@;
        }
    }
    assert(!first.contains("anycompatiblearray"@)) by {
        if first.contains("anycompatiblearray"@) {
            let k = choose|k: int| 0 <= k < first.len() && first[k] == "anycompatiblearray"@;
        }
    }
    assert(!first.contains("anycompatiblenonarray"@)) by {
        if first.contains("anycompatiblenonarray"@) {
            let k = choose|k: int| 0 <= k < first.len() && first[k] == "anycompatiblenonarray"@;
        }
    }
    assert(!first.contains("anycompatiblerange"@)) by {
        if first.contains("anycompatiblerange"@) {
            let k = choose|k: int| 0 <= k < first.len() && first[k] == "anycompatiblerange"@;
        }
    }
    assert(!first.contains("anycompatiblemultirange"@)) by {
        if first.contains("anycompatiblemultirange"@) {
            let k = choose|k: int| 0 <= k < first.len() && first[k] == "anycompatiblemultirange"@;
        }
    }
}

/// A range tells what a result of its family is, and a multirange what a multirange is;
/// nothing else tells what a range is. Any type of a family tells what another of it
/// is that is no range, and none tells anything of the other family.
pub proof fn law_what_tells(result: Seq<char>, input: Seq<char>)
    requires
        pseudo_types::family(result) is Some,
    ensures
        pseudo_types::tells(result, input) ==> pseudo_types::family(input)
            == pseudo_types::family(result),
        pseudo_types::tells("anyrange"@, input) <==> input == "anyrange"@,
        pseudo_types::tells("anycompatiblerange"@, input) <==> input == "anycompatiblerange"@,
        pseudo_types::tells("anymultirange"@, input) <==> input == "anyrange"@ || input
            == "anymultirange"@,
        pseudo_types::tells("anycompatiblemultirange"@, input) <==> input == "anycompatiblerange"@
            || input == "anycompatiblemultirange"@,
        result != "anyrange"@ && result != "anymultirange"@ && result != "anycompatiblerange"@
            && result != "anycompatiblemultirange"@ ==> (pseudo_types::tells(result, input)
            <==> pseudo_types::family(input) == pseudo_types::family(result)),
{
    lemma_families();
    lemma_polymorphic_names();
}

/// The first name that a condition holds of is found, and none where it holds of none.
pub proof fn law_first_where(names: Seq<Seq<char>>, p: spec_fn(Seq<char>) -> bool, from: int)
    requires
        0 <= from <= names.len(),
    ensures
        match pseudo_types::first_where(names, p, from) {
            Some(name) => exists|i: int|
                from <= i < names.len() && #[trigger] names[i] == name && p(name) && forall|k: int|
                    from <= k < i ==> !p(#[trigger] names[k]),
            None => forall|k: int| from <= k < names.len() ==> !p(#[trigger] names[k]),
        },
    decreases names.len() - from,
{
    if from < names.len() {
        law_first_where(names, p, from + 1);
        if p(names[from]) {
            assert(names[from] == names[from] && p(names[from]));
        } else if let Some(name) = pseudo_types::first_where(names, p, from + 1) {
            let i = choose|i: int|
                from + 1 <= i < names.len() && #[trigger] names[i] == name && p(name) && forall|
                    k: int,
                |
                    from + 1 <= k < i ==> !p(#[trigger] names[k]);
            assert(names[i] == name);
        }
    }
}

/// Whatever its language, a routine is refused where an output cannot be told from its
/// inputs, or where it gives out what is internal and takes in nothing that is; one
/// in the language `internal` is refused for nothing else.
pub proof fn law_pseudo_types_refused(
    inputs: Seq<Seq<char>>,
    outputs: Seq<Seq<char>>,
    declared: nat,
    trigger_return: Option<Seq<char>>,
    language: Seq<char>,
)
    ensures
        ({
            let refused = pseudo_types::pseudo_error(
                inputs,
                outputs,
                declared,
                trigger_return,
                language,
            ) is Some;
            let unclear = exists|i: int|
                0 <= i < outputs.len() && pseudo_types::family(#[trigger] outputs[i]) is Some
                    && !pseudo_types::is_deducible(outputs[i], inputs);
            let leaks = outputs.contains("internal"@) && !inputs.contains("internal"@);
            &&& unclear || leaks ==> refused
            &&& language == "internal"@ ==> (refused <==> unclear || leaks)
        }),
{
    let p = pseudo_types::undeducible(inputs);
    law_first_where(outputs, p, 0);
    if exists|i: int|
        0 <= i < outputs.len() && pseudo_types::family(#[trigger] outputs[i]) is Some
            && !pseudo_types::is_deducible(outputs[i], inputs) {
        let i = choose|i: int|
            0 <= i < outputs.len() && pseudo_types::family(#[trigger] outputs[i]) is Some
                && !pseudo_types::is_deducible(outputs[i], inputs);
        assert(p(outputs[i]));
    }
}

/// A function is a codec of a type only where it is there, is an internal one of one
/// argument with the types that are expected, and its symbol is registered for that
/// direction; then it is the codec of the type that is registered.
pub proof fn law_codec(
    routine: Option<CodecRoutine>,
    name: Seq<char>,
    argument: Seq<char>,
    result: Seq<char>,
    direction: CodecDirection,
)
    ensures
        routine_types::codec_type(routine, name, argument, result, direction) is Ok <==> (
        routine is Some && ({
            let r = routine->0;
            &&& r.language@ == "internal"@
            &&& r.argument_types@.len() == 1
            &&& routine_types::names_match(r.argument_types@[0]@, argument)
            &&& routine_types::names_match(r.return_type@, result)
            &&& r.internal_symbol is Some
            &&& r.registered matches Some((d, _)) && d == direction
        })),
        routine_types::codec_type(routine, name, argument, result, direction) matches Ok(oid)
            ==> routine->0.registered == Some((direction, oid)),
{
}

/// The same name with and without the brackets of an array denotes the two numbers of
/// one type: of a user-defined type, or else of the rows of a table.
pub proof fn law_array_of_named(c: TypeCatalog, array: Seq<char>, plain: Seq<char>)
    requires
        user_types::array_name(array).1,
        !user_types::array_name(plain).1,
        user_types::array_name(array).0 == user_types::array_name(plain).0,
    ensures
        user_types::oid_named(c, array) is Some <==> user_types::oid_named(c, plain) is Some,
        user_types::oid_named(c, array) is Some ==> ((exists|i: int|
            0 <= i < c.types@.len() && (#[trigger] c.types@[i]).array_oid == user_types::oid_named(
                c,
                array,
            )->0 && c.types@[i].oid == user_types::oid_named(c, plain)->0) || (exists|i: int|
            0 <= i < c.tables@.len() && (#[trigger] c.tables@[i]).row_array_type_oid
                == user_types::oid_named(c, array)->0 && c.tables@[i].row_type_oid
                == user_types::oid_named(c, plain)->0)),
{
    let name = user_types::array_name(plain).0;
    if let Some((schema_name, own)) = user_types::type_identity(name) {
        lemma_type_named(c.types@, schema_name, own, 0);
        lemma_table_named(c.tables@, schema_name, own, 0);
    }
}

proof fn lemma_type_named(types: Seq<UserType>, schema_name: Seq<char>, name: Seq<char>, from: int)
    ensures
        user_types::type_named(types, schema_name, name, from) matches Some(at) ==> from <= at
            < types.len() && types[at].schema_name@ == schema_name && types[at].name@ == name,
    decreases types.len() - from,
{
    if 0 <= from < types.len() {
        lemma_type_named(types, schema_name, name, from + 1);
    }
}

proof fn lemma_table_named(
    tables: Seq<user_types::TableType>,
    schema_name: Seq<char>,
    name: Seq<char>,
    from: int,
)
    ensures
        user_types::table_named(tables, schema_name, name, from) matches Some(t) ==> exists|i: int|
            from <= i < tables.len() && #[trigger] tables[i] == t,
    decreases tables.len() - from,
{
    if 0 <= from < tables.len() {
        lemma_table_named(tables, schema_name, name, from + 1);
        assert(tables[from] == tables[from]);
    }
}

/// The fields of a composite type are its attributes that have not been dropped, and
/// those of a row the columns that are not hidden, each with its own type.
pub proof fn law_row_fields(
    attributes: Seq<CompositeAttribute>,
    columns: Seq<TableColumn>,
    field: (Seq<char>, Seq<char>),
)
    ensures
        user_types::attribute_fields(attributes).contains(field) <==> exists|i: int|
            0 <= i < attributes.len() && !(#[trigger] attributes[i]).dropped && field == (
                attributes[i].name@,
                attributes[i].pg_type@,
            ),
        user_types::column_fields(columns).contains(field) <==> exists|i: int|
            0 <= i < columns.len() && !(#[trigger] columns[i]).hidden && field == (
                columns[i].name@,
                columns[i].pg_type@,
            ),
    decreases attributes.len() + columns.len(),
{
    if attributes.len() > 0 {
        let rest = attributes.drop_last();
        law_row_fields(rest, columns, field);
        let before = user_types::attribute_fields(rest);
        let all = user_types::attribute_fields(attributes);
        assert(attributes[attributes.len() - 1] == attributes.last());
        assert forall|i: int| 0 <= i < rest.len() implies #[trigger] attributes[i] == rest[i] by {}
        if before.contains(field) {
            let k = choose|k: int| 0 <= k < before.len() && before[k] == field;
            assert(all[k] == field);
            let i = choose|i: int|
                0 <= i < rest.len() && !(#[trigger] rest[i]).dropped && field == (
                    rest[i].name@,
                    rest[i].pg_type@,
                );
            assert(attributes[i] == rest[i]);
        }
        if all.contains(field) && !before.contains(field) {
            let k = choose|k: int| 0 <= k < all.len() && all[k] == field;
            if k < before.len() {
                assert(before[k] == field);
            }
        }
        if exists|i: int|
            0 <= i < attributes.len() && !(#[trigger] attributes[i]).dropped && field == (
                attributes[i].name@,
                attributes[i].pg_type@,
            ) {
            let i = choose|i: int|
                0 <= i < attributes.len() && !(#[trigger] attributes[i]).dropped && field == (
                    attributes[i].name@,
                    attributes[i].pg_type@,
                );
            if i < rest.len() {
                assert(rest[i] == attributes[i]);
            } else {
                assert(all[before.len() as int] == field);
            }
        }
    }
    if columns.len() > 0 {
        let rest = columns.drop_last();
        law_row_fields(attributes, rest, field);
        let before = user_types::column_fields(rest);
        let all = user_types::column_fields(columns);
        assert(columns[columns.len() - 1] == columns.last());
        if before.contains(field) {
            let k = choose|k: int| 0 <= k < before.len() && before[k] == field;
            assert(all[k] == field);
            let i = choose|i: int|
                0 <= i < rest.len() && !(#[trigger] rest[i]).hidden && field == (
                    rest[i].name@,
                    rest[i].pg_type@,
                );
            assert(columns[i] == rest[i]);
        }
        if all.contains(field) && !before.contains(field) {
            let k = choose|k: int| 0 <= k < all.len() && all[k] == field;
            if k < before.len() {
                assert(before[k] == field);
            }
        }
        if exists|i: int|
            0 <= i < columns.len() && !(#[trigger] columns[i]).hidden && field == (
                columns[i].name@,
                columns[i].pg_type@,
            ) {
            let i = choose|i: int|
                0 <= i < columns.len() && !(#[trigger] columns[i]).hidden && field == (
                    columns[i].name@,
                    columns[i].pg_type@,
                );
            if i < rest.len() {
                assert(rest[i] == columns[i]);
            } else {
                assert(all[before.len() as int] == field);
            }
        }
    }
}

/// Values of a base type are sent as its codec only where it both receives and sends
/// them in binary; those of a domain as what it is over.
pub proof fn law_sent_as(kind: UserTypeKind)
    ensures
        match kind {
            UserTypeKind::Base { receive, send, codec_oid, .. } => user_types::binary_base(kind) == (
            if receive is Some && send is Some {
                Some(codec_oid)
            } else {
                None
            }),
            UserTypeKind::Domain { base_oid, base_user_type, .. } => match base_user_type {
                Some(base) => user_types::binary_base(kind) == Some(
                    if base.array {
                        base.array_oid
                    } else {
                        base.oid
                    },
                ),
                None => user_types::binary_base(kind) == Some(base_oid),
            },
            _ => user_types::binary_base(kind) is None,
        },
{
}

/// The index of a key is a unique ordered one on its table, on the fields of the key in
/// their order. A primary key that is hidden or on no fields has none.
pub proof fn law_key_index(t: KeyedTable)
    ensures
        match indexes::primary_key_index(t) {
            Some(index) => {
                &&& !t.hidden_primary_key
                &&& index.unique
                &&& index.kind == IndexKind::BTree
                &&& index.name == t.primary_key_name@
                &&& index.collection == t.name@
                &&& index.fields == text::views(t.primary_key_fields@)
                &&& index.predicate is None && index.exclusion is None
            },
            None => t.hidden_primary_key || t.primary_key_fields@.len() == 0,
        },
{
}

/// An index does for a key only where it is a unique ordered one on the same table and
/// on the same fields in the same order, whatever the case; for a primary key it goes
/// by its name, and for a unique constraint it covers every row and excludes nothing.
pub proof fn law_index_serves(
    index: IndexView,
    name: Seq<char>,
    table: Seq<char>,
    fields: Seq<Seq<char>>,
)
    ensures
        ({
            let wanted = indexes::key_index(name, table, fields);
            let fits = index.unique && index.kind == IndexKind::BTree && text::lower(
                index.collection,
            ) == text::lower(table) && index.fields.len() == fields.len() && forall|k: int|
                0 <= k < fields.len() ==> text::lower(#[trigger] fields[k]) == text::lower(
                    index.fields[k],
                );
            &&& indexes::does_for_primary_key(index, wanted) <==> fits && text::lower(index.name)
                == text::lower(name)
            &&& indexes::does_for_unique(index, wanted) <==> fits && index.predicate is None
                && index.exclusion is None
        }),
{
    let wanted = indexes::key_index(name, table, fields);
    if indexes::fields_match(index.fields, wanted.fields) {
        assert forall|k: int| 0 <= k < fields.len() implies text::lower(#[trigger] fields[k])
            == text::lower(index.fields[k]) by {
            assert(text::same_ignoring_case(index.fields[k], wanted.fields[k]));
        }
    }
    if index.fields.len() == fields.len() && forall|k: int|
        0 <= k < fields.len() ==> text::lower(#[trigger] fields[k]) == text::lower(
            index.fields[k],
        ) {
        assert forall|k: int| 0 <= k < index.fields.len() implies text::same_ignoring_case(
            #[trigger] index.fields[k],
            wanted.fields[k],
        ) by {
            assert(text::lower(fields[k]) == text::lower(index.fields[k]));
        }
    }
}

/// Every unique constraint of a table wants an index of its name on its fields, but the
/// one that is the primary key, and nothing else does.
pub proof fn law_unique_indexes(table: Seq<char>, unique: Seq<UniqueConstraint>, index: IndexView)
    ensures
        indexes::unique_indexes(table, unique).contains(index) <==> exists|i: int|
            0 <= i < unique.len() && !(#[trigger] unique[i]).is_primary_key && index
                == indexes::key_index(unique[i].name@, table, text::views(unique[i].fields@)),
    decreases unique.len(),
{
    if unique.len() > 0 {
        let rest = unique.drop_last();
        law_unique_indexes(table, rest, index);
        let before = indexes::unique_indexes(table, rest);
        let all = indexes::unique_indexes(table, unique);
        assert(unique[unique.len() - 1] == unique.last());
        if before.contains(index) {
            let k = choose|k: int| 0 <= k < before.len() && before[k] == index;
            assert(all[k] == index);
            let i = choose|i: int|
                0 <= i < rest.len() && !(#[trigger] rest[i]).is_primary_key && index
                    == indexes::key_index(rest[i].name@, table, text::views(rest[i].fields@));
            assert(unique[i] == rest[i]);
        }
        if all.contains(index) && !before.contains(index) {
            let k = choose|k: int| 0 <= k < all.len() && all[k] == index;
            if k < before.len() {
                assert(before[k] == index);
            }
        }
        if exists|i: int|
            0 <= i < unique.len() && !(#[trigger] unique[i]).is_primary_key && index
                == indexes::key_index(unique[i].name@, table, text::views(unique[i].fields@)) {
            let i = choose|i: int|
                0 <= i < unique.len() && !(#[trigger] unique[i]).is_primary_key && index
                    == indexes::key_index(unique[i].name@, table, text::views(unique[i].fields@));
            if i < rest.len() {
                assert(rest[i] == unique[i]);
            } else {
                assert(all[before.len() as int] == index);
            }
        }
    }
}

/// An object is created where there is none of its name. Where there is one, nothing is
/// done if IF NOT EXISTS is given, and else it fails. The extension for stored
/// routines is always there.
pub proof fn law_created(kind: Seq<char>, name: Seq<char>, there: bool, if_not_exists: bool)
    ensures
        databases::creation(kind, name, there, if_not_exists) == Ok::<Creation, ErrorView>(
            Creation::Insert,
        ) <==> !there,
        databases::creation(kind, name, there, if_not_exists) is Err <==> there && !if_not_exists,
        text::lower(name) != text::lower("plpgsql"@) ==> (databases::extension_creation(
            name,
            there,
            if_not_exists,
        ) == Ok::<Creation, ErrorView>(Creation::Insert) <==> !there),
        text::lower(name) == text::lower("plpgsql"@) ==> databases::extension_creation(
            name,
            there,
            if_not_exists,
        ) != Ok::<Creation, ErrorView>(Creation::Insert),
{
}

} // verus!
