//! Pseudo-types in the declarations of routines.
use vstd::prelude::*;
use crate::error;
use crate::error::SqlError;
use crate::sets;
use crate::text;

verus! {

/// A type name as pseudo-types are looked up: without quotes and without the
/// schema of built-in types, in lower case.
pub open spec fn bare_type(name: Seq<char>) -> Seq<char> {
    let lowered = text::lower(text::strip(name, '"'));
    if text::starts_with(lowered, "pg_catalog."@) {
        text::strip(lowered.skip("pg_catalog."@.len() as int), '"')
    } else {
        text::strip(lowered, '"')
    }
}

/// The pseudo-type that a type name denotes, if it is one.
pub open spec fn pseudo_type(name: Seq<char>, pseudo_names: Seq<Seq<char>>) -> Option<Seq<char>> {
    let bare = bare_type(name);
    if bare == "record[]"@ || pseudo_names.contains(bare) {
        Some(bare)
    } else {
        None
    }
}

/// The pseudo-type that a type name denotes. The name has single spaces;
/// `pseudo_names` are the pseudo-types that there are, but for arrays of records.
pub fn routine_pseudo_type_name(name: &str, pseudo_names: &Vec<String>) -> (r: Option<String>)
    ensures
        error::view_option(r) == pseudo_type(name@, text::views(pseudo_names@)),
{
    let stripped = text::stripped(name, '"');
    let lowered = text::to_lower(stripped.as_str());
    let bare = match text::without_prefix(lowered.as_str(), "pg_catalog.") {
        Some(rest) => text::stripped(rest.as_str(), '"'),
        None => text::stripped(lowered.as_str(), '"'),
    };
    if text::text_eq(bare.as_str(), "record[]") || sets::holds_text(pseudo_names, bare.as_str()) {
        Some(bare)
    } else {
        None
    }
}

pub open spec fn plain_family() -> Seq<Seq<char>> {
    seq![
        "anyelement"@,
        "anyarray"@,
        "anynonarray"@,
        "anyenum"@,
        "anyrange"@,
        "anymultirange"@,
    ]
}

pub open spec fn compatible_family() -> Seq<Seq<char>> {
    seq![
        "anycompatible"@,
        "anycompatiblearray"@,
        "anycompatiblenonarray"@,
        "anycompatiblerange"@,
        "anycompatiblemultirange"@,
    ]
}

/// The family of a polymorphic type: the plain one or the compatible one.
pub open spec fn family(name: Seq<char>) -> Option<u8> {
    if plain_family().contains(name) {
        Some(1)
    } else if compatible_family().contains(name) {
        Some(2)
    } else {
        None
    }
}

pub fn polymorphic_type_family(name: &str) -> (r: Option<u8>)
    ensures
        r == family(name@),
{
    let plain = [
        "anyelement",
        "anyarray",
        "anynonarray",
        "anyenum",
        "anyrange",
        "anymultirange",
    ];
    assert(text::slice_views(plain@) =~= plain_family());
    let compatible = [
        "anycompatible",
        "anycompatiblearray",
        "anycompatiblenonarray",
        "anycompatiblerange",
        "anycompatiblemultirange",
    ];
    assert(text::slice_views(compatible@) =~= compatible_family());
    if text::one_of(name, &plain) {
        Some(1)
    } else if text::one_of(name, &compatible) {
        Some(2)
    } else {
        None
    }
}

/// Whether an input tells what a polymorphic result is.
pub open spec fn tells(result: Seq<char>, input: Seq<char>) -> bool {
    if result == "anyrange"@ {
        input == "anyrange"@
    } else if result == "anymultirange"@ {
        input == "anyrange"@ || input == "anymultirange"@
    } else if result == "anycompatiblerange"@ {
        input == "anycompatiblerange"@
    } else if result == "anycompatiblemultirange"@ {
        input == "anycompatiblerange"@ || input == "anycompatiblemultirange"@
    } else {
        family(input) == family(result)
    }
}

/// Whether the inputs tell what a result is. One that is not polymorphic needs
/// none.
pub open spec fn is_deducible(result: Seq<char>, inputs: Seq<Seq<char>>) -> bool {
    family(result) is None || exists|k: int|
        0 <= k < inputs.len() && tells(result, #[trigger] inputs[k])
}

fn input_tells(result: &str, input: &str) -> (r: bool)
    ensures
        r == tells(result@, input@),
{
    if text::text_eq(result, "anyrange") {
        text::text_eq(input, "anyrange")
    } else if text::text_eq(result, "anymultirange") {
        text::text_eq(input, "anyrange") || text::text_eq(input, "anymultirange")
    } else if text::text_eq(result, "anycompatiblerange") {
        text::text_eq(input, "anycompatiblerange")
    } else if text::text_eq(result, "anycompatiblemultirange") {
        text::text_eq(input, "anycompatiblerange") || text::text_eq(
            input,
            "anycompatiblemultirange",
        )
    } else {
        match (polymorphic_type_family(input), polymorphic_type_family(result)) {
            (Some(a), Some(b)) => a == b,
            (None, None) => true,
            _ => false,
        }
    }
}

pub fn polymorphic_result_is_deducible(result: &str, inputs: &Vec<String>) -> (r: bool)
    ensures
        r == is_deducible(result@, text::views(inputs@)),
{
    if polymorphic_type_family(result).is_none() {
        return true;
    }
    let ghost all = text::views(inputs@);
    let mut i: usize = 0;
    while i < inputs.len()
        invariant
            i <= inputs.len(),
            all == text::views(inputs@),
            family(result@) is Some,
            forall|k: int| 0 <= k < i ==> !tells(result@, #[trigger] all[k]),
        decreases inputs.len() - i,
    {
        assert(all[i as int] == inputs@[i as int]@);
        if input_tells(result, inputs[i].as_str()) {
            return true;
        }
        i = i + 1;
    }
    false
}

/// A polymorphic result that is an input is deducible from it.
pub proof fn law_same_input_tells(result: Seq<char>, inputs: Seq<Seq<char>>)
    requires
        inputs.contains(result),
    ensures
        is_deducible(result, inputs),
{
    let k = choose|k: int| 0 <= k < inputs.len() && inputs[k] == result;
    assert(tells(result, inputs[k]));
}

/// How an argument goes: in, out, or both.
#[derive(Clone, Copy, Debug, PartialEq, Eq, Structural)]
pub enum ArgumentMode {
    Input,
    Output,
    Both,
}

/// The types of the arguments that go in.
pub open spec fn input_types(modes: Seq<ArgumentMode>, types: Seq<Seq<char>>) -> Seq<Seq<char>>
    decreases modes.len(),
{
    if modes.len() == 0 {
        Seq::empty()
    } else {
        let before = input_types(modes.drop_last(), types);
        if modes.len() > types.len() || modes.last() == ArgumentMode::Output {
            before
        } else {
            before.push(types[modes.len() - 1])
        }
    }
}

/// The types of the arguments that go out.
pub open spec fn output_types(modes: Seq<ArgumentMode>, types: Seq<Seq<char>>) -> Seq<Seq<char>>
    decreases modes.len(),
{
    if modes.len() == 0 {
        Seq::empty()
    } else {
        let before = output_types(modes.drop_last(), types);
        if modes.len() > types.len() || modes.last() == ArgumentMode::Input {
            before
        } else {
            before.push(types[modes.len() - 1])
        }
    }
}

/// The types of the arguments that go in, and of those that go out.
pub fn routine_argument_directions(modes: &Vec<ArgumentMode>, types: &Vec<String>) -> (r: (
    Vec<String>,
    Vec<String>,
))
    ensures
        text::views((r.0)@) == input_types(modes@, text::views(types@)),
        text::views((r.1)@) == output_types(modes@, text::views(types@)),
{
    let ghost all = text::views(types@);
    let mut inputs: Vec<String> = Vec::new();
    let mut outputs: Vec<String> = Vec::new();
    let mut i: usize = 0;
    while i < modes.len()
        invariant
            i <= modes.len(),
            all == text::views(types@),
            text::views(inputs@) == input_types(modes@.take(i as int), all),
            text::views(outputs@) == output_types(modes@.take(i as int), all),
        decreases modes.len() - i,
    {
        assert(modes@.take(i + 1).drop_last() =~= modes@.take(i as int));
        assert(modes@.take(i + 1).last() == modes@[i as int]);
        let ghost ins = inputs@;
        let ghost outs = outputs@;
        if i < types.len() {
            assert(all[i as int] == types@[i as int]@);
            if modes[i] != ArgumentMode::Output {
                inputs.push(types[i].clone());
                assert(text::views(inputs@) =~= text::views(ins).push(all[i as int]));
            }
            if modes[i] != ArgumentMode::Input {
                outputs.push(types[i].clone());
                assert(text::views(outputs@) =~= text::views(outs).push(all[i as int]));
            }
        }
        i = i + 1;
    }
    assert(modes@.take(modes@.len() as int) =~= modes@);
    (inputs, outputs)
}

/// The mode that the words of an argument say: that of the first two that say one, and
/// in where none does.
pub open spec fn spoken_mode(words: Seq<Option<ArgumentMode>>) -> ArgumentMode {
    if words.len() > 0 && words[0] is Some {
        words[0]->0
    } else if words.len() > 1 && words[1] is Some {
        words[1]->0
    } else {
        ArgumentMode::Input
    }
}

pub open spec fn spoken_modes(arguments: Seq<Vec<Option<ArgumentMode>>>) -> Seq<ArgumentMode> {
    arguments.map_values(|words: Vec<Option<ArgumentMode>>| spoken_mode(words@))
}

/// The types of the arguments that go in, and of those that go out, from the modes that
/// the words of each argument say.
pub fn raw_routine_argument_directions(
    arguments: &Vec<Vec<Option<ArgumentMode>>>,
    types: &Vec<String>,
) -> (r: (Vec<String>, Vec<String>))
    ensures
        text::views((r.0)@) == input_types(spoken_modes(arguments@), text::views(types@)),
        text::views((r.1)@) == output_types(spoken_modes(arguments@), text::views(types@)),
{
    let mut modes: Vec<ArgumentMode> = Vec::new();
    let mut i: usize = 0;
    while i < arguments.len()
        invariant
            i <= arguments.len(),
            modes@.len() == i,
            forall|k: int| 0 <= k < i ==> #[trigger] modes@[k] == spoken_mode(arguments@[k]@),
        decreases arguments.len() - i,
    {
        let words = &arguments[i];
        let first = if words.len() > 0 {
            words[0]
        } else {
            None
        };
        let second = if words.len() > 1 {
            words[1]
        } else {
            None
        };
        let mode = match (first, second) {
            (Some(mode), _) => mode,
            (None, Some(mode)) => mode,
            (None, None) => ArgumentMode::Input,
        };
        modes.push(mode);
        i = i + 1;
    }
    assert(modes@ =~= spoken_modes(arguments@));
    routine_argument_directions(&modes, types)
}

/// What a routine is declared to return: nothing, a type, or the columns of a table.
#[derive(Debug)]
pub enum ReturnType {
    Missing,
    Plain(Result<String, SqlError>),
    Table(Vec<Result<String, SqlError>>),
}

/// The types of columns, or the first error among them.
pub open spec fn all_types(list: Seq<Result<String, SqlError>>) -> Result<
    Seq<Seq<char>>,
    error::ErrorView,
>
    decreases list.len(),
{
    if list.len() == 0 {
        Ok(Seq::empty())
    } else {
        match all_types(list.drop_last()) {
            Err(e) => Err(e),
            Ok(before) => match list.last() {
                Ok(t) => Ok(before.push(t@)),
                Err(e) => Err(e@),
            },
        }
    }
}

pub open spec fn return_types(t: ReturnType) -> Result<Seq<Seq<char>>, error::ErrorView> {
    match t {
        ReturnType::Missing => Ok(Seq::empty()),
        ReturnType::Plain(t) => all_types(seq![t]),
        ReturnType::Table(columns) => all_types(columns@),
    }
}

proof fn lemma_all_types_stay(list: Seq<Result<String, SqlError>>, i: int)
    requires
        0 <= i <= list.len(),
        all_types(list.take(i)) is Err,
    ensures
        all_types(list) == all_types(list.take(i)),
    decreases list.len(),
{
    if i == list.len() {
        assert(list.take(i) =~= list);
    } else {
        assert(list.drop_last().take(i) =~= list.take(i));
        lemma_all_types_stay(list.drop_last(), i);
    }
}

fn collect_types(list: &Vec<Result<String, SqlError>>) -> (r: Result<Vec<String>, SqlError>)
    ensures
        match (r, all_types(list@)) {
            (Ok(types), Ok(view)) => text::views(types@) == view,
            (Err(e), Err(view)) => e@ == view,
            _ => false,
        },
{
    let mut out: Vec<String> = Vec::new();
    assert(text::views(out@) =~= Seq::empty());
    let mut i: usize = 0;
    while i < list.len()
        invariant
            i <= list.len(),
            all_types(list@.take(i as int)) == Ok::<Seq<Seq<char>>, error::ErrorView>(
                text::views(out@),
            ),
        decreases list.len() - i,
    {
        assert(list@.take(i + 1).drop_last() =~= list@.take(i as int));
        assert(list@.take(i + 1).last() == list@[i as int]);
        match &list[i] {
            Ok(t) => {
                let ghost prior = out@;
                out.push(t.clone());
                assert(text::views(out@) =~= text::views(prior).push(t@));
            },
            Err(e) => {
                proof {
                    lemma_all_types_stay(list@, i + 1);
                }
                return Err(e.copied());
            },
        }
        i = i + 1;
    }
    assert(list@.take(list@.len() as int) =~= list@);
    Ok(out)
}

/// The types that a routine is declared to return.
pub fn explicit_return_type_schemas(return_type: ReturnType) -> (r: Result<Vec<String>, SqlError>)
    ensures
        match (r, return_types(return_type)) {
            (Ok(types), Ok(view)) => text::views(types@) == view,
            (Err(e), Err(view)) => e@ == view,
            _ => false,
        },
{
    match return_type {
        ReturnType::Missing => {
            let none: Vec<String> = Vec::new();
            assert(text::views(none@) =~= Seq::empty());
            Ok(none)
        },
        ReturnType::Plain(t) => {
            let mut one: Vec<Result<String, SqlError>> = Vec::new();
            one.push(t);
            assert(one@ =~= seq![t]);
            collect_types(&one)
        },
        ReturnType::Table(columns) => collect_types(&columns),
    }
}

/// The first of some names, searched from there on, that a condition holds of.
pub open spec fn first_where(
    names: Seq<Seq<char>>,
    p: spec_fn(Seq<char>) -> bool,
    from: int,
) -> Option<Seq<char>>
    decreases names.len() - from,
{
    if from < 0 || from >= names.len() {
        None
    } else if p(names[from]) {
        Some(names[from])
    } else {
        first_where(names, p, from + 1)
    }
}

/// Whether a result cannot be deduced from the inputs.
pub open spec fn undeducible(inputs: Seq<Seq<char>>) -> spec_fn(Seq<char>) -> bool {
    |result: Seq<char>| family(result) is Some && !is_deducible(result, inputs)
}

/// Whether a pseudo-type is not polymorphic.
pub open spec fn monomorphic() -> spec_fn(Seq<char>) -> bool {
    |name: Seq<char>| family(name) is None
}

/// Whether an SQL function cannot return a pseudo-type.
pub open spec fn no_sql_result() -> spec_fn(Seq<char>) -> bool {
    |name: Seq<char>| name != "record"@ && name != "void"@ && family(name) is None
}

/// Whether a PL/pgSQL function cannot return a pseudo-type.
pub open spec fn no_plpgsql_result() -> spec_fn(Seq<char>) -> bool {
    |name: Seq<char>|
        name != "record"@ && name != "void"@ && name != "trigger"@ && name != "event_trigger"@
            && family(name) is None
}

pub open spec fn definition_error(message: Seq<char>, subject: Seq<char>) -> error::ErrorView {
    error::data_exception_error("42P13"@, message, Some(subject))
}

pub open spec fn feature_error(message: Seq<char>, subject: Seq<char>) -> error::ErrorView {
    error::data_exception_error("0A000"@, message, Some(subject))
}

/// What is wrong with the pseudo-types of a function in SQL.
pub open spec fn sql_pseudo_error(inputs: Seq<Seq<char>>, outputs: Seq<Seq<char>>) -> Option<
    error::ErrorView,
> {
    match first_where(outputs, no_sql_result(), 0) {
        Some(name) => Some(definition_error("SQL functions cannot return type "@ + name, name)),
        None => match first_where(inputs, monomorphic(), 0) {
            Some(name) => Some(
                definition_error("SQL functions cannot have arguments of type "@ + name, name),
            ),
            None => None,
        },
    }
}

/// What is wrong with the pseudo-types of a function in PL/pgSQL.
pub open spec fn plpgsql_pseudo_error(
    inputs: Seq<Seq<char>>,
    outputs: Seq<Seq<char>>,
    declared: nat,
    trigger_return: Option<Seq<char>>,
) -> Option<error::ErrorView> {
    if trigger_return == Some("trigger"@) && declared != 0 {
        Some(
            definition_error("trigger functions cannot have declared arguments"@, "trigger"@),
        )
    } else if trigger_return == Some("event_trigger"@) && declared != 0 {
        Some(
            definition_error(
                "event trigger functions cannot have declared arguments"@,
                "event_trigger"@,
            ),
        )
    } else {
        match first_where(outputs, no_plpgsql_result(), 0) {
            Some(name) => Some(
                feature_error("PL/pgSQL functions cannot return type "@ + name, name),
            ),
            None => match first_where(inputs, monomorphic(), 0) {
                Some(name) => Some(
                    feature_error("PL/pgSQL functions cannot accept type "@ + name, name),
                ),
                None => None,
            },
        }
    }
}

/// What is wrong with the pseudo-types of a routine.
pub open spec fn pseudo_error(
    inputs: Seq<Seq<char>>,
    outputs: Seq<Seq<char>>,
    declared: nat,
    trigger_return: Option<Seq<char>>,
    language: Seq<char>,
) -> Option<error::ErrorView> {
    match first_where(outputs, undeducible(inputs), 0) {
        Some(name) => Some(definition_error("cannot determine result data type"@, name)),
        None => if outputs.contains("internal"@) && !inputs.contains("internal"@) {
            Some(
                definition_error("unsafe use of pseudo-type \"internal\""@, "internal"@),
            )
        } else if language == "internal"@ {
            None
        } else if language == "sql"@ {
            sql_pseudo_error(inputs, outputs)
        } else {
            plpgsql_pseudo_error(inputs, outputs, declared, trigger_return)
        },
    }
}

fn first_undeducible(outputs: &Vec<String>, inputs: &Vec<String>) -> (r: Option<String>)
    ensures
        error::view_option(r) == first_where(
            text::views(outputs@),
            undeducible(text::views(inputs@)),
            0,
        ),
{
    let ghost all = text::views(outputs@);
    let ghost p = undeducible(text::views(inputs@));
    let mut i: usize = 0;
    while i < outputs.len()
        invariant
            i <= outputs.len(),
            all == text::views(outputs@),
            p == undeducible(text::views(inputs@)),
            first_where(all, p, 0) == first_where(all, p, i as int),
        decreases outputs.len() - i,
    {
        assert(all[i as int] == outputs@[i as int]@);
        if polymorphic_type_family(outputs[i].as_str()).is_some()
            && !polymorphic_result_is_deducible(outputs[i].as_str(), inputs) {
            return Some(outputs[i].clone());
        }
        i = i + 1;
    }
    None
}

fn first_monomorphic(names: &Vec<String>) -> (r: Option<String>)
    ensures
        error::view_option(r) == first_where(text::views(names@), monomorphic(), 0),
{
    let ghost all = text::views(names@);
    let mut i: usize = 0;
    while i < names.len()
        invariant
            i <= names.len(),
            all == text::views(names@),
            first_where(all, monomorphic(), 0) == first_where(all, monomorphic(), i as int),
        decreases names.len() - i,
    {
        assert(all[i as int] == names@[i as int]@);
        if polymorphic_type_family(names[i].as_str()).is_none() {
            return Some(names[i].clone());
        }
        i = i + 1;
    }
    None
}

fn first_bad_result(names: &Vec<String>, plpgsql: bool) -> (r: Option<String>)
    ensures
        error::view_option(r) == first_where(
            text::views(names@),
            if plpgsql {
                no_plpgsql_result()
            } else {
                no_sql_result()
            },
            0,
        ),
{
    let ghost all = text::views(names@);
    let ghost p = if plpgsql {
        no_plpgsql_result()
    } else {
        no_sql_result()
    };
    let mut i: usize = 0;
    while i < names.len()
        invariant
            i <= names.len(),
            all == text::views(names@),
            p == (if plpgsql {
                no_plpgsql_result()
            } else {
                no_sql_result()
            }),
            first_where(all, p, 0) == first_where(all, p, i as int),
        decreases names.len() - i,
    {
        assert(all[i as int] == names@[i as int]@);
        let name = names[i].as_str();
        let fine = text::text_eq(name, "record") || text::text_eq(name, "void") || (plpgsql && (
        text::text_eq(name, "trigger") || text::text_eq(name, "event_trigger")))
            || polymorphic_type_family(name).is_some();
        if !fine {
            return Some(names[i].clone());
        }
        i = i + 1;
    }
    None
}

fn definition_failure(message: String, subject: &str) -> (e: SqlError)
    ensures
        e@ == definition_error(message@, subject@),
{
    SqlError::data_exception("42P13", message, Some(subject.to_owned()))
}

fn feature_failure(message: String, subject: &str) -> (e: SqlError)
    ensures
        e@ == feature_error(message@, subject@),
{
    SqlError::data_exception("0A000", message, Some(subject.to_owned()))
}

/// Refuses pseudo-types that a routine must not have. They are given as those of
/// its inputs and of its outputs; `trigger_return` is what it returns as a
/// trigger.
pub fn validate_routine_pseudo_types(
    pseudo_inputs: &Vec<String>,
    pseudo_outputs: &Vec<String>,
    declared_arg_count: usize,
    trigger_return: Option<&str>,
    language: &str,
) -> (r: Result<(), SqlError>)
    ensures
        match (
            r,
            pseudo_error(
                text::views(pseudo_inputs@),
                text::views(pseudo_outputs@),
                declared_arg_count as nat,
                text::view_str(trigger_return),
                language@,
            ),
        ) {
            (Ok(()), None) => true,
            (Err(e), Some(view)) => e@ == view,
            _ => false,
        },
{
    match first_undeducible(pseudo_outputs, pseudo_inputs) {
        Some(name) => {
            return Err(
                definition_failure("cannot determine result data type".to_owned(), name.as_str()),
            );
        },
        None => {},
    }
    if sets::holds_text(pseudo_outputs, "internal") && !sets::holds_text(pseudo_inputs, "internal") {
        return Err(
            definition_failure("unsafe use of pseudo-type \"internal\"".to_owned(), "internal"),
        );
    }
    if text::text_eq(language, "internal") {
        return Ok(());
    }
    if text::text_eq(language, "sql") {
        match first_bad_result(pseudo_outputs, false) {
            Some(name) => {
                return Err(
                    definition_failure(
                        text::concat("SQL functions cannot return type ", name.as_str()),
                        name.as_str(),
                    ),
                );
            },
            None => {},
        }
        return match first_monomorphic(pseudo_inputs) {
            Some(name) => Err(
                definition_failure(
                    text::concat("SQL functions cannot have arguments of type ", name.as_str()),
                    name.as_str(),
                ),
            ),
            None => Ok(()),
        };
    }
    if declared_arg_count != 0 {
        match trigger_return {
            Some(name) => {
                if text::text_eq(name, "trigger") {
                    return Err(
                        definition_failure(
                            "trigger functions cannot have declared arguments".to_owned(),
                            "trigger",
                        ),
                    );
                }
                if text::text_eq(name, "event_trigger") {
                    return Err(
                        definition_failure(
                            "event trigger functions cannot have declared arguments".to_owned(),
                            "event_trigger",
                        ),
                    );
                }
            },
            None => {},
        }
    }
    match first_bad_result(pseudo_outputs, true) {
        Some(name) => {
            return Err(
                feature_failure(
                    text::concat("PL/pgSQL functions cannot return type ", name.as_str()),
                    name.as_str(),
                ),
            );
        },
        None => {},
    }
    match first_monomorphic(pseudo_inputs) {
        Some(name) => Err(
            feature_failure(
                text::concat("PL/pgSQL functions cannot accept type ", name.as_str()),
                name.as_str(),
            ),
        ),
        None => Ok(()),
    }
}

/// The body of a function in the language `internal`: a string literal, a literal
/// with a module path, another expression, or none.
#[derive(Debug)]
pub enum InternalBody {
    Literal(String),
    Expression,
    LinkedOrMissing,
}

/// The registered symbol that the body of a function in the language `internal`
/// names.
pub fn create_function_internal_symbol(body: &InternalBody) -> (r: Result<String, SqlError>)
    ensures
        match (*body, r) {
            (InternalBody::Literal(symbol), Ok(name)) => name@ == text::lower(symbol@),
            (InternalBody::Expression, Err(e)) => e@ == error::invalid_sql_error(
                "LANGUAGE internal symbol must be a string literal"@,
            ),
            (InternalBody::LinkedOrMissing, Err(e)) => e@ == error::unsupported_error(
                "LANGUAGE internal requires exactly one registered symbol and no module path"@,
            ),
            _ => false,
        },
{
    match body {
        InternalBody::Literal(symbol) => Ok(text::to_lower(symbol.as_str())),
        InternalBody::Expression => Err(
            SqlError::invalid_sql("LANGUAGE internal symbol must be a string literal".to_owned()),
        ),
        InternalBody::LinkedOrMissing => Err(
            SqlError::unsupported(
                "LANGUAGE internal requires exactly one registered symbol and no module path".to_owned(),
            ),
        ),
    }
}

} // verus!
