//! The types that routines name.
use vstd::prelude::*;
use crate::error;
use crate::error::SqlError;
use crate::text;
use crate::user_types::{UserType, UserTypeKind};

verus! {

/// The last part of a dotted name.
pub open spec fn last_part(name: Seq<char>) -> Seq<char> {
    text::pieces(name, '.').last()
}

fn last_part_of(name: &str) -> (r: String)
    ensures
        r@ == last_part(name@),
{
    let pieces = text::split_on(name, '.');
    let ghost all = text::views(pieces@);
    proof {
        text::lemma_pieces(name@, '.');
    }
    assert(all.last() == pieces@[pieces@.len() - 1]@);
    pieces[pieces.len() - 1].clone()
}

/// A type name without the quotes round it, in lower case.
pub open spec fn normal_type(name: Seq<char>) -> Seq<char> {
    text::lower(text::strip(name, '"'))
}

/// Whether two names denote the same type: they are the same, or at least end in
/// the same part.
pub open spec fn names_match(actual: Seq<char>, expected: Seq<char>) -> bool {
    normal_type(actual) == normal_type(expected) || last_part(normal_type(actual)) == last_part(
        normal_type(expected),
    )
}

pub fn routine_type_matches(actual: &str, expected: &str) -> (r: bool)
    ensures
        r == names_match(actual@, expected@),
{
    let bare = text::stripped(actual, '"');
    let a = text::to_lower(bare.as_str());
    let wanted = text::stripped(expected, '"');
    let e = text::to_lower(wanted.as_str());
    if text::text_eq(a.as_str(), e.as_str()) {
        return true;
    }
    let x = last_part_of(a.as_str());
    let y = last_part_of(e.as_str());
    text::text_eq(x.as_str(), y.as_str())
}

/// Matching is symmetric, and a name matches itself.
pub proof fn law_names_match(a: Seq<char>, b: Seq<char>)
    ensures
        names_match(a, a),
        names_match(a, b) == names_match(b, a),
{
}

/// The name that a type goes by: with its schema, unless that is `public`.
pub open spec fn identity(t: UserType) -> Seq<char> {
    if t.schema_name@ == "public"@ {
        t.name@
    } else {
        t.schema_name@ + "."@ + t.name@
    }
}

fn identity_of(t: &UserType) -> (r: String)
    ensures
        r@ == identity(*t),
{
    if text::text_eq(t.schema_name.as_str(), "public") {
        t.name.clone()
    } else {
        text::concat3(t.schema_name.as_str(), ".", t.name.as_str())
    }
}

/// Whether one of some type names is that of a type.
pub open spec fn one_matches(names: Seq<Seq<char>>, wanted: Seq<char>) -> bool {
    exists|k: int| 0 <= k < names.len() && names_match(#[trigger] names[k], wanted)
}

/// Whether a routine returns a type or takes one.
pub fn routine_depends_on_user_type(
    return_type: &str,
    argument_types: &Vec<String>,
    t: &UserType,
) -> (r: bool)
    ensures
        r == (names_match(return_type@, identity(*t)) || one_matches(
            text::views(argument_types@),
            identity(*t),
        )),
{
    let wanted = identity_of(t);
    if routine_type_matches(return_type, wanted.as_str()) {
        return true;
    }
    let ghost all = text::views(argument_types@);
    let mut i: usize = 0;
    while i < argument_types.len()
        invariant
            i <= argument_types.len(),
            wanted@ == identity(*t),
            all == text::views(argument_types@),
            forall|k: int| 0 <= k < i ==> !names_match(#[trigger] all[k], wanted@),
        decreases argument_types.len() - i,
    {
        assert(all[i as int] == argument_types@[i as int]@);
        if routine_type_matches(argument_types[i].as_str(), wanted.as_str()) {
            return true;
        }
        i = i + 1;
    }
    false
}

/// A declaration without the brackets of an array.
pub open spec fn element_name(declaration: Seq<char>) -> Seq<char> {
    let bare = text::trim(declaration);
    if text::ends_with(bare, "[]"@) {
        bare.take(bare.len() - 2)
    } else {
        bare
    }
}

/// A declaration of a type after the type has been renamed.
pub open spec fn declaration_rewritten(
    declaration: Seq<char>,
    previous: UserType,
    updated: UserType,
) -> Option<Seq<char>> {
    if !names_match(element_name(declaration), identity(previous)) {
        None
    } else if text::ends_with(text::trim_end(declaration), "[]"@) {
        Some(identity(updated) + "[]"@)
    } else {
        Some(identity(updated))
    }
}

/// A declaration of a type after the type has been renamed, if it is one of it.
pub fn rewrite_routine_type_identity(declaration: &str, previous: &UserType, updated: &UserType) -> (r:
    Option<String>)
    ensures
        error::view_option(r) == declaration_rewritten(declaration@, *previous, *updated),
{
    let end = text::trimmed_end(declaration);
    let array = text::has_suffix(end.as_str(), "[]");
    let trimmed = text::trimmed(declaration);
    let bare = if text::has_suffix(trimmed.as_str(), "[]") {
        proof {
            reveal_strlit("[]");
        }
        let chars = text::chars_of(trimmed.as_str());
        let own = text::string_range(chars.as_slice(), 0, chars.len() - 2);
        assert(own@ =~= trimmed@.take(trimmed@.len() - 2));
        own
    } else {
        trimmed
    };
    let wanted = identity_of(previous);
    if !routine_type_matches(bare.as_str(), wanted.as_str()) {
        return None;
    }
    let name = identity_of(updated);
    if array {
        Some(text::concat(name.as_str(), "[]"))
    } else {
        Some(name)
    }
}

/// Whether a character can be part of a name.
pub open spec fn is_name_char(c: char) -> bool {
    text::is_alpha(c) || text::is_digit(c) || c == '_' || c == '$' || c == '.'
}

fn name_char(c: char) -> (r: bool)
    ensures
        r == is_name_char(c),
{
    text::alpha(c) || text::digit(c) || c == '_' || c == '$' || c == '.'
}

/// An argument after the type that it names has been renamed: where the first
/// mention of the type stands by itself, it is replaced.
pub open spec fn argument_rewritten(argument: Seq<char>, previous: UserType, updated: UserType) -> Option<
    Seq<char>,
> {
    let needle = text::lower(identity(previous));
    match text::find_from(text::lower(argument), needle, 0) {
        None => None,
        Some(at) => {
            let end = at + needle.len();
            if (at > 0 && is_name_char(argument[at - 1])) || (end < argument.len() && is_name_char(
                argument[end],
            )) {
                None
            } else {
                Some(argument.take(at) + identity(updated) + argument.skip(end))
            }
        },
    }
}

/// An argument after the type that it names has been renamed, if it names it.
pub fn rewrite_routine_argument_type_identity(
    argument: &str,
    previous: &UserType,
    updated: &UserType,
) -> (r: Option<String>)
    ensures
        error::view_option(r) == argument_rewritten(argument@, *previous, *updated),
{
    let lowered = text::to_lower(argument);
    let own = identity_of(previous);
    let needle = text::to_lower(own.as_str());
    let hay = text::chars_of(lowered.as_str());
    let pin = text::chars_of(needle.as_str());
    proof {
        text::lemma_find_from(lowered@, needle@, 0);
    }
    match text::find(hay.as_slice(), pin.as_slice(), 0) {
        None => None,
        Some(at) => {
            let chars = text::chars_of(argument);
            let count = chars.len();
            assert(at + pin@.len() <= count);
            let end = at + pin.len();
            if at > 0 && name_char(chars[at - 1]) {
                return None;
            }
            if end < count && name_char(chars[end]) {
                return None;
            }
            let before = text::string_range(chars.as_slice(), 0, at);
            let after = text::string_range(chars.as_slice(), end, count);
            assert(before@ =~= argument@.take(at as int));
            assert(after@ =~= argument@.skip(end as int));
            let name = identity_of(updated);
            Some(text::concat3(before.as_str(), name.as_str(), after.as_str()))
        },
    }
}

/// Whether a name is one, without the case of its letters.
pub open spec fn optional_is(name: Option<Seq<char>>, wanted: Seq<char>) -> bool {
    match name {
        Some(n) => text::same_ignoring_case(n, wanted),
        None => false,
    }
}

fn optional_matches(name: &Option<String>, wanted: &str) -> (r: bool)
    ensures
        r == optional_is(error::view_option(*name), wanted@),
{
    match name {
        Some(n) => text::eq_ignore_case(n.as_str(), wanted),
        None => false,
    }
}

/// Whether a base type has a routine as one of its codecs.
pub open spec fn uses_routine(t: UserType, routine: Seq<char>) -> bool {
    match t.kind {
        UserTypeKind::Base { input, output, receive, send, .. } => {
            ||| text::same_ignoring_case(input@, routine)
            ||| text::same_ignoring_case(output@, routine)
            ||| optional_is(error::view_option(receive), routine)
            ||| optional_is(error::view_option(send), routine)
        },
        _ => false,
    }
}

pub fn base_type_uses_routine(t: &UserType, routine_name: &str) -> (r: bool)
    ensures
        r == uses_routine(*t, routine_name@),
{
    match &t.kind {
        UserTypeKind::Base { input, output, receive, send, .. } => text::eq_ignore_case(
            input.as_str(),
            routine_name,
        ) || text::eq_ignore_case(output.as_str(), routine_name) || optional_matches(
            receive,
            routine_name,
        ) || optional_matches(send, routine_name),
        _ => false,
    }
}

/// Which way a codec goes.
#[derive(Clone, Copy, Debug, PartialEq, Eq, Structural)]
pub enum CodecDirection {
    Input,
    Output,
    Receive,
    Send,
}

/// A function that may be a codec: its language, its argument types, what it
/// returns, its symbol where it has one, and the registered codec of that symbol,
/// with its direction and the number of its type.
#[derive(Debug)]
pub struct CodecRoutine {
    pub language: String,
    pub argument_types: Vec<String>,
    pub return_type: String,
    pub internal_symbol: Option<String>,
    pub registered: Option<(CodecDirection, i64)>,
}

pub open spec fn codec_error(routine: Seq<char>, what: Seq<char>) -> error::ErrorView {
    error::invalid_sql_error("type codec function "@ + routine + what)
}

/// The number of the type that a codec reads or writes, or what is wrong with it.
pub open spec fn codec_type(
    routine: Option<CodecRoutine>,
    name: Seq<char>,
    expected_argument: Seq<char>,
    expected_return: Seq<char>,
    direction: CodecDirection,
) -> Result<i64, error::ErrorView> {
    match routine {
        None => Err(codec_error(name, " does not exist"@)),
        Some(r) => if r.language@ != "internal"@ || r.argument_types@.len() != 1 {
            Err(
                codec_error(name, " must be a one-argument LANGUAGE internal function"@),
            )
        } else if !names_match(r.argument_types@[0]@, expected_argument) || !names_match(
            r.return_type@,
            expected_return,
        ) {
            Err(codec_error(name, " has an invalid signature"@))
        } else if r.internal_symbol is None {
            Err(codec_error(name, " has no registered internal symbol"@))
        } else {
            match r.registered {
                None => Err(codec_error(name, " uses an unregistered internal symbol"@)),
                Some((actual, oid)) => if actual == direction {
                    Ok(oid)
                } else {
                    Err(codec_error(name, " uses the wrong codec direction"@))
                },
            }
        },
    }
}

fn codec_failure(routine: &str, what: &str) -> (e: SqlError)
    ensures
        e@ == codec_error(routine@, what@),
{
    SqlError::invalid_sql(text::concat3("type codec function ", routine, what))
}

/// The number of the type that a codec of a base type reads or writes.
pub fn resolve_base_codec_routine(
    routine: &Option<CodecRoutine>,
    routine_name: &str,
    expected_argument: &str,
    expected_return: &str,
    direction: CodecDirection,
) -> (out: Result<i64, SqlError>)
    ensures
        match (
            out,
            codec_type(
                *routine,
                routine_name@,
                expected_argument@,
                expected_return@,
                direction,
            ),
        ) {
            (Ok(a), Ok(b)) => a == b,
            (Err(e), Err(view)) => e@ == view,
            _ => false,
        },
{
    let r = match routine {
        None => {
            return Err(codec_failure(routine_name, " does not exist"));
        },
        Some(r) => r,
    };
    if !text::text_eq(r.language.as_str(), "internal") || r.argument_types.len() != 1 {
        return Err(
            codec_failure(routine_name, " must be a one-argument LANGUAGE internal function"),
        );
    }
    if !routine_type_matches(r.argument_types[0].as_str(), expected_argument)
        || !routine_type_matches(r.return_type.as_str(), expected_return) {
        return Err(codec_failure(routine_name, " has an invalid signature"));
    }
    if r.internal_symbol.is_none() {
        return Err(codec_failure(routine_name, " has no registered internal symbol"));
    }
    match r.registered {
        None => Err(codec_failure(routine_name, " uses an unregistered internal symbol")),
        Some((actual, oid)) => {
            if actual == direction {
                Ok(oid)
            } else {
                Err(codec_failure(routine_name, " uses the wrong codec direction"))
            }
        },
    }
}

} // verus!
