//! What the statements on memory indexes and memory columns say, stated of their parts.
use vstd::prelude::*;
use crate::error;
use crate::memory_sql;
use crate::memory_sql::TablePart;
use crate::text;

verus! {

/// A part gives an option of that name.
pub open spec fn gives(part: Seq<char>, name: Seq<char>) -> bool {
    memory_sql::key_and_value(part) matches Some((key, _)) && text::lower(text::trim(key)) == name
}

/// Options are refused exactly where a part has no equals sign. Else an option is there
/// exactly where a part gives it, and the last that does says what it is.
pub proof fn law_index_options(parts: Seq<Seq<char>>, name: Seq<char>, at: int)
    ensures
        memory_sql::index_options(parts) is Err <==> exists|i: int|
            0 <= i < parts.len() && memory_sql::key_and_value(#[trigger] parts[i]) is None,
        memory_sql::index_options(parts) matches Ok(m) ==> (m.contains_key(name) <==> exists|i: int|
            0 <= i < parts.len() && gives(#[trigger] parts[i], name)),
        memory_sql::index_options(parts) matches Ok(m) ==> (0 <= at < parts.len() && gives(
            parts[at],
            name,
        ) && (forall|j: int| at < j < parts.len() ==> !gives(#[trigger] parts[j], name)) ==> (
        memory_sql::key_and_value(parts[at]) matches Some((_, value)) && m[name]
            == memory_sql::unquoted(value, '\''))),
    decreases parts.len(),
{
    if parts.len() > 0 {
        let rest = parts.drop_last();
        let last = parts.len() - 1;
        law_index_options(rest, name, at);
        assert(parts[last] == parts.last());
        assert forall|i: int| 0 <= i < last implies #[trigger] parts[i] == rest[i] by {}
        if exists|i: int|
            0 <= i < parts.len() && memory_sql::key_and_value(#[trigger] parts[i]) is None {
            let i = choose|i: int|
                0 <= i < parts.len() && memory_sql::key_and_value(#[trigger] parts[i]) is None;
            if i < last {
                assert(memory_sql::key_and_value(rest[i]) is None);
            }
        }
        if exists|i: int|
            0 <= i < rest.len() && memory_sql::key_and_value(#[trigger] rest[i]) is None {
            let i = choose|i: int|
                0 <= i < rest.len() && memory_sql::key_and_value(#[trigger] rest[i]) is None;
            assert(memory_sql::key_and_value(parts[i]) is None);
        }
        if exists|i: int| 0 <= i < parts.len() && gives(#[trigger] parts[i], name) {
            let i = choose|i: int| 0 <= i < parts.len() && gives(#[trigger] parts[i], name);
            if i < last {
                assert(gives(rest[i], name));
            }
        }
        if exists|i: int| 0 <= i < rest.len() && gives(#[trigger] rest[i], name) {
            let i = choose|i: int| 0 <= i < rest.len() && gives(#[trigger] rest[i], name);
            assert(gives(parts[i], name));
        }
        if 0 <= at < last {
            assert(parts[at] == rest[at]);
            if forall|j: int| at < j < parts.len() ==> !gives(#[trigger] parts[j], name) {
                assert(!gives(parts[last], name));
                assert forall|j: int| at < j < rest.len() implies !gives(
                    #[trigger] rest[j],
                    name,
                ) by {
                    assert(!gives(parts[j], name));
                }
            }
        }
    }
}

/// A memory index is on the table and the field that the statement names, and has the
/// model and the mode of its options: the model as it is given, the mode in lower
/// case. Without options it has neither.
pub proof fn law_memory_index(groups: Seq<Option<Seq<char>>>)
    requires
        memory_sql::has_groups(groups, 2),
    ensures
        memory_sql::memory_index(groups) matches Ok(index) ==> ({
            &&& index.table == memory_sql::unquoted(groups[1]->0, '"')
            &&& index.field == memory_sql::unquoted(groups[2]->0, '"')
            &&& groups.len() > 3 && groups[3] is Some ==> (memory_sql::index_options(
                text::pieces(groups[3]->0, ','),
            ) matches Ok(options) && ({
                &&& index.model is Some <==> options.contains_key("model"@)
                &&& index.model is Some ==> index.model == Some(options["model"@])
                &&& index.mode is Some <==> options.contains_key("mode"@)
                &&& index.mode is Some ==> index.mode == Some(text::lower(options["mode"@]))
            }))
            &&& groups.len() <= 3 || groups[3] is None ==> index.model is None && index.mode is None
        }),
        memory_sql::memory_index(groups) is Err <==> groups.len() > 3 && groups[3] is Some
            && memory_sql::index_options(text::pieces(groups[3]->0, ',')) is Err,
{
}

/// A search has its columns, its table, its field and its text from the places at which
/// the statement has them, and its limit is the number that is written there.
pub proof fn law_similar_select(groups: Seq<Option<Seq<char>>>)
    requires
        memory_sql::has_groups(groups, 5),
    ensures
        memory_sql::similar_select(groups) matches Ok(search) ==> ({
            &&& search.columns == text::trim(groups[1]->0)
            &&& search.table == memory_sql::unquoted(groups[2]->0, '"')
            &&& search.field == memory_sql::unquoted(groups[3]->0, '"')
            &&& search.query == memory_sql::unquoted(groups[4]->0, '\'')
            &&& text::unsigned_value(groups[5]->0) == Some(search.limit)
        }),
        memory_sql::similar_select(groups) is Ok <==> (text::unsigned_value(groups[5]->0) matches Some(
            n,
        ) && n <= usize::MAX),
{
}

/// Without a number every job is processed, and with one as many as it says.
pub proof fn law_jobs_limit(written: Seq<char>)
    ensures
        written.len() == 0 ==> memory_sql::jobs_limit(written) == Ok::<usize, error::ErrorView>(
            usize::MAX,
        ),
        written.len() > 0 ==> (memory_sql::jobs_limit(written) matches Ok(n) ==> text::unsigned_value(
            written,
        ) == Some(n as nat)),
        written.len() > 0 ==> (memory_sql::jobs_limit(written) is Ok <==> (text::unsigned_value(
            written,
        ) matches Some(n) && n <= usize::MAX)),
{
}

/// A part is a memory column only where it begins with a name, that name is no word that
/// begins a constraint, and what follows has the word. Then it is left as it is but
/// for that word.
pub proof fn law_memory_column(p: TablePart)
    ensures
        memory_sql::memory_column(p) matches Some((name, written)) ==> (p.head matches Some((
            token,
            rest,
        )) && ({
            let word = text::lower(memory_sql::unquoted(token@, '"'));
            &&& name == memory_sql::unquoted(token@, '"')
            &&& memory_sql::without_memory(rest@).1
            &&& written == token@ + memory_sql::without_memory(rest@).0
            &&& word != "constraint"@
            &&& word != "primary"@
            &&& word != "foreign"@
            &&& word != "unique"@
            &&& word != "check"@
            &&& word != "exclude"@
        })),
        p.head is None ==> memory_sql::memory_column(p) is None,
{
    let all = seq![
        "constraint"@,
        "primary"@,
        "foreign"@,
        "unique"@,
        "check"@,
        "exclude"@,
    ];
    assert(all[0] == "constraint"@);
    assert(all[1] == "primary"@);
    assert(all[2] == "foreign"@);
    assert(all[3] == "unique"@);
    assert(all[4] == "check"@);
    assert(all[5] == "exclude"@);
}

/// The memory fields of a table are those that its parts define, and each part stands in
/// its place in the plain statement: a memory column without the word, and any other
/// as it is written.
pub proof fn law_memory_fields(parts: Seq<TablePart>, name: Seq<char>, i: int)
    ensures
        memory_sql::memory_fields(parts).contains(name) <==> exists|k: int|
            0 <= k < parts.len() && (memory_sql::memory_column(#[trigger] parts[k]) matches Some((
                n,
                _,
            )) && n == name),
        memory_sql::plain_parts(parts).len() == parts.len(),
        0 <= i < parts.len() ==> match memory_sql::memory_column(parts[i]) {
            Some((_, written)) => memory_sql::plain_parts(parts)[i] == written,
            None => memory_sql::plain_parts(parts)[i] == parts[i].written@,
        },
    decreases parts.len(),
{
    if parts.len() > 0 {
        let rest = parts.drop_last();
        let last = parts.len() - 1;
        law_memory_fields(rest, name, i);
        let before = memory_sql::memory_fields(rest);
        let all = memory_sql::memory_fields(parts);
        assert(parts[last] == parts.last());
        assert forall|k: int| 0 <= k < last implies #[trigger] parts[k] == rest[k] by {}
        if all.contains(name) {
            let k = choose|k: int| 0 <= k < all.len() && all[k] == name;
            if k < before.len() {
                assert(before[k] == name);
                let j = choose|j: int|
                    0 <= j < rest.len() && (memory_sql::memory_column(
                        #[trigger] rest[j],
                    ) matches Some((n, _)) && n == name);
                assert(parts[j] == rest[j]);
            }
        }
        if exists|k: int|
            0 <= k < parts.len() && (memory_sql::memory_column(#[trigger] parts[k]) matches Some((
                n,
                _,
            )) && n == name) {
            let k = choose|k: int|
                0 <= k < parts.len() && (memory_sql::memory_column(
                    #[trigger] parts[k],
                ) matches Some((n, _)) && n == name);
            if k < last {
                assert(parts[k] == rest[k]);
                let j = choose|j: int| 0 <= j < before.len() && before[j] == name;
                assert(all[j] == name);
            } else {
                assert(all[before.len() as int] == name);
            }
        }
    }
}

/// What is taken for the word that makes a column one of memory is that word: it begins
/// where no other word goes on and ends where none does.
pub proof fn law_memory_word(s: Seq<char>, i: int, depth: int, in_string: bool)
    ensures
        memory_sql::memory_place(s, i, depth, in_string) matches Some(at) ==> {
            &&& i <= at && at + 6 <= s.len()
            &&& text::lower(s.subrange(at, at + 6)) == text::lower("memory"@)
            &&& at > 0 ==> !memory_sql::is_ident_char(s[at - 1])
            &&& at + 6 < s.len() ==> !memory_sql::is_ident_char(s[at + 6])
        },
    decreases s.len() - i,
{
    if 0 <= i < s.len() {
        law_memory_word(s, i + 1, depth, true);
        law_memory_word(s, i + 1, depth, false);
        law_memory_word(s, i + 1, depth + 1, false);
        law_memory_word(s, i + 1, depth - 1, false);
        if i + 1 < s.len() {
            law_memory_word(s, i + 2, depth, true);
        }
    }
}

} // verus!
