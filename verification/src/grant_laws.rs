//! What GRANT gives and what is listed of it, stated of each privilege and each grant.
use vstd::prelude::*;
use crate::catalog;
use crate::catalog::CellView;
use crate::error::SqlError;
use crate::grants;
use crate::grants::{GrantObjects, GrantPrivileges, GranteeKind};
use crate::privileges::{GrantView, PrivilegeObjectType};
use crate::roles;
use crate::schema_laws;

verus! {

proof fn lemma_privilege_names()
    ensures
        "CONNECT"@.len() == 7 && "CONNECT"@[0] == 'C',
        "CREATE"@.len() == 6 && "CREATE"@[0] == 'C',
        "TEMPORARY"@.len() == 9,
        "USAGE"@.len() == 5,
        "DELETE"@.len() == 6 && "DELETE"@[0] == 'D',
        "INSERT"@.len() == 6 && "INSERT"@[0] == 'I',
        "REFERENCES"@.len() == 10,
        "SELECT"@.len() == 6 && "SELECT"@[0] == 'S',
        "TRIGGER"@.len() == 7 && "TRIGGER"@[0] == 'T',
        "TRUNCATE"@.len() == 8,
        "UPDATE"@.len() == 6 && "UPDATE"@[0] == 'U',
        "EXECUTE"@.len() == 7 && "EXECUTE"@[0] == 'E',
{
    reveal_strlit("CONNECT");
    reveal_strlit("CREATE");
    reveal_strlit("TEMPORARY");
    reveal_strlit("USAGE");
    reveal_strlit("DELETE");
    reveal_strlit("INSERT");
    reveal_strlit("REFERENCES");
    reveal_strlit("SELECT");
    reveal_strlit("TRIGGER");
    reveal_strlit("TRUNCATE");
    reveal_strlit("UPDATE");
    reveal_strlit("EXECUTE");
}

/// GRANT ALL gives each privilege on those objects that can have it, and no other.
pub proof fn law_all_privileges(objects: GrantObjects)
    ensures
        grants::names_of(GrantPrivileges::All, objects) is Err <==> objects is Other,
        grants::names_of(GrantPrivileges::All, objects) matches Ok(names) ==> ({
            &&& names.contains("CONNECT"@) <==> objects is Databases
            &&& names.contains("CREATE"@) <==> objects is Databases || objects is Schemas
            &&& names.contains("TEMPORARY"@) <==> objects is Databases
            &&& names.contains("USAGE"@) <==> objects is Schemas || objects is Sequences
                || objects is AllSequencesInSchema
            &&& names.contains("DELETE"@) <==> objects is Tables || objects is AllTablesInSchema
            &&& names.contains("INSERT"@) <==> objects is Tables || objects is AllTablesInSchema
            &&& names.contains("REFERENCES"@) <==> objects is Tables
                || objects is AllTablesInSchema
            &&& names.contains("SELECT"@) <==> objects is Tables || objects is AllTablesInSchema
                || objects is Sequences || objects is AllSequencesInSchema
            &&& names.contains("TRIGGER"@) <==> objects is Tables || objects is AllTablesInSchema
            &&& names.contains("TRUNCATE"@) <==> objects is Tables || objects is AllTablesInSchema
            &&& names.contains("UPDATE"@) <==> objects is Tables || objects is AllTablesInSchema
                || objects is Sequences || objects is AllSequencesInSchema
            &&& names.contains("EXECUTE"@) <==> objects is Function
                || objects is AllFunctionsInSchema
        }),
{
    lemma_privilege_names();
    if let Ok(names) = grants::names_of(GrantPrivileges::All, objects) {
        if objects is Databases {
            assert(names[0] == "CONNECT"@);
            assert(names[1] == "CREATE"@);
            assert(names[2] == "TEMPORARY"@);
            assert(names.len() == 3);
        }
        if objects is Schemas {
            assert(names[0] == "CREATE"@);
            assert(names[1] == "USAGE"@);
            assert(names.len() == 2);
        }
        if objects is Tables || objects is AllTablesInSchema {
            assert(names[0] == "DELETE"@);
            assert(names[1] == "INSERT"@);
            assert(names[2] == "REFERENCES"@);
            assert(names[3] == "SELECT"@);
            assert(names[4] == "TRIGGER"@);
            assert(names[5] == "TRUNCATE"@);
            assert(names[6] == "UPDATE"@);
            assert(names.len() == 7);
        }
        if objects is Sequences || objects is AllSequencesInSchema {
            assert(names[0] == "SELECT"@);
            assert(names[1] == "UPDATE"@);
            assert(names[2] == "USAGE"@);
            assert(names.len() == 3);
        }
        if objects is Function || objects is AllFunctionsInSchema {
            assert(names[0] == "EXECUTE"@);
            assert(names.len() == 1);
        }
        if names.contains("CONNECT"@) {
            let k = choose|k: int| 0 <= k < names.len() && names[k] == "CONNECT"@;
            assert(names[k] == "CONNECT"@);
        }
        if names.contains("CREATE"@) {
            let k = choose|k: int| 0 <= k < names.len() && names[k] == "CREATE"@;
            assert(names[k] == "CREATE"@);
        }
        if names.contains("TEMPORARY"@) {
            let k = choose|k: int| 0 <= k < names.len() && names[k] == "TEMPORARY"@;
            assert(names[k] == "TEMPORARY"@);
        }
        if names.contains("USAGE"@) {
            let k = choose|k: int| 0 <= k < names.len() && names[k] == "USAGE"@;
            assert(names[k] == "USAGE"@);
        }
        if names.contains("DELETE"@) {
            let k = choose|k: int| 0 <= k < names.len() && names[k] == "DELETE"@;
            assert(names[k] == "DELETE"@);
        }
        if names.contains("INSERT"@) {
            let k = choose|k: int| 0 <= k < names.len() && names[k] == "INSERT"@;
            assert(names[k] == "INSERT"@);
        }
        if names.contains("REFERENCES"@) {
            let k = choose|k: int| 0 <= k < names.len() && names[k] == "REFERENCES"@;
            assert(names[k] == "REFERENCES"@);
        }
        if names.contains("SELECT"@) {
            let k = choose|k: int| 0 <= k < names.len() && names[k] == "SELECT"@;
            assert(names[k] == "SELECT"@);
        }
        if names.contains("TRIGGER"@) {
            let k = choose|k: int| 0 <= k < names.len() && names[k] == "TRIGGER"@;
            assert(names[k] == "TRIGGER"@);
        }
        if names.contains("TRUNCATE"@) {
            let k = choose|k: int| 0 <= k < names.len() && names[k] == "TRUNCATE"@;
            assert(names[k] == "TRUNCATE"@);
        }
        if names.contains("UPDATE"@) {
            let k = choose|k: int| 0 <= k < names.len() && names[k] == "UPDATE"@;
            assert(names[k] == "UPDATE"@);
        }
        if names.contains("EXECUTE"@) {
            let k = choose|k: int| 0 <= k < names.len() && names[k] == "EXECUTE"@;
            assert(names[k] == "EXECUTE"@);
        }
    }
}

/// A grant to PUBLIC is to everyone, and one to a role to the role of that name; any
/// other kind is refused.
pub proof fn law_granted_to(kind: GranteeKind, name: Option<Result<String, SqlError>>)
    ensures
        kind is Public ==> (grants::grantee_name(kind, name) matches Ok(to) && to == "public"@),
        kind is Other ==> grants::grantee_name(kind, name) is Err,
        kind is Role ==> (grants::grantee_name(kind, name) is Ok <==> (name matches Some(Ok(_)))),
        kind is Role && name is Some && name->0 is Ok ==> (grants::grantee_name(
            kind,
            name,
        ) matches Ok(to) && to == roles::normal_role(name->0->Ok_0@)),
{
}

proof fn lemma_cell_names()
    ensures
        "grantor"@.len() == 7 && "grantor"@[5] == 'o',
        "grantee"@.len() == 7 && "grantee"@[5] == 'e',
        "table_catalog"@.len() == 13,
        "table_schema"@.len() == 12 && "table_schema"@[0] == 't',
        "table_name"@.len() == 10,
        "privilege_type"@.len() == 14 && "privilege_type"@[0] == 'p',
        "is_grantable"@.len() == 12 && "is_grantable"@[0] == 'i',
        "with_hierarchy"@.len() == 14 && "with_hierarchy"@[0] == 'w',
{
    reveal_strlit("grantor");
    reveal_strlit("grantee");
    reveal_strlit("table_catalog");
    reveal_strlit("table_schema");
    reveal_strlit("table_name");
    reveal_strlit("privilege_type");
    reveal_strlit("is_grantable");
    reveal_strlit("with_hierarchy");
}

proof fn lemma_grant_cells(g: GrantView)
    ensures
        ({
            let row = grants::table_grant_row(g);
            &&& schema_laws::shows(row, "grantee"@, g.grantee)
            &&& schema_laws::shows(row, "table_name"@, g.object_name)
            &&& schema_laws::shows(row, "privilege_type"@, g.privilege)
            &&& schema_laws::shows(row, "is_grantable"@, "NO"@)
            &&& schema_laws::shows(row, "with_hierarchy"@, "NO"@)
        }),
{
    lemma_cell_names();
    reveal_with_fuel(catalog::cell_named, 10);
    let row = grants::table_grant_row(g);
    assert(catalog::cell_named(row, "grantor"@, 0) == Some(row[0].1));
    assert(catalog::cell_named(row, "grantee"@, 0) == Some(row[1].1));
    assert(catalog::cell_named(row, "table_catalog"@, 0) == Some(row[2].1));
    assert(catalog::cell_named(row, "table_schema"@, 0) == Some(row[3].1));
    assert(catalog::cell_named(row, "table_name"@, 0) == Some(row[4].1));
    assert(catalog::cell_named(row, "privilege_type"@, 0) == Some(row[5].1));
    assert(catalog::cell_named(row, "is_grantable"@, 0) == Some(row[6].1));
    assert(catalog::cell_named(row, "with_hierarchy"@, 0) == Some(row[7].1));
}

/// A row shows a privilege of a grantee on a table.
pub open spec fn shows_grant(
    row: Seq<(Seq<char>, CellView)>,
    grantee: Seq<char>,
    table: Seq<char>,
    privilege: Seq<char>,
) -> bool {
    &&& schema_laws::shows(row, "grantee"@, grantee)
    &&& schema_laws::shows(row, "table_name"@, table)
    &&& schema_laws::shows(row, "privilege_type"@, privilege)
    &&& schema_laws::shows(row, "is_grantable"@, "NO"@)
}

/// A grant is of a privilege to a grantee on a table as a whole.
pub open spec fn is_table_grant(
    g: GrantView,
    grantee: Seq<char>,
    table: Seq<char>,
    privilege: Seq<char>,
) -> bool {
    &&& g.object_type == PrivilegeObjectType::Table
    &&& g.column is None
    &&& g.grantee == grantee
    &&& g.object_name == table
    &&& g.privilege == privilege
}

/// Exactly the grants on whole tables are listed, each with its grantee, its table and
/// its privilege, and none can be passed on.
pub proof fn law_table_grants_listed(
    given: Seq<GrantView>,
    grantee: Seq<char>,
    table: Seq<char>,
    privilege: Seq<char>,
)
    ensures
        (exists|k: int|
            0 <= k < grants::table_grant_rows(given).len() && shows_grant(
                #[trigger] grants::table_grant_rows(given)[k],
                grantee,
                table,
                privilege,
            )) <==> exists|i: int|
            0 <= i < given.len() && is_table_grant(#[trigger] given[i], grantee, table, privilege),
    decreases given.len(),
{
    if given.len() > 0 {
        let rest = given.drop_last();
        let last = given.len() - 1;
        law_table_grants_listed(rest, grantee, table, privilege);
        lemma_grant_cells(given.last());
        let before = grants::table_grant_rows(rest);
        let all = grants::table_grant_rows(given);
        assert(given[last] == given.last());
        assert forall|i: int| 0 <= i < last implies #[trigger] given[i] == rest[i] by {}
        if exists|k: int|
            0 <= k < all.len() && shows_grant(#[trigger] all[k], grantee, table, privilege) {
            let k = choose|k: int|
                0 <= k < all.len() && shows_grant(#[trigger] all[k], grantee, table, privilege);
            if k < before.len() {
                assert(shows_grant(before[k], grantee, table, privilege));
                let i = choose|i: int|
                    0 <= i < rest.len() && is_table_grant(
                        #[trigger] rest[i],
                        grantee,
                        table,
                        privilege,
                    );
                assert(given[i] == rest[i]);
            } else {
                assert(is_table_grant(given[last], grantee, table, privilege));
            }
        }
        if exists|i: int|
            0 <= i < given.len() && is_table_grant(#[trigger] given[i], grantee, table, privilege) {
            let i = choose|i: int|
                0 <= i < given.len() && is_table_grant(
                    #[trigger] given[i],
                    grantee,
                    table,
                    privilege,
                );
            if i < last {
                assert(is_table_grant(rest[i], grantee, table, privilege));
                let k = choose|k: int|
                    0 <= k < before.len() && shows_grant(
                        #[trigger] before[k],
                        grantee,
                        table,
                        privilege,
                    );
                assert(all[k] == before[k]);
            } else {
                assert(shows_grant(all[before.len() as int], grantee, table, privilege));
            }
        }
    }
}

} // verus!
