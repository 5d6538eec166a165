//! User-defined types, the columns that have them, and what follows their changes.
use bicdb_sql::column_types;
use bicdb_sql::column_types::{CastRule, SchemaColumn, TableSchema};
use bicdb_sql::composite_values::{
    rewrite_composite_value, CompositeAttributeMutation, CompositeTree, TreeField, ValueTree,
};
use bicdb_sql::enum_labels::{rename_enum_label_in_value, LabelValue};
use bicdb_sql::error::SqlErrorKind;
use bicdb_sql::indexes;
use bicdb_sql::indexes::{IndexDefinition, IndexKind, KeyedTable, UniqueConstraint};
use bicdb_sql::json::{Json, Member};
use bicdb_sql::partitions;
use bicdb_sql::partitions::{Constraint, PartitionTable};
use bicdb_sql::pseudo_types::validate_routine_pseudo_types;
use bicdb_sql::routine_types;
use bicdb_sql::routine_types::{CodecDirection, CodecRoutine};
use bicdb_sql::type_definitions;
use bicdb_sql::type_definitions::{Alignment, BaseTypeOption, RangeTypeOption, Storage};
use bicdb_sql::type_references;
use bicdb_sql::user_types::{TypeModifier, UserType, UserTypeColumn, UserTypeKind};

fn names(list: &[&str]) -> Vec<String> {
    list.iter().map(|s| s.to_string()).collect()
}

fn text(s: &str) -> String {
    s.to_string()
}

fn user_type(schema: &str, name: &str, oid: i64, kind: UserTypeKind) -> UserType {
    UserType {
        name: text(name),
        schema_name: text(schema),
        owner: text("owner"),
        comment: None,
        acl_explicit: false,
        oid,
        array_oid: oid + 1,
        display: format!("{schema}.{name}"),
        array_display: format!("{schema}.{name}[]"),
        kind,
    }
}

fn base(delimiter: char) -> UserTypeKind {
    UserTypeKind::Base {
        input: text("app.box_in"),
        output: text("app.box_out"),
        receive: None,
        send: Some(text("app.box_send")),
        codec_oid: 25,
        delimiter,
    }
}

#[test]
fn base_types_are_defined_by_their_options() {
    let d = type_definitions::parse_base_type_definition(&vec![
        BaseTypeOption::Input(text("i")),
        BaseTypeOption::Output(text("o")),
        BaseTypeOption::InternalLength(Some(8)),
        BaseTypeOption::Aligned(Alignment::Double),
        BaseTypeOption::Stored(Storage::Main),
        BaseTypeOption::Category('U'),
        BaseTypeOption::Delimiter(text(";")),
        BaseTypeOption::PassedByValue,
    ])
    .unwrap();
    assert_eq!(d.input.as_deref(), Some("i"));
    assert_eq!(d.output.as_deref(), Some("o"));
    assert_eq!(d.internal_length, Some(8));
    assert_eq!((d.alignment, d.storage), (Some('d'), Some('m')));
    assert_eq!((d.category, d.delimiter), (Some('U'), Some(';')));
    assert_eq!(d.passed_by_value, Some(true));
    let e = type_definitions::parse_base_type_definition(&vec![
        BaseTypeOption::Input(text("i")),
        BaseTypeOption::Input(text("j")),
    ])
    .unwrap_err();
    assert_eq!(e.message, "CREATE TYPE option INPUT specified more than once");
    assert!(type_definitions::parse_base_type_definition(&vec![BaseTypeOption::Delimiter(text(
        "ab"
    ))])
    .is_err());
    let mut slot = Some(1);
    assert!(type_definitions::set_base_type_option(&mut slot, 2, "LIKE").is_err());
    assert_eq!(slot, Some(2));
}

#[test]
fn ranges_are_defined_by_their_options() {
    let d = type_definitions::parse_range_type_definition(&vec![
        RangeTypeOption::Subtype(text("int8")),
        RangeTypeOption::MultirangeName(text("m")),
    ])
    .unwrap();
    assert_eq!(d.subtype.as_deref(), Some("int8"));
    assert_eq!(d.multirange_name.as_deref(), Some("m"));
    let e = type_definitions::parse_range_type_definition(&vec![
        RangeTypeOption::Subtype(text("int8")),
        RangeTypeOption::Subtype(text("int8")),
    ])
    .unwrap_err();
    assert_eq!(e.message, "CREATE TYPE option SUBTYPE specified more than once");
    assert_eq!(type_definitions::default_multirange_name("IntRange"), "Intmultirange");
    assert_eq!(type_definitions::default_multirange_name("span"), "span_multirange");
    assert_eq!(type_definitions::builtin_range_spec_for_subtype("int8"), Some("int8range"));
    assert_eq!(type_definitions::builtin_range_spec_for_subtype("text"), None);
    assert_eq!(
        type_definitions::range_canonical_symbol_for_subtype("date"),
        Some("daterange_canonical")
    );
    assert_eq!(type_definitions::range_canonical_symbol_for_subtype("numeric"), None);
}

#[test]
fn type_names_have_at_most_two_parts() {
    assert_eq!(
        type_definitions::user_type_identity(&names(&["App", "Mood"]), "App.Mood").unwrap(),
        (text("App"), text("Mood"))
    );
    assert_eq!(
        type_definitions::user_type_identity(&names(&["mood"]), "mood").unwrap(),
        (text("public"), text("mood"))
    );
    assert_eq!(
        type_definitions::paired_type_identity(&names(&["mr"]), "app", "mr").unwrap(),
        (text("app"), text("mr"))
    );
    assert!(type_definitions::user_type_identity(&names(&["a", "b", "c"]), "a.b.c").is_err());
}

#[test]
fn pseudo_types_of_routines_are_validated() {
    let check = |inputs: &[&str], outputs: &[&str], declared, trigger, language| {
        validate_routine_pseudo_types(&names(inputs), &names(outputs), declared, trigger, language)
    };
    assert!(check(&["anyelement"], &["anyelement"], 1, None, "plpgsql").is_ok());
    assert_eq!(
        check(&[], &["anyelement"], 0, None, "plpgsql").unwrap_err().message,
        "cannot determine result data type"
    );
    assert_eq!(
        check(&[], &["internal"], 0, None, "internal").unwrap_err().message,
        "unsafe use of pseudo-type \"internal\""
    );
    assert!(check(&["cstring"], &["internal"], 1, None, "internal").is_err());
    assert!(check(&["internal"], &["internal"], 1, None, "internal").is_ok());
    assert_eq!(
        check(&["cstring"], &[], 1, None, "sql").unwrap_err().message,
        "SQL functions cannot have arguments of type cstring"
    );
    assert_eq!(
        check(&[], &["trigger"], 0, Some("trigger"), "sql").unwrap_err().message,
        "SQL functions cannot return type trigger"
    );
    assert_eq!(
        check(&[], &["trigger"], 1, Some("trigger"), "plpgsql").unwrap_err().message,
        "trigger functions cannot have declared arguments"
    );
    assert!(check(&[], &["trigger"], 0, Some("trigger"), "plpgsql").is_ok());
}

#[test]
fn routines_follow_a_renamed_type() {
    let old = user_type("app", "mood", 100, UserTypeKind::Shell);
    let new = user_type("app", "feel", 100, UserTypeKind::Shell);
    assert!(routine_types::routine_depends_on_user_type("Mood", &vec![], &old));
    assert!(routine_types::routine_depends_on_user_type("int4", &names(&["app.mood"]), &old));
    assert!(!routine_types::routine_depends_on_user_type("int4", &names(&["text"]), &old));
    let rewrite = |s: &str| routine_types::rewrite_routine_type_identity(s, &old, &new);
    assert_eq!(rewrite(" app.mood[] ").as_deref(), Some("app.feel[]"));
    assert_eq!(rewrite("mood").as_deref(), Some("app.feel"));
    assert_eq!(rewrite("text"), None);
    let argument = |s: &str| routine_types::rewrite_routine_argument_type_identity(s, &old, &new);
    assert_eq!(argument("IN a App.Mood DEFAULT 'x'").as_deref(), Some("IN a app.feel DEFAULT 'x'"));
    assert_eq!(argument("a myapp.mood"), None);
    assert_eq!(argument("a app.moody"), None);
}

#[test]
fn base_types_use_their_codecs() {
    let t = user_type("app", "box", 100, base(';'));
    assert!(routine_types::base_type_uses_routine(&t, "APP.BOX_IN"));
    assert!(routine_types::base_type_uses_routine(&t, "app.box_send"));
    assert!(!routine_types::base_type_uses_routine(&t, "app.box_recv"));
    let codec = |language: &str, symbol: Option<&str>, registered| {
        Some(CodecRoutine {
            language: text(language),
            argument_types: names(&["cstring"]),
            return_type: text("app.box"),
            internal_symbol: symbol.map(str::to_string),
            registered,
        })
    };
    let resolve = |r: &Option<CodecRoutine>| {
        routine_types::resolve_base_codec_routine(
            r,
            "box_in",
            "cstring",
            "app.box",
            CodecDirection::Input,
        )
    };
    let found = codec("internal", Some("s"), Some((CodecDirection::Input, 25)));
    assert_eq!(resolve(&found).unwrap(), 25);
    for r in [
        None,
        codec("sql", Some("s"), Some((CodecDirection::Input, 25))),
        codec("internal", None, Some((CodecDirection::Input, 25))),
        codec("internal", Some("s"), None),
        codec("internal", Some("s"), Some((CodecDirection::Send, 25))),
    ] {
        assert!(resolve(&r).is_err());
    }
    assert_eq!(resolve(&None).unwrap_err().message, "type codec function box_in does not exist");
}

fn column(name: &str, pg_type: &str, type_oid: i64) -> SchemaColumn {
    SchemaColumn {
        name: text(name),
        pg_type: text(pg_type),
        display: text(pg_type),
        type_oid,
        user_type: None,
        collation: None,
        type_modifier: None,
        array_ndims: 0,
        vector_dim: None,
        hidden: false,
    }
}

fn domain_column(base_type: &str, array: bool) -> UserTypeColumn {
    UserTypeColumn {
        oid: 100,
        array_oid: 101,
        array,
        display: text("zip"),
        array_display: text("zip[]"),
        kind: UserTypeKind::Domain {
            base_type: text(base_type),
            base_oid: 25,
            base_user_type: None,
        },
    }
}

#[test]
fn columns_follow_their_types() {
    let mut c = column("z", "text", 25);
    c.user_type = Some(domain_column("text", true));
    let renamed = user_type("public", "postcode", 100, UserTypeKind::Shell);
    assert!(column_types::replace_column_user_type_references(&mut c, &vec![renamed]));
    let u = c.user_type.as_ref().unwrap();
    assert_eq!(u.display, "public.postcode");
    assert!(u.array);
    let other = user_type("public", "other", 900, UserTypeKind::Shell);
    assert!(!column_types::replace_column_user_type_references(&mut c, &vec![other]));
    assert!(type_references::user_type_column_depends_on_oid(&domain_column("text", false), 100));
    assert!(!type_references::user_type_column_depends_on_oid(&domain_column("text", false), 7));
}

#[test]
fn assignments_cast_through_domains() {
    assert_eq!(column_types::user_type_assignment_cast_type(&domain_column("text", true)), "text[]");
    let rules = vec![CastRule { source: text("int4"), target: text("int8") }];
    let (a, b) = (column("a", "int4", 23), column("b", "int8", 20));
    assert!(column_types::column_assignment_cast_allowed(&a, &b, &rules));
    assert!(!column_types::column_assignment_cast_allowed(&b, &a, &rules));
    assert!(column_types::validate_foreign_key_type_pair("k", "b", &b, "a", &a, &rules).is_ok());
    let t = column("t", "text", 25);
    let e = column_types::validate_foreign_key_type_pair("k", "t", &t, "a", &a, &rules).unwrap_err();
    assert_eq!(e.code, "42804");
    assert_eq!(
        e.message,
        "foreign key constraint \"k\" cannot be implemented: key columns \"t\" and \"a\" are of \
         incompatible types: text and int4"
    );
}

#[test]
fn wider_types_keep_their_values() {
    let with = |m: Option<TypeModifier>| {
        let mut c = column("c", "varchar", 1043);
        c.type_modifier = m;
        c
    };
    let length = |n| with(Some(TypeModifier::Character { length: n }));
    assert!(!column_types::column_type_change_requires_rewrite(&length(5), &length(9)));
    assert!(column_types::column_type_change_requires_rewrite(&length(9), &length(5)));
    assert!(!column_types::column_type_change_requires_rewrite(&with(None), &with(None)));
    assert!(column_types::column_type_change_requires_rewrite(&with(None), &length(5)));
    assert!(column_types::column_type_change_requires_rewrite(
        &column("a", "int4", 23),
        &column("a", "int8", 20)
    ));
}

#[test]
fn tables_have_row_types() {
    let mut hidden = column("h", "text", 25);
    hidden.hidden = true;
    let t = TableSchema {
        name: text("orders"),
        schema_name: text("public"),
        owner: None,
        row_type_oid: 300,
        row_array_type_oid: 301,
        row_display: text("orders"),
        row_array_display: text("orders[]"),
        columns: vec![column("id", "int8", 20), hidden],
    };
    let row = column_types::table_row_type_schema(&t);
    assert_eq!((row.oid, row.array_oid), (300, 301));
    match row.kind {
        UserTypeKind::Composite { attributes, .. } => {
            assert_eq!(attributes.len(), 1);
            assert_eq!(attributes[0].name, "id");
        }
        _ => panic!("a composite type"),
    }
    assert!(column_types::table_row_type_column(&t, true).array);
}

#[test]
fn arrays_are_written_with_the_delimiter_of_their_type() {
    let types = vec![user_type("app", "box", 100, base(';'))];
    assert_eq!(column_types::pg_type_delimiter_with_db(&types, "app.\"box\"", None), ';');
    assert_eq!(column_types::pg_type_delimiter_with_db(&types, "box", Some('|')), '|');
    assert_eq!(column_types::pg_type_delimiter_with_db(&types, "int4", None), ',');
    assert_eq!(
        column_types::domain_not_null_marker_name("nn::pos", "nn"),
        Some(Some(text("pos")))
    );
    assert_eq!(column_types::domain_not_null_marker_name("nn", "nn"), Some(None));
    assert_eq!(column_types::domain_not_null_marker_name("check", "nn"), None);
}

fn leaf(name: &str) -> TreeField {
    TreeField { name: text(name), pg_type: text("int4"), value: ValueTree::Leaf(text("1")) }
}

fn tree() -> ValueTree {
    ValueTree::Array(vec![ValueTree::Composite(CompositeTree {
        type_oid: Some(100),
        declared: text("pair"),
        fields: vec![leaf("a"), leaf("b")],
    })])
}

fn fields_after(mutation: CompositeAttributeMutation, oid: i64) -> Vec<(String, String)> {
    match rewrite_composite_value(&tree(), oid, "other", &mutation) {
        ValueTree::Array(mut items) => match items.remove(0) {
            ValueTree::Composite(c) => {
                c.fields.into_iter().map(|f| (f.name, f.pg_type)).collect()
            }
            _ => panic!("a composite value"),
        },
        _ => panic!("an array"),
    }
}

#[test]
fn values_follow_their_composite_type() {
    let pair = |a: &str, b: &str| (text(a), text(b));
    assert_eq!(
        fields_after(CompositeAttributeMutation::Drop(0), 100),
        vec![pair("b", "int4")]
    );
    assert_eq!(fields_after(CompositeAttributeMutation::Drop(0), 9).len(), 2);
    assert_eq!(fields_after(CompositeAttributeMutation::Drop(7), 100).len(), 2);
    assert_eq!(
        fields_after(
            CompositeAttributeMutation::Add { name: text("c"), pg_type: text("text") },
            100
        )[2],
        pair("c", "text")
    );
    assert_eq!(
        fields_after(CompositeAttributeMutation::Rename { index: 1, name: text("z") }, 100)[1],
        pair("z", "int4")
    );
    assert_eq!(
        fields_after(
            CompositeAttributeMutation::AlterType { index: 0, pg_type: text("int8") },
            100
        )[0],
        pair("a", "int8")
    );
}

#[test]
fn labels_are_renamed_where_they_are_values() {
    match rename_enum_label_in_value(&LabelValue::Text(text("sad")), "sad", "blue") {
        (LabelValue::Text(s), true) => assert_eq!(s, "blue"),
        _ => panic!("the label changes"),
    }
    let member = |name: &str, value: Json| Member { name: text(name), value };
    let input = Json::Object(vec![member(
        "$bicdb_array_input",
        Json::Object(vec![
            member("value", Json::Array(vec![Json::Text(text("sad")), Json::Text(text("ok"))])),
            member("other", Json::Text(text("sad"))),
        ]),
    )]);
    match rename_enum_label_in_value(&LabelValue::Document(input), "sad", "blue") {
        (LabelValue::Document(j), true) => assert_eq!(
            format!("{j:?}").matches("blue").count(),
            1
        ),
        _ => panic!("the label changes"),
    }
    let plain = Json::Object(vec![member("value", Json::Text(text("sad")))]);
    assert!(!rename_enum_label_in_value(&LabelValue::Document(plain), "sad", "blue").1);
    assert!(!rename_enum_label_in_value(&LabelValue::Other, "sad", "blue").1);
}

fn keyed(unique: Vec<UniqueConstraint>) -> KeyedTable {
    KeyedTable {
        name: text("t"),
        hidden_primary_key: false,
        primary_key_name: text("t_pkey"),
        primary_key_fields: names(&["id"]),
        unique,
    }
}

#[test]
fn keys_get_their_indexes_once() {
    let unique = |name: &str, is_primary_key| UniqueConstraint {
        name: text(name),
        fields: names(&["a", "b"]),
        is_primary_key,
    };
    let t = keyed(vec![unique("t_key", false), unique("t_pkey", true)]);
    let mut list: Vec<IndexDefinition> = vec![];
    indexes::ensure_primary_key_indexes(&mut list, &vec![keyed(vec![])]).unwrap();
    indexes::ensure_unique_constraint_indexes_for_schema(&mut list, &t).unwrap();
    let seen: Vec<&str> = list.iter().map(|i| i.name.as_str()).collect();
    assert_eq!(seen, vec!["t_pkey", "t_key"]);
    assert!(list.iter().all(|i| i.unique && i.collection == "t"));
    indexes::ensure_primary_key_index_for_schema(&mut list, &t).unwrap();
    indexes::ensure_unique_constraint_indexes(&mut list, &vec![t]).unwrap();
    assert_eq!(list.len(), 2);
    let mut wrong = vec![IndexDefinition {
        name: text("t_pkey"),
        collection: text("other"),
        fields: names(&["id"]),
        unique: true,
        kind: IndexKind::BTree,
        predicate: None,
        exclusion: None,
    }];
    let e = indexes::ensure_primary_key_index_for_schema(&mut wrong, &keyed(vec![])).unwrap_err();
    assert_eq!(
        e.message,
        "index \"t_pkey\" already exists with a definition that does not match primary key \
         \"t_pkey\""
    );
    assert_eq!(wrong.len(), 1);
    let mut hidden = keyed(vec![]);
    hidden.hidden_primary_key = true;
    assert!(indexes::primary_key_index_definition_for_schema(&hidden).is_none());
}

#[test]
fn partitions_inherit_from_their_table() {
    let constraint =
        |name: &str, d: &str| Constraint { name: text(name), definition: text(d) };
    let table = |name: &str, of: Option<&str>, constraints| PartitionTable {
        name: text(name),
        partition_of: of.map(str::to_string),
        columns: names(&[name]),
        primary_key_name: None,
        constraints,
        rls_enabled: of.is_none(),
        rls_forced: false,
        policies: vec![],
    };
    let tables = vec![
        table("p", None, vec![constraint("c", "parent")]),
        table("p1", Some("p"), vec![constraint("c", "child"), constraint("d", "own")]),
        table("lost", Some("none"), vec![]),
    ];
    let after = partitions::reconcile_partition_schemas(&tables);
    assert_eq!(after[1].columns, names(&["p"]));
    assert!(after[1].rls_enabled);
    let kept: Vec<(&str, &str)> = after[1]
        .constraints
        .iter()
        .map(|c| (c.name.as_str(), c.definition.as_str()))
        .collect();
    assert_eq!(kept, vec![("c", "parent"), ("d", "own")]);
    assert_eq!(after[0].columns, names(&["p"]));
    assert_eq!(after[2].columns, names(&["lost"]));
    assert_eq!(after[1].partition_of.as_deref(), Some("p"));
}

#[test]
fn catalog_records_are_summarised() {
    let member = |name: &str, value: Json| Member { name: text(name), value };
    let s = partitions::table_catalog_summary_from_record(
        &Json::Object(vec![
            member("name", Json::Text(text("t"))),
            member("partitioning", Json::Null),
        ]),
        "public",
    )
    .unwrap();
    assert_eq!((s.name.as_str(), s.schema_name.as_str(), s.partitioned), ("t", "public", false));
    for j in [Json::Null, Json::Object(vec![])] {
        let e = partitions::table_catalog_summary_from_record(&j, "public").unwrap_err();
        assert_eq!(e.kind, SqlErrorKind::InvalidSql);
    }
}
