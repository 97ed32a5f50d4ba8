use launchpad::descriptor::DeriveEntity;
use launchpad::grouping::group_keys;
use launchpad::schema::{
    extract, AnnValue, ColumnAnn, DeclKind, EntityAnn, FieldDecl, GenError, KeyAnn, RecordDecl,
};
use launchpad::synth::{build_query, derive_sql, pg_impl, repo_trait, tx_impl, KeyFn};

fn field(
    ident: Option<&str>,
    ty: &str,
    key: Option<(Option<&str>, Option<bool>)>,
    column: Option<&str>,
) -> FieldDecl {
    FieldDecl {
        ident: ident.map(|s| s.to_string()),
        field_type: ty.to_string(),
        key: key.map(|(name, unique)| KeyAnn {
            name: name.map(|n| AnnValue::Text(n.to_string())),
            unique: unique.map(AnnValue::Truth),
        }),
        column: column.map(|c| ColumnAnn {
            name: Some(AnnValue::Text(c.to_string())),
        }),
    }
}

fn plain_decl(ident: &str, fields: Vec<FieldDecl>) -> RecordDecl {
    RecordDecl {
        ident: ident.to_string(),
        kind: DeclKind::NamedFields,
        entity: None,
        fields,
    }
}

/// A fully annotated record: three key groups, a display-name override, and
/// a table-name override.
fn my_entity_decl() -> RecordDecl {
    RecordDecl {
        ident: "MyEntity".to_string(),
        kind: DeclKind::NamedFields,
        entity: Some(EntityAnn {
            name: Some(AnnValue::Word("my_entity".to_string())),
            table_name: Some(AnnValue::Text("my_entity".to_string())),
        }),
        fields: vec![
            field(Some("entity_id"), "Uuid", Some((Some("id"), Some(true))), Some("id")),
            field(Some("name"), "String", Some((Some("name_version"), Some(true))), None),
            field(Some("version"), "i32", Some((Some("name_version"), Some(true))), None),
            field(Some("color"), "String", Some((Some("color"), None)), None),
            field(Some("description"), "String", None, None),
        ],
    }
}

/// The scenario schema: each key-tagged field named exactly after its key
/// where the key is simple, with a composite name-and-version key.
fn scenario_decl() -> RecordDecl {
    RecordDecl {
        ident: "MyEntity".to_string(),
        kind: DeclKind::NamedFields,
        entity: Some(EntityAnn {
            name: None,
            table_name: Some(AnnValue::Text("my_entity".to_string())),
        }),
        fields: vec![
            field(Some("id"), "Uuid", Some((Some("id"), Some(true))), None),
            field(Some("name"), "String", Some((Some("name_version"), Some(true))), None),
            field(Some("version"), "i32", Some((Some("name_version"), Some(true))), None),
            field(Some("color"), "String", Some((Some("color"), None)), None),
            field(Some("description"), "String", None, None),
        ],
    }
}

fn entity_of(decl: &RecordDecl) -> DeriveEntity {
    let ex = extract(decl).expect("extraction should succeed");
    let keys = group_keys(ex.tags);
    DeriveEntity::new(decl.ident.clone(), ex.snake_name, ex.table_name, ex.columns, keys)
}

#[test]
fn lib_usage() {
    let decl = my_entity_decl();
    let generated = derive_sql(&decl).expect("generation should succeed");
    assert!(generated.contains("pub trait MyEntityRepo {"));
}

#[test]
fn scenario_operations() {
    let entity = entity_of(&scenario_decl());
    assert_eq!(entity.keys.len(), 3);

    let kf0 = KeyFn::new(&entity, &entity.keys[0]);
    assert_eq!(kf0.fn_name, "find_my_entity_by_id");
    assert_eq!(kf0.fn_rtn, "Result<Option<MyEntity>, sqlx::Error>");
    assert_eq!(kf0.fn_args, vec!["id: &Uuid".to_string()]);

    let kf1 = KeyFn::new(&entity, &entity.keys[1]);
    assert_eq!(kf1.fn_name, "find_my_entity_by_name_version");
    assert_eq!(kf1.fn_rtn, "Result<Option<MyEntity>, sqlx::Error>");
    assert_eq!(kf1.fn_args, vec!["name: &str".to_string(), "version: &i32".to_string()]);

    let kf2 = KeyFn::new(&entity, &entity.keys[2]);
    assert_eq!(kf2.fn_name, "list_my_entity_by_color");
    assert_eq!(kf2.fn_rtn, "Result<Vec<MyEntity>, sqlx::Error>");
    assert_eq!(kf2.fn_args, vec!["color: &str".to_string()]);
}

#[test]
fn scenario_composite_query() {
    let entity = entity_of(&scenario_decl());
    let q = build_query(&entity.table_name, &entity.keys[1]);
    assert_eq!(q, "select * from my_entity where name = $1 and version = $2");
}

#[test]
fn scenario_trait_text() {
    let entity = entity_of(&scenario_decl());
    let t = repo_trait(&entity);
    let expected_lines = [
        "pub trait MyEntityRepo {",
        "    async fn find_my_entity_by_id(&self, id: &Uuid) -> Result<Option<MyEntity>, sqlx::Error>;",
        "    async fn find_my_entity_by_name_version(&self, name: &str, version: &i32) -> Result<Option<MyEntity>, sqlx::Error>;",
        "    async fn list_my_entity_by_color(&self, color: &str) -> Result<Vec<MyEntity>, sqlx::Error>;",
        "}",
    ];
    let mut expected = expected_lines.join("\n");
    expected.push('\n');
    assert_eq!(t, expected);
}

#[test]
fn direct_impl_text() {
    let mut decl = plain_decl(
        "Widget",
        vec![field(Some("serial"), "String", Some((None, Some(true))), None)],
    );
    decl.entity = Some(EntityAnn {
        name: None,
        table_name: Some(AnnValue::Text("widgets".to_string())),
    });
    let entity = entity_of(&decl);
    let p = pg_impl(&entity);
    let expected_lines = [
        "impl WidgetRepo for sqlx::Pool<sqlx::Postgres> {",
        "    async fn find_widget_by_serial(&self, serial: &str) -> Result<Option<Widget>, sqlx::Error> {",
        "        sqlx::query_as(\"select * from widgets where serial = $1\")",
        "            .bind(&serial)",
        "            .fetch_optional(self)",
        "            .await",
        "    }",
        "}",
    ];
    let mut expected = expected_lines.join("\n");
    expected.push('\n');
    assert_eq!(p, expected);
}

#[test]
fn transactional_impl_locks() {
    let decl = plain_decl(
        "Widget",
        vec![field(Some("serial"), "String", Some((None, None)), None)],
    );
    let entity = entity_of(&decl);
    let x = tx_impl(&entity);
    assert!(x.starts_with(
        "impl WidgetRepo for tokio::sync::Mutex<sqlx::Transaction<'_, sqlx::Postgres>> {\n"
    ));
    assert!(x.contains("        let mut tx = self.lock().await;\n"));
    assert!(x.contains("            .fetch_all(&mut **tx)\n"));
}

#[test]
fn one_operation_per_distinct_key_name() {
    let decl = plain_decl(
        "Thing",
        vec![
            field(Some("a"), "i32", Some((Some("one"), None)), None),
            field(Some("b"), "i32", Some((Some("two"), None)), None),
            field(Some("c"), "i32", Some((Some("one"), None)), None),
            field(Some("d"), "i32", None, None),
        ],
    );
    let entity = entity_of(&decl);
    assert_eq!(entity.keys.len(), 2);
    assert_eq!(entity.keys[0].name, "one");
    assert_eq!(entity.keys[1].name, "two");
}

#[test]
fn uniqueness_is_or_of_component_flags() {
    let decl = plain_decl(
        "Thing",
        vec![
            field(Some("a"), "i32", Some((Some("k"), Some(false))), None),
            field(Some("b"), "i32", Some((Some("k"), Some(true))), None),
            field(Some("c"), "i32", Some((Some("m"), None)), None),
        ],
    );
    let entity = entity_of(&decl);
    assert!(entity.keys[0].unique);
    assert!(!entity.keys[1].unique);
    let kf = KeyFn::new(&entity, &entity.keys[0]);
    assert_eq!(kf.fn_name, "find_thing_by_k");
}

#[test]
fn parameter_order_follows_declaration_order() {
    let decl = plain_decl(
        "T",
        vec![
            field(Some("a"), "i32", Some((Some("k"), None)), None),
            field(Some("c"), "i32", Some((Some("k"), None)), None),
            field(Some("b"), "i32", Some((Some("k"), None)), None),
        ],
    );
    let entity = entity_of(&decl);
    let q = build_query(&entity.table_name, &entity.keys[0]);
    assert_eq!(q, "select * from T where a = $1 and c = $2 and b = $3");
}

#[test]
fn omitted_column_annotation_defaults_to_field_identifier() {
    let decl = plain_decl(
        "T",
        vec![
            field(Some("plain"), "i32", None, None),
            field(Some("renamed"), "i32", None, Some("other_name")),
        ],
    );
    let ex = extract(&decl).expect("extraction should succeed");
    assert_eq!(ex.columns[0].column_name, "plain");
    assert_eq!(ex.columns[1].column_name, "other_name");
}

#[test]
fn omitted_table_name_keeps_entity_identifier_verbatim() {
    let decl = plain_decl("Widget", vec![field(Some("id"), "i32", None, None)]);
    let ex = extract(&decl).expect("extraction should succeed");
    assert_eq!(ex.table_name, "Widget");
}

#[test]
fn widget_query_uses_verbatim_table_name() {
    let decl = plain_decl("Widget", vec![field(Some("id"), "i32", Some((None, None)), None)]);
    let entity = entity_of(&decl);
    let q = build_query(&entity.table_name, &entity.keys[0]);
    assert_eq!(q, "select * from Widget where id = $1");
}

#[test]
fn key_without_derivable_name_is_missing_key_name() {
    let decl = plain_decl(
        "T",
        vec![field(None, "i32", Some((None, Some(true))), None)],
    );
    assert!(matches!(extract(&decl), Err(GenError::MissingKeyName)));
}

#[test]
fn non_struct_shapes_are_rejected() {
    let mut decl = plain_decl("T", vec![]);
    decl.kind = DeclKind::NotAStruct;
    assert!(matches!(extract(&decl), Err(GenError::StructRequired)));
    let mut tuple_decl = plain_decl("T", vec![field(None, "i32", None, None)]);
    tuple_decl.kind = DeclKind::UnnamedFields;
    assert!(matches!(extract(&tuple_decl), Err(GenError::StructRequired)));
}

#[test]
fn field_without_identifier_is_rejected() {
    let decl = plain_decl("T", vec![field(None, "i32", None, None)]);
    assert!(matches!(extract(&decl), Err(GenError::FieldRequired)));
}

#[test]
fn malformed_annotations_are_rejected() {
    // key name must be a string
    let decl = plain_decl(
        "T",
        vec![FieldDecl {
            ident: Some("a".to_string()),
            field_type: "i32".to_string(),
            key: Some(KeyAnn { name: Some(AnnValue::Truth(true)), unique: None }),
            column: None,
        }],
    );
    assert!(matches!(extract(&decl), Err(GenError::AnnotationParseError)));

    // the unique flag must be a boolean
    let decl = plain_decl(
        "T",
        vec![FieldDecl {
            ident: Some("a".to_string()),
            field_type: "i32".to_string(),
            key: Some(KeyAnn {
                name: None,
                unique: Some(AnnValue::Text("yes".to_string())),
            }),
            column: None,
        }],
    );
    assert!(matches!(extract(&decl), Err(GenError::AnnotationParseError)));

    // a column annotation must carry a string name
    let decl = plain_decl(
        "T",
        vec![FieldDecl {
            ident: Some("a".to_string()),
            field_type: "i32".to_string(),
            key: None,
            column: Some(ColumnAnn { name: None }),
        }],
    );
    assert!(matches!(extract(&decl), Err(GenError::AnnotationParseError)));

    // the table-name override must be a string
    let mut decl = plain_decl("T", vec![field(Some("a"), "i32", None, None)]);
    decl.entity = Some(EntityAnn {
        name: None,
        table_name: Some(AnnValue::Word("t".to_string())),
    });
    assert!(matches!(extract(&decl), Err(GenError::AnnotationParseError)));
}

#[test]
fn display_name_override_may_be_an_identifier_or_a_string() {
    let mut decl = plain_decl("MyEntity", vec![field(Some("id"), "i32", None, None)]);
    decl.entity = Some(EntityAnn {
        name: Some(AnnValue::Text("my_entity".to_string())),
        table_name: None,
    });
    let ex = extract(&decl).expect("extraction should succeed");
    assert_eq!(ex.snake_name, Some("my_entity".to_string()));
    assert_eq!(ex.table_name, "MyEntity");

    let mut bad = plain_decl("MyEntity", vec![field(Some("id"), "i32", None, None)]);
    bad.entity = Some(EntityAnn { name: Some(AnnValue::Truth(true)), table_name: None });
    assert!(matches!(extract(&bad), Err(GenError::AnnotationParseError)));
}

#[test]
fn schema_without_keys_generates_an_empty_interface() {
    let decl = plain_decl("Plain", vec![field(Some("id"), "i32", None, None)]);
    let entity = entity_of(&decl);
    assert_eq!(entity.keys.len(), 0);
    assert_eq!(repo_trait(&entity), "pub trait PlainRepo {\n}\n");
}

#[test]
fn generation_is_deterministic() {
    let first = derive_sql(&my_entity_decl()).expect("generation should succeed");
    let second = derive_sql(&my_entity_decl()).expect("generation should succeed");
    assert_eq!(first, second);
    assert_eq!(first.as_bytes(), second.as_bytes());
}

#[test]
fn snake_name_is_folded_from_entity_identifier() {
    let decl = plain_decl("WidgetCrate", vec![field(Some("id"), "i32", None, None)]);
    let entity = entity_of(&decl);
    assert_eq!(entity.entity_snake_name(), "widget_crate");
    assert_eq!(entity.table_name, "WidgetCrate");
}

#[test]
fn generated_output_holds_all_three_artifacts() {
    let decl = scenario_decl();
    let generated = derive_sql(&decl).expect("generation should succeed");
    let entity = entity_of(&decl);
    let mut expected = repo_trait(&entity);
    expected.push('\n');
    expected.push_str(&pg_impl(&entity));
    expected.push('\n');
    expected.push_str(&tx_impl(&entity));
    assert_eq!(generated, expected);
}
