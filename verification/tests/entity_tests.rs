//! Entities, their schemas and the queries that read them.

use std::collections::HashMap;

use tolstoy::derive::{
    derive_entity, extract_field_type, extract_namespace, parse_field_attributes,
    rust_type_to_field_type, snake_case_of, strip_raw, to_snake_case, Attribute, CharCase,
    FieldInput, MetaArg, StructInput, TypeDesc,
};
use tolstoy::entity::{
    Cardinality, Entity, EntitySchema, FieldDefinition, FieldType, Keyword, MentatError,
    RelResultDeserializeError, Unique, ValueType,
};
use tolstoy::facts::{Identifier, TypedValue};
use tolstoy::read::{
    attribute_from_result, attribute_query, entity_from_result, unique_query, Binding,
    QueryResults,
};
use tolstoy::view::{
    fields_shown, guarded_pattern, pattern_for, strip_hash, EntityViewSpec, FieldKind, FieldSpec,
};

struct TestPerson {
    email: String,
    name: String,
    age: Option<i64>,
}

impl Entity for TestPerson {
    fn schema() -> EntitySchema {
        EntitySchema {
            namespace: "person".to_string(),
            fields: vec![
                FieldDefinition {
                    name: "email".to_string(),
                    ident: Keyword::namespaced("person", "email"),
                    field_type: FieldType::String,
                    cardinality: Cardinality::One,
                    unique: Unique::Identity,
                    indexed: true,
                    optional: false,
                },
                FieldDefinition {
                    name: "name".to_string(),
                    ident: Keyword::namespaced("person", "name"),
                    field_type: FieldType::String,
                    cardinality: Cardinality::One,
                    unique: Unique::NotUnique,
                    indexed: false,
                    optional: false,
                },
                FieldDefinition {
                    name: "age".to_string(),
                    ident: Keyword::namespaced("person", "age"),
                    field_type: FieldType::Long,
                    cardinality: Cardinality::One,
                    unique: Unique::NotUnique,
                    indexed: false,
                    optional: true,
                },
            ],
        }
    }

    fn namespace() -> String {
        "person".to_string()
    }

    fn to_values(&self) -> HashMap<Keyword, TypedValue> {
        let mut values = HashMap::new();
        values.insert(
            Keyword::namespaced("person", "email"),
            TypedValue::String(self.email.clone()),
        );
        values.insert(Keyword::namespaced("person", "name"), TypedValue::String(self.name.clone()));
        if let Some(age) = self.age {
            values.insert(Keyword::namespaced("person", "age"), TypedValue::Long(age));
        }
        values
    }

    fn from_values(mut values: HashMap<Keyword, TypedValue>) -> Result<Self, MentatError> {
        let email_key = Keyword::namespaced("person", "email");
        let name_key = Keyword::namespaced("person", "name");
        let age_key = Keyword::namespaced("person", "age");

        let email = values
            .remove(&email_key)
            .and_then(|v| match v {
                TypedValue::String(s) => Some(s),
                _ => None,
            })
            .ok_or_else(|| MentatError::EntityError("Missing or invalid email".to_string()))?;

        let name = values
            .remove(&name_key)
            .and_then(|v| match v {
                TypedValue::String(s) => Some(s),
                _ => None,
            })
            .ok_or_else(|| MentatError::EntityError("Missing or invalid name".to_string()))?;

        let age = values.remove(&age_key).and_then(|v| match v {
            TypedValue::Long(n) => Some(n),
            _ => None,
        });

        Ok(TestPerson { email, name, age })
    }
}

#[test]
fn test_field_type_conversion() {
    assert_eq!(FieldType::String.to_value_type(), ValueType::String);
    assert_eq!(FieldType::Long.to_value_type(), ValueType::Long);
    assert_eq!(FieldType::Boolean.to_value_type(), ValueType::Boolean);
}

#[test]
fn lib_test_schema_edn_generation() {
    let schema = EntitySchema {
        namespace: "test".to_string(),
        fields: vec![FieldDefinition {
            name: "name_attr".to_string(),
            ident: Keyword::namespaced("test", "name"),
            field_type: FieldType::String,
            cardinality: Cardinality::One,
            unique: Unique::NotUnique,
            indexed: false,
            optional: false,
        }],
    };

    let edn = schema.to_edn();
    assert!(edn.contains(":test/name"));
    assert!(edn.contains(":db.type/string"));
    assert!(edn.contains(":db.cardinality/one"));
}

#[test]
fn entity_tests_test_schema_generation() {
    let schema = TestPerson::schema();
    assert_eq!(schema.namespace, "person");
    assert_eq!(schema.fields.len(), 3);

    let email_field = schema.fields.iter().find(|f| f.name == "email").unwrap();
    assert_eq!(email_field.field_type, FieldType::String);
    assert_eq!(email_field.unique, Unique::Identity);
    assert!(email_field.indexed);

    let age_field = schema.fields.iter().find(|f| f.name == "age").unwrap();
    assert_eq!(age_field.field_type, FieldType::Long);
    assert!(age_field.optional);
}

#[test]
fn entity_tests_test_schema_edn_generation() {
    let schema = TestPerson::schema();
    let edn = schema.to_edn();

    assert!(edn.contains(":person/email"));
    assert!(edn.contains(":person/name"));
    assert!(edn.contains(":person/age"));
    assert!(edn.contains(":db.type/string"));
    assert!(edn.contains(":db.type/long"));
    assert!(edn.contains(":db.cardinality/one"));
    assert!(edn.contains(":db.unique/identity"));
}

#[test]
fn entity_tests_test_to_values() {
    let person = TestPerson {
        email: "test@example.com".to_string(),
        name: "Test User".to_string(),
        age: Some(25),
    };

    let values = person.to_values();
    assert_eq!(values.len(), 3);

    let email = values.get(&Keyword::namespaced("person", "email")).unwrap();
    match email {
        TypedValue::String(s) => assert_eq!(s, "test@example.com"),
        _ => panic!("Expected string value"),
    }

    let age = values.get(&Keyword::namespaced("person", "age")).unwrap();
    match age {
        TypedValue::Long(n) => assert_eq!(*n, 25),
        _ => panic!("Expected long value"),
    }
}

#[test]
fn entity_tests_test_to_values_optional_none() {
    let person = TestPerson {
        email: "test@example.com".to_string(),
        name: "Test User".to_string(),
        age: None,
    };

    let values = person.to_values();
    assert_eq!(values.len(), 2);
    assert!(!values.contains_key(&Keyword::namespaced("person", "age")));
}

#[test]
fn test_from_values() {
    let mut values = HashMap::new();
    values.insert(
        Keyword::namespaced("person", "email"),
        TypedValue::String("test@example.com".into()),
    );
    values.insert(Keyword::namespaced("person", "name"), TypedValue::String("Test User".into()));
    values.insert(Keyword::namespaced("person", "age"), TypedValue::Long(25));

    let person = TestPerson::from_values(values).unwrap();
    assert_eq!(person.email, "test@example.com");
    assert_eq!(person.name, "Test User");
    assert_eq!(person.age, Some(25));
}

#[test]
fn test_from_values_optional_missing() {
    let mut values = HashMap::new();
    values.insert(
        Keyword::namespaced("person", "email"),
        TypedValue::String("test@example.com".into()),
    );
    values.insert(Keyword::namespaced("person", "name"), TypedValue::String("Test User".into()));

    let person = TestPerson::from_values(values).unwrap();
    assert_eq!(person.email, "test@example.com");
    assert_eq!(person.name, "Test User");
    assert_eq!(person.age, None);
}

#[test]
fn from_values_without_a_required_value_fails() {
    let values = HashMap::new();
    assert!(matches!(TestPerson::from_values(values), Err(MentatError::EntityError(_))));
    assert_eq!(TestPerson::namespace(), "person");
}

#[test]
fn schema_edn_is_exact() {
    let edn = TestPerson::schema().to_edn();
    assert_eq!(
        edn,
        "[{:db/ident :person/email :db/valueType :db.type/string :db/cardinality \
         :db.cardinality/one :db/unique :db.unique/identity :db/index true}\n \
         {:db/ident :person/name :db/valueType :db.type/string :db/cardinality \
         :db.cardinality/one}\n \
         {:db/ident :person/age :db/valueType :db.type/long :db/cardinality :db.cardinality/one}]"
    );
    let empty = EntitySchema { namespace: "none".to_string(), fields: vec![] };
    assert_eq!(empty.to_edn(), "[]");
}

#[test]
fn field_edn_names_every_type_and_constraint() {
    let types = [
        (FieldType::Ref, ":db.type/ref", ValueType::Ref),
        (FieldType::Boolean, ":db.type/boolean", ValueType::Boolean),
        (FieldType::Instant, ":db.type/instant", ValueType::Instant),
        (FieldType::Long, ":db.type/long", ValueType::Long),
        (FieldType::Double, ":db.type/double", ValueType::Double),
        (FieldType::String, ":db.type/string", ValueType::String),
        (FieldType::Keyword, ":db.type/keyword", ValueType::Keyword),
        (FieldType::Uuid, ":db.type/uuid", ValueType::Uuid),
    ];
    for (field_type, name, value_type) in types {
        assert_eq!(field_type.to_value_type(), value_type);
        let field = FieldDefinition {
            name: "f".to_string(),
            ident: Keyword { namespace: None, name: "f".to_string() },
            field_type,
            cardinality: Cardinality::Many,
            unique: Unique::Value,
            indexed: false,
            optional: false,
        };
        assert_eq!(
            field.to_edn(),
            format!(
                "{{:db/ident :f :db/valueType {} :db/cardinality :db.cardinality/many \
                 :db/unique :db.unique/value}}",
                name
            )
        );
    }
}

#[test]
fn keyword_text_has_namespace_and_name() {
    assert_eq!(Keyword::namespaced("person", "name").to_text(), ":person/name");
    assert_eq!(Keyword { namespace: None, name: "id".to_string() }.to_text(), ":id");
}

#[test]
fn snake_case_marks_word_starts() {
    assert_eq!(to_snake_case("ProductView"), "product_view");
    assert_eq!(to_snake_case("product_name"), "product_name");
    assert_eq!(to_snake_case("HTTPServer"), "httpserver");
    assert_eq!(to_snake_case("userID"), "user_id");
    assert_eq!(to_snake_case(""), "");
    assert_eq!(to_snake_case("A"), "a");
    assert_eq!(to_snake_case("aB"), "a_b");
}

#[test]
fn snake_case_follows_what_is_known_of_each_character() {
    let known = |ch: char, upper: bool, lowered: char| CharCase { ch, upper, lowered };
    // The facts are taken as given, whatever the characters are.
    let chars = vec![
        known('a', true, 'x'),
        known('b', false, 'y'),
        known('c', true, 'z'),
        known('d', true, 'w'),
        known('e', false, 'v'),
    ];
    assert_eq!(snake_case_of(&chars), vec!['x', 'b', '_', 'z', 'w', 'e']);
    assert_eq!(snake_case_of(&vec![]), Vec::<char>::new());
    // Characters beyond ASCII take their lower-case mapping.
    assert_eq!(to_snake_case("ÉcoleÉté"), "école_été");
    assert_eq!(to_snake_case("İx"), "i\u{307}x".chars().filter(|c| *c != '\u{307}').collect::<String>());
}

#[test]
fn raw_marks_are_removed() {
    assert_eq!(strip_raw("r#type"), "type");
    assert_eq!(strip_raw("name"), "name");
    assert_eq!(strip_raw("r"), "r");
    assert_eq!(strip_raw("rr#x"), "rx");
    assert_eq!(strip_raw(""), "");
}

fn plain(name: &str) -> TypeDesc {
    TypeDesc { name: name.to_string(), arg: None }
}

fn wrapped(name: &str, inner: TypeDesc) -> TypeDesc {
    TypeDesc { name: name.to_string(), arg: Some(Box::new(inner)) }
}

fn entity(args: Vec<MetaArg>) -> Attribute {
    Attribute { name: "entity".to_string(), args: Some(args) }
}

fn named(name: &str, value: &str) -> MetaArg {
    MetaArg::NameValue { name: name.to_string(), value: value.to_string() }
}

fn flag(word: &str) -> MetaArg {
    MetaArg::Flag(word.to_string())
}

// #[entity(namespace = "person")]
// struct Person {
//     #[entity(unique = "identity", indexed)] email: String,
//     name: String,
//     age: Option<i64>,
//     #[entity(many)] r#type: Keyword,
// }
fn person() -> StructInput {
    StructInput {
        name: "Person".to_string(),
        attrs: vec![entity(vec![named("namespace", "person")])],
        fields: vec![
            FieldInput {
                name: "email".to_string(),
                attrs: vec![entity(vec![named("unique", "identity"), flag("indexed")])],
                ty: plain("String"),
            },
            FieldInput { name: "name".to_string(), attrs: vec![], ty: plain("String") },
            FieldInput {
                name: "age".to_string(),
                attrs: vec![],
                ty: wrapped("Option", plain("i64")),
            },
            FieldInput {
                name: "r#type".to_string(),
                attrs: vec![entity(vec![flag("many"), named("unique", "value")])],
                ty: plain("Keyword"),
            },
        ],
    }
}

#[test]
fn derived_schema_follows_the_declaration() {
    let schema = derive_entity(&person()).expect("a schema");
    assert_eq!(schema.namespace, "person");
    assert_eq!(schema.fields.len(), 4);

    let email = &schema.fields[0];
    assert_eq!(email.name, "email");
    assert_eq!(email.ident, Keyword::namespaced("person", "email"));
    assert_eq!(email.field_type, FieldType::String);
    assert_eq!(email.cardinality, Cardinality::One);
    assert_eq!(email.unique, Unique::Identity);
    assert!(email.indexed);
    assert!(!email.optional);

    let age = &schema.fields[2];
    assert_eq!(age.field_type, FieldType::Long);
    assert_eq!(age.unique, Unique::NotUnique);
    assert!(age.optional);
    assert!(!age.indexed);

    let kind = &schema.fields[3];
    assert_eq!(kind.name, "type");
    assert_eq!(kind.ident, Keyword::namespaced("person", "type"));
    assert_eq!(kind.field_type, FieldType::Keyword);
    assert_eq!(kind.cardinality, Cardinality::Many);
    assert_eq!(kind.unique, Unique::Value);
}

#[test]
fn schema_is_refused_without_namespace_or_with_unknown_type() {
    let mut nameless = person();
    nameless.attrs.clear();
    assert!(derive_entity(&nameless).is_none());

    let mut odd = person();
    odd.fields[1].ty = plain("Vec");
    assert!(derive_entity(&odd).is_none());
}

#[test]
fn attribute_readers_follow_the_last_and_the_first() {
    let attrs = vec![
        entity(vec![named("unique", "value"), named("namespace", "first")]),
        Attribute { name: "doc".to_string(), args: Some(vec![flag("indexed")]) },
        entity(vec![named("unique", "identity"), named("namespace", "second"), flag("many")]),
    ];
    assert_eq!(extract_namespace(&attrs), Some("first".to_string()));
    let parsed = parse_field_attributes(&attrs);
    assert_eq!(parsed.unique, Some("identity".to_string()));
    assert!(parsed.many);
    assert!(!parsed.indexed);
    assert_eq!(extract_namespace(&vec![]), None);
}

#[test]
fn field_types_are_read_below_option() {
    assert_eq!(extract_field_type(&plain("String")), ("String".to_string(), false));
    assert_eq!(
        extract_field_type(&wrapped("Option", wrapped("Option", plain("i64")))),
        ("i64".to_string(), true)
    );
    assert_eq!(extract_field_type(&plain("Option")), ("Option".to_string(), false));
    assert_eq!(rust_type_to_field_type("String"), Some(FieldType::String));
    assert_eq!(rust_type_to_field_type("i64"), Some(FieldType::Long));
    assert_eq!(rust_type_to_field_type("f64"), Some(FieldType::Double));
    assert_eq!(rust_type_to_field_type("bool"), Some(FieldType::Boolean));
    assert_eq!(rust_type_to_field_type("DateTime"), Some(FieldType::Instant));
    assert_eq!(rust_type_to_field_type("Uuid"), Some(FieldType::Uuid));
    assert_eq!(rust_type_to_field_type("Keyword"), Some(FieldType::Keyword));
    assert_eq!(rust_type_to_field_type("Entid"), Some(FieldType::Ref));
    assert_eq!(rust_type_to_field_type("u8"), None);
}

fn spec(name: &str, attr: &str, kind: FieldKind, profiles: Option<Vec<&str>>) -> FieldSpec {
    FieldSpec {
        rust_name: name.to_string(),
        attr: attr.to_string(),
        kind,
        cardinality_many: false,
        profiles: profiles.map(|list| list.into_iter().map(|p| p.to_string()).collect()),
        is_component: false,
    }
}

fn album_fields() -> Vec<FieldSpec> {
    vec![
        spec("title", ":album/title", FieldKind::Scalar, None),
        spec("code", ":album/#code", FieldKind::Scalar, Some(vec!["full"])),
        spec(
            "artist",
            ":album/artist",
            FieldKind::Ref { nested: "ArtistView".to_string() },
            Some(vec!["brief", "full"]),
        ),
        spec(
            "tracks",
            ":track/album",
            FieldKind::Backref { nested: "TrackView".to_string() },
            Some(vec![]),
        ),
    ]
}

struct AlbumView;

impl EntityViewSpec for AlbumView {
    fn name() -> String {
        "AlbumView".to_string()
    }

    fn ns() -> String {
        "album".to_string()
    }

    fn fields() -> Vec<FieldSpec> {
        album_fields()
    }
}

#[test]
fn profiles_select_fields() {
    let names = |fields: Vec<FieldSpec>| -> Vec<String> {
        fields.into_iter().map(|f| f.rust_name).collect()
    };
    assert_eq!(names(AlbumView::fields_for_profile("full")), vec!["title", "code", "artist"]);
    assert_eq!(names(AlbumView::fields_for_profile("brief")), vec!["title", "artist"]);
    assert_eq!(names(AlbumView::fields_for_profile("other")), vec!["title"]);
    assert!(AlbumView::profiles().is_empty());

    let all = album_fields();
    assert_eq!(fields_shown(&all, None).len(), 4);
    assert_eq!(fields_shown(&all, Some("brief")).len(), 2);
}

#[test]
fn pull_pattern_names_attributes() {
    assert_eq!(AlbumView::pull_pattern(0, None), "[* :album/title :album/code]");
    assert_eq!(
        AlbumView::pull_pattern(1, None),
        "[* :album/title :album/code :album/artist :track/album]"
    );
    assert_eq!(AlbumView::pull_pattern(2, Some("brief")), "[* :album/title :album/artist]");
    assert_eq!(AlbumView::pull_pattern(0, Some("brief")), "[* :album/title]");

    let none: Vec<&FieldSpec> = vec![];
    assert_eq!(pattern_for(&none, 3), "[*]");
    assert_eq!(strip_hash("#a#b#"), "ab");
}

#[test]
fn pull_pattern_of_a_view_that_is_being_written_is_dots() {
    let mut visited = vec!["AlbumView".to_string()];
    assert_eq!(AlbumView::pull_pattern_impl(1, None, &mut visited), "...");
    assert_eq!(visited, vec!["AlbumView".to_string()]);

    let mut others = vec!["TrackView".to_string()];
    assert_eq!(
        guarded_pattern("AlbumView", &album_fields(), 0, None, &mut others),
        "[* :album/title :album/code]"
    );
    assert_eq!(others, vec!["TrackView".to_string()]);
}

fn required_field() -> FieldDefinition {
    FieldDefinition {
        name: "email".to_string(),
        ident: Keyword::namespaced("person", "email"),
        field_type: FieldType::String,
        cardinality: Cardinality::One,
        unique: Unique::NotUnique,
        indexed: false,
        optional: false,
    }
}

#[test]
fn queries_name_the_attribute() {
    assert_eq!(
        attribute_query(&Keyword::namespaced("person", "email")),
        "[:find ?v . :in $ ?e :where [?e ::person/email ?v]]"
    );
    assert_eq!(
        unique_query(&Keyword::namespaced("person", "email")),
        "[:find ?e . :in $ ?v :where [?e ::person/email ?v]]"
    );
}

#[test]
fn attribute_results_are_read() {
    let field = required_field();
    let mut optional = required_field();
    optional.optional = true;

    let value = attribute_from_result(
        &field,
        Ok(QueryResults::Scalar(Some(Binding::Scalar(TypedValue::Long(5))))),
    );
    assert!(matches!(value, Ok(Some(TypedValue::Long(5)))));
    assert!(matches!(
        attribute_from_result(&field, Ok(QueryResults::Scalar(Some(Binding::Structured)))),
        Ok(None)
    ));
    assert!(matches!(attribute_from_result(&field, Ok(QueryResults::Scalar(None))), Ok(None)));
    assert!(matches!(
        attribute_from_result(&field, Ok(QueryResults::Other)),
        Err(MentatError::UnexpectedResultsType(m)) if m == "Expected scalar result"
    ));
    assert!(matches!(
        attribute_from_result(&field, Err(MentatError::StoreError("down".to_string()))),
        Err(MentatError::StoreError(m)) if m == "down"
    ));
    assert!(matches!(
        attribute_from_result(&optional, Err(MentatError::StoreError("down".to_string()))),
        Ok(None)
    ));
}

#[test]
fn unique_results_are_read() {
    let found = entity_from_result(Ok(QueryResults::Scalar(Some(Binding::Scalar(
        TypedValue::Ref(Identifier::Stable(65536)),
    )))));
    assert!(matches!(found, Ok(Some(65536))));
    assert!(matches!(entity_from_result(Ok(QueryResults::Scalar(None))), Ok(None)));
    assert!(matches!(
        entity_from_result(Ok(QueryResults::Scalar(Some(Binding::Scalar(TypedValue::Long(1)))))),
        Err(MentatError::UnexpectedResultsType(m)) if m == "Expected entid"
    ));
    assert!(matches!(
        entity_from_result(Ok(QueryResults::Scalar(Some(Binding::Structured)))),
        Err(MentatError::UnexpectedResultsType(m)) if m == "Expected entid"
    ));
    assert!(matches!(
        entity_from_result(Ok(QueryResults::Other)),
        Err(MentatError::UnexpectedResultsType(m)) if m == "Expected scalar result"
    ));
    assert!(matches!(
        entity_from_result(Err(MentatError::EntityError("x".to_string()))),
        Err(MentatError::EntityError(_))
    ));
}

#[test]
fn deserialize_errors_have_messages() {
    assert_eq!(
        RelResultDeserializeError::SerializationError("bad".to_string()).message(),
        "Serialization error: bad"
    );
    assert_eq!(
        RelResultDeserializeError::DeserializationError("worse".to_string()).message(),
        "Deserialization error: worse"
    );
}
