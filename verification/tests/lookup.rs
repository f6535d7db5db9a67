use sdkgen::lookup::find_named;
use sdkgen::openapi::document::{Components, OpenApi, OpenApiType, ReferenceOr, Schema, SchemaKind};
use sdkgen::openapi::schema::SchemaReference;
use sdkgen::text::{contains_text, same_text};

#[test]
fn find_named_takes_the_first_pair() {
    let pairs = vec![("a".to_string(), 1), ("b".to_string(), 2), ("a".to_string(), 3)];
    assert_eq!(find_named(&pairs, "a"), Some(&1));
    assert_eq!(find_named(&pairs, "b"), Some(&2));
    assert_eq!(find_named(&pairs, "c"), None);
    assert_eq!(find_named(&pairs, ""), None);
    let none: Vec<(String, u8)> = Vec::new();
    assert_eq!(find_named(&none, "a"), None);
}

#[test]
fn texts_are_compared_whole() {
    assert!(same_text("", ""));
    assert!(same_text("GET", "GET"));
    assert!(!same_text("GET", "GET "));
    assert!(!same_text("GET", "get"));
    let texts = vec!["name".to_string(), "age".to_string()];
    assert!(contains_text(&texts, &"age".to_string()));
    assert!(!contains_text(&texts, &"ag".to_string()));
    assert!(!contains_text(&Vec::new(), &"age".to_string()));
}

#[test]
fn the_first_schema_of_a_name_is_the_declared_one() {
    let typed = |ty: OpenApiType| Schema { schema_kind: SchemaKind::Type(ty) };
    let api = OpenApi {
        paths: Vec::new(),
        components: Some(Components {
            schemas: vec![
                ("Id".to_string(), ReferenceOr::Item(typed(OpenApiType::String))),
                ("Id".to_string(), ReferenceOr::Item(typed(OpenApiType::Integer))),
            ],
        }),
    };
    let parsed = SchemaReference::try_from("#/components/schemas/Id".to_string()).unwrap();
    let named = parsed.resolve(&api).unwrap();
    assert_eq!(named.name, "Id");
    assert_eq!(named.schema, &typed(OpenApiType::String));
}
