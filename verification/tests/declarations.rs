use sdkgen::declarations::TypeDeclarations;
use sdkgen::route::{HttpMethod, Route};
use sdkgen::types::{Member, Primitive, Type};

fn string() -> Type {
    Type::Primitive(Primitive::String)
}

fn member(name: &str, ty: Type) -> Member {
    Member { name: name.to_string(), description: None, ty, is_optional: false }
}

fn record(name: &str, members: Vec<Member>) -> Type {
    Type::Record { name: name.to_string(), members }
}

fn names(table: TypeDeclarations) -> Vec<String> {
    table.into_vec().into_iter().map(|(name, _)| name).collect()
}

fn route(payload: Option<Type>, returns: Option<Type>) -> Route {
    Route {
        name: "r".to_string(),
        description: None,
        method: HttpMethod::Post,
        url: "/".to_string(),
        group: "g".to_string(),
        version: "v".to_string(),
        url_parameters: Vec::new(),
        payload_type: payload,
        return_type: returns,
    }
}

#[test]
fn a_new_table_is_empty() {
    assert!(TypeDeclarations::new().into_vec().is_empty());
}

#[test]
fn registering_twice_leaves_one_entry() {
    let pet = record("Pet", vec![member("name", string())]);
    let mut table = TypeDeclarations::new();
    table.register(pet.clone());
    table.register(pet.clone());
    assert_eq!(table.into_vec(), vec![("Pet".to_string(), pet)]);
}

#[test]
fn registering_reaches_nested_named_types_in_order() {
    let tag = record("Tag", vec![member("label", string())]);
    let owner = record("Owner", vec![member("tags", Type::Array(Box::new(tag.clone())))]);
    let pet = record(
        "Pet",
        vec![
            member("owner", owner.clone()),
            member("kind", Type::Union { name: "Kind".to_string(), cases: vec!["cat".to_string()] }),
            member("tag", tag.clone()),
        ],
    );
    let mut table = TypeDeclarations::new();
    table.register(pet.clone());
    assert_eq!(names(table), vec!["Pet", "Owner", "Tag", "Kind"]);
}

#[test]
fn registering_an_unnamed_type_still_registers_what_it_nests() {
    let pet = record("Pet", vec![]);
    let mut table = TypeDeclarations::new();
    table.register(Type::Array(Box::new(pet.clone())));
    table.register(string());
    table.register(Type::Mapping { key: Box::new(string()), value: Box::new(record("Owner", vec![])) });
    assert_eq!(
        table.into_vec(),
        vec![("Pet".to_string(), pet), ("Owner".to_string(), record("Owner", vec![]))]
    );
}

#[test]
fn the_last_registration_of_a_name_wins_and_keeps_the_place() {
    let first = record("Pet", vec![member("a", string())]);
    let second = record("Pet", vec![member("b", string())]);
    let other = record("Other", vec![]);
    let mut table = TypeDeclarations::new();
    table.register(first);
    table.register(other.clone());
    table.register(second.clone());
    assert_eq!(
        table.into_vec(),
        vec![("Pet".to_string(), second), ("Other".to_string(), other)]
    );
}

#[test]
fn routes_register_payload_before_return_type() {
    let a = record("A", vec![]);
    let b = record("B", vec![]);
    let c = record("C", vec![]);
    let routes = vec![
        route(Some(b.clone()), Some(a.clone())),
        route(None, Some(c.clone())),
        route(Some(a.clone()), Some(b.clone())),
    ];
    let table = TypeDeclarations::from_routes(&routes);
    assert_eq!(names(table), vec!["B", "A", "C"]);
}

#[test]
fn register_all_registers_first_to_last() {
    let mut table = TypeDeclarations::new();
    table.register_all(vec![record("B", vec![]), string(), record("A", vec![])]);
    assert_eq!(names(table), vec!["B", "A"]);
}
