use sdkgen::declarations::TypeDeclarations;
use sdkgen::openapi::convert::{openapi_type_to_type, schema_to_type, ConversionError};
use sdkgen::openapi::document::{
    ArrayType, Components, MediaType, ObjectType, OpenApi, OpenApiType, Operation, Parameter,
    ParameterData, PathItem, ReferenceOr, Response, Responses, Schema, SchemaKind, StatusCode,
};
use sdkgen::openapi::extract::{
    from_openapi, normalize_url, operation_to_route, parameter_to_url_parameter, path_to_routes,
    response_to_return_type, ExtractionError, ReturnTypeError,
};
use sdkgen::openapi::schema::{resolve_schema, NamedOrAnonymous, SchemaReference};
use sdkgen::route::{HttpMethod, Route, UrlParameter};
use sdkgen::types::{Member, Primitive, Type};

fn typed(ty: OpenApiType) -> Schema {
    Schema { schema_kind: SchemaKind::Type(ty) }
}

fn reference<T>(name: &str) -> ReferenceOr<T> {
    ReferenceOr::Reference { reference: format!("#/components/schemas/{}", name) }
}

fn object(properties: Vec<(&str, ReferenceOr<Schema>)>, required: Vec<&str>) -> Schema {
    typed(OpenApiType::Object(ObjectType {
        properties: properties.into_iter().map(|(name, schema)| (name.to_string(), schema)).collect(),
        required: required.into_iter().map(|name| name.to_string()).collect(),
    }))
}

fn document(schemas: Vec<(&str, ReferenceOr<Schema>)>) -> OpenApi {
    OpenApi {
        paths: Vec::new(),
        components: Some(Components {
            schemas: schemas.into_iter().map(|(name, schema)| (name.to_string(), schema)).collect(),
        }),
    }
}

fn pet_schema() -> Schema {
    object(
        vec![
            ("name", ReferenceOr::Item(typed(OpenApiType::String))),
            ("age", ReferenceOr::Item(typed(OpenApiType::Integer))),
        ],
        vec!["name"],
    )
}

fn pet_type(name: &str) -> Type {
    Type::Record {
        name: name.to_string(),
        members: vec![
            Member {
                name: "name".to_string(),
                description: None,
                ty: Type::Primitive(Primitive::String),
                is_optional: false,
            },
            Member {
                name: "age".to_string(),
                description: None,
                ty: Type::Primitive(Primitive::Integer),
                is_optional: true,
            },
        ],
    }
}

fn json_response(schema: Option<ReferenceOr<Schema>>) -> Response {
    Response { content: vec![("application/json".to_string(), MediaType { schema })] }
}

fn operation(id: Option<&str>, responses: Responses) -> Operation {
    Operation { operation_id: id.map(|id| id.to_string()), parameters: Vec::new(), responses }
}

fn no_responses() -> Responses {
    Responses { default: None, responses: Vec::new() }
}

fn path_item() -> PathItem {
    PathItem { get: None, put: None, post: None, delete: None, patch: None }
}

fn resolve<'a>(api: &'a OpenApi, name: &str) -> Option<(String, &'a Schema)> {
    let parsed = SchemaReference::try_from(format!("#/components/schemas/{}", name)).unwrap();
    parsed.resolve(api).map(|named| (named.name, named.schema))
}

#[test]
fn a_reference_must_start_with_the_schema_prefix() {
    assert_eq!(
        SchemaReference::try_from("#/components/schemas/Pet".to_string()).unwrap().name(),
        "Pet"
    );
    assert_eq!(
        SchemaReference::try_from("#/components/responses/Pet".to_string()).unwrap_err(),
        "Not a schema reference: '#/components/responses/Pet'."
    );
    assert_eq!(
        SchemaReference::try_from("Pet".to_string()).unwrap_err(),
        "Not a schema reference: 'Pet'."
    );
}

#[test]
fn a_reference_loses_its_prefix_once() {
    let parsed =
        SchemaReference::try_from("#/components/schemas/#/components/schemas/Pet".to_string()).unwrap();
    assert_eq!(parsed.name(), "#/components/schemas/Pet");
}

#[test]
fn a_chain_of_references_resolves_to_its_end() {
    let api = document(vec![
        ("A", reference("B")),
        ("B", reference("C")),
        ("C", ReferenceOr::Item(pet_schema())),
    ]);
    let direct = resolve(&api, "C").unwrap();
    assert_eq!(direct, ("C".to_string(), &pet_schema()));
    assert_eq!(resolve(&api, "A").unwrap(), direct);
    assert_eq!(resolve(&api, "B").unwrap(), direct);
}

#[test]
fn a_chain_as_long_as_the_table_resolves() {
    let api = document(vec![
        ("D", ReferenceOr::Item(typed(OpenApiType::Boolean))),
        ("C", reference("D")),
        ("B", reference("C")),
        ("A", reference("B")),
    ]);
    assert_eq!(resolve(&api, "A"), Some(("D".to_string(), &typed(OpenApiType::Boolean))));
}

#[test]
fn a_cycle_of_references_resolves_to_nothing() {
    let api = document(vec![("A", reference("B")), ("B", reference("A"))]);
    assert_eq!(resolve(&api, "A"), None);
    assert_eq!(resolve(&api, "B"), None);
    let own = document(vec![("A", reference("A"))]);
    assert_eq!(resolve(&own, "A"), None);
}

#[test]
fn a_broken_chain_resolves_to_nothing() {
    let api = document(vec![
        ("A", reference("Missing")),
        ("B", ReferenceOr::Reference { reference: "#/elsewhere/C".to_string() }),
    ]);
    assert_eq!(resolve(&api, "A"), None);
    assert_eq!(resolve(&api, "B"), None);
    assert_eq!(resolve(&api, "Missing"), None);
    let bare = OpenApi { paths: Vec::new(), components: None };
    assert_eq!(resolve(&bare, "A"), None);
}

#[test]
fn resolve_schema_names_what_it_reaches_by_reference() {
    let api = document(vec![("Pet", ReferenceOr::Item(pet_schema()))]);
    let inline = ReferenceOr::Item(typed(OpenApiType::Number));
    match resolve_schema(&api, &inline) {
        Some(NamedOrAnonymous::Anonymous(schema)) => assert_eq!(schema, &typed(OpenApiType::Number)),
        other => panic!("{:?}", other),
    }
    let by_name = reference("Pet");
    match resolve_schema(&api, &by_name) {
        Some(NamedOrAnonymous::Named(name, schema)) => {
            assert_eq!(name, "Pet");
            assert_eq!(schema, &pet_schema());
        }
        other => panic!("{:?}", other),
    }
    assert!(resolve_schema(&api, &reference("Owner")).is_none());
    let foreign = ReferenceOr::Reference { reference: "Pet".to_string() };
    assert!(resolve_schema(&api, &foreign).is_none());
    assert_eq!(NamedOrAnonymous::Named("n".to_string(), 7).into_value(), 7);
    assert_eq!(NamedOrAnonymous::Anonymous(8).into_value(), 8);
}

#[test]
fn scalars_convert_to_primitives() {
    let api = document(vec![]);
    assert_eq!(openapi_type_to_type(&api, &OpenApiType::String), Ok(Type::Primitive(Primitive::String)));
    assert_eq!(openapi_type_to_type(&api, &OpenApiType::Number), Ok(Type::Primitive(Primitive::Float)));
    assert_eq!(openapi_type_to_type(&api, &OpenApiType::Integer), Ok(Type::Primitive(Primitive::Integer)));
    assert_eq!(openapi_type_to_type(&api, &OpenApiType::Boolean), Ok(Type::Primitive(Primitive::Boolean)));
}

#[test]
fn an_object_converts_to_a_record() {
    let api = document(vec![]);
    let schema = pet_schema();
    assert_eq!(schema_to_type(&api, NamedOrAnonymous::Anonymous(&schema)), Ok(pet_type("Unnamed")));
    assert_eq!(
        schema_to_type(&api, NamedOrAnonymous::Named("Pet".to_string(), &schema)),
        Ok(pet_type("Pet"))
    );
}

#[test]
fn a_name_leaves_unnamed_types_alone() {
    let api = document(vec![]);
    let schema = typed(OpenApiType::String);
    assert_eq!(
        schema_to_type(&api, NamedOrAnonymous::Named("Id".to_string(), &schema)),
        Ok(Type::Primitive(Primitive::String))
    );
}

#[test]
fn nested_references_convert_under_their_names() {
    let api = document(vec![
        ("Pet", ReferenceOr::Item(pet_schema())),
        ("Alias", reference("Pet")),
    ]);
    let schema = object(
        vec![
            ("pets", ReferenceOr::Item(typed(OpenApiType::Array(ArrayType {
                items: Some(Box::new(reference("Alias"))),
            })))),
            ("inline", ReferenceOr::Item(object(vec![], vec![]))),
        ],
        vec!["inline", "other"],
    );
    assert_eq!(
        schema_to_type(&api, NamedOrAnonymous::Named("Shelter".to_string(), &schema)),
        Ok(Type::Record {
            name: "Shelter".to_string(),
            members: vec![
                Member {
                    name: "pets".to_string(),
                    description: None,
                    ty: Type::Array(Box::new(pet_type("Pet"))),
                    is_optional: true,
                },
                Member {
                    name: "inline".to_string(),
                    description: None,
                    ty: Type::Record { name: "Unnamed".to_string(), members: vec![] },
                    is_optional: false,
                },
            ],
        })
    );
}

#[test]
fn a_composition_is_unsupported() {
    let api = document(vec![]);
    let schema = Schema { schema_kind: SchemaKind::Composition };
    assert_eq!(
        schema_to_type(&api, NamedOrAnonymous::Anonymous(&schema)),
        Err(ConversionError::UnsupportedSchemaKind)
    );
    let nested = object(vec![("a", ReferenceOr::Item(typed(OpenApiType::String))), ("b", ReferenceOr::Item(schema))], vec![]);
    assert_eq!(
        schema_to_type(&api, NamedOrAnonymous::Anonymous(&nested)),
        Err(ConversionError::UnsupportedSchemaKind)
    );
    assert_eq!(ConversionError::UnsupportedSchemaKind.message(), "unsupported schema kind");
}

#[test]
fn a_nested_reference_that_does_not_resolve_is_an_error() {
    let api = document(vec![]);
    let schema = object(vec![("owner", reference("Owner"))], vec![]);
    assert_eq!(
        schema_to_type(&api, NamedOrAnonymous::Anonymous(&schema)),
        Err(ConversionError::UnresolvedReference)
    );
    let array = typed(OpenApiType::Array(ArrayType { items: None }));
    assert_eq!(
        schema_to_type(&api, NamedOrAnonymous::Anonymous(&array)),
        Err(ConversionError::UnresolvedReference)
    );
    assert_eq!(ConversionError::UnresolvedReference.message(), "unresolved schema reference");
}

#[test]
fn the_first_failing_property_decides_the_error() {
    let api = document(vec![]);
    let schema = object(
        vec![
            ("a", reference("Missing")),
            ("b", ReferenceOr::Item(Schema { schema_kind: SchemaKind::Composition })),
        ],
        vec![],
    );
    assert_eq!(
        schema_to_type(&api, NamedOrAnonymous::Anonymous(&schema)),
        Err(ConversionError::UnresolvedReference)
    );
}

#[test]
fn a_schema_that_nests_itself_is_an_error() {
    let node = object(vec![("next", reference("Node"))], vec![]);
    let api = document(vec![(
        "Node",
        ReferenceOr::Item(object(vec![("next", reference("Node"))], vec![])),
    )]);
    assert_eq!(
        schema_to_type(&api, NamedOrAnonymous::Named("Node".to_string(), &node)),
        Err(ConversionError::CyclicReference)
    );
    assert_eq!(ConversionError::CyclicReference.message(), "cyclic schema reference");
}

#[test]
fn references_may_nest_as_deep_as_the_table() {
    let api = document(vec![
        ("A", ReferenceOr::Item(object(vec![("b", reference("B"))], vec![]))),
        ("B", ReferenceOr::Item(object(vec![("c", reference("C"))], vec![]))),
        ("C", ReferenceOr::Item(typed(OpenApiType::Boolean))),
    ]);
    let top = object(vec![("a", reference("A"))], vec![]);
    let optional = |name: &str, ty: Type| Member {
        name: name.to_string(),
        description: None,
        ty,
        is_optional: true,
    };
    assert_eq!(
        schema_to_type(&api, NamedOrAnonymous::Anonymous(&top)),
        Ok(Type::Record {
            name: "Unnamed".to_string(),
            members: vec![optional(
                "a",
                Type::Record {
                    name: "A".to_string(),
                    members: vec![optional(
                        "b",
                        Type::Record {
                            name: "B".to_string(),
                            members: vec![optional("c", Type::Primitive(Primitive::Boolean))],
                        }
                    )],
                }
            )],
        })
    );
}

#[test]
fn braces_become_parameter_markers() {
    assert_eq!(normalize_url("/pets/{id}"), "/pets/:id");
    assert_eq!(normalize_url("/a/{b}/c/{d}"), "/a/:b/c/:d");
    assert_eq!(normalize_url("/plain"), "/plain");
    assert_eq!(normalize_url(""), "");
    assert_eq!(normalize_url("}{"), ":");
}

#[test]
fn path_parameters_are_strings() {
    let data = ParameterData { name: "id".to_string() };
    assert_eq!(
        parameter_to_url_parameter(&data),
        UrlParameter { name: "id".to_string(), ty: Primitive::String }
    );
}

#[test]
fn a_response_without_json_or_schema_has_no_return_type() {
    let api = document(vec![]);
    let xml = Response { content: vec![("application/xml".to_string(), MediaType { schema: None })] };
    assert_eq!(response_to_return_type(&api, &xml), Err(ReturnTypeError::NoJsonContent));
    assert_eq!(response_to_return_type(&api, &json_response(None)), Err(ReturnTypeError::NoSchema));
    assert_eq!(
        response_to_return_type(&api, &json_response(Some(reference("Missing")))),
        Err(ReturnTypeError::NoSchema)
    );
    assert_eq!(
        response_to_return_type(
            &api,
            &json_response(Some(ReferenceOr::Item(Schema { schema_kind: SchemaKind::Composition })))
        ),
        Err(ReturnTypeError::Conversion(ConversionError::UnsupportedSchemaKind))
    );
    assert_eq!(ReturnTypeError::NoJsonContent.message(), "No response found for application/json");
    assert_eq!(ReturnTypeError::NoSchema.message(), "No schema.");
    assert_eq!(
        ReturnTypeError::Conversion(ConversionError::UnsupportedSchemaKind).message(),
        "unsupported schema kind"
    );
}

#[test]
fn the_default_response_comes_before_status_200() {
    let api = document(vec![]);
    let string = json_response(Some(ReferenceOr::Item(typed(OpenApiType::String))));
    let integer = json_response(Some(ReferenceOr::Item(typed(OpenApiType::Integer))));
    let both = operation(
        Some("op"),
        Responses {
            default: Some(ReferenceOr::Item(string)),
            responses: vec![(
                StatusCode::Code(200),
                ReferenceOr::Item(json_response(Some(ReferenceOr::Item(typed(
                    OpenApiType::Integer,
                ))))),
            )],
        },
    );
    let route = operation_to_route(&api, &"/x".to_string(), HttpMethod::Put, &both).unwrap();
    assert_eq!(route.return_type, Some(Type::Primitive(Primitive::String)));
    let ok_only = operation(
        Some("op"),
        Responses {
            default: None,
            responses: vec![
                (StatusCode::Range(2), ReferenceOr::Item(json_response(None))),
                (StatusCode::Code(404), ReferenceOr::Item(json_response(None))),
                (StatusCode::Code(200), ReferenceOr::Item(integer)),
            ],
        },
    );
    let route = operation_to_route(&api, &"/x".to_string(), HttpMethod::Put, &ok_only).unwrap();
    assert_eq!(route.return_type, Some(Type::Primitive(Primitive::Integer)));
    let other = operation(
        Some("op"),
        Responses {
            default: None,
            responses: vec![(StatusCode::Code(201), ReferenceOr::Item(json_response(None)))],
        },
    );
    let route = operation_to_route(&api, &"/x".to_string(), HttpMethod::Put, &other).unwrap();
    assert_eq!(route.return_type, None);
    let by_reference = operation(
        Some("op"),
        Responses {
            default: Some(ReferenceOr::Reference { reference: "#/components/responses/R".to_string() }),
            responses: Vec::new(),
        },
    );
    let route = operation_to_route(&api, &"/x".to_string(), HttpMethod::Put, &by_reference).unwrap();
    assert_eq!(route.return_type, None);
}

#[test]
fn an_operation_needs_an_identifier() {
    let api = document(vec![]);
    let path = "/pets".to_string();
    let missing = operation(None, no_responses());
    let error = operation_to_route(&api, &path, HttpMethod::Get, &missing).unwrap_err();
    assert_eq!(error, ExtractionError::MissingOperationId { path: "/pets".to_string() });
    assert_eq!(error.message(), "No operation ID for /pets");
    let blank = operation(Some("  "), no_responses());
    assert_eq!(
        operation_to_route(&api, &path, HttpMethod::Get, &blank),
        Err(ExtractionError::MissingOperationId { path: "/pets".to_string() })
    );
}

#[test]
fn an_unsupported_response_schema_stops_the_extraction() {
    let api = document(vec![]);
    let bad = operation(
        Some("op"),
        Responses {
            default: Some(ReferenceOr::Item(json_response(Some(ReferenceOr::Item(Schema {
                schema_kind: SchemaKind::Composition,
            }))))),
            responses: Vec::new(),
        },
    );
    let error = operation_to_route(&api, &"/p".to_string(), HttpMethod::Get, &bad).unwrap_err();
    assert_eq!(
        error,
        ExtractionError::Schema { path: "/p".to_string(), error: ConversionError::UnsupportedSchemaKind }
    );
    assert_eq!(error.message(), "unsupported schema kind for /p");
}

#[test]
fn only_inline_path_parameters_become_url_parameters() {
    let api = document(vec![]);
    let data = |name: &str| ParameterData { name: name.to_string() };
    let mut op = operation(Some("op"), no_responses());
    op.parameters = vec![
        ReferenceOr::Item(Parameter::Query { parameter_data: data("q") }),
        ReferenceOr::Item(Parameter::Path { parameter_data: data("a") }),
        ReferenceOr::Reference { reference: "#/components/parameters/P".to_string() },
        ReferenceOr::Item(Parameter::Header { parameter_data: data("h") }),
        ReferenceOr::Item(Parameter::Path { parameter_data: data("b") }),
        ReferenceOr::Item(Parameter::Cookie { parameter_data: data("c") }),
    ];
    let route = operation_to_route(&api, &"/x/{a}/{b}".to_string(), HttpMethod::Delete, &op).unwrap();
    assert_eq!(
        route,
        Route {
            name: "op".to_string(),
            description: None,
            method: HttpMethod::Delete,
            url: "/x/:a/:b".to_string(),
            group: "/x/{a}/{b}".to_string(),
            version: "".to_string(),
            url_parameters: vec![
                UrlParameter { name: "a".to_string(), ty: Primitive::String },
                UrlParameter { name: "b".to_string(), ty: Primitive::String },
            ],
            payload_type: None,
            return_type: None,
        }
    );
}

#[test]
fn a_path_gives_its_routes_in_method_order() {
    let api = document(vec![]);
    let item = PathItem {
        get: Some(operation(Some("read"), no_responses())),
        put: Some(operation(Some("replace"), no_responses())),
        post: Some(operation(Some("create"), no_responses())),
        delete: Some(operation(Some("remove"), no_responses())),
        patch: Some(operation(Some("change"), no_responses())),
    };
    let routes = path_to_routes(&api, &"/p".to_string(), &item).unwrap();
    let seen: Vec<(String, HttpMethod)> =
        routes.into_iter().map(|route| (route.name, route.method)).collect();
    assert_eq!(
        seen,
        vec![
            ("read".to_string(), HttpMethod::Get),
            ("create".to_string(), HttpMethod::Post),
            ("replace".to_string(), HttpMethod::Put),
            ("change".to_string(), HttpMethod::Patch),
            ("remove".to_string(), HttpMethod::Delete),
        ]
    );
    assert_eq!(path_to_routes(&api, &"/p".to_string(), &path_item()), Ok(Vec::new()));
    let mut broken = path_item();
    broken.post = Some(operation(None, no_responses()));
    broken.delete = Some(operation(Some("remove"), no_responses()));
    assert_eq!(
        path_to_routes(&api, &"/p".to_string(), &broken),
        Err(ExtractionError::MissingOperationId { path: "/p".to_string() })
    );
}

#[test]
fn a_document_gives_its_routes_in_path_order() {
    let mut first = path_item();
    first.get = Some(operation(Some("one"), no_responses()));
    let mut third = path_item();
    third.post = Some(operation(Some("three"), no_responses()));
    let api = OpenApi {
        paths: vec![
            ("/b".to_string(), ReferenceOr::Item(first)),
            ("/skipped".to_string(), ReferenceOr::Reference { reference: "#/x".to_string() }),
            ("/a".to_string(), ReferenceOr::Item(third)),
        ],
        components: None,
    };
    let names: Vec<(String, String)> = from_openapi(&api)
        .unwrap()
        .into_iter()
        .map(|route| (route.group, route.name))
        .collect();
    assert_eq!(
        names,
        vec![("/b".to_string(), "one".to_string()), ("/a".to_string(), "three".to_string())]
    );
    let empty = OpenApi { paths: Vec::new(), components: None };
    assert_eq!(from_openapi(&empty), Ok(Vec::new()));
}

#[test]
fn the_first_failing_path_decides_the_error() {
    let mut good = path_item();
    good.get = Some(operation(Some("one"), no_responses()));
    let mut bad = path_item();
    bad.get = Some(operation(None, no_responses()));
    let mut worse = path_item();
    worse.get = Some(operation(None, no_responses()));
    let api = OpenApi {
        paths: vec![
            ("/good".to_string(), ReferenceOr::Item(good)),
            ("/bad".to_string(), ReferenceOr::Item(bad)),
            ("/worse".to_string(), ReferenceOr::Item(worse)),
        ],
        components: None,
    };
    assert_eq!(
        from_openapi(&api),
        Err(ExtractionError::MissingOperationId { path: "/bad".to_string() })
    );
}

#[test]
fn the_pet_store_end_to_end() {
    let mut get_pet = operation(
        Some("getPet"),
        Responses {
            default: None,
            responses: vec![(
                StatusCode::Code(200),
                ReferenceOr::Item(json_response(Some(reference("Pet")))),
            )],
        },
    );
    get_pet.parameters = vec![ReferenceOr::Item(Parameter::Path {
        parameter_data: ParameterData { name: "id".to_string() },
    })];
    let mut item = path_item();
    item.get = Some(get_pet);
    let api = OpenApi {
        paths: vec![("/pets/{id}".to_string(), ReferenceOr::Item(item))],
        components: Some(Components {
            schemas: vec![("Pet".to_string(), ReferenceOr::Item(pet_schema()))],
        }),
    };
    let routes = from_openapi(&api).unwrap();
    assert_eq!(
        routes,
        vec![Route {
            name: "getPet".to_string(),
            description: None,
            method: HttpMethod::Get,
            url: "/pets/:id".to_string(),
            group: "/pets/{id}".to_string(),
            version: "".to_string(),
            url_parameters: vec![UrlParameter { name: "id".to_string(), ty: Primitive::String }],
            payload_type: None,
            return_type: Some(pet_type("Pet")),
        }]
    );
    let table = TypeDeclarations::from_routes(&routes);
    assert_eq!(table.into_vec(), vec![("Pet".to_string(), pet_type("Pet"))]);
}
