use sdkgen::apidoc::{
    convert_http_method, convert_primitive, convert_route, ConvertError, HttpMethod, Parameter,
    ParameterSection, Route,
};
use sdkgen::route::{HttpMethod as SdkHttpMethod, Route as SdkRoute, UrlParameter};
use sdkgen::types::Primitive;

fn field(name: &str, ty: &str) -> Parameter {
    Parameter {
        group: "Parameter".to_string(),
        ty: ty.to_string(),
        optional: false,
        field: name.to_string(),
        description: "".to_string(),
    }
}

fn route(name: &str, parameter: Option<ParameterSection>) -> Route {
    Route {
        method: HttpMethod::Put,
        url: "/users/:id".to_string(),
        name: name.to_string(),
        group: "User".to_string(),
        version: "1.0.0".to_string(),
        parameter,
        success: None,
        error: None,
        filename: "users.js".to_string(),
        group_title: "Users".to_string(),
    }
}

#[test]
fn methods_are_written_in_capitals() {
    assert_eq!(HttpMethod::Get.name(), "GET");
    assert_eq!(HttpMethod::Post.name(), "POST");
    assert_eq!(HttpMethod::Put.name(), "PUT");
    assert_eq!(HttpMethod::Delete.name(), "DELETE");
    assert_eq!(HttpMethod::from_name("GET"), Some(HttpMethod::Get));
    assert_eq!(HttpMethod::from_name("POST"), Some(HttpMethod::Post));
    assert_eq!(HttpMethod::from_name("PUT"), Some(HttpMethod::Put));
    assert_eq!(HttpMethod::from_name("DELETE"), Some(HttpMethod::Delete));
    assert_eq!(HttpMethod::from_name("get"), None);
    assert_eq!(HttpMethod::from_name("PATCH"), None);
}

#[test]
fn methods_carry_over() {
    assert_eq!(convert_http_method(HttpMethod::Get), SdkHttpMethod::Get);
    assert_eq!(convert_http_method(HttpMethod::Post), SdkHttpMethod::Post);
    assert_eq!(convert_http_method(HttpMethod::Put), SdkHttpMethod::Put);
    assert_eq!(convert_http_method(HttpMethod::Delete), SdkHttpMethod::Delete);
}

#[test]
fn primitives_go_by_their_apidoc_names() {
    assert_eq!(convert_primitive("String".to_string()), Ok(Primitive::String));
    assert_eq!(convert_primitive("GUID".to_string()), Ok(Primitive::String));
    assert_eq!(convert_primitive("Boolean".to_string()), Ok(Primitive::Boolean));
    assert_eq!(convert_primitive("Integer".to_string()), Ok(Primitive::Integer));
    assert_eq!(convert_primitive("Float".to_string()), Ok(Primitive::Float));
    assert_eq!(convert_primitive("Number".to_string()), Ok(Primitive::Double));
    assert_eq!(convert_primitive("Double".to_string()), Ok(Primitive::Double));
    assert_eq!(
        convert_primitive("string".to_string()),
        Err("Unknown primitive: string".to_string())
    );
    assert_eq!(convert_primitive("".to_string()), Err("Unknown primitive: ".to_string()));
}

#[test]
fn a_route_takes_its_url_parameters_from_the_parameter_group() {
    let section = ParameterSection {
        fields: vec![
            ("Body".to_string(), vec![field("ignored", "Nonsense")]),
            ("Parameter".to_string(), vec![field("id", "GUID"), field("count", "Number")]),
        ],
    };
    assert_eq!(
        convert_route(route("UpdateUser", Some(section))),
        Ok(SdkRoute {
            name: "UpdateUser".to_string(),
            description: None,
            method: SdkHttpMethod::Put,
            url: "/users/:id".to_string(),
            group: "User".to_string(),
            version: "1.0.0".to_string(),
            url_parameters: vec![
                UrlParameter { name: "id".to_string(), ty: Primitive::String },
                UrlParameter { name: "count".to_string(), ty: Primitive::Double },
            ],
            payload_type: None,
            return_type: None,
        })
    );
}

#[test]
fn a_route_without_a_parameter_group_has_no_url_parameters() {
    let converted = convert_route(route("ListUsers", None)).unwrap();
    assert!(converted.url_parameters.is_empty());
    let section = ParameterSection { fields: vec![("Body".to_string(), vec![field("a", "String")])] };
    let converted = convert_route(route("ListUsers", Some(section))).unwrap();
    assert!(converted.url_parameters.is_empty());
}

#[test]
fn an_unknown_primitive_stops_the_conversion() {
    let section = ParameterSection {
        fields: vec![(
            "Parameter".to_string(),
            vec![field("a", "String"), field("b", "Object"), field("c", "Array")],
        )],
    };
    let error = convert_route(route("UpdateUser", Some(section))).unwrap_err();
    assert_eq!(error, ConvertError::UnknownPrimitive { name: "Object".to_string() });
    assert_eq!(error.message(), "Unknown primitive: Object");
}

#[test]
fn a_route_needs_a_name() {
    assert_eq!(convert_route(route("", None)), Err(ConvertError::BlankName));
    assert_eq!(convert_route(route(" \t", None)), Err(ConvertError::BlankName));
    assert_eq!(ConvertError::BlankName.message(), "Route name is blank.");
}
