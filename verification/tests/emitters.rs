use sdkgen::casing::{CasingRules, CsharpCasingRules, TypeScriptCasingRules};
use sdkgen::csharp;
use sdkgen::csharp::CsharpSdk;
use sdkgen::declarations::TypeDeclarations;
use sdkgen::grouping::{versions_from_routes, SdkResource};
use sdkgen::non_empty_string::NonEmptyString;
use sdkgen::render::{url_template, GenerateSdk};
use sdkgen::route::{HttpMethod, Route, UrlParameter, UrlSegment};
use sdkgen::types::{Member, Primitive, Type};
use sdkgen::typescript;
use sdkgen::typescript::TypeScriptSdk;

fn string() -> Type {
    Type::Primitive(Primitive::String)
}

fn member(name: &str, ty: Type) -> Member {
    Member { name: name.to_string(), description: None, ty, is_optional: false }
}

fn pet() -> Type {
    Type::Record {
        name: "pet_record".to_string(),
        members: vec![
            member("pet_name", string()),
            member("tag_list", Type::Array(Box::new(Type::Primitive(Primitive::Integer)))),
        ],
    }
}

fn get_pet() -> Route {
    Route {
        name: "get_pet".to_string(),
        description: NonEmptyString::try_from("Reads a pet.".to_string()).ok(),
        method: HttpMethod::Get,
        url: "/pets/:id".to_string(),
        group: "pets".to_string(),
        version: "1".to_string(),
        url_parameters: vec![UrlParameter { name: "id".to_string(), ty: Primitive::String }],
        payload_type: None,
        return_type: Some(pet()),
    }
}

fn create_pet() -> Route {
    Route {
        name: "create pet".to_string(),
        description: None,
        method: HttpMethod::Post,
        url: "/pets".to_string(),
        group: "pets".to_string(),
        version: "1".to_string(),
        url_parameters: Vec::new(),
        payload_type: Some(pet()),
        return_type: None,
    }
}

fn csharp_method(
    function_name: &str,
    return_type: &str,
    parameter_list: &str,
    http_method: &str,
    url: &str,
    request_content: &str,
) -> String {
    format!(
        r#"
/// <summary>
/// {summary}
/// </summary>
public static async Task<{return_type}> {function_name}({parameter_list})
{{
    var request = new HttpRequestMessage
    {{
        Method = HttpMethod.{http_method},
        RequestUri = new Uri(apiUrl, $"{url}")
    }};
    request.Headers.Authorization = new AuthenticationHeaderValue("Bearer", accessToken);
    {request_content}

    var response = await httpClient.SendAsync(request).ConfigureAwait(false);
    var responseBody = await response.Content.ReadAsStringAsync().ConfigureAwait(false);

    return JsonConvert.DeserializeObject<{return_type}>(responseBody);
}}
    "#,
        function_name = function_name,
        parameter_list = parameter_list,
        http_method = http_method,
        url = url,
        request_content = request_content,
        return_type = return_type,
        summary = ""
    )
}

fn csharp_class(name: &str, members: &str) -> String {
    format!(
        r#"
public class {name}
{{
    {members}
}}
        "#,
        name = name,
        members = members
    )
}

fn csharp_namespace(version: &str, class_body: &str) -> String {
    format!(
        r#"
namespace Sdk.V{version}
{{
    public static class Sdk
    {{
        {class_body}
    }}
}}
        "#,
        version = version,
        class_body = class_body
    )
}

fn typescript_function(
    description: &str,
    function_name: &str,
    parameter_list: &str,
    return_type: &str,
    http_method: &str,
    url: &str,
    request_data: &str,
) -> String {
    format!(
        r#"
/**
 * {description}
 */
export async function {function_name}({parameter_list}): Promise<{return_type}> {{
    const response = await axios({{
        method: '{http_method}',
        url: `{url}`,
        {request_data}
    }});

    return response.data;
}}
    "#,
        function_name = function_name,
        description = description,
        parameter_list = parameter_list,
        http_method = http_method,
        url = url,
        request_data = request_data,
        return_type = return_type
    )
}

fn typescript_interface(name: &str, members: &str) -> String {
    format!(
        r#"
export interface {name} {{
    {members}
}}
        "#,
        name = name,
        members = members
    )
}

const CONTENT: &str = r#"request.Content = new StringContent(JsonConvert.SerializeObject(payload), Encoding.UTF8, "application/json");"#;

#[test]
fn casing_rules_follow_the_language() {
    assert_eq!(CsharpCasingRules.to_type_name_case("pet_record".to_string()), "PetRecord");
    assert_eq!(CsharpCasingRules.to_record_member_case("pet_name".to_string()), "PetName");
    assert_eq!(CsharpCasingRules.to_function_name_case("get pet".to_string()), "GetPet");
    assert_eq!(TypeScriptCasingRules.to_type_name_case("pet_record".to_string()), "PetRecord");
    assert_eq!(TypeScriptCasingRules.to_record_member_case("pet_name".to_string()), "petName");
    assert_eq!(TypeScriptCasingRules.to_function_name_case("Get-Pet".to_string()), "getPet");
    assert_eq!(TypeScriptCasingRules.to_function_name_case("XMLHttpRequest".to_string()), "xmlHttpRequest");
}

#[test]
fn url_templates_wrap_parameters() {
    let segments = vec![
        UrlSegment::Literal("".to_string()),
        UrlSegment::Literal("pets".to_string()),
        UrlSegment::Parameter("id".to_string()),
    ];
    assert_eq!(url_template(&segments, "{", "}"), "/pets/{id}");
    assert_eq!(url_template(&segments, "${", "}"), "/pets/${id}");
    assert_eq!(url_template(&Vec::new(), "{", "}"), "");
}

#[test]
fn csharp_primitives() {
    assert_eq!(csharp::emit_primitive(Primitive::String), "string");
    assert_eq!(csharp::emit_primitive(Primitive::Boolean), "bool");
    assert_eq!(csharp::emit_primitive(Primitive::Integer), "int");
    assert_eq!(csharp::emit_primitive(Primitive::Float), "float");
    assert_eq!(csharp::emit_primitive(Primitive::Double), "double");
}

#[test]
fn csharp_type_names() {
    assert_eq!(csharp::emit_type_name(string()), "string");
    assert_eq!(csharp::emit_type_name(Type::Array(Box::new(pet()))), "List<PetRecord>");
    assert_eq!(
        csharp::emit_type_name(Type::Mapping {
            key: Box::new(string()),
            value: Box::new(Type::Array(Box::new(Type::Primitive(Primitive::Double)))),
        }),
        "Dictionary<string, List<double>>"
    );
    assert_eq!(
        csharp::emit_type_name(Type::Union { name: "pet kind".to_string(), cases: vec![] }),
        "PetKind"
    );
}

#[test]
fn csharp_type_declarations() {
    assert_eq!(
        csharp::emit_type_decl(pet()),
        csharp_class(
            "PetRecord",
            "public string PetName { get; set; }\npublic List<int> TagList { get; set; }"
        )
    );
    assert_eq!(
        csharp::emit_type_decl(Type::Record { name: "empty".to_string(), members: vec![] }),
        csharp_class("Empty", "")
    );
    assert_eq!(csharp::emit_type_decl(string()), "");
    assert_eq!(csharp::emit_type_decl(Type::Array(Box::new(pet()))), "");
    assert_eq!(
        csharp::emit_type_decl(Type::Union { name: "kind".to_string(), cases: vec!["a".to_string()] }),
        ""
    );
}

#[test]
fn csharp_routes() {
    assert_eq!(
        csharp::emit_route(get_pet()),
        csharp_method("GetPet", "PetRecord", "string id", "Get", "/pets/{id}", "")
    );
    assert_eq!(
        csharp::emit_route(create_pet()),
        csharp_method("CreatePet", "string", "PetRecord payload", "Post", "/pets", CONTENT)
    );
    let mut patch = get_pet();
    patch.method = HttpMethod::Patch;
    patch.url_parameters.push(UrlParameter { name: "n".to_string(), ty: Primitive::Integer });
    patch.payload_type = Some(Type::Primitive(Primitive::Boolean));
    assert_eq!(
        csharp::emit_route(patch),
        csharp_method(
            "GetPet",
            "PetRecord",
            "string id, int n, bool payload",
            "Patch",
            "/pets/{id}",
            CONTENT
        )
    );
    assert_eq!(csharp::method_name(&HttpMethod::Put), "Put");
    assert_eq!(csharp::method_name(&HttpMethod::Delete), "Delete");
}

#[test]
fn csharp_resources() {
    let resource = SdkResource { resource: "pets".to_string(), routes: vec![get_pet(), create_pet()] };
    let body = format!(
        "{}\n{}",
        csharp_method("GetPet", "PetRecord", "string id", "Get", "/pets/{id}", ""),
        csharp_method("CreatePet", "string", "PetRecord payload", "Post", "/pets", CONTENT)
    );
    assert_eq!(
        csharp::emit_sdk_resource("1".to_string(), resource),
        csharp_namespace("1", &body)
    );
    let empty = SdkResource { resource: "none".to_string(), routes: vec![] };
    assert_eq!(csharp::emit_sdk_resource("2".to_string(), empty), csharp_namespace("2", ""));
}

#[test]
fn csharp_sdk() {
    let mut other = get_pet();
    other.group = "owners".to_string();
    other.version = "2".to_string();
    let routes = vec![get_pet(), create_pet(), other];
    let types = TypeDeclarations::from_routes(&routes);
    let versions = versions_from_routes(routes);
    let get = csharp_method("GetPet", "PetRecord", "string id", "Get", "/pets/{id}", "");
    let create = csharp_method("CreatePet", "string", "PetRecord payload", "Post", "/pets", CONTENT);
    let expected = format!(
        "{}{}{}",
        csharp_class(
            "PetRecord",
            "public string PetName { get; set; }\npublic List<int> TagList { get; set; }"
        ),
        csharp_namespace("1", &format!("{}\n{}", get, create)),
        csharp_namespace("2", &get)
    );
    assert_eq!(CsharpSdk.generate_sdk(types, versions), expected);
    assert_eq!(CsharpSdk.generate_sdk(TypeDeclarations::new(), Vec::new()), "");
}

#[test]
fn typescript_primitives() {
    assert_eq!(typescript::emit_primitive(Primitive::String), "string");
    assert_eq!(typescript::emit_primitive(Primitive::Boolean), "boolean");
    assert_eq!(typescript::emit_primitive(Primitive::Integer), "number");
    assert_eq!(typescript::emit_primitive(Primitive::Float), "number");
    assert_eq!(typescript::emit_primitive(Primitive::Double), "number");
}

#[test]
fn typescript_type_names() {
    assert_eq!(typescript::emit_type_name(string()), "string");
    assert_eq!(typescript::emit_type_name(Type::Array(Box::new(pet()))), "PetRecord[]");
    assert_eq!(
        typescript::emit_type_name(Type::Mapping {
            key: Box::new(string()),
            value: Box::new(Type::Array(Box::new(Type::Primitive(Primitive::Double)))),
        }),
        "Record<string, number[]>"
    );
    assert_eq!(
        typescript::emit_type_name(Type::Union { name: "pet kind".to_string(), cases: vec![] }),
        "PetKind"
    );
}

#[test]
fn typescript_type_declarations() {
    assert_eq!(
        typescript::emit_type_decl(pet()),
        typescript_interface("PetRecord", "petName: string;\ntagList: number[];")
    );
    assert_eq!(typescript::emit_type_decl(string()), "");
    assert_eq!(
        typescript::emit_type_decl(Type::Union { name: "kind".to_string(), cases: vec![] }),
        ""
    );
}

#[test]
fn typescript_routes() {
    assert_eq!(
        typescript::emit_route(get_pet()),
        typescript_function(
            "Reads a pet.",
            "getPet",
            "id: string",
            "PetRecord",
            "get",
            "/pets/${id}",
            ""
        )
    );
    assert_eq!(
        typescript::emit_route(create_pet()),
        typescript_function(
            "",
            "createPet",
            "payload: PetRecord",
            "string",
            "post",
            "/pets",
            "data: payload,"
        )
    );
    assert_eq!(typescript::method_name(&HttpMethod::Put), "put");
    assert_eq!(typescript::method_name(&HttpMethod::Patch), "patch");
    assert_eq!(typescript::method_name(&HttpMethod::Delete), "delete");
}

#[test]
fn typescript_resources_leave_the_version_out() {
    let resource = SdkResource { resource: "pets".to_string(), routes: vec![get_pet(), create_pet()] };
    let expected = format!(
        "{}\n{}",
        typescript_function("Reads a pet.", "getPet", "id: string", "PetRecord", "get", "/pets/${id}", ""),
        typescript_function("", "createPet", "payload: PetRecord", "string", "post", "/pets", "data: payload,")
    );
    assert_eq!(typescript::emit_sdk_resource("1".to_string(), resource), expected);
}

#[test]
fn typescript_sdk() {
    let routes = vec![get_pet(), create_pet()];
    let types = TypeDeclarations::from_routes(&routes);
    let versions = versions_from_routes(routes);
    let expected = format!(
        "{}{}\n{}",
        typescript_interface("PetRecord", "petName: string;\ntagList: number[];"),
        typescript_function("Reads a pet.", "getPet", "id: string", "PetRecord", "get", "/pets/${id}", ""),
        typescript_function("", "createPet", "payload: PetRecord", "string", "post", "/pets", "data: payload,")
    );
    assert_eq!(TypeScriptSdk.generate_sdk(types, versions), expected);
}
