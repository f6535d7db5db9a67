//! The C# emitter.

use crate::casing::{camel_case, CasingRules, CsharpCasingRules};
use crate::declarations::{Entries, TypeDeclarations};
use crate::grouping::{SdkResource, SdkResourceModel, SdkVersion, SdkVersionModel};
use crate::render::{url_template, url_text, GenerateSdk};
use crate::route::{HttpMethod, Route, RouteModel};
use crate::text::{join, join_with};
use crate::types::{lemma_record_members, MemberModel, Primitive, Type, TypeModel};
use vstd::prelude::*;

verus! {

/// The C# emitter.
pub struct CsharpSdk;

/// The C# name of a primitive.
pub open spec fn primitive_text(primitive: Primitive) -> Seq<char> {
    match primitive {
        Primitive::String => "string"@,
        Primitive::Boolean => "bool"@,
        Primitive::Integer => "int"@,
        Primitive::Float => "float"@,
        Primitive::Double => "double"@,
    }
}

/// Writes the C# name of a primitive.
pub fn emit_primitive(primitive: Primitive) -> (res: &'static str)
    ensures
        res@ == primitive_text(primitive),
{
    match primitive {
        Primitive::String => "string",
        Primitive::Boolean => "bool",
        Primitive::Integer => "int",
        Primitive::Float => "float",
        Primitive::Double => "double",
    }
}

/// How C# refers to a type: a primitive by its name, an array as a `List`, a
/// mapping as a `Dictionary`, a union or a record by its name in CamelCase.
pub open spec fn type_name_text(ty: TypeModel) -> Seq<char>
    decreases ty,
{
    match ty {
        TypeModel::Primitive(primitive) => primitive_text(primitive),
        TypeModel::Array(element) => "List<"@ + type_name_text(*element) + ">"@,
        TypeModel::Mapping { key, value } => "Dictionary<"@ + type_name_text(*key) + ", "@
            + type_name_text(*value) + ">"@,
        TypeModel::Union { name, .. } => camel_case(name),
        TypeModel::Record { name, .. } => camel_case(name),
    }
}

/// Writes how C# refers to a type.
pub fn emit_type_name(ty: Type) -> (res: String)
    ensures
        res@ == type_name_text(ty@),
    decreases ty,
{
    match ty {
        Type::Primitive(primitive) => String::from_str(emit_primitive(primitive)),
        Type::Array(element) => {
            let mut text = String::from_str("List<");
            text.append(emit_type_name(*element).as_str());
            text.append(">");
            text
        },
        Type::Mapping { key, value } => {
            let mut text = String::from_str("Dictionary<");
            text.append(emit_type_name(*key).as_str());
            text.append(", ");
            text.append(emit_type_name(*value).as_str());
            text.append(">");
            text
        },
        Type::Union { name, .. } => CsharpCasingRules.to_type_name_case(name),
        Type::Record { name, .. } => CsharpCasingRules.to_type_name_case(name),
    }
}

/// A property of a class.
pub open spec fn property_text(type_text: Seq<char>, member_name: Seq<char>) -> Seq<char> {
    "public "@ + type_text + " "@ + member_name + " { get; set; }"@
}

/// Writes a property of a class.
pub fn property_declaration(type_text: &str, member_name: &str) -> (res: String)
    ensures
        res@ == property_text(type_text@, member_name@),
{
    let mut text = String::from_str("public ");
    text.append(type_text);
    text.append(" ");
    text.append(member_name);
    text.append(" { get; set; }");
    text
}

/// A class with its properties, one to a line.
pub open spec fn class_text(name: Seq<char>, properties: Seq<Seq<char>>) -> Seq<char> {
    "\npublic class "@ + name + "\n{\n    "@ + join_with(properties, "\n"@) + "\n}\n        "@
}

/// Writes a class with its properties.
pub fn class_declaration(name: &str, properties: &Vec<String>) -> (res: String)
    ensures
        res@ == class_text(name@, properties.deep_view()),
{
    let mut text = String::from_str("\npublic class ");
    text.append(name);
    text.append("\n{\n    ");
    text.append(join(properties, "\n").as_str());
    text.append("\n}\n        ");
    text
}

/// The property that a member of a record becomes.
pub open spec fn member_property_text(member: MemberModel) -> Seq<char> {
    property_text(type_name_text(member.ty), camel_case(member.name))
}

/// The declaration of a type: a class for a record, nothing for any other
/// type.
pub open spec fn type_decl_text(ty: TypeModel) -> Seq<char> {
    match ty {
        TypeModel::Record { name, members } => class_text(
            camel_case(name),
            members.map_values(|member: MemberModel| member_property_text(member)),
        ),
        _ => Seq::empty(),
    }
}

/// Writes the declaration of a type.
pub fn emit_type_decl(ty: Type) -> (res: String)
    ensures
        res@ == type_decl_text(ty@),
{
    match ty {
        Type::Record { name, members } => {
            proof {
                lemma_record_members(name, members);
            }
            let ghost all = members.deep_view();
            let ghost items = members@;
            let mut properties: Vec<String> = Vec::new();
            for member in it: members
                invariant
                    it.seq() == items,
                    all.len() == items.len(),
                    forall|j: int| 0 <= j < items.len() ==> all[j] == (#[trigger] items[j])@,
                    properties.len() == it.index(),
                    forall|j: int|
                        0 <= j < it.index() ==> (#[trigger] properties@[j])@
                            == member_property_text(all[j]),
            {
                let type_text = emit_type_name(member.ty);
                let member_name = CsharpCasingRules.to_record_member_case(member.name);
                properties.push(property_declaration(type_text.as_str(), member_name.as_str()));
            }
            assert(properties.deep_view() =~= all.map_values(
                |member: MemberModel| member_property_text(member),
            ));
            let class_name = CsharpCasingRules.to_type_name_case(name);
            class_declaration(class_name.as_str(), &properties)
        },
        Type::Union { .. } => String::new(),
        Type::Primitive(_) => String::new(),
        Type::Array(_) => String::new(),
        Type::Mapping { .. } => String::new(),
    }
}

/// How C# names an HTTP method.
pub open spec fn method_name_text(method: HttpMethod) -> Seq<char> {
    match method {
        HttpMethod::Get => "Get"@,
        HttpMethod::Post => "Post"@,
        HttpMethod::Put => "Put"@,
        HttpMethod::Patch => "Patch"@,
        HttpMethod::Delete => "Delete"@,
    }
}

/// Writes how C# names an HTTP method.
pub fn method_name(method: &HttpMethod) -> (res: &'static str)
    ensures
        res@ == method_name_text(*method),
{
    match method {
        HttpMethod::Get => "Get",
        HttpMethod::Post => "Post",
        HttpMethod::Put => "Put",
        HttpMethod::Patch => "Patch",
        HttpMethod::Delete => "Delete",
    }
}

/// One parameter of a method: its type, then its name.
pub open spec fn parameter_text(parameter: (Seq<char>, TypeModel)) -> Seq<char> {
    type_name_text(parameter.1) + " "@ + parameter.0
}

/// The statement that sends the payload along.
pub open spec fn request_content_text() -> Seq<char> {
    "request.Content = new StringContent(JsonConvert.SerializeObject(payload), Encoding.UTF8, \"application/json\");"@
}

/// A method that calls one route.
pub open spec fn method_text(
    function_name: Seq<char>,
    return_type: Seq<char>,
    parameter_list: Seq<char>,
    http_method: Seq<char>,
    url: Seq<char>,
    request_content: Seq<char>,
) -> Seq<char> {
    "\n/// <summary>\n/// \n/// </summary>\npublic static async Task<"@ + return_type + "> "@
        + function_name + "("@ + parameter_list
        + ")\n{\n    var request = new HttpRequestMessage\n    {\n        Method = HttpMethod."@
        + http_method + ",\n        RequestUri = new Uri(apiUrl, $\""@ + url
        + "\")\n    };\n    request.Headers.Authorization = new AuthenticationHeaderValue(\"Bearer\", accessToken);\n    "@
        + request_content
        + "\n\n    var response = await httpClient.SendAsync(request).ConfigureAwait(false);\n    var responseBody = await response.Content.ReadAsStringAsync().ConfigureAwait(false);\n\n    return JsonConvert.DeserializeObject<"@
        + return_type + ">(responseBody);\n}\n    "@
}

/// Writes a method that calls one route.
pub fn method_declaration(
    function_name: &str,
    return_type: &str,
    parameter_list: &str,
    http_method: &str,
    url: &str,
    request_content: &str,
) -> (res: String)
    ensures
        res@ == method_text(
            function_name@,
            return_type@,
            parameter_list@,
            http_method@,
            url@,
            request_content@,
        ),
{
    let mut text = String::from_str("\n/// <summary>\n/// \n/// </summary>\npublic static async Task<");
    text.append(return_type);
    text.append("> ");
    text.append(function_name);
    text.append("(");
    text.append(parameter_list);
    text.append(
        ")\n{\n    var request = new HttpRequestMessage\n    {\n        Method = HttpMethod.",
    );
    text.append(http_method);
    text.append(",\n        RequestUri = new Uri(apiUrl, $\"");
    text.append(url);
    text.append(
        "\")\n    };\n    request.Headers.Authorization = new AuthenticationHeaderValue(\"Bearer\", accessToken);\n    ",
    );
    text.append(request_content);
    text.append(
        "\n\n    var response = await httpClient.SendAsync(request).ConfigureAwait(false);\n    var responseBody = await response.Content.ReadAsStringAsync().ConfigureAwait(false);\n\n    return JsonConvert.DeserializeObject<",
    );
    text.append(return_type);
    text.append(">(responseBody);\n}\n    ");
    text
}

/// The return type of a route; a route that declares none returns a string.
pub open spec fn return_type_of(route: RouteModel) -> TypeModel {
    match route.return_type {
        Some(ty) => ty,
        None => TypeModel::Primitive(Primitive::String),
    }
}

/// The method for one route: named after the route in CamelCase, taking all
/// of the route's parameters, sending the payload along if there is one.
pub open spec fn route_text(route: RouteModel) -> Seq<char> {
    method_text(
        camel_case(route.name),
        type_name_text(return_type_of(route)),
        join_with(
            route.all_parameters().map_values(
                |parameter: (Seq<char>, TypeModel)| parameter_text(parameter),
            ),
            ", "@,
        ),
        method_name_text(route.method),
        url_text(route.url_segments(), "{"@, "}"@),
        match route.payload_type {
            Some(_) => request_content_text(),
            None => Seq::empty(),
        },
    )
}

/// Writes the method for one route.
pub fn emit_route(route: Route) -> (res: String)
    ensures
        res@ == route_text(route@),
{
    let return_type = match &route.return_type {
        Some(ty) => emit_type_name(ty.clone()),
        None => emit_type_name(Type::Primitive(Primitive::String)),
    };
    let ghost all = route@.all_parameters();
    let parameters = route.all_parameters();
    let ghost items = parameters@;
    let mut parameter_texts: Vec<String> = Vec::new();
    for parameter in it: parameters
        invariant
            it.seq() == items,
            all.len() == items.len(),
            forall|j: int| 0 <= j < items.len() ==> all[j] == (#[trigger] items[j]).deep_view(),
            parameter_texts.len() == it.index(),
            forall|j: int|
                0 <= j < it.index() ==> (#[trigger] parameter_texts@[j])@ == parameter_text(all[j]),
    {
        let mut text = emit_type_name(parameter.1);
        text.append(" ");
        text.append(parameter.0.as_str());
        parameter_texts.push(text);
    }
    assert(parameter_texts.deep_view() =~= all.map_values(
        |parameter: (Seq<char>, TypeModel)| parameter_text(parameter),
    ));
    let parameter_list = join(&parameter_texts, ", ");
    let url = url_template(&route.url_segments(), "{", "}");
    let request_content = match &route.payload_type {
        Some(_) => String::from_str(
            "request.Content = new StringContent(JsonConvert.SerializeObject(payload), Encoding.UTF8, \"application/json\");",
        ),
        None => String::new(),
    };
    let http_method = method_name(&route.method);
    let function_name = CsharpCasingRules.to_function_name_case(route.name);
    method_declaration(
        function_name.as_str(),
        return_type.as_str(),
        parameter_list.as_str(),
        http_method,
        url.as_str(),
        request_content.as_str(),
    )
}

/// The namespace of one version around the body of its class.
pub open spec fn namespace_text(version: Seq<char>, class_body: Seq<char>) -> Seq<char> {
    "\nnamespace Sdk.V"@ + version + "\n{\n    public static class Sdk\n    {\n        "@
        + class_body + "\n    }\n}\n        "@
}

/// Writes the namespace of one version around the body of its class.
pub fn namespace_declaration(version: &str, class_body: &str) -> (res: String)
    ensures
        res@ == namespace_text(version@, class_body@),
{
    let mut text = String::from_str("\nnamespace Sdk.V");
    text.append(version);
    text.append("\n{\n    public static class Sdk\n    {\n        ");
    text.append(class_body);
    text.append("\n    }\n}\n        ");
    text
}

/// The namespace for one resource of a version: the methods of its routes,
/// one after the other.
pub open spec fn resource_text(version: Seq<char>, resource: SdkResourceModel) -> Seq<char> {
    namespace_text(
        version,
        join_with(resource.routes.map_values(|route: RouteModel| route_text(route)), "\n"@),
    )
}

/// Writes the namespace for one resource of a version.
pub fn emit_sdk_resource(version: String, resource: SdkResource) -> (res: String)
    ensures
        res@ == resource_text(version@, resource@),
{
    let ghost all = resource.routes.deep_view();
    let ghost items = resource.routes@;
    let mut methods: Vec<String> = Vec::new();
    for route in it: resource.routes
        invariant
            it.seq() == items,
            all.len() == items.len(),
            forall|j: int| 0 <= j < items.len() ==> all[j] == (#[trigger] items[j])@,
            methods.len() == it.index(),
            forall|j: int| 0 <= j < it.index() ==> (#[trigger] methods@[j])@ == route_text(all[j]),
    {
        methods.push(emit_route(route));
    }
    assert(methods.deep_view() =~= all.map_values(|route: RouteModel| route_text(route)));
    let contents = join(&methods, "\n");
    namespace_declaration(version.as_str(), contents.as_str())
}

/// The declarations of the first `count` entries of the table, one after the
/// other.
pub open spec fn declarations_text(entries: Entries, count: nat) -> Seq<char>
    decreases count,
{
    if count == 0 || count > entries.len() {
        Seq::empty()
    } else {
        declarations_text(entries, (count - 1) as nat) + type_decl_text(entries[count - 1].1)
    }
}

/// The namespaces of the first `count` resources of a version, one after the
/// other.
pub open spec fn resources_text(version: SdkVersionModel, count: nat) -> Seq<char>
    decreases count,
{
    if count == 0 || count > version.resources.len() {
        Seq::empty()
    } else {
        resources_text(version, (count - 1) as nat) + resource_text(
            version.version,
            version.resources[count - 1],
        )
    }
}

/// The namespaces of the first `count` versions, one after the other.
pub open spec fn versions_text(versions: Seq<SdkVersionModel>, count: nat) -> Seq<char>
    decreases count,
{
    if count == 0 || count > versions.len() {
        Seq::empty()
    } else {
        versions_text(versions, (count - 1) as nat) + resources_text(
            versions[count - 1],
            versions[count - 1].resources.len(),
        )
    }
}

impl GenerateSdk for CsharpSdk {
    /// The declarations of all types, then the namespaces of all versions.
    open spec fn sdk_text(&self, types: Entries, versions: Seq<SdkVersionModel>) -> Seq<char> {
        declarations_text(types, types.len()) + versions_text(versions, versions.len())
    }

    fn generate_sdk(&self, types: TypeDeclarations, versions: Vec<SdkVersion>) -> (res: String) {
        let mut buffer = String::new();
        let ghost entries = types@;
        let declared = types.into_vec();
        let ghost pairs = declared@;
        assert(buffer@ =~= declarations_text(entries, 0));
        for pair in it: declared
            invariant
                it.seq() == pairs,
                entries.len() == pairs.len(),
                forall|j: int| 0 <= j < pairs.len() ==> entries[j] == (#[trigger] pairs[j]).deep_view(),
                buffer@ == declarations_text(entries, it.index() as nat),
        {
            buffer.append(emit_type_decl(pair.1).as_str());
        }
        let ghost declarations = buffer@;
        let ghost all = versions.deep_view();
        let ghost items = versions@;
        assert(buffer@ =~= declarations + versions_text(all, 0));
        for version in it: versions
            invariant
                it.seq() == items,
                all.len() == items.len(),
                forall|j: int| 0 <= j < items.len() ==> all[j] == (#[trigger] items[j])@,
                buffer@ == declarations + versions_text(all, it.index() as nat),
        {
            let ghost before = buffer@;
            let ghost model = version@;
            let ghost resources = version.resources@;
            let name = version.version;
            assert(buffer@ =~= before + resources_text(model, 0));
            for resource in inner: version.resources
                invariant
                    inner.seq() == resources,
                    model.resources.len() == resources.len(),
                    model.version == name@,
                    forall|j: int|
                        0 <= j < resources.len() ==> model.resources[j] == (
                        #[trigger] resources[j])@,
                    buffer@ == before + resources_text(model, inner.index() as nat),
            {
                let ghost so_far = resources_text(model, inner.index() as nat);
                buffer.append(emit_sdk_resource(name.clone(), resource).as_str());
                assert(buffer@ =~= before + (so_far + resource_text(
                    model.version,
                    model.resources[inner.index() as int],
                )));
            }
            assert(buffer@ =~= declarations + (versions_text(all, it.index() as nat)
                + resources_text(model, model.resources.len())));
        }
        buffer
    }
}

} // verus!
