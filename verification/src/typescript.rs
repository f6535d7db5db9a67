//! The TypeScript emitter.

use crate::casing::{camel_case, mixed_case, CasingRules, TypeScriptCasingRules};
use crate::declarations::{Entries, TypeDeclarations};
use crate::grouping::{SdkResource, SdkResourceModel, SdkVersion, SdkVersionModel};
use crate::render::{url_template, url_text, GenerateSdk};
use crate::route::{HttpMethod, Route, RouteModel};
use crate::text::{join, join_with};
use crate::types::{lemma_record_members, MemberModel, Primitive, Type, TypeModel};
use vstd::prelude::*;

verus! {

/// The TypeScript emitter.
pub struct TypeScriptSdk;

/// The TypeScript name of a primitive.
pub open spec fn primitive_text(primitive: Primitive) -> Seq<char> {
    match primitive {
        Primitive::String => "string"@,
        Primitive::Boolean => "boolean"@,
        Primitive::Integer => "number"@,
        Primitive::Float => "number"@,
        Primitive::Double => "number"@,
    }
}

/// Writes the TypeScript name of a primitive.
pub fn emit_primitive(primitive: Primitive) -> (res: &'static str)
    ensures
        res@ == primitive_text(primitive),
{
    match primitive {
        Primitive::String => "string",
        Primitive::Boolean => "boolean",
        Primitive::Integer => "number",
        Primitive::Float => "number",
        Primitive::Double => "number",
    }
}

/// How TypeScript refers to a type: a primitive by its name, an array by its
/// element and `[]`, a mapping as a `Record`, a union or a record by its name
/// in CamelCase.
pub open spec fn type_name_text(ty: TypeModel) -> Seq<char>
    decreases ty,
{
    match ty {
        TypeModel::Primitive(primitive) => primitive_text(primitive),
        TypeModel::Array(element) => type_name_text(*element) + "[]"@,
        TypeModel::Mapping { key, value } => "Record<"@ + type_name_text(*key) + ", "@
            + type_name_text(*value) + ">"@,
        TypeModel::Union { name, .. } => camel_case(name),
        TypeModel::Record { name, .. } => camel_case(name),
    }
}

/// Writes how TypeScript refers to a type.
pub fn emit_type_name(ty: Type) -> (res: String)
    ensures
        res@ == type_name_text(ty@),
    decreases ty,
{
    match ty {
        Type::Primitive(primitive) => String::from_str(emit_primitive(primitive)),
        Type::Array(element) => {
            let mut text = emit_type_name(*element);
            text.append("[]");
            text
        },
        Type::Mapping { key, value } => {
            let mut text = String::from_str("Record<");
            text.append(emit_type_name(*key).as_str());
            text.append(", ");
            text.append(emit_type_name(*value).as_str());
            text.append(">");
            text
        },
        Type::Union { name, .. } => TypeScriptCasingRules.to_type_name_case(name),
        Type::Record { name, .. } => TypeScriptCasingRules.to_type_name_case(name),
    }
}

/// A property of an interface.
pub open spec fn property_text(member_name: Seq<char>, type_text: Seq<char>) -> Seq<char> {
    member_name + ": "@ + type_text + ";"@
}

/// Writes a property of an interface.
pub fn property_declaration(member_name: &str, type_text: &str) -> (res: String)
    ensures
        res@ == property_text(member_name@, type_text@),
{
    let mut text = String::from_str(member_name);
    text.append(": ");
    text.append(type_text);
    text.append(";");
    text
}

/// An interface with its properties, one to a line.
pub open spec fn interface_text(name: Seq<char>, properties: Seq<Seq<char>>) -> Seq<char> {
    "\nexport interface "@ + name + " {\n    "@ + join_with(properties, "\n"@) + "\n}\n        "@
}

/// Writes an interface with its properties.
pub fn interface_declaration(name: &str, properties: &Vec<String>) -> (res: String)
    ensures
        res@ == interface_text(name@, properties.deep_view()),
{
    let mut text = String::from_str("\nexport interface ");
    text.append(name);
    text.append(" {\n    ");
    text.append(join(properties, "\n").as_str());
    text.append("\n}\n        ");
    text
}

/// The property that a member of a record becomes.
pub open spec fn member_property_text(member: MemberModel) -> Seq<char> {
    property_text(mixed_case(member.name), type_name_text(member.ty))
}

/// The declaration of a type: an interface for a record, nothing for any
/// other type.
pub open spec fn type_decl_text(ty: TypeModel) -> Seq<char> {
    match ty {
        TypeModel::Record { name, members } => interface_text(
            camel_case(name),
            members.map_values(|member: MemberModel| member_property_text(member)),
        ),
        _ => Seq::empty(),
    }
}

/// Writes the declaration of a type.
pub fn emit_type_decl(ty: Type) -> (res: String)
    ensures
        res@ == type_decl_text(ty@),
{
    match ty {
        Type::Record { name, members } => {
            proof {
                lemma_record_members(name, members);
            }
            let ghost all = members.deep_view();
            let ghost items = members@;
            let mut properties: Vec<String> = Vec::new();
            for member in it: members
                invariant
                    it.seq() == items,
                    all.len() == items.len(),
                    forall|j: int| 0 <= j < items.len() ==> all[j] == (#[trigger] items[j])@,
                    properties.len() == it.index(),
                    forall|j: int|
                        0 <= j < it.index() ==> (#[trigger] properties@[j])@
                            == member_property_text(all[j]),
            {
                let member_name = TypeScriptCasingRules.to_record_member_case(member.name);
                let type_text = emit_type_name(member.ty);
                properties.push(property_declaration(member_name.as_str(), type_text.as_str()));
            }
            assert(properties.deep_view() =~= all.map_values(
                |member: MemberModel| member_property_text(member),
            ));
            let interface_name = TypeScriptCasingRules.to_type_name_case(name);
            interface_declaration(interface_name.as_str(), &properties)
        },
        Type::Union { .. } => String::new(),
        Type::Primitive(_) => String::new(),
        Type::Array(_) => String::new(),
        Type::Mapping { .. } => String::new(),
    }
}

/// How the request names an HTTP method.
pub open spec fn method_name_text(method: HttpMethod) -> Seq<char> {
    match method {
        HttpMethod::Get => "get"@,
        HttpMethod::Post => "post"@,
        HttpMethod::Put => "put"@,
        HttpMethod::Patch => "patch"@,
        HttpMethod::Delete => "delete"@,
    }
}

/// Writes how the request names an HTTP method.
pub fn method_name(method: &HttpMethod) -> (res: &'static str)
    ensures
        res@ == method_name_text(*method),
{
    match method {
        HttpMethod::Get => "get",
        HttpMethod::Post => "post",
        HttpMethod::Put => "put",
        HttpMethod::Patch => "patch",
        HttpMethod::Delete => "delete",
    }
}

/// One parameter of a function: its name, then its type.
pub open spec fn parameter_text(parameter: (Seq<char>, TypeModel)) -> Seq<char> {
    parameter.0 + ": "@ + type_name_text(parameter.1)
}

/// The line that sends the payload along.
pub open spec fn request_data_text() -> Seq<char> {
    "data: payload,"@
}

/// A function that calls one route.
pub open spec fn function_text(
    description: Seq<char>,
    function_name: Seq<char>,
    parameter_list: Seq<char>,
    return_type: Seq<char>,
    http_method: Seq<char>,
    url: Seq<char>,
    request_data: Seq<char>,
) -> Seq<char> {
    "\n/**\n * "@ + description + "\n */\nexport async function "@ + function_name + "("@
        + parameter_list + "): Promise<"@ + return_type
        + "> {\n    const response = await axios({\n        method: '"@ + http_method
        + "',\n        url: `"@ + url + "`,\n        "@ + request_data
        + "\n    });\n\n    return response.data;\n}\n    "@
}

/// Writes a function that calls one route.
pub fn function_declaration(
    description: &str,
    function_name: &str,
    parameter_list: &str,
    return_type: &str,
    http_method: &str,
    url: &str,
    request_data: &str,
) -> (res: String)
    ensures
        res@ == function_text(
            description@,
            function_name@,
            parameter_list@,
            return_type@,
            http_method@,
            url@,
            request_data@,
        ),
{
    let mut text = String::from_str("\n/**\n * ");
    text.append(description);
    text.append("\n */\nexport async function ");
    text.append(function_name);
    text.append("(");
    text.append(parameter_list);
    text.append("): Promise<");
    text.append(return_type);
    text.append("> {\n    const response = await axios({\n        method: '");
    text.append(http_method);
    text.append("',\n        url: `");
    text.append(url);
    text.append("`,\n        ");
    text.append(request_data);
    text.append("\n    });\n\n    return response.data;\n}\n    ");
    text
}

/// The return type of a route; a route that declares none returns a string.
pub open spec fn return_type_of(route: RouteModel) -> TypeModel {
    match route.return_type {
        Some(ty) => ty,
        None => TypeModel::Primitive(Primitive::String),
    }
}

/// The function for one route: described by the route's description, named
/// after the route in mixedCase, taking all of the route's parameters,
/// sending the payload along if there is one.
pub open spec fn route_text(route: RouteModel) -> Seq<char> {
    function_text(
        match route.description {
            Some(description) => description,
            None => Seq::empty(),
        },
        mixed_case(route.name),
        join_with(
            route.all_parameters().map_values(
                |parameter: (Seq<char>, TypeModel)| parameter_text(parameter),
            ),
            ", "@,
        ),
        type_name_text(return_type_of(route)),
        method_name_text(route.method),
        url_text(route.url_segments(), "${"@, "}"@),
        match route.payload_type {
            Some(_) => request_data_text(),
            None => Seq::empty(),
        },
    )
}

/// Writes the function for one route.
pub fn emit_route(route: Route) -> (res: String)
    ensures
        res@ == route_text(route@),
{
    let return_type = match &route.return_type {
        Some(ty) => emit_type_name(ty.clone()),
        None => emit_type_name(Type::Primitive(Primitive::String)),
    };
    let ghost all = route@.all_parameters();
    let parameters = route.all_parameters();
    let ghost items = parameters@;
    let mut parameter_texts: Vec<String> = Vec::new();
    for parameter in it: parameters
        invariant
            it.seq() == items,
            all.len() == items.len(),
            forall|j: int| 0 <= j < items.len() ==> all[j] == (#[trigger] items[j]).deep_view(),
            parameter_texts.len() == it.index(),
            forall|j: int|
                0 <= j < it.index() ==> (#[trigger] parameter_texts@[j])@ == parameter_text(all[j]),
    {
        let mut text = parameter.0;
        text.append(": ");
        text.append(emit_type_name(parameter.1).as_str());
        parameter_texts.push(text);
    }
    assert(parameter_texts.deep_view() =~= all.map_values(
        |parameter: (Seq<char>, TypeModel)| parameter_text(parameter),
    ));
    let parameter_list = join(&parameter_texts, ", ");
    let url = url_template(&route.url_segments(), "${", "}");
    let request_data = match &route.payload_type {
        Some(_) => String::from_str("data: payload,"),
        None => String::new(),
    };
    let http_method = method_name(&route.method);
    let description = match route.description {
        Some(description) => String::from(description),
        None => String::new(),
    };
    let function_name = TypeScriptCasingRules.to_function_name_case(route.name);
    function_declaration(
        description.as_str(),
        function_name.as_str(),
        parameter_list.as_str(),
        return_type.as_str(),
        http_method,
        url.as_str(),
        request_data.as_str(),
    )
}

/// The text for one resource: the functions of its routes, one after the
/// other. The version leaves no trace in it.
pub open spec fn resource_text(version: Seq<char>, resource: SdkResourceModel) -> Seq<char> {
    join_with(resource.routes.map_values(|route: RouteModel| route_text(route)), "\n"@)
}

/// Writes the text for one resource of a version.
pub fn emit_sdk_resource(version: String, resource: SdkResource) -> (res: String)
    ensures
        res@ == resource_text(version@, resource@),
{
    let ghost all = resource.routes.deep_view();
    let ghost items = resource.routes@;
    let mut functions: Vec<String> = Vec::new();
    for route in it: resource.routes
        invariant
            it.seq() == items,
            all.len() == items.len(),
            forall|j: int| 0 <= j < items.len() ==> all[j] == (#[trigger] items[j])@,
            functions.len() == it.index(),
            forall|j: int|
                0 <= j < it.index() ==> (#[trigger] functions@[j])@ == route_text(all[j]),
    {
        functions.push(emit_route(route));
    }
    assert(functions.deep_view() =~= all.map_values(|route: RouteModel| route_text(route)));
    join(&functions, "\n")
}

/// The declarations of the first `count` entries of the table, one after the
/// other.
pub open spec fn declarations_text(entries: Entries, count: nat) -> Seq<char>
    decreases count,
{
    if count == 0 || count > entries.len() {
        Seq::empty()
    } else {
        declarations_text(entries, (count - 1) as nat) + type_decl_text(entries[count - 1].1)
    }
}

/// The text of the first `count` resources of a version, one after the other.
pub open spec fn resources_text(version: SdkVersionModel, count: nat) -> Seq<char>
    decreases count,
{
    if count == 0 || count > version.resources.len() {
        Seq::empty()
    } else {
        resources_text(version, (count - 1) as nat) + resource_text(
            version.version,
            version.resources[count - 1],
        )
    }
}

/// The text of the first `count` versions, one after the other.
pub open spec fn versions_text(versions: Seq<SdkVersionModel>, count: nat) -> Seq<char>
    decreases count,
{
    if count == 0 || count > versions.len() {
        Seq::empty()
    } else {
        versions_text(versions, (count - 1) as nat) + resources_text(
            versions[count - 1],
            versions[count - 1].resources.len(),
        )
    }
}

impl GenerateSdk for TypeScriptSdk {
    /// The declarations of all types, then the functions of all versions.
    open spec fn sdk_text(&self, types: Entries, versions: Seq<SdkVersionModel>) -> Seq<char> {
        declarations_text(types, types.len()) + versions_text(versions, versions.len())
    }

    fn generate_sdk(&self, types: TypeDeclarations, versions: Vec<SdkVersion>) -> (res: String) {
        let mut buffer = String::new();
        let ghost entries = types@;
        let declared = types.into_vec();
        let ghost pairs = declared@;
        assert(buffer@ =~= declarations_text(entries, 0));
        for pair in it: declared
            invariant
                it.seq() == pairs,
                entries.len() == pairs.len(),
                forall|j: int| 0 <= j < pairs.len() ==> entries[j] == (#[trigger] pairs[j]).deep_view(),
                buffer@ == declarations_text(entries, it.index() as nat),
        {
            buffer.append(emit_type_decl(pair.1).as_str());
        }
        let ghost declarations = buffer@;
        let ghost all = versions.deep_view();
        let ghost items = versions@;
        assert(buffer@ =~= declarations + versions_text(all, 0));
        for version in it: versions
            invariant
                it.seq() == items,
                all.len() == items.len(),
                forall|j: int| 0 <= j < items.len() ==> all[j] == (#[trigger] items[j])@,
                buffer@ == declarations + versions_text(all, it.index() as nat),
        {
            let ghost before = buffer@;
            let ghost model = version@;
            let ghost resources = version.resources@;
            let name = version.version;
            assert(buffer@ =~= before + resources_text(model, 0));
            for resource in inner: version.resources
                invariant
                    inner.seq() == resources,
                    model.resources.len() == resources.len(),
                    model.version == name@,
                    forall|j: int|
                        0 <= j < resources.len() ==> model.resources[j] == (
                        #[trigger] resources[j])@,
                    buffer@ == before + resources_text(model, inner.index() as nat),
            {
                let ghost so_far = resources_text(model, inner.index() as nat);
                buffer.append(emit_sdk_resource(name.clone(), resource).as_str());
                assert(buffer@ =~= before + (so_far + resource_text(
                    model.version,
                    model.resources[inner.index() as int],
                )));
            }
            assert(buffer@ =~= declarations + (versions_text(all, it.index() as nat)
                + resources_text(model, model.resources.len())));
        }
        buffer
    }
}

} // verus!
