//! Routes as apiDoc describes them, and their conversion.

use crate::lookup::{find_named, first_named};
use crate::route::{HttpMethod as SdkHttpMethod, Route as SdkRoute, RouteModel, UrlParameter, UrlParameterModel};
use crate::text::{blank, is_blank, same_text};
use crate::types::Primitive;
use vstd::prelude::*;

verus! {

/// The HTTP methods that apiDoc knows.
#[derive(Debug, PartialEq, Eq)]
pub enum HttpMethod {
    Get,
    Post,
    Put,
    Delete,
}

impl HttpMethod {
    /// The method that apiDoc writes as `text`, if it is one.
    pub open spec fn named(text: Seq<char>) -> Option<HttpMethod> {
        if text == "GET"@ {
            Some(HttpMethod::Get)
        } else if text == "POST"@ {
            Some(HttpMethod::Post)
        } else if text == "PUT"@ {
            Some(HttpMethod::Put)
        } else if text == "DELETE"@ {
            Some(HttpMethod::Delete)
        } else {
            None
        }
    }

    /// How apiDoc writes this method.
    pub open spec fn name_text(self) -> Seq<char> {
        match self {
            HttpMethod::Get => "GET"@,
            HttpMethod::Post => "POST"@,
            HttpMethod::Put => "PUT"@,
            HttpMethod::Delete => "DELETE"@,
        }
    }

    /// How apiDoc writes this method.
    pub fn name(&self) -> (res: &'static str)
        ensures
            res@ == self.name_text(),
    {
        match self {
            HttpMethod::Get => "GET",
            HttpMethod::Post => "POST",
            HttpMethod::Put => "PUT",
            HttpMethod::Delete => "DELETE",
        }
    }

    /// Reads a method as apiDoc writes it.
    pub fn from_name(text: &str) -> (res: Option<HttpMethod>)
        ensures
            res == HttpMethod::named(text@),
    {
        if same_text(text, "GET") {
            Some(HttpMethod::Get)
        } else if same_text(text, "POST") {
            Some(HttpMethod::Post)
        } else if same_text(text, "PUT") {
            Some(HttpMethod::Put)
        } else if same_text(text, "DELETE") {
            Some(HttpMethod::Delete)
        } else {
            None
        }
    }
}

/// A field of a parameter section.
#[derive(Debug, PartialEq, Eq)]
pub struct Parameter {
    pub group: String,
    pub ty: String,
    pub optional: bool,
    pub field: String,
    pub description: String,
}

/// The fields of a section, by the name of their group.
#[derive(Debug, PartialEq, Eq)]
pub struct ParameterSection {
    pub fields: Vec<(String, Vec<Parameter>)>,
}

/// An apiDoc route.
#[derive(Debug, PartialEq, Eq)]
pub struct Route {
    pub method: HttpMethod,
    pub url: String,
    pub name: String,
    pub group: String,
    pub version: String,
    pub parameter: Option<ParameterSection>,
    pub success: Option<ParameterSection>,
    pub error: Option<ParameterSection>,
    pub filename: String,
    pub group_title: String,
}

/// Why an apiDoc route has no counterpart.
#[derive(Debug, PartialEq, Eq)]
pub enum ConvertError {
    /// A parameter has a type that is not the name of a primitive.
    UnknownPrimitive { name: String },
    /// The route has no name, or a blank one.
    BlankName,
}

/// The mathematical value of a [`ConvertError`].
pub enum ConvertErrorModel {
    UnknownPrimitive { name: Seq<char> },
    BlankName,
}

impl View for ConvertError {
    type V = ConvertErrorModel;

    open spec fn view(&self) -> ConvertErrorModel {
        match self {
            ConvertError::UnknownPrimitive { name } => ConvertErrorModel::UnknownPrimitive {
                name: name@,
            },
            ConvertError::BlankName => ConvertErrorModel::BlankName,
        }
    }
}

impl ConvertErrorModel {
    /// The message for this error; it names the offending value.
    pub open spec fn message_text(self) -> Seq<char> {
        match self {
            ConvertErrorModel::UnknownPrimitive { name } => "Unknown primitive: "@ + name,
            ConvertErrorModel::BlankName => "Route name is blank."@,
        }
    }
}

impl ConvertError {
    /// A message that says what went wrong.
    pub fn message(&self) -> (res: String)
        ensures
            res@ == self@.message_text(),
    {
        match self {
            ConvertError::UnknownPrimitive { name } => {
                let mut text = String::from_str("Unknown primitive: ");
                text.append(name.as_str());
                text
            },
            ConvertError::BlankName => String::from_str("Route name is blank."),
        }
    }
}

/// The method that an apiDoc method stands for.
pub open spec fn converted_method(method: HttpMethod) -> SdkHttpMethod {
    match method {
        HttpMethod::Get => SdkHttpMethod::Get,
        HttpMethod::Post => SdkHttpMethod::Post,
        HttpMethod::Put => SdkHttpMethod::Put,
        HttpMethod::Delete => SdkHttpMethod::Delete,
    }
}

/// Converts an apiDoc method.
pub fn convert_http_method(method: HttpMethod) -> (res: SdkHttpMethod)
    ensures
        res == converted_method(method),
{
    match method {
        HttpMethod::Get => SdkHttpMethod::Get,
        HttpMethod::Post => SdkHttpMethod::Post,
        HttpMethod::Put => SdkHttpMethod::Put,
        HttpMethod::Delete => SdkHttpMethod::Delete,
    }
}

/// The primitive that apiDoc calls `name`, if it calls one so.
pub open spec fn primitive_named(name: Seq<char>) -> Option<Primitive> {
    if name == "String"@ || name == "GUID"@ {
        Some(Primitive::String)
    } else if name == "Boolean"@ {
        Some(Primitive::Boolean)
    } else if name == "Integer"@ {
        Some(Primitive::Integer)
    } else if name == "Float"@ {
        Some(Primitive::Float)
    } else if name == "Number"@ || name == "Double"@ {
        Some(Primitive::Double)
    } else {
        None
    }
}

/// Reads the name of a primitive. Any other name is refused, with a message
/// that quotes it.
pub fn convert_primitive(ty: String) -> (res: Result<Primitive, String>)
    ensures
        match res {
            Ok(primitive) => primitive_named(ty@) == Some(primitive),
            Err(message) => primitive_named(ty@) is None && message@ == "Unknown primitive: "@
                + ty@,
        },
{
    let name = ty.as_str();
    if same_text(name, "String") || same_text(name, "GUID") {
        Ok(Primitive::String)
    } else if same_text(name, "Boolean") {
        Ok(Primitive::Boolean)
    } else if same_text(name, "Integer") {
        Ok(Primitive::Integer)
    } else if same_text(name, "Float") {
        Ok(Primitive::Float)
    } else if same_text(name, "Number") || same_text(name, "Double") {
        Ok(Primitive::Double)
    } else {
        let mut message = String::from_str("Unknown primitive: ");
        message.append(name);
        Err(message)
    }
}

/// The fields that describe the URL parameters of a route: those of the
/// group `Parameter` of its parameter section.
pub open spec fn parameter_fields(route: Route) -> Seq<Parameter> {
    match route.parameter {
        None => Seq::empty(),
        Some(section) => {
            let at = first_named(section.fields@, "Parameter"@);
            if at < section.fields@.len() {
                section.fields@[at].1@
            } else {
                Seq::empty()
            }
        },
    }
}

/// The URL parameters for the first `count` fields: each under its field
/// name, with the primitive that its type names. The first field whose type
/// names no primitive decides the error.
pub open spec fn url_parameters_of(fields: Seq<Parameter>, count: nat) -> Result<
    Seq<UrlParameterModel>,
    ConvertErrorModel,
>
    decreases count,
{
    if count == 0 || count > fields.len() {
        Ok(Seq::empty())
    } else {
        match url_parameters_of(fields, (count - 1) as nat) {
            Err(error) => Err(error),
            Ok(before) => match primitive_named(fields[count - 1].ty@) {
                None => Err(ConvertErrorModel::UnknownPrimitive { name: fields[count - 1].ty@ }),
                Some(ty) => Ok(before.push(UrlParameterModel { name: fields[count - 1].field@, ty })),
            },
        }
    }
}

/// Once a field has failed, every longer prefix of the fields fails with the
/// same error.
pub proof fn lemma_url_parameters_error_stays(fields: Seq<Parameter>, failed: nat, count: nat)
    requires
        failed <= count <= fields.len(),
        url_parameters_of(fields, failed) is Err,
    ensures
        url_parameters_of(fields, count) == url_parameters_of(fields, failed),
    decreases count,
{
    if count > failed {
        lemma_url_parameters_error_stays(fields, failed, (count - 1) as nat);
    }
}

/// The route that an apiDoc route stands for.
///
/// Its name must not be blank. Method, URL, group and version carry over;
/// the URL parameters are read off the parameter section; there is no
/// payload and no return type.
pub open spec fn converted_route(route: Route) -> Result<RouteModel, ConvertErrorModel> {
    let fields = parameter_fields(route);
    match url_parameters_of(fields, fields.len()) {
        Err(error) => Err(error),
        Ok(url_parameters) => if is_blank(route.name@) {
            Err(ConvertErrorModel::BlankName)
        } else {
            Ok(
                RouteModel {
                    name: route.name@,
                    description: None,
                    method: converted_method(route.method),
                    url: route.url@,
                    group: route.group@,
                    version: route.version@,
                    url_parameters,
                    payload_type: None,
                    return_type: None,
                },
            )
        },
    }
}

/// Every route that conversion yields is well formed.
pub proof fn lemma_converted_route_is_well_formed(route: Route)
    ensures
        converted_route(route) matches Ok(converted) ==> converted.well_formed(),
{
}

/// Converts the fields that describe URL parameters.
pub fn convert_parameters(fields: &Vec<Parameter>) -> (res: Result<Vec<UrlParameter>, ConvertError>)
    ensures
        match res {
            Ok(parameters) => url_parameters_of(fields@, fields@.len()) == Ok::<
                Seq<UrlParameterModel>,
                ConvertErrorModel,
            >(parameters.deep_view()),
            Err(error) => url_parameters_of(fields@, fields@.len()) == Err::<
                Seq<UrlParameterModel>,
                ConvertErrorModel,
            >(error@),
        },
{
    let mut parameters: Vec<UrlParameter> = Vec::new();
    let mut i: usize = 0;
    assert(parameters.deep_view() =~= Seq::<UrlParameterModel>::empty());
    while i < fields.len()
        invariant
            i <= fields.len(),
            parameters.len() == i,
            url_parameters_of(fields@, i as nat) == Ok::<Seq<UrlParameterModel>, ConvertErrorModel>(
                parameters.deep_view(),
            ),
        decreases fields.len() - i,
    {
        let ghost before = parameters.deep_view();
        match convert_primitive(fields[i].ty.clone()) {
            Err(_) => {
                proof {
                    lemma_url_parameters_error_stays(fields@, i as nat + 1, fields@.len());
                }
                return Err(ConvertError::UnknownPrimitive { name: fields[i].ty.clone() });
            },
            Ok(ty) => {
                parameters.push(UrlParameter { name: fields[i].field.clone(), ty });
                assert(parameters.deep_view() =~= before.push(parameters@[i as int]@));
            },
        }
        i += 1;
    }
    Ok(parameters)
}

/// Converts an apiDoc route.
pub fn convert_route(route: Route) -> (res: Result<SdkRoute, ConvertError>)
    ensures
        match res {
            Ok(converted) => converted_route(route) == Ok::<RouteModel, ConvertErrorModel>(
                converted@,
            ),
            Err(error) => converted_route(route) == Err::<RouteModel, ConvertErrorModel>(error@),
        },
{
    let url_parameters = match &route.parameter {
        None => {
            let none: Vec<UrlParameter> = Vec::new();
            assert(none.deep_view() =~= Seq::<UrlParameterModel>::empty());
            none
        },
        Some(section) => match find_named(&section.fields, "Parameter") {
            None => {
                let none: Vec<UrlParameter> = Vec::new();
                assert(none.deep_view() =~= Seq::<UrlParameterModel>::empty());
                none
            },
            Some(fields) => match convert_parameters(fields) {
                Ok(parameters) => parameters,
                Err(error) => {
                    return Err(error);
                },
            },
        },
    };
    if blank(route.name.as_str()) {
        return Err(ConvertError::BlankName);
    }
    Ok(
        SdkRoute {
            name: route.name,
            description: None,
            method: convert_http_method(route.method),
            url: route.url,
            group: route.group,
            version: route.version,
            url_parameters,
            payload_type: None,
            return_type: None,
        },
    )
}

} // verus!
