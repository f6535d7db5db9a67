//! Extraction of routes from the paths of a document.

use crate::openapi::convert::{is_result, named_type, schema_to_type, ConversionError};
use crate::lookup::{find_named, first_named};
use crate::openapi::document::{
    OpenApi, Operation, Parameter, ParameterData, PathItem, ReferenceOr, Response, Responses,
    StatusCode,
};
use crate::openapi::schema::{resolve_schema, resolved_schema};
use crate::route::{HttpMethod, Route, RouteModel, UrlParameter, UrlParameterModel};
use crate::text::{blank, chars_of, is_blank, push_char};
use crate::types::{Primitive, Type, TypeModel};
use vstd::prelude::*;

verus! {

/// Why a response gives no return type.
#[derive(Debug, Clone, Copy, PartialEq, Eq, Structural)]
pub enum ReturnTypeError {
    /// The response has no `application/json` body.
    NoJsonContent,
    /// The body declares no schema, or its schema resolves to nothing.
    NoSchema,
    /// The schema was found and has no type.
    Conversion(ConversionError),
}

impl ReturnTypeError {
    /// The message for this error.
    pub open spec fn message_text(self) -> Seq<char> {
        match self {
            ReturnTypeError::NoJsonContent => "No response found for application/json"@,
            ReturnTypeError::NoSchema => "No schema."@,
            ReturnTypeError::Conversion(error) => error.message_text(),
        }
    }

    /// A message that says what went wrong.
    pub fn message(&self) -> (res: String)
        ensures
            res@ == self.message_text(),
    {
        match self {
            ReturnTypeError::NoJsonContent => String::from_str(
                "No response found for application/json",
            ),
            ReturnTypeError::NoSchema => String::from_str("No schema."),
            ReturnTypeError::Conversion(error) => error.message(),
        }
    }
}

/// Why a document gives no routes.
#[derive(Debug, PartialEq, Eq)]
pub enum ExtractionError {
    /// An operation on `path` declares no identifier, or a blank one.
    MissingOperationId { path: String },
    /// The response schema of an operation on `path` has no type.
    Schema { path: String, error: ConversionError },
}

/// The mathematical value of an [`ExtractionError`].
pub enum ExtractionErrorModel {
    MissingOperationId { path: Seq<char> },
    Schema { path: Seq<char>, error: ConversionError },
}

impl View for ExtractionError {
    type V = ExtractionErrorModel;

    open spec fn view(&self) -> ExtractionErrorModel {
        match self {
            ExtractionError::MissingOperationId { path } => ExtractionErrorModel::MissingOperationId {
                path: path@,
            },
            ExtractionError::Schema { path, error } => ExtractionErrorModel::Schema {
                path: path@,
                error: *error,
            },
        }
    }
}

impl ExtractionErrorModel {
    /// The message for this error; it names the path.
    pub open spec fn message_text(self) -> Seq<char> {
        match self {
            ExtractionErrorModel::MissingOperationId { path } => "No operation ID for "@ + path,
            ExtractionErrorModel::Schema { path, error } => error.message_text() + " for "@ + path,
        }
    }
}

impl ExtractionError {
    /// A message that says what went wrong, and on which path.
    pub fn message(&self) -> (res: String)
        ensures
            res@ == self@.message_text(),
    {
        match self {
            ExtractionError::MissingOperationId { path } => {
                let mut text = String::from_str("No operation ID for ");
                text.append(path.as_str());
                text
            },
            ExtractionError::Schema { path, error } => {
                let mut text = error.message();
                text.append(" for ");
                text.append(path.as_str());
                text
            },
        }
    }
}

/// A path with its parameter braces rewritten: every `{` becomes `:` and every
/// `}` is dropped, so that `{name}` reads `:name`.
pub open spec fn normalized_url(path: Seq<char>) -> Seq<char>
    decreases path.len(),
{
    if path.len() == 0 {
        Seq::empty()
    } else {
        let before = normalized_url(path.drop_last());
        if path.last() == '{' {
            before.push(':')
        } else if path.last() == '}' {
            before
        } else {
            before.push(path.last())
        }
    }
}

/// Rewrites the parameter braces of a path.
pub fn normalize_url(path: &str) -> (res: String)
    ensures
        res@ == normalized_url(path@),
{
    let chars = chars_of(path);
    let mut url = String::new();
    let mut i: usize = 0;
    assert(chars@.take(0) =~= Seq::<char>::empty());
    while i < chars.len()
        invariant
            i <= chars.len(),
            url@ == normalized_url(chars@.take(i as int)),
        decreases chars.len() - i,
    {
        assert(chars@.take(i as int + 1).drop_last() =~= chars@.take(i as int));
        let c = chars[i];
        if c == '{' {
            push_char(&mut url, ':');
        } else if c != '}' {
            push_char(&mut url, c);
        }
        i += 1;
    }
    assert(chars@.take(i as int) =~= chars@);
    url
}

/// The URL parameter that a path parameter stands for: its name, typed as a
/// string.
pub open spec fn url_parameter_of(parameter: ParameterData) -> UrlParameterModel {
    UrlParameterModel { name: parameter.name@, ty: Primitive::String }
}

/// Turns the declaration of a path parameter into a URL parameter.
pub fn parameter_to_url_parameter(parameter: &ParameterData) -> (res: UrlParameter)
    ensures
        res@ == url_parameter_of(*parameter),
{
    UrlParameter { name: parameter.name.clone(), ty: Primitive::String }
}

/// The URL parameters among `parameters`: those that are declared inline and
/// travel in the path, in their order.
pub open spec fn path_parameters(parameters: Seq<ReferenceOr<Parameter>>) -> Seq<
    UrlParameterModel,
>
    decreases parameters.len(),
{
    if parameters.len() == 0 {
        Seq::empty()
    } else {
        let before = path_parameters(parameters.drop_last());
        match parameters.last() {
            ReferenceOr::Item(Parameter::Path { parameter_data }) => before.push(
                url_parameter_of(parameter_data),
            ),
            _ => before,
        }
    }
}

/// The place of the first response under `status`; the length when there is
/// none.
pub open spec fn first_with_status(
    responses: Seq<(StatusCode, ReferenceOr<Response>)>,
    status: StatusCode,
) -> int
    decreases responses.len(),
{
    if responses.len() == 0 {
        0
    } else if responses[0].0 == status {
        0
    } else {
        1 + first_with_status(responses.drop_first(), status)
    }
}

/// The response that decides the return type: the default response where one
/// is declared, else the response for status 200, else none.
pub open spec fn chosen_response(responses: Responses) -> Option<ReferenceOr<Response>> {
    match responses.default {
        Some(response) => Some(response),
        None => {
            let at = first_with_status(responses.responses@, StatusCode::Code(200));
            if at < responses.responses@.len() {
                Some(responses.responses@[at].1)
            } else {
                None
            }
        },
    }
}

/// Chooses the response that decides the return type.
pub fn choose_response<'a>(responses: &'a Responses) -> (res: Option<&'a ReferenceOr<Response>>)
    ensures
        match res {
            Some(response) => chosen_response(*responses) == Some(*response),
            None => chosen_response(*responses) is None,
        },
{
    match &responses.default {
        Some(response) => Some(response),
        None => {
            let listed = &responses.responses;
            let mut i: usize = 0;
            assert(listed@.skip(0) =~= listed@);
            while i < listed.len()
                invariant
                    i <= listed.len(),
                    responses.default is None,
                    listed@ == responses.responses@,
                    first_with_status(listed@, StatusCode::Code(200)) == i + first_with_status(
                        listed@.skip(i as int),
                        StatusCode::Code(200),
                    ),
                decreases listed.len() - i,
            {
                let ghost rest = listed@.skip(i as int);
                assert(rest[0] == listed@[i as int]);
                assert(rest.drop_first() =~= listed@.skip(i as int + 1));
                match listed[i].0 {
                    StatusCode::Code(code) => {
                        if code == 200 {
                            return Some(&listed[i].1);
                        }
                    },
                    StatusCode::Range(_) => {},
                }
                i += 1;
            }
            assert(listed@.skip(i as int).len() == 0);
            None
        },
    }
}

/// The return type that a response declares: the type of the schema of its
/// `application/json` body.
pub open spec fn response_return_type(api: OpenApi, response: Response) -> Result<
    TypeModel,
    ReturnTypeError,
> {
    let at = first_named(response.content@, "application/json"@);
    if at >= response.content@.len() {
        Err(ReturnTypeError::NoJsonContent)
    } else {
        match response.content@[at].1.schema {
            None => Err(ReturnTypeError::NoSchema),
            Some(schema) => match resolved_schema(api, schema) {
                None => Err(ReturnTypeError::NoSchema),
                Some((name, target)) => match named_type(api, name, target) {
                    Ok(ty) => Ok(ty),
                    Err(error) => Err(ReturnTypeError::Conversion(error)),
                },
            },
        }
    }
}

/// Reads the return type off a response.
pub fn response_to_return_type(api: &OpenApi, response: &Response) -> (res: Result<
    Type,
    ReturnTypeError,
>)
    ensures
        match res {
            Ok(ty) => response_return_type(*api, *response) == Ok::<TypeModel, ReturnTypeError>(
                ty@,
            ),
            Err(error) => response_return_type(*api, *response) == Err::<
                TypeModel,
                ReturnTypeError,
            >(error),
        },
{
    let media_type = match find_named(&response.content, "application/json") {
        Some(media_type) => media_type,
        None => {
            return Err(ReturnTypeError::NoJsonContent);
        },
    };
    let schema = match &media_type.schema {
        Some(schema) => schema,
        None => {
            return Err(ReturnTypeError::NoSchema);
        },
    };
    let found = match resolve_schema(api, schema) {
        Some(found) => found,
        None => {
            return Err(ReturnTypeError::NoSchema);
        },
    };
    match schema_to_type(api, found) {
        Ok(ty) => Ok(ty),
        Err(error) => Err(ReturnTypeError::Conversion(error)),
    }
}

/// The return type of an operation. It is read off the chosen response where
/// that is declared inline; a response without a JSON body or without a
/// schema that resolves leaves the operation without a return type; a schema
/// that has no type is an error.
pub open spec fn operation_return_type(api: OpenApi, operation: Operation) -> Result<
    Option<TypeModel>,
    ConversionError,
> {
    match chosen_response(operation.responses) {
        Some(ReferenceOr::Item(response)) => match response_return_type(api, response) {
            Ok(ty) => Ok(Some(ty)),
            Err(ReturnTypeError::Conversion(error)) => Err(error),
            Err(_) => Ok(None),
        },
        _ => Ok(None),
    }
}

/// The route of one operation.
///
/// The route goes by the operation's identifier, which must be there and not
/// blank. Its URL is the path with the braces rewritten, its group is the
/// path as it stands and its version is empty. It has the path parameters of
/// the operation, no payload, and the operation's return type.
pub open spec fn operation_route(
    api: OpenApi,
    path: Seq<char>,
    method: HttpMethod,
    operation: Operation,
) -> Result<RouteModel, ExtractionErrorModel> {
    match operation.operation_id {
        None => Err(ExtractionErrorModel::MissingOperationId { path }),
        Some(id) => if is_blank(id@) {
            Err(ExtractionErrorModel::MissingOperationId { path })
        } else {
            match operation_return_type(api, operation) {
                Err(error) => Err(ExtractionErrorModel::Schema { path, error }),
                Ok(return_type) => Ok(
                    RouteModel {
                        name: id@,
                        description: None,
                        method,
                        url: normalized_url(path),
                        group: path,
                        version: Seq::empty(),
                        url_parameters: path_parameters(operation.parameters@),
                        payload_type: None,
                        return_type,
                    },
                ),
            }
        },
    }
}

/// Whether an executable result is the one that the specification gives.
pub open spec fn is_route(res: Result<Route, ExtractionError>, expected: Result<
    RouteModel,
    ExtractionErrorModel,
>) -> bool {
    match res {
        Ok(route) => expected == Ok::<RouteModel, ExtractionErrorModel>(route@),
        Err(error) => expected == Err::<RouteModel, ExtractionErrorModel>(error@),
    }
}

/// Whether an executable result is the one that the specification gives.
pub open spec fn are_routes(res: Result<Vec<Route>, ExtractionError>, expected: Result<
    Seq<RouteModel>,
    ExtractionErrorModel,
>) -> bool {
    match res {
        Ok(routes) => expected == Ok::<Seq<RouteModel>, ExtractionErrorModel>(routes.deep_view()),
        Err(error) => expected == Err::<Seq<RouteModel>, ExtractionErrorModel>(error@),
    }
}

/// Builds the route of one operation on `path`.
pub fn operation_to_route(api: &OpenApi, path: &String, method: HttpMethod, operation: &Operation) -> (res:
    Result<Route, ExtractionError>)
    ensures
        is_route(res, operation_route(*api, path@, method, *operation)),
{
    let parameters = &operation.parameters;
    let mut url_parameters: Vec<UrlParameter> = Vec::new();
    let mut i: usize = 0;
    assert(parameters@.take(0) =~= Seq::<ReferenceOr<Parameter>>::empty());
    assert(url_parameters.deep_view() =~= Seq::<UrlParameterModel>::empty());
    while i < parameters.len()
        invariant
            i <= parameters.len(),
            url_parameters.deep_view() == path_parameters(parameters@.take(i as int)),
        decreases parameters.len() - i,
    {
        assert(parameters@.take(i as int + 1).drop_last() =~= parameters@.take(i as int));
        let ghost before = url_parameters.deep_view();
        match &parameters[i] {
            ReferenceOr::Item(Parameter::Path { parameter_data }) => {
                url_parameters.push(parameter_to_url_parameter(parameter_data));
                assert(url_parameters.deep_view() =~= before.push(
                    url_parameter_of(*parameter_data),
                ));
            },
            _ => {},
        }
        i += 1;
    }
    assert(parameters@.take(i as int) =~= parameters@);
    let name = match &operation.operation_id {
        Some(id) => {
            if blank(id.as_str()) {
                return Err(ExtractionError::MissingOperationId { path: path.clone() });
            }
            id.clone()
        },
        None => {
            return Err(ExtractionError::MissingOperationId { path: path.clone() });
        },
    };
    let return_type = match choose_response(&operation.responses) {
        Some(ReferenceOr::Item(response)) => match response_to_return_type(api, response) {
            Ok(ty) => Some(ty),
            Err(ReturnTypeError::Conversion(error)) => {
                return Err(ExtractionError::Schema { path: path.clone(), error });
            },
            Err(_) => None,
        },
        _ => None,
    };
    Ok(
        Route {
            name,
            description: None,
            method,
            url: normalize_url(path.as_str()),
            group: path.clone(),
            version: String::new(),
            url_parameters,
            payload_type: None,
            return_type,
        },
    )
}

/// The routes so far, followed by the route of `operation` where the path has
/// one for the method. An error so far stays.
pub open spec fn with_operation(
    api: OpenApi,
    path: Seq<char>,
    method: HttpMethod,
    operation: Option<Operation>,
    so_far: Result<Seq<RouteModel>, ExtractionErrorModel>,
) -> Result<Seq<RouteModel>, ExtractionErrorModel> {
    match so_far {
        Err(error) => Err(error),
        Ok(routes) => match operation {
            None => Ok(routes),
            Some(operation) => match operation_route(api, path, method, operation) {
                Ok(route) => Ok(routes.push(route)),
                Err(error) => Err(error),
            },
        },
    }
}

/// The routes of one path: one for each operation that is there, in the order
/// get, post, put, patch, delete. The first operation without a route decides
/// the error.
pub open spec fn path_routes(api: OpenApi, path: Seq<char>, item: PathItem) -> Result<
    Seq<RouteModel>,
    ExtractionErrorModel,
> {
    let none = Ok::<Seq<RouteModel>, ExtractionErrorModel>(Seq::empty());
    let get = with_operation(api, path, HttpMethod::Get, item.get, none);
    let post = with_operation(api, path, HttpMethod::Post, item.post, get);
    let put = with_operation(api, path, HttpMethod::Put, item.put, post);
    let patch = with_operation(api, path, HttpMethod::Patch, item.patch, put);
    with_operation(api, path, HttpMethod::Delete, item.delete, patch)
}

/// Adds the route of `operation`, where there is one, to `routes`.
fn add_operation(
    api: &OpenApi,
    path: &String,
    method: HttpMethod,
    operation: &Option<Operation>,
    routes: &mut Vec<Route>,
) -> (res: Result<(), ExtractionError>)
    ensures
        match res {
            Ok(_) => with_operation(
                *api,
                path@,
                method,
                *operation,
                Ok(old(routes).deep_view()),
            ) == Ok::<Seq<RouteModel>, ExtractionErrorModel>(final(routes).deep_view()),
            Err(error) => with_operation(
                *api,
                path@,
                method,
                *operation,
                Ok(old(routes).deep_view()),
            ) == Err::<Seq<RouteModel>, ExtractionErrorModel>(error@),
        },
{
    match operation {
        None => Ok(()),
        Some(operation) => match operation_to_route(api, path, method, operation) {
            Ok(route) => {
                let ghost before = routes.deep_view();
                let ghost added = route@;
                routes.push(route);
                assert(routes.deep_view() =~= before.push(added));
                Ok(())
            },
            Err(error) => Err(error),
        },
    }
}

/// Builds the routes of one path.
pub fn path_to_routes(api: &OpenApi, path: &String, path_item: &PathItem) -> (res: Result<
    Vec<Route>,
    ExtractionError,
>)
    ensures
        are_routes(res, path_routes(*api, path@, *path_item)),
{
    let mut routes: Vec<Route> = Vec::new();
    assert(routes.deep_view() =~= Seq::<RouteModel>::empty());
    match add_operation(api, path, HttpMethod::Get, &path_item.get, &mut routes) {
        Err(error) => {
            return Err(error);
        },
        Ok(_) => {},
    }
    match add_operation(api, path, HttpMethod::Post, &path_item.post, &mut routes) {
        Err(error) => {
            return Err(error);
        },
        Ok(_) => {},
    }
    match add_operation(api, path, HttpMethod::Put, &path_item.put, &mut routes) {
        Err(error) => {
            return Err(error);
        },
        Ok(_) => {},
    }
    match add_operation(api, path, HttpMethod::Patch, &path_item.patch, &mut routes) {
        Err(error) => {
            return Err(error);
        },
        Ok(_) => {},
    }
    match add_operation(api, path, HttpMethod::Delete, &path_item.delete, &mut routes) {
        Err(error) => {
            return Err(error);
        },
        Ok(_) => {},
    }
    Ok(routes)
}

/// The routes of the first `count` paths of a document, in document order. A
/// path that is declared by reference has no routes. The first path without
/// routes of its own decides the error.
pub open spec fn document_routes(api: OpenApi, count: nat) -> Result<
    Seq<RouteModel>,
    ExtractionErrorModel,
>
    decreases count,
{
    if count == 0 || count > api.paths@.len() {
        Ok(Seq::empty())
    } else {
        match document_routes(api, (count - 1) as nat) {
            Err(error) => Err(error),
            Ok(before) => match api.paths@[count - 1].1 {
                ReferenceOr::Reference { .. } => Ok(before),
                ReferenceOr::Item(item) => match path_routes(api, api.paths@[count - 1].0@, item) {
                    Ok(routes) => Ok(before + routes),
                    Err(error) => Err(error),
                },
            },
        }
    }
}

/// Once a path has failed, every longer prefix of the paths fails with the
/// same error.
pub proof fn lemma_document_error_stays(api: OpenApi, failed: nat, count: nat)
    requires
        failed <= count <= api.paths@.len(),
        document_routes(api, failed) is Err,
    ensures
        document_routes(api, count) == document_routes(api, failed),
    decreases count,
{
    if count > failed {
        lemma_document_error_stays(api, failed, (count - 1) as nat);
    }
}

/// Extracts the routes of every path of a document.
pub fn from_openapi(api: &OpenApi) -> (res: Result<Vec<Route>, ExtractionError>)
    ensures
        are_routes(res, document_routes(*api, api.paths@.len())),
{
    let mut routes: Vec<Route> = Vec::new();
    let mut i: usize = 0;
    assert(routes.deep_view() =~= Seq::<RouteModel>::empty());
    while i < api.paths.len()
        invariant
            i <= api.paths.len(),
            document_routes(*api, i as nat) == Ok::<Seq<RouteModel>, ExtractionErrorModel>(
                routes.deep_view(),
            ),
        decreases api.paths.len() - i,
    {
        match &api.paths[i].1 {
            ReferenceOr::Reference { .. } => {},
            ReferenceOr::Item(path_item) => {
                match path_to_routes(api, &api.paths[i].0, path_item) {
                    Err(error) => {
                        proof {
                            lemma_document_error_stays(*api, i as nat + 1, api.paths@.len());
                        }
                        return Err(error);
                    },
                    Ok(mut found) => {
                        let ghost before = routes.deep_view();
                        let ghost added = found.deep_view();
                        routes.append(&mut found);
                        assert(routes.deep_view() =~= before + added);
                    },
                }
            },
        }
        i += 1;
    }
    Ok(routes)
}

/// Every route that extraction yields is well formed.
pub proof fn lemma_document_routes_are_well_formed(api: OpenApi, count: nat)
    ensures
        document_routes(api, count) matches Ok(routes) ==> forall|i: int|
            0 <= i < routes.len() ==> (#[trigger] routes[i]).well_formed(),
    decreases count,
{
    if !(count == 0 || count > api.paths@.len()) {
        lemma_document_routes_are_well_formed(api, (count - 1) as nat);
    }
}

} // verus!
