//! Reads routes and types out of an OpenAPI document.

pub mod convert;
pub mod document;
pub mod extract;
pub mod schema;

pub use convert::{openapi_type_to_type, schema_to_type, ConversionError};
pub use document::{
    ArrayType, Components, MediaType, ObjectType, OpenApi, OpenApiType, Operation, Parameter,
    ParameterData, PathItem, ReferenceOr, Response, Responses, Schema, SchemaKind, StatusCode,
};
pub use extract::{
    from_openapi, operation_to_route, parameter_to_url_parameter, path_to_routes,
    response_to_return_type, ExtractionError, ReturnTypeError,
};
pub use schema::{resolve_schema, NamedOrAnonymous, NamedSchema, SchemaReference};
