//! An OpenAPI document, as far as routes and types are read from it.
//!
//! Maps of the document are lists of pairs in document order. A lookup takes
//! the first pair that goes by the key.

use vstd::prelude::*;

verus! {

/// Either a value or a `$ref` pointer to one.
#[derive(Debug, PartialEq, Eq)]
pub enum ReferenceOr<T> {
    Reference { reference: String },
    Item(T),
}

/// A schema of the document.
#[derive(Debug, PartialEq, Eq)]
pub struct Schema {
    pub schema_kind: SchemaKind,
}

/// What a schema is made of: a typed schema, or a composition (`oneOf`,
/// `allOf`, `anyOf`, `not`, or one without a type).
#[derive(Debug, PartialEq, Eq)]
pub enum SchemaKind {
    Type(OpenApiType),
    Composition,
}

/// The declared type of a typed schema.
#[derive(Debug, PartialEq, Eq)]
pub enum OpenApiType {
    String,
    Number,
    Integer,
    Boolean,
    Object(ObjectType),
    Array(ArrayType),
}

/// An object schema: its properties in declared order and the names of those
/// that are required.
#[derive(Debug, PartialEq, Eq)]
pub struct ObjectType {
    pub properties: Vec<(String, ReferenceOr<Schema>)>,
    pub required: Vec<String>,
}

/// An array schema with the schema of its items.
#[derive(Debug, PartialEq, Eq)]
pub struct ArrayType {
    pub items: Option<Box<ReferenceOr<Schema>>>,
}

/// The reusable parts of a document.
#[derive(Debug, PartialEq, Eq)]
pub struct Components {
    pub schemas: Vec<(String, ReferenceOr<Schema>)>,
}

/// The body of a response in one media type.
#[derive(Debug, PartialEq, Eq)]
pub struct MediaType {
    pub schema: Option<ReferenceOr<Schema>>,
}

/// A response of an operation: its bodies by media type.
#[derive(Debug, PartialEq, Eq)]
pub struct Response {
    pub content: Vec<(String, MediaType)>,
}

/// The key of a response: one status code, or a range of them.
#[derive(Debug, Clone, Copy, PartialEq, Eq, Structural)]
pub enum StatusCode {
    Code(u16),
    Range(u16),
}

/// The responses of an operation.
#[derive(Debug, PartialEq, Eq)]
pub struct Responses {
    pub default: Option<ReferenceOr<Response>>,
    pub responses: Vec<(StatusCode, ReferenceOr<Response>)>,
}

/// What every parameter declares.
#[derive(Debug, PartialEq, Eq)]
pub struct ParameterData {
    pub name: String,
}

/// A parameter of an operation, by where it travels.
#[derive(Debug, PartialEq, Eq)]
pub enum Parameter {
    Query { parameter_data: ParameterData },
    Header { parameter_data: ParameterData },
    Path { parameter_data: ParameterData },
    Cookie { parameter_data: ParameterData },
}

/// One operation on a path.
#[derive(Debug, PartialEq, Eq)]
pub struct Operation {
    pub operation_id: Option<String>,
    pub parameters: Vec<ReferenceOr<Parameter>>,
    pub responses: Responses,
}

/// The operations of one path.
#[derive(Debug, PartialEq, Eq)]
pub struct PathItem {
    pub get: Option<Operation>,
    pub put: Option<Operation>,
    pub post: Option<Operation>,
    pub delete: Option<Operation>,
    pub patch: Option<Operation>,
}

/// A parsed OpenAPI document.
#[derive(Debug, PartialEq, Eq)]
pub struct OpenApi {
    pub paths: Vec<(String, ReferenceOr<PathItem>)>,
    pub components: Option<Components>,
}

impl OpenApi {
    /// The schemas of the component table; none where the document has no
    /// components.
    pub open spec fn schemas(self) -> Seq<(String, ReferenceOr<Schema>)> {
        match self.components {
            Some(components) => components.schemas@,
            None => Seq::empty(),
        }
    }
}

} // verus!
