//! Conversion of schemas into types.

use crate::openapi::document::{ObjectType, OpenApi, OpenApiType, ReferenceOr, Schema, SchemaKind};
use crate::openapi::schema::{resolve_schema, resolved_schema, NamedOrAnonymous};
use crate::text::contains_text;
use crate::types::{lemma_record_members, Member, MemberModel, Primitive, Type, TypeModel};
use vstd::prelude::*;

verus! {

/// Why a schema has no type.
#[derive(Debug, Clone, Copy, PartialEq, Eq, Structural)]
pub enum ConversionError {
    /// The schema is a composition, which has no counterpart among the types.
    UnsupportedSchemaKind,
    /// A nested reference resolves to nothing, or an array declares no items.
    UnresolvedReference,
    /// References nest within references more deeply than the component
    /// table has entries.
    CyclicReference,
}

impl ConversionError {
    /// The message for this error.
    pub open spec fn message_text(self) -> Seq<char> {
        match self {
            ConversionError::UnsupportedSchemaKind => "unsupported schema kind"@,
            ConversionError::UnresolvedReference => "unresolved schema reference"@,
            ConversionError::CyclicReference => "cyclic schema reference"@,
        }
    }

    /// A message that says what went wrong.
    pub fn message(&self) -> (res: String)
        ensures
            res@ == self.message_text(),
    {
        match self {
            ConversionError::UnsupportedSchemaKind => String::from_str("unsupported schema kind"),
            ConversionError::UnresolvedReference => String::from_str(
                "unresolved schema reference",
            ),
            ConversionError::CyclicReference => String::from_str("cyclic schema reference"),
        }
    }
}

/// The name of a record that was converted from a schema without a name.
pub open spec fn placeholder_name() -> Seq<char> {
    "Unnamed"@
}

/// A type under the name that resolution found for it, if it found one.
pub open spec fn renamed(ty: TypeModel, name: Option<Seq<char>>) -> TypeModel {
    match name {
        Some(name) => ty.with_name(name),
        None => ty,
    }
}

/// The type of a schema. `depth` is how many references may still be
/// followed on the way down.
///
/// A composition has no type. A typed schema has the type of its declared
/// type.
pub open spec fn schema_type(api: OpenApi, schema: Schema, depth: nat) -> Result<
    TypeModel,
    ConversionError,
>
    decreases depth, schema, 0nat,
{
    match schema.schema_kind {
        SchemaKind::Type(ty) => openapi_type(api, ty, depth),
        SchemaKind::Composition => Err(ConversionError::UnsupportedSchemaKind),
    }
}

/// The type of a declared type: a primitive for a scalar, a record under the
/// placeholder name for an object, an array of the items' type for an array.
pub open spec fn openapi_type(api: OpenApi, ty: OpenApiType, depth: nat) -> Result<
    TypeModel,
    ConversionError,
>
    decreases depth, ty, 0nat,
{
    match ty {
        OpenApiType::String => Ok(TypeModel::Primitive(Primitive::String)),
        OpenApiType::Number => Ok(TypeModel::Primitive(Primitive::Float)),
        OpenApiType::Integer => Ok(TypeModel::Primitive(Primitive::Integer)),
        OpenApiType::Boolean => Ok(TypeModel::Primitive(Primitive::Boolean)),
        OpenApiType::Object(object) => match members_of(
            api,
            object,
            object.properties@.len(),
            depth,
        ) {
            Ok(members) => Ok(TypeModel::Record { name: placeholder_name(), members }),
            Err(error) => Err(error),
        },
        OpenApiType::Array(array) => match array.items {
            None => Err(ConversionError::UnresolvedReference),
            Some(items) => match referenced_type(api, *items, depth) {
                Ok(element) => Ok(TypeModel::Array(Box::new(element))),
                Err(error) => Err(error),
            },
        },
    }
}

/// The members for the first `count` properties of an object, in declared
/// order. A property is optional exactly when its name is not among the
/// required names. The first property without a type decides the error.
pub open spec fn members_of(api: OpenApi, object: ObjectType, count: nat, depth: nat) -> Result<
    Seq<MemberModel>,
    ConversionError,
>
    decreases depth, object, count,
{
    if count == 0 || count > object.properties@.len() {
        Ok(Seq::empty())
    } else {
        match members_of(api, object, (count - 1) as nat, depth) {
            Err(error) => Err(error),
            Ok(before) => {
                let property = object.properties@[count - 1];
                match referenced_type(api, property.1, depth) {
                    Err(error) => Err(error),
                    Ok(ty) => Ok(
                        before.push(
                            MemberModel {
                                name: property.0@,
                                description: None,
                                ty,
                                is_optional: !object.required.deep_view().contains(property.0@),
                            },
                        ),
                    ),
                }
            },
        }
    }
}

/// The type of a nested schema or reference. An inline schema has its own
/// type. A reference has the type of the schema it resolves to, under the
/// name it is declared by; following it uses up one level of `depth`.
pub open spec fn referenced_type(api: OpenApi, schema: ReferenceOr<Schema>, depth: nat) -> Result<
    TypeModel,
    ConversionError,
>
    decreases depth, schema, 0nat,
{
    match schema {
        ReferenceOr::Item(inline) => schema_type(api, inline, depth),
        ReferenceOr::Reference { .. } => match resolved_schema(api, schema) {
            None => Err(ConversionError::UnresolvedReference),
            Some((name, target)) => if depth == 0 {
                Err(ConversionError::CyclicReference)
            } else {
                match schema_type(api, target, (depth - 1) as nat) {
                    Ok(ty) => Ok(renamed(ty, name)),
                    Err(error) => Err(error),
                }
            },
        },
    }
}

/// The type of a resolved schema: the schema's own type, under the name that
/// resolution found, if it found one.
pub open spec fn named_type(api: OpenApi, name: Option<Seq<char>>, schema: Schema) -> Result<
    TypeModel,
    ConversionError,
> {
    match schema_type(api, schema, api.schemas().len()) {
        Ok(ty) => Ok(renamed(ty, name)),
        Err(error) => Err(error),
    }
}

/// Whether an executable result is the one that the specification gives.
pub open spec fn is_result(res: Result<Type, ConversionError>, expected: Result<
    TypeModel,
    ConversionError,
>) -> bool {
    match res {
        Ok(ty) => expected == Ok::<TypeModel, ConversionError>(ty@),
        Err(error) => expected == Err::<TypeModel, ConversionError>(error),
    }
}

/// Converts a schema, following at most `depth` nested references.
pub fn convert_schema(api: &OpenApi, schema: &Schema, depth: usize) -> (res: Result<
    Type,
    ConversionError,
>)
    ensures
        is_result(res, schema_type(*api, *schema, depth as nat)),
    decreases depth, schema, 0nat,
{
    match &schema.schema_kind {
        SchemaKind::Type(ty) => convert_openapi_type(api, ty, depth),
        SchemaKind::Composition => Err(ConversionError::UnsupportedSchemaKind),
    }
}

/// Converts a declared type, following at most `depth` nested references.
pub fn convert_openapi_type(api: &OpenApi, ty: &OpenApiType, depth: usize) -> (res: Result<
    Type,
    ConversionError,
>)
    ensures
        is_result(res, openapi_type(*api, *ty, depth as nat)),
    decreases depth, ty, 0nat,
{
    match ty {
        OpenApiType::String => Ok(Type::Primitive(Primitive::String)),
        OpenApiType::Number => Ok(Type::Primitive(Primitive::Float)),
        OpenApiType::Integer => Ok(Type::Primitive(Primitive::Integer)),
        OpenApiType::Boolean => Ok(Type::Primitive(Primitive::Boolean)),
        OpenApiType::Object(object) => {
            let mut members: Vec<Member> = Vec::new();
            let mut i: usize = 0;
            assert(members.deep_view() =~= Seq::<MemberModel>::empty());
            while i < object.properties.len()
                invariant
                    i <= object.properties.len(),
                    members.len() == i,
                    *ty == OpenApiType::Object(*object),
                    members_of(*api, *object, i as nat, depth as nat) == Ok::<
                        Seq<MemberModel>,
                        ConversionError,
                    >(members.deep_view()),
                    decreases_to!(ty => object),
                decreases object.properties.len() - i,
            {
                let property = &object.properties[i];
                let ghost before = members.deep_view();
                match convert_reference(api, &property.1, depth) {
                    Err(error) => {
                        proof {
                            lemma_members_error_stays(
                                *api,
                                *object,
                                i as nat + 1,
                                object.properties@.len(),
                                depth as nat,
                            );
                        }
                        return Err(error);
                    },
                    Ok(member_type) => {
                        let is_optional = !contains_text(&object.required, &property.0);
                        members.push(
                            Member {
                                name: property.0.clone(),
                                description: None,
                                ty: member_type,
                                is_optional,
                            },
                        );
                        assert(members.deep_view() =~= before.push(members@[i as int]@));
                    },
                }
                i += 1;
            }
            let name = String::from_str("Unnamed");
            proof {
                lemma_record_members(name, members);
            }
            Ok(Type::Record { name, members })
        },
        OpenApiType::Array(array) => match &array.items {
            None => Err(ConversionError::UnresolvedReference),
            Some(items) => match convert_reference(api, &**items, depth) {
                Ok(element) => Ok(Type::Array(Box::new(element))),
                Err(error) => Err(error),
            },
        },
    }
}

/// Once a property has failed, the members of every longer prefix fail with
/// the same error.
pub proof fn lemma_members_error_stays(
    api: OpenApi,
    object: ObjectType,
    failed: nat,
    count: nat,
    depth: nat,
)
    requires
        failed <= count <= object.properties@.len(),
        members_of(api, object, failed, depth) is Err,
    ensures
        members_of(api, object, count, depth) == members_of(api, object, failed, depth),
    decreases count,
{
    if count > failed {
        lemma_members_error_stays(api, object, failed, (count - 1) as nat, depth);
    }
}

/// Converts a nested schema or reference, following at most `depth` nested
/// references.
pub fn convert_reference(api: &OpenApi, schema: &ReferenceOr<Schema>, depth: usize) -> (res:
    Result<Type, ConversionError>)
    ensures
        is_result(res, referenced_type(*api, *schema, depth as nat)),
    decreases depth, schema, 0nat,
{
    match schema {
        ReferenceOr::Item(inline) => convert_schema(api, inline, depth),
        ReferenceOr::Reference { .. } => match resolve_schema(api, schema) {
            None => Err(ConversionError::UnresolvedReference),
            Some(found) => {
                if depth == 0 {
                    return Err(ConversionError::CyclicReference);
                }
                match found {
                    NamedOrAnonymous::Named(name, target) => {
                        match convert_schema(api, target, depth - 1) {
                            Ok(ty) => Ok(ty.set_name(name)),
                            Err(error) => Err(error),
                        }
                    },
                    NamedOrAnonymous::Anonymous(target) => convert_schema(api, target, depth - 1),
                }
            },
        },
    }
}

/// How many references may nest when a schema of `api` is converted: as many
/// as the component table has entries.
pub fn reference_depth(api: &OpenApi) -> (res: usize)
    ensures
        res == api.schemas().len(),
{
    match &api.components {
        Some(components) => components.schemas.len(),
        None => 0,
    }
}

/// Converts a resolved schema into a type. A name that resolution found
/// replaces the placeholder name of a record.
pub fn schema_to_type(api: &OpenApi, schema: NamedOrAnonymous<&Schema>) -> (res: Result<
    Type,
    ConversionError,
>)
    ensures
        is_result(res, named_type(*api, schema.name(), *schema.value())),
{
    let depth = reference_depth(api);
    match schema {
        NamedOrAnonymous::Named(name, target) => match convert_schema(api, target, depth) {
            Ok(ty) => Ok(ty.set_name(name)),
            Err(error) => Err(error),
        },
        NamedOrAnonymous::Anonymous(target) => convert_schema(api, target, depth),
    }
}

/// Converts a declared type into a type.
pub fn openapi_type_to_type(api: &OpenApi, ty: &OpenApiType) -> (res: Result<
    Type,
    ConversionError,
>)
    ensures
        is_result(res, openapi_type(*api, *ty, api.schemas().len())),
{
    convert_openapi_type(api, ty, reference_depth(api))
}

} // verus!
