//! Normalises API descriptions into routes and type declarations, and renders
//! them as client SDK source text.

pub mod apidoc;
pub mod casing;
pub mod csharp;
pub mod declaration_laws;
pub mod declarations;
pub mod grouping;
pub mod lookup;
pub mod non_empty_string;
pub mod openapi;
pub mod render;
pub mod route;
pub mod text;
pub mod types;
pub mod typescript;

pub use casing::{CasingRules, CsharpCasingRules, TypeScriptCasingRules};
pub use csharp::CsharpSdk;
pub use declarations::TypeDeclarations;
pub use grouping::{versions_from_routes, SdkResource, SdkResourceModel, SdkVersion, SdkVersionModel};
pub use non_empty_string::NonEmptyString;
pub use render::GenerateSdk;
pub use route::{HttpMethod, Route, RouteModel, UrlParameter, UrlParameterModel, UrlSegment, UrlSegmentModel};
pub use types::{Member, MemberModel, Primitive, Type, TypeModel};
pub use typescript::TypeScriptSdk;
