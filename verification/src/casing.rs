//! Casing conventions for the identifiers of generated code.

use heck::{CamelCase, MixedCase};
use vstd::prelude::*;

verus! {

/// The text in CamelCase, as the `heck` crate writes it: the words of the
/// text, each capitalised, with nothing between them.
pub uninterp spec fn camel_case(text: Seq<char>) -> Seq<char>;

/// The text in mixedCase, as the `heck` crate writes it: like CamelCase, but
/// with the first word in lower case.
pub uninterp spec fn mixed_case(text: Seq<char>) -> Seq<char>;

/// Converts to CamelCase with `heck::CamelCase::to_camel_case`. The result
/// depends on the text alone.
#[verifier::external_body]
pub(crate) fn to_camel_case(text: &str) -> (res: String)
    ensures
        res@ == camel_case(text@),
{
    text.to_camel_case()
}

/// Converts to mixedCase with `heck::MixedCase::to_mixed_case`. The result
/// depends on the text alone.
#[verifier::external_body]
pub(crate) fn to_mixed_case(text: &str) -> (res: String)
    ensures
        res@ == mixed_case(text@),
{
    text.to_mixed_case()
}

/// How a target language writes the identifiers of its declarations.
pub trait CasingRules {
    /// The name of a type, as the language writes it.
    spec fn type_name_case(&self, identifier: Seq<char>) -> Seq<char>;

    /// The name of a record member, as the language writes it.
    spec fn record_member_case(&self, identifier: Seq<char>) -> Seq<char>;

    /// The name of a function, as the language writes it.
    spec fn function_name_case(&self, identifier: Seq<char>) -> Seq<char>;

    /// Writes the name of a type.
    fn to_type_name_case(&self, identifier: String) -> (res: String)
        ensures
            res@ == self.type_name_case(identifier@),
    ;

    /// Writes the name of a record member.
    fn to_record_member_case(&self, identifier: String) -> (res: String)
        ensures
            res@ == self.record_member_case(identifier@),
    ;

    /// Writes the name of a function.
    fn to_function_name_case(&self, identifier: String) -> (res: String)
        ensures
            res@ == self.function_name_case(identifier@),
    ;
}

/// The casing of C#: CamelCase throughout.
pub struct CsharpCasingRules;

impl CasingRules for CsharpCasingRules {
    open spec fn type_name_case(&self, identifier: Seq<char>) -> Seq<char> {
        camel_case(identifier)
    }

    open spec fn record_member_case(&self, identifier: Seq<char>) -> Seq<char> {
        camel_case(identifier)
    }

    open spec fn function_name_case(&self, identifier: Seq<char>) -> Seq<char> {
        camel_case(identifier)
    }

    fn to_type_name_case(&self, identifier: String) -> (res: String) {
        to_camel_case(identifier.as_str())
    }

    fn to_record_member_case(&self, identifier: String) -> (res: String) {
        to_camel_case(identifier.as_str())
    }

    fn to_function_name_case(&self, identifier: String) -> (res: String) {
        to_camel_case(identifier.as_str())
    }
}

/// The casing of TypeScript: CamelCase for types, mixedCase for members and
/// functions.
pub struct TypeScriptCasingRules;

impl CasingRules for TypeScriptCasingRules {
    open spec fn type_name_case(&self, identifier: Seq<char>) -> Seq<char> {
        camel_case(identifier)
    }

    open spec fn record_member_case(&self, identifier: Seq<char>) -> Seq<char> {
        mixed_case(identifier)
    }

    open spec fn function_name_case(&self, identifier: Seq<char>) -> Seq<char> {
        mixed_case(identifier)
    }

    fn to_type_name_case(&self, identifier: String) -> (res: String) {
        to_camel_case(identifier.as_str())
    }

    fn to_record_member_case(&self, identifier: String) -> (res: String) {
        to_mixed_case(identifier.as_str())
    }

    fn to_function_name_case(&self, identifier: String) -> (res: String) {
        to_mixed_case(identifier.as_str())
    }
}

} // verus!
