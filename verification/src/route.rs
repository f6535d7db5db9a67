//! Routes, their URL templates and their parameters.

use crate::non_empty_string::NonEmptyString;
use crate::text::{chars_of, is_blank, split, split_on, string_of};
use crate::types::{Primitive, Type, TypeModel};
use vstd::prelude::*;

verus! {

/// The HTTP method of a route.
#[derive(Debug, PartialEq, Eq)]
pub enum HttpMethod {
    Get,
    Post,
    Put,
    Patch,
    Delete,
}

impl Clone for HttpMethod {
    fn clone(&self) -> (res: Self)
        ensures
            res == *self,
    {
        match self {
            HttpMethod::Get => HttpMethod::Get,
            HttpMethod::Post => HttpMethod::Post,
            HttpMethod::Put => HttpMethod::Put,
            HttpMethod::Patch => HttpMethod::Patch,
            HttpMethod::Delete => HttpMethod::Delete,
        }
    }
}

/// A parameter carried in the URL. Only primitives can travel there.
#[derive(Debug, PartialEq, Eq)]
pub struct UrlParameter {
    pub name: String,
    pub ty: Primitive,
}

/// The mathematical value of a [`UrlParameter`].
pub struct UrlParameterModel {
    pub name: Seq<char>,
    pub ty: Primitive,
}

impl View for UrlParameter {
    type V = UrlParameterModel;

    open spec fn view(&self) -> UrlParameterModel {
        UrlParameterModel { name: self.name@, ty: self.ty }
    }
}

impl DeepView for UrlParameter {
    type V = UrlParameterModel;

    open spec fn deep_view(&self) -> UrlParameterModel {
        self@
    }
}

impl Clone for UrlParameter {
    fn clone(&self) -> (res: Self)
        ensures
            res@ == self@,
    {
        UrlParameter { name: self.name.clone(), ty: self.ty.clone() }
    }
}

/// One operation of the described API.
#[derive(Debug, PartialEq, Eq)]
pub struct Route {
    pub name: String,
    pub description: Option<NonEmptyString>,
    pub method: HttpMethod,
    pub url: String,
    pub group: String,
    pub version: String,
    pub url_parameters: Vec<UrlParameter>,
    pub payload_type: Option<Type>,
    pub return_type: Option<Type>,
}

/// The mathematical value of a [`Route`].
pub struct RouteModel {
    pub name: Seq<char>,
    pub description: Option<Seq<char>>,
    pub method: HttpMethod,
    pub url: Seq<char>,
    pub group: Seq<char>,
    pub version: Seq<char>,
    pub url_parameters: Seq<UrlParameterModel>,
    pub payload_type: Option<TypeModel>,
    pub return_type: Option<TypeModel>,
}

impl View for Route {
    type V = RouteModel;

    open spec fn view(&self) -> RouteModel {
        RouteModel {
            name: self.name@,
            description: self.description.deep_view(),
            method: self.method,
            url: self.url@,
            group: self.group@,
            version: self.version@,
            url_parameters: self.url_parameters.deep_view(),
            payload_type: self.payload_type.deep_view(),
            return_type: self.return_type.deep_view(),
        }
    }
}

impl DeepView for Route {
    type V = RouteModel;

    open spec fn deep_view(&self) -> RouteModel {
        self@
    }
}

/// Copies a list of URL parameters.
fn clone_url_parameters(parameters: &Vec<UrlParameter>) -> (res: Vec<UrlParameter>)
    ensures
        res.deep_view() == parameters.deep_view(),
{
    let mut out: Vec<UrlParameter> = Vec::new();
    let mut i: usize = 0;
    while i < parameters.len()
        invariant
            i <= parameters.len(),
            out.len() == i,
            forall|j: int| 0 <= j < i ==> out@[j]@ == parameters@[j]@,
        decreases parameters.len() - i,
    {
        out.push(parameters[i].clone());
        i += 1;
    }
    assert(out.deep_view() =~= parameters.deep_view());
    out
}

/// Copies an optional type.
fn clone_optional_type(ty: &Option<Type>) -> (res: Option<Type>)
    ensures
        res.deep_view() == ty.deep_view(),
{
    match ty {
        Some(t) => Some(t.clone()),
        None => None,
    }
}

impl Clone for Route {
    fn clone(&self) -> (res: Self)
        ensures
            res@ == self@,
    {
        Route {
            name: self.name.clone(),
            description: match &self.description {
                Some(d) => Some(d.clone()),
                None => None,
            },
            method: self.method.clone(),
            url: self.url.clone(),
            group: self.group.clone(),
            version: self.version.clone(),
            url_parameters: clone_url_parameters(&self.url_parameters),
            payload_type: clone_optional_type(&self.payload_type),
            return_type: clone_optional_type(&self.return_type),
        }
    }
}

/// A piece of a URL template.
#[derive(Debug, PartialEq, Eq)]
pub enum UrlSegment {
    Literal(String),
    Parameter(String),
}

/// The mathematical value of a [`UrlSegment`].
pub enum UrlSegmentModel {
    Literal(Seq<char>),
    Parameter(Seq<char>),
}

impl View for UrlSegment {
    type V = UrlSegmentModel;

    open spec fn view(&self) -> UrlSegmentModel {
        match self {
            UrlSegment::Literal(text) => UrlSegmentModel::Literal(text@),
            UrlSegment::Parameter(name) => UrlSegmentModel::Parameter(name@),
        }
    }
}

impl DeepView for UrlSegment {
    type V = UrlSegmentModel;

    open spec fn deep_view(&self) -> UrlSegmentModel {
        self@
    }
}

/// The segment that one piece of a URL template stands for: a parameter when
/// the piece starts with `:`, named by what follows it, and a literal
/// otherwise.
pub open spec fn segment_of(piece: Seq<char>) -> UrlSegmentModel {
    if piece.len() > 0 && piece[0] == ':' {
        UrlSegmentModel::Parameter(piece.skip(1))
    } else {
        UrlSegmentModel::Literal(piece)
    }
}

impl RouteModel {
    /// A route is well formed when its name holds more than white space.
    pub open spec fn well_formed(self) -> bool {
        !is_blank(self.name)
    }

    /// The URL template cut at every `/`, each piece read as a segment. What
    /// stands before a leading `/` is kept, as an empty literal.
    pub open spec fn url_segments(self) -> Seq<UrlSegmentModel> {
        split_on(self.url, '/').map_values(|piece: Seq<char>| segment_of(piece))
    }

    /// The URL parameters in their order, each with its primitive as a type,
    /// followed by the payload under the name `payload` when there is one.
    pub open spec fn all_parameters(self) -> Seq<(Seq<char>, TypeModel)> {
        let from_url = self.url_parameters.map_values(
            |p: UrlParameterModel| (p.name, TypeModel::Primitive(p.ty)),
        );
        match self.payload_type {
            Some(ty) => from_url.push(("payload"@, ty)),
            None => from_url,
        }
    }
}

/// The payload comes last: the parameters of a route are its URL parameters,
/// one for one and in their order, and after them the payload, if there is
/// one.
pub proof fn lemma_payload_is_last(route: RouteModel)
    ensures
        forall|i: int|
            0 <= i < route.url_parameters.len() ==> (#[trigger] route.all_parameters()[i]) == (
                route.url_parameters[i].name,
                TypeModel::Primitive(route.url_parameters[i].ty),
            ),
        match route.payload_type {
            Some(ty) => route.all_parameters().len() == route.url_parameters.len() + 1
                && route.all_parameters().last() == ("payload"@, ty),
            None => route.all_parameters().len() == route.url_parameters.len(),
        },
{
}

/// Reads one piece of a URL template as a segment.
pub fn segment_from_piece(piece: &str) -> (res: UrlSegment)
    ensures
        res@ == segment_of(piece@),
{
    let chars = chars_of(piece);
    if chars.len() > 0 && chars[0] == ':' {
        let mut name: Vec<char> = Vec::new();
        let mut i: usize = 1;
        while i < chars.len()
            invariant
                1 <= i <= chars.len(),
                name@ == chars@.subrange(1, i as int),
            decreases chars.len() - i,
        {
            name.push(chars[i]);
            assert(name@ =~= chars@.subrange(1, i as int + 1));
            i += 1;
        }
        assert(name@ =~= chars@.skip(1));
        UrlSegment::Parameter(string_of(&name))
    } else {
        UrlSegment::Literal(string_of(&chars))
    }
}

impl Route {
    /// Cuts the URL template into its segments.
    pub fn url_segments(&self) -> (res: Vec<UrlSegment>)
        ensures
            res.deep_view() == self@.url_segments(),
    {
        let pieces = split(self.url.as_str(), '/');
        let mut segments: Vec<UrlSegment> = Vec::new();
        let mut i: usize = 0;
        while i < pieces.len()
            invariant
                i <= pieces.len(),
                segments.len() == i,
                forall|j: int| 0 <= j < i ==> segments@[j]@ == segment_of(pieces@[j]@),
            decreases pieces.len() - i,
        {
            segments.push(segment_from_piece(pieces[i].as_str()));
            i += 1;
        }
        assert(segments.deep_view() =~= pieces.deep_view().map_values(
            |piece: Seq<char>| segment_of(piece),
        ));
        segments
    }

    /// Lists everything a caller of this route passes: the URL parameters
    /// first, the payload last.
    pub fn all_parameters(&self) -> (res: Vec<(String, Type)>)
        ensures
            res.deep_view() == self@.all_parameters(),
    {
        let mut all: Vec<(String, Type)> = Vec::new();
        let mut i: usize = 0;
        while i < self.url_parameters.len()
            invariant
                i <= self.url_parameters.len(),
                all.len() == i,
                forall|j: int|
                    0 <= j < i ==> all@[j].deep_view() == (
                        self.url_parameters@[j].name@,
                        TypeModel::Primitive(self.url_parameters@[j].ty),
                    ),
            decreases self.url_parameters.len() - i,
        {
            let parameter = &self.url_parameters[i];
            all.push((parameter.name.clone(), Type::Primitive(parameter.ty.clone())));
            i += 1;
        }
        let ghost from_url = self@.url_parameters.map_values(
            |p: UrlParameterModel| (p.name, TypeModel::Primitive(p.ty)),
        );
        assert(all.deep_view() =~= from_url);
        match &self.payload_type {
            Some(ty) => {
                all.push((String::from_str("payload"), ty.clone()));
                assert(all.deep_view() =~= from_url.push(("payload"@, ty@)));
            },
            None => {},
        }
        all
    }
}

} // verus!
