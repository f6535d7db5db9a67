//! What every emitter shares.

use crate::declarations::{Entries, TypeDeclarations};
use crate::grouping::{SdkVersion, SdkVersionModel};
use crate::route::{UrlSegment, UrlSegmentModel};
use crate::text::{join, join_with, lemma_join_split, split_on};
use crate::route::{segment_of, RouteModel};
use vstd::prelude::*;

verus! {

/// A target language: it turns declarations and routes into source text.
pub trait GenerateSdk {
    /// The source text for the declarations and the versions.
    spec fn sdk_text(&self, types: Entries, versions: Seq<SdkVersionModel>) -> Seq<char>;

    /// Writes the source text.
    fn generate_sdk(&self, types: TypeDeclarations, versions: Vec<SdkVersion>) -> (res: String)
        ensures
            res@ == self.sdk_text(types@, versions.deep_view()),
    ;
}

/// One segment of a URL as the target language writes it in a template: a
/// literal as it is, a parameter between `open` and `close`.
pub open spec fn segment_text(segment: UrlSegmentModel, open: Seq<char>, close: Seq<char>) -> Seq<
    char,
> {
    match segment {
        UrlSegmentModel::Parameter(name) => open + name + close,
        UrlSegmentModel::Literal(text) => text,
    }
}

/// A URL as the target language writes it in a template: its segments with
/// `/` between them.
pub open spec fn url_text(segments: Seq<UrlSegmentModel>, open: Seq<char>, close: Seq<char>) -> Seq<
    char,
> {
    join_with(
        segments.map_values(|segment: UrlSegmentModel| segment_text(segment, open, close)),
        "/"@,
    )
}

/// Writes a URL as a template of the target language.
pub fn url_template(segments: &Vec<UrlSegment>, open: &str, close: &str) -> (res: String)
    ensures
        res@ == url_text(segments.deep_view(), open@, close@),
{
    let mut pieces: Vec<String> = Vec::new();
    let mut i: usize = 0;
    while i < segments.len()
        invariant
            i <= segments.len(),
            pieces.len() == i,
            forall|j: int|
                0 <= j < i ==> (#[trigger] pieces@[j])@ == segment_text(segments@[j]@, open@, close@),
        decreases segments.len() - i,
    {
        let piece = match &segments[i] {
            UrlSegment::Parameter(name) => {
                let mut piece = String::from_str(open);
                piece.append(name.as_str());
                piece.append(close);
                piece
            },
            UrlSegment::Literal(text) => text.clone(),
        };
        pieces.push(piece);
        i += 1;
    }
    assert(pieces.deep_view() =~= segments.deep_view().map_values(
        |segment: UrlSegmentModel| segment_text(segment, open@, close@),
    ));
    join(&pieces, "/")
}

/// Segments and URL describe each other: writing the segments of a route
/// back, each parameter behind a `:`, with `/` between them, gives the URL
/// template of the route.
pub proof fn lemma_url_segments_round_trip(route: RouteModel)
    ensures
        url_text(route.url_segments(), ":"@, Seq::empty()) == route.url,
{
    reveal_strlit(":");
    reveal_strlit("/");
    let pieces = split_on(route.url, '/');
    let written = route.url_segments().map_values(
        |segment: UrlSegmentModel| segment_text(segment, ":"@, Seq::empty()),
    );
    assert(":"@ =~= seq![':']);
    assert("/"@ =~= seq!['/']);
    assert forall|i: int| 0 <= i < pieces.len() implies written[i] == pieces[i] by {
        let piece = pieces[i];
        assert(route.url_segments()[i] == segment_of(piece));
        if piece.len() > 0 && piece[0] == ':' {
            assert(":"@ + piece.skip(1) + Seq::<char>::empty() =~= piece);
        }
    }
    assert(written =~= pieces);
    lemma_join_split(route.url, '/');
}

} // verus!
