//! Resolution of schema references against the component table.

use crate::lookup::{find_named, first_named, lemma_first_named};
use crate::openapi::document::{OpenApi, ReferenceOr, Schema};
use crate::text::{strip_prefix, without_prefix};
use vstd::prelude::*;

verus! {

/// A schema, with its name where it was reached through a reference.
#[derive(Debug)]
pub enum NamedOrAnonymous<T> {
    Named(String, T),
    Anonymous(T),
}

impl<T> NamedOrAnonymous<T> {
    /// The schema, whether it has a name or not.
    pub open spec fn value(self) -> T {
        match self {
            NamedOrAnonymous::Named(_, value) => value,
            NamedOrAnonymous::Anonymous(value) => value,
        }
    }

    /// The name, if there is one.
    pub open spec fn name(self) -> Option<Seq<char>> {
        match self {
            NamedOrAnonymous::Named(name, _) => Some(name@),
            NamedOrAnonymous::Anonymous(_) => None,
        }
    }

    /// Gives up the name and keeps the schema.
    pub fn into_value(self) -> (res: T)
        ensures
            res == self.value(),
    {
        match self {
            NamedOrAnonymous::Named(_, value) => value,
            NamedOrAnonymous::Anonymous(value) => value,
        }
    }
}

/// A schema of the component table, under the name it is declared by.
#[derive(Debug)]
pub struct NamedSchema<'a> {
    pub name: String,
    pub schema: &'a Schema,
}

/// The name of a schema in the component table.
#[derive(Debug)]
pub struct SchemaReference(String);

/// The name that a reference string points to: what follows the prefix
/// `#/components/schemas/`. Any other string points to no schema.
pub open spec fn referenced_name(reference: Seq<char>) -> Option<Seq<char>> {
    without_prefix(reference, "#/components/schemas/"@)
}

/// What the component table declares under `name`, if anything.
pub open spec fn declared(api: OpenApi, name: Seq<char>) -> Option<ReferenceOr<Schema>> {
    let at = first_named(api.schemas(), name);
    if at < api.schemas().len() {
        Some(api.schemas()[at].1)
    } else {
        None
    }
}

/// The schema that `name` leads to, with the name it is declared by, looking
/// at no more than `hops` entries of the component table.
///
/// An entry that holds a schema ends the search, under that entry's name. An
/// entry that holds a reference passes the search on to the name it points
/// to. A name that is not declared, a reference that points to no schema and
/// the end of the allowance all end it with nothing.
pub open spec fn resolved(api: OpenApi, name: Seq<char>, hops: nat) -> Option<(Seq<char>, Schema)>
    decreases hops,
{
    if hops == 0 {
        None
    } else {
        match declared(api, name) {
            None => None,
            Some(ReferenceOr::Item(schema)) => Some((name, schema)),
            Some(ReferenceOr::Reference { reference }) => match referenced_name(reference@) {
                None => None,
                Some(next) => resolved(api, next, (hops - 1) as nat),
            },
        }
    }
}

/// The name that `name` passes a search on to: where it is declared as a
/// reference, the name that the reference points to.
pub open spec fn next_name(api: OpenApi, name: Seq<char>) -> Option<Seq<char>> {
    match declared(api, name) {
        Some(ReferenceOr::Reference { reference }) => referenced_name(reference@),
        _ => None,
    }
}

/// The name reached from `name` after `steps` references, if the chain is
/// that long.
pub open spec fn chain_name(api: OpenApi, name: Seq<char>, steps: nat) -> Option<Seq<char>>
    decreases steps,
{
    if steps == 0 {
        Some(name)
    } else {
        match next_name(api, name) {
            Some(next) => chain_name(api, next, (steps - 1) as nat),
            None => None,
        }
    }
}

/// A chain of `a + b` references is a chain of `a` followed by one of `b`.
pub proof fn lemma_chain_splits(api: OpenApi, name: Seq<char>, a: nat, b: nat)
    ensures
        chain_name(api, name, a + b) == match chain_name(api, name, a) {
            Some(middle) => chain_name(api, middle, b),
            None => None,
        },
    decreases a,
{
    if a > 0 {
        match next_name(api, name) {
            Some(next) => {
                lemma_chain_splits(api, next, (a - 1) as nat, b);
                assert((a - 1) as nat + b == (a + b - 1) as nat);
            },
            None => {},
        }
    }
}

/// A larger allowance never changes what a search has found.
pub proof fn lemma_resolved_with_more_hops(api: OpenApi, name: Seq<char>, hops: nat, more: nat)
    requires
        hops <= more,
        resolved(api, name, hops) is Some,
    ensures
        resolved(api, name, more) == resolved(api, name, hops),
    decreases hops,
{
    if hops > 0 {
        match declared(api, name) {
            Some(ReferenceOr::Reference { reference }) => match referenced_name(reference@) {
                Some(next) => {
                    lemma_resolved_with_more_hops(
                        api,
                        next,
                        (hops - 1) as nat,
                        (more - 1) as nat,
                    );
                },
                None => {},
            },
            _ => {},
        }
    }
}

/// A chain of references that ends at a declared schema resolves to that
/// schema, under the name of the chain's last link, whenever the allowance
/// covers the chain.
pub proof fn lemma_chain_resolves_to_its_end(
    api: OpenApi,
    name: Seq<char>,
    steps: nat,
    hops: nat,
)
    requires
        steps < hops,
        chain_name(api, name, steps) is Some,
        declared(api, chain_name(api, name, steps)->0) matches Some(ReferenceOr::Item(_)),
    ensures
        resolved(api, name, hops) == Some(
            (
                chain_name(api, name, steps)->0,
                declared(api, chain_name(api, name, steps)->0)->0->Item_0,
            ),
        ),
    decreases steps,
{
    if steps > 0 {
        let next = next_name(api, name)->0;
        lemma_chain_resolves_to_its_end(api, next, (steps - 1) as nat, (hops - 1) as nat);
    }
}

/// A chain of references that comes back to where it started resolves to
/// nothing, whatever the allowance.
pub proof fn lemma_cycle_resolves_to_nothing(api: OpenApi, name: Seq<char>, steps: nat, hops: nat)
    requires
        steps >= 1,
        chain_name(api, name, steps) == Some(name),
    ensures
        resolved(api, name, hops) is None,
    decreases hops,
{
    if hops > 0 {
        let next = next_name(api, name)->0;
        assert(chain_name(api, next, (steps - 1) as nat) == Some(name));
        lemma_chain_splits(api, next, (steps - 1) as nat, 1);
        assert((steps - 1) as nat + 1 == steps);
        assert(chain_name(api, name, 1) == Some(next)) by {
            assert(chain_name(api, next, 0) == Some(next));
        }
        lemma_cycle_resolves_to_nothing(api, next, steps, (hops - 1) as nat);
    }
}

/// A chain of references that is there after `steps` references is there
/// after any smaller number of them.
pub proof fn lemma_chain_prefix(api: OpenApi, name: Seq<char>, fewer: nat, steps: nat)
    requires
        fewer <= steps,
        chain_name(api, name, steps) is Some,
    ensures
        chain_name(api, name, fewer) is Some,
        chain_name(api, chain_name(api, name, fewer)->0, (steps - fewer) as nat) == chain_name(
            api,
            name,
            steps,
        ),
{
    lemma_chain_splits(api, name, fewer, (steps - fewer) as nat);
    assert(fewer + (steps - fewer) as nat == steps);
}

/// No more than `slots` numbers below `slots` are pairwise different.
pub proof fn lemma_pigeonhole(choice: spec_fn(int) -> int, count: nat, slots: nat)
    requires
        forall|i: int| 0 <= i < count ==> 0 <= #[trigger] choice(i) < slots,
        forall|i: int, j: int| 0 <= i < j < count ==> #[trigger] choice(i) != #[trigger] choice(j),
    ensures
        count <= slots,
    decreases slots,
{
    if count > 0 {
        if slots == 0 {
            assert(0 <= choice(0) < slots);
        } else if exists|k: int| 0 <= k < count && #[trigger] choice(k) == slots - 1 {
            let k = choose|k: int| 0 <= k < count && #[trigger] choice(k) == slots - 1;
            let rest = |i: int|
                if i < k {
                    choice(i)
                } else {
                    choice(i + 1)
                };
            assert forall|i: int| 0 <= i < count - 1 implies 0 <= #[trigger] rest(i) < slots
                - 1 by {
                if i < k {
                    assert(choice(i) != choice(k));
                } else {
                    assert(choice(k) != choice(i + 1));
                }
            }
            assert forall|i: int, j: int| 0 <= i < j < count - 1 implies #[trigger] rest(i)
                != #[trigger] rest(j) by {
                let a = if i < k {
                    i
                } else {
                    i + 1
                };
                let b = if j < k {
                    j
                } else {
                    j + 1
                };
                assert(choice(a) != choice(b));
            }
            lemma_pigeonhole(rest, (count - 1) as nat, (slots - 1) as nat);
        } else {
            assert forall|i: int| 0 <= i < count implies 0 <= #[trigger] choice(i) < slots
                - 1 by {
                assert(0 <= choice(i) < slots);
            }
            lemma_pigeonhole(choice, count, (slots - 1) as nat);
        }
    }
}

/// A chain of references that ends at a declared schema has fewer references
/// than the component table has entries.
pub proof fn lemma_chain_fits_the_table(api: OpenApi, name: Seq<char>, steps: nat)
    requires
        chain_name(api, name, steps) is Some,
        declared(api, chain_name(api, name, steps)->0) matches Some(ReferenceOr::Item(_)),
    ensures
        steps < api.schemas().len(),
{
    let schemas = api.schemas();
    let link = |i: int| chain_name(api, name, i as nat)->0;
    let place = |i: int| first_named(schemas, link(i));
    assert forall|i: int| 0 <= i < steps + 1 implies 0 <= #[trigger] place(i)
        < schemas.len() by {
        lemma_chain_prefix(api, name, i as nat, steps);
        lemma_first_named(schemas, link(i));
        if i < steps {
            lemma_chain_prefix(api, name, (i + 1) as nat, steps);
            lemma_chain_splits(api, name, i as nat, 1);
            assert(chain_name(api, link(i), 1) is Some);
            assert(next_name(api, link(i)) is Some);
        }
    }
    assert forall|i: int, j: int| 0 <= i < j < steps + 1 implies #[trigger] place(i)
        != #[trigger] place(j) by {
        lemma_chain_prefix(api, name, i as nat, steps);
        lemma_chain_prefix(api, name, j as nat, steps);
        lemma_first_named(schemas, link(i));
        lemma_first_named(schemas, link(j));
        if place(i) == place(j) {
            assert(link(i) == link(j));
            lemma_chain_prefix(api, name, i as nat, j as nat);
            assert(chain_name(api, link(i), (j - i) as nat) == Some(link(i)));
            lemma_cycle_resolves_to_nothing(
                api,
                link(i),
                (j - i) as nat,
                (steps - i + 1) as nat,
            );
            lemma_chain_resolves_to_its_end(
                api,
                link(i),
                (steps - i) as nat,
                (steps - i + 1) as nat,
            );
        }
    }
    lemma_pigeonhole(place, steps + 1, schemas.len());
}

/// Resolution follows a chain of references of any length: where the chain
/// that starts at `name` ends at a declared schema, `name` resolves to that
/// schema, under the name of the chain's last link, exactly as the last link
/// itself does.
pub proof fn lemma_chain_resolves_like_its_end(api: OpenApi, name: Seq<char>, steps: nat)
    requires
        chain_name(api, name, steps) is Some,
        declared(api, chain_name(api, name, steps)->0) matches Some(ReferenceOr::Item(_)),
    ensures
        resolved(api, name, api.schemas().len()) == Some(
            (
                chain_name(api, name, steps)->0,
                declared(api, chain_name(api, name, steps)->0)->0->Item_0,
            ),
        ),
        resolved(api, name, api.schemas().len()) == resolved(
            api,
            chain_name(api, name, steps)->0,
            api.schemas().len(),
        ),
{
    lemma_chain_fits_the_table(api, name, steps);
    lemma_chain_resolves_to_its_end(api, name, steps, api.schemas().len());
    let end = chain_name(api, name, steps)->0;
    lemma_chain_resolves_to_its_end(api, end, 0, api.schemas().len());
}

/// A chain of references that comes back to where it started resolves to no
/// schema.
pub proof fn lemma_cycle_resolves_to_no_schema(api: OpenApi, name: Seq<char>, steps: nat)
    requires
        steps >= 1,
        chain_name(api, name, steps) == Some(name),
    ensures
        resolved(api, name, api.schemas().len()) is None,
{
    lemma_cycle_resolves_to_nothing(api, name, steps, api.schemas().len());
}

impl View for SchemaReference {
    type V = Seq<char>;

    closed spec fn view(&self) -> Seq<char> {
        self.0@
    }
}

impl SchemaReference {
    /// Reads a reference string. It must start with `#/components/schemas/`;
    /// what follows is the name. Any other string is refused, with a message
    /// that quotes it.
    pub fn try_from(value: String) -> (res: Result<SchemaReference, String>)
        ensures
            match res {
                Ok(parsed) => referenced_name(value@) == Some(parsed@),
                Err(message) => referenced_name(value@) is None && message@
                    == "Not a schema reference: '"@ + value@ + "'."@,
            },
    {
        match strip_prefix(value.as_str(), "#/components/schemas/") {
            Some(name) => Ok(SchemaReference(name)),
            None => {
                let mut message = String::from_str("Not a schema reference: '");
                message.append(value.as_str());
                message.append("'.");
                Err(message)
            },
        }
    }

    /// The referenced name.
    pub fn name(&self) -> (res: &str)
        ensures
            res@ == self@,
    {
        self.0.as_str()
    }

    /// Follows the reference through the component table to the schema it
    /// stands for. A chain of references is followed for as many entries as
    /// the table has, so a chain that runs in a circle ends with nothing.
    pub fn resolve<'a>(&self, api: &'a OpenApi) -> (res: Option<NamedSchema<'a>>)
        ensures
            match res {
                Some(named) => resolved(*api, self@, api.schemas().len()) == Some(
                    (named.name@, *named.schema),
                ),
                None => resolved(*api, self@, api.schemas().len()) is None,
            },
    {
        let schemas = match &api.components {
            Some(components) => &components.schemas,
            None => {
                return None;
            },
        };
        let mut name: String = self.0.clone();
        let mut hops: usize = schemas.len();
        while hops > 0
            invariant
                schemas@ == api.schemas(),
                hops <= schemas.len(),
                resolved(*api, name@, hops as nat) == resolved(
                    *api,
                    self@,
                    api.schemas().len(),
                ),
            decreases hops,
        {
            match find_named(schemas, name.as_str()) {
                None => {
                    return None;
                },
                Some(ReferenceOr::Item(schema)) => {
                    return Some(NamedSchema { name, schema });
                },
                Some(ReferenceOr::Reference { reference }) => {
                    match strip_prefix(reference.as_str(), "#/components/schemas/") {
                        None => {
                            return None;
                        },
                        Some(next) => {
                            name = next;
                            hops -= 1;
                        },
                    }
                },
            }
        }
        None
    }
}

/// What a schema, or a reference to one, stands for: an inline schema as it
/// is, without a name; a reference as the schema it resolves to, with the name
/// it is declared by. A reference that does not resolve stands for nothing.
pub open spec fn resolved_schema(api: OpenApi, schema: ReferenceOr<Schema>) -> Option<
    (Option<Seq<char>>, Schema),
> {
    match schema {
        ReferenceOr::Item(schema) => Some((None, schema)),
        ReferenceOr::Reference { reference } => match referenced_name(reference@) {
            None => None,
            Some(name) => match resolved(api, name, api.schemas().len()) {
                None => None,
                Some((name, schema)) => Some((Some(name), schema)),
            },
        },
    }
}

/// Resolves a schema or a reference to one.
pub fn resolve_schema<'a>(api: &'a OpenApi, schema: &'a ReferenceOr<Schema>) -> (res: Option<
    NamedOrAnonymous<&'a Schema>,
>)
    ensures
        match res {
            Some(found) => resolved_schema(*api, *schema) == Some((found.name(), *found.value())),
            None => resolved_schema(*api, *schema) is None,
        },
{
    match schema {
        ReferenceOr::Item(schema) => Some(NamedOrAnonymous::Anonymous(schema)),
        ReferenceOr::Reference { reference } => match SchemaReference::try_from(reference.clone()) {
            Err(_) => None,
            Ok(parsed) => match parsed.resolve(api) {
                None => None,
                Some(named) => Some(NamedOrAnonymous::Named(named.name, named.schema)),
            },
        },
    }
}

} // verus!
