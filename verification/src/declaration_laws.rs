//! What holds of every declaration table, however it was built.

use crate::declarations::{
    declares, lemma_position, lemma_referenced_types_are_lower, lemma_tallest_is_greatest,
    lemma_upsert, position, registered, registered_all, registered_route, registered_routes,
    tallest, unique_names, upsert, Entries,
};
use crate::route::RouteModel;
use crate::types::TypeModel;
use vstd::prelude::*;

verus! {

/// The table grows at its end only: every entry that was there stays in its
/// place under its name.
pub open spec fn extends(after: Entries, before: Entries) -> bool {
    &&& before.len() <= after.len()
    &&& forall|i: int| 0 <= i < before.len() ==> (#[trigger] after[i]).0 == before[i].0
}

/// Exactly one entry goes by `name`.
pub open spec fn declares_once(entries: Entries, name: Seq<char>) -> bool {
    exists|i: int|
        0 <= i < entries.len() && (#[trigger] entries[i]).0 == name && forall|j: int|
            0 <= j < entries.len() && j != i ==> (#[trigger] entries[j]).0 != name
}

/// In a table without repeated names, a declared name is declared once.
pub proof fn lemma_declared_once(entries: Entries, name: Seq<char>)
    requires
        unique_names(entries),
        declares(entries, name),
    ensures
        declares_once(entries, name),
{
    let i = choose|i: int| 0 <= i < entries.len() && (#[trigger] entries[i]).0 == name;
    assert forall|j: int| 0 <= j < entries.len() && j != i implies (#[trigger] entries[j]).0
        != name by {
        if j < i {
            assert(entries[j].0 != entries[i].0);
        } else {
            assert(entries[i].0 != entries[j].0);
        }
    }
}

/// Registering a type keeps the names distinct and every earlier entry in its
/// place, and leaves the type's own name declared.
pub proof fn lemma_registered(entries: Entries, ty: TypeModel)
    requires
        unique_names(entries),
    ensures
        unique_names(registered(entries, ty)),
        extends(registered(entries, ty), entries),
        ty.name() matches Some(name) ==> declares(registered(entries, ty), name),
    decreases 2 * ty.height() + 1, 0nat,
{
    lemma_referenced_types_are_lower(ty);
    let stored = match ty.name() {
        Some(name) => upsert(entries, name, ty),
        None => entries,
    };
    match ty.name() {
        Some(name) => {
            lemma_upsert(entries, name, ty);
        },
        None => {},
    }
    lemma_registered_all(stored, ty.referenced_types());
    let after = registered(entries, ty);
    assert(extends(after, entries)) by {
        assert forall|i: int| 0 <= i < entries.len() implies (#[trigger] after[i]).0
            == entries[i].0 by {
            assert(after[i].0 == stored[i].0);
        }
    }
    match ty.name() {
        Some(name) => {
            let w = choose|i: int| 0 <= i < stored.len() && (#[trigger] stored[i]).0 == name;
            assert(after[w].0 == name);
        },
        None => {},
    }
}

/// Registering a list of types keeps the names distinct and every earlier
/// entry in its place.
pub proof fn lemma_registered_all(entries: Entries, types: Seq<TypeModel>)
    requires
        unique_names(entries),
    ensures
        unique_names(registered_all(entries, types)),
        extends(registered_all(entries, types), entries),
        forall|i: int|
            0 <= i < types.len() && (#[trigger] types[i]).name() is Some ==> declares(
                registered_all(entries, types),
                types[i].name()->0,
            ),
    decreases
            (if types.len() == 0 {
                0
            } else {
                2 * tallest(types) + 2
            }),
            types.len(),
{
    if types.len() > 0 {
        lemma_tallest_is_greatest(types);
        let before = registered_all(entries, types.drop_last());
        lemma_registered_all(entries, types.drop_last());
        lemma_registered(before, types.last());
        let after = registered_all(entries, types);
        assert forall|i: int| 0 <= i < entries.len() implies (#[trigger] after[i]).0
            == entries[i].0 by {
            assert(after[i].0 == before[i].0);
        }
        assert forall|i: int| 0 <= i < types.len() && (#[trigger] types[i]).name() is Some implies declares(
            after,
            types[i].name()->0,
        ) by {
            if i < types.len() - 1 {
                assert(types.drop_last()[i] == types[i]);
                lemma_extends_keeps_declared(after, before, types[i].name()->0);
            }
        }
    }
}

/// A name declared in a table stays declared in every table that extends it.
pub proof fn lemma_extends_keeps_declared(after: Entries, before: Entries, name: Seq<char>)
    requires
        extends(after, before),
        declares(before, name),
    ensures
        declares(after, name),
{
    let w = choose|i: int| 0 <= i < before.len() && (#[trigger] before[i]).0 == name;
    assert(after[w].0 == name);
}

/// Registration covers what is reachable: after a type is registered, its own
/// name and the name of every named type nested in it are declared.
pub proof fn lemma_registered_covers(entries: Entries, ty: TypeModel)
    requires
        unique_names(entries),
    ensures
        ty.name() matches Some(name) ==> declares(registered(entries, ty), name),
        forall|i: int|
            0 <= i < ty.referenced_types().len() && (#[trigger] ty.referenced_types()[i]).name()
                is Some ==> declares(registered(entries, ty), ty.referenced_types()[i].name()->0),
{
    lemma_registered(entries, ty);
    let stored = match ty.name() {
        Some(name) => upsert(entries, name, ty),
        None => entries,
    };
    match ty.name() {
        Some(name) => {
            lemma_upsert(entries, name, ty);
        },
        None => {},
    }
    lemma_registered_all(stored, ty.referenced_types());
}

/// The table after `ty` is registered `times` times in a row.
pub open spec fn registered_times(entries: Entries, ty: TypeModel, times: nat) -> Entries
    decreases times,
{
    if times == 0 {
        entries
    } else {
        registered(registered_times(entries, ty, (times - 1) as nat), ty)
    }
}

/// However often a named type is registered, and whatever was registered
/// before, the table holds exactly one entry under its name.
pub proof fn lemma_registered_name_is_declared_once(
    entries: Entries,
    ty: TypeModel,
    times: nat,
)
    requires
        unique_names(entries),
        ty.name() is Some,
        times >= 1,
    ensures
        unique_names(registered_times(entries, ty, times)),
        declares_once(registered_times(entries, ty, times), ty.name()->0),
    decreases times,
{
    if times > 1 {
        lemma_registered_name_is_declared_once(entries, ty, (times - 1) as nat);
    }
    let before = registered_times(entries, ty, (times - 1) as nat);
    lemma_registered(before, ty);
    lemma_declared_once(registered(before, ty), ty.name()->0);
}

/// Registering the root types of a route keeps the names distinct and every
/// earlier entry in its place, and leaves the names of the root types
/// declared.
pub proof fn lemma_registered_route(entries: Entries, route: RouteModel)
    requires
        unique_names(entries),
    ensures
        unique_names(registered_route(entries, route)),
        extends(registered_route(entries, route), entries),
        route.payload_type matches Some(ty) ==> (ty.name() matches Some(name) ==> declares(
            registered_route(entries, route),
            name,
        )),
        route.return_type matches Some(ty) ==> (ty.name() matches Some(name) ==> declares(
            registered_route(entries, route),
            name,
        )),
{
    let with_payload = match route.payload_type {
        Some(ty) => registered(entries, ty),
        None => entries,
    };
    match route.payload_type {
        Some(ty) => {
            lemma_registered(entries, ty);
        },
        None => {},
    }
    match route.return_type {
        Some(ty) => {
            lemma_registered(with_payload, ty);
        },
        None => {},
    }
    let after = registered_route(entries, route);
    assert(extends(after, entries)) by {
        assert forall|i: int| 0 <= i < entries.len() implies (#[trigger] after[i]).0
            == entries[i].0 by {
            assert(after[i].0 == with_payload[i].0);
        }
    }
    match route.payload_type {
        Some(ty) => {
            if ty.name() is Some {
                lemma_extends_keeps_declared(after, with_payload, ty.name()->0);
            }
        },
        None => {},
    }
}

/// However many routes share a named root type, the table built from the
/// routes holds exactly one entry under its name.
pub proof fn lemma_routes_declare_once(
    entries: Entries,
    routes: Seq<RouteModel>,
    count: nat,
    at: int,
    name: Seq<char>,
)
    requires
        unique_names(entries),
        0 <= at < count <= routes.len(),
        (routes[at].payload_type matches Some(ty) && ty.name() == Some(name)) || (
        routes[at].return_type matches Some(ty) && ty.name() == Some(name)),
    ensures
        unique_names(registered_routes(entries, routes, count)),
        declares_once(registered_routes(entries, routes, count), name),
    decreases count,
{
    lemma_registered_routes(entries, routes, (count - 1) as nat);
    let before = registered_routes(entries, routes, (count - 1) as nat);
    lemma_registered_route(before, routes[count - 1]);
    let after = registered_routes(entries, routes, count);
    if at < count - 1 {
        lemma_routes_declare_once(entries, routes, (count - 1) as nat, at, name);
        lemma_extends_keeps_declared(after, before, name);
    }
    lemma_declared_once(after, name);
}

/// Registering the root types of routes keeps the names distinct and every
/// earlier entry in its place.
pub proof fn lemma_registered_routes(entries: Entries, routes: Seq<RouteModel>, count: nat)
    requires
        unique_names(entries),
    ensures
        unique_names(registered_routes(entries, routes, count)),
        extends(registered_routes(entries, routes, count), entries),
    decreases count,
{
    if !(count == 0 || count > routes.len()) {
        let before = registered_routes(entries, routes, (count - 1) as nat);
        lemma_registered_routes(entries, routes, (count - 1) as nat);
        lemma_registered_route(before, routes[count - 1]);
        let after = registered_routes(entries, routes, count);
        assert forall|i: int| 0 <= i < entries.len() implies (#[trigger] after[i]).0
            == entries[i].0 by {
            assert(after[i].0 == before[i].0);
        }
    }
}

/// The table after each pair of `stores` is stored, first to last.
pub open spec fn stored_all(entries: Entries, stores: Entries) -> Entries
    decreases stores.len(),
{
    if stores.len() == 0 {
        entries
    } else {
        upsert(stored_all(entries, stores.drop_last()), stores.last().0, stores.last().1)
    }
}

/// The stores that registering `ty` makes, in order: `ty` under its own name
/// if it has one, then the stores of every type nested in it.
pub open spec fn stores_of(ty: TypeModel) -> Entries
    decreases 2 * ty.height() + 1, 0nat,
{
    let own = match ty.name() {
        Some(name) => seq![(name, ty)],
        None => Seq::empty(),
    };
    proof {
        lemma_referenced_types_are_lower(ty);
    }
    own + stores_of_all(ty.referenced_types())
}

/// The stores that registering each of `types` makes, first to last.
pub open spec fn stores_of_all(types: Seq<TypeModel>) -> Entries
    decreases
            (if types.len() == 0 {
                0
            } else {
                2 * tallest(types) + 2
            }),
            types.len(),
{
    if types.len() == 0 {
        Seq::empty()
    } else {
        proof {
            lemma_tallest_is_greatest(types);
        }
        stores_of_all(types.drop_last()) + stores_of(types.last())
    }
}

/// The type that the last store under `name` stores, if there is such a store.
pub open spec fn last_stored(stores: Entries, name: Seq<char>) -> Option<TypeModel>
    decreases stores.len(),
{
    if stores.len() == 0 {
        None
    } else if stores.last().0 == name {
        Some(stores.last().1)
    } else {
        last_stored(stores.drop_last(), name)
    }
}

/// Storing one series after another is storing the two in a row.
pub proof fn lemma_stored_all_in_a_row(entries: Entries, first: Entries, second: Entries)
    ensures
        stored_all(entries, first + second) == stored_all(stored_all(entries, first), second),
    decreases second.len(),
{
    if second.len() == 0 {
        assert(first + second =~= first);
    } else {
        lemma_stored_all_in_a_row(entries, first, second.drop_last());
        assert((first + second).drop_last() =~= first + second.drop_last());
        assert((first + second).last() == second.last());
    }
}

/// Registering a type is making its stores.
pub proof fn lemma_registered_is_stored(entries: Entries, ty: TypeModel)
    ensures
        registered(entries, ty) == stored_all(entries, stores_of(ty)),
    decreases 2 * ty.height() + 1, 0nat,
{
    lemma_referenced_types_are_lower(ty);
    let own = match ty.name() {
        Some(name) => seq![(name, ty)],
        None => Seq::empty(),
    };
    let stored = match ty.name() {
        Some(name) => upsert(entries, name, ty),
        None => entries,
    };
    assert(stored == stored_all(entries, own)) by {
        if ty.name() is Some {
            assert(own.drop_last() =~= Seq::<(Seq<char>, TypeModel)>::empty());
            assert(stored_all(entries, own.drop_last()) == entries);
        }
    }
    lemma_registered_all_is_stored(stored, ty.referenced_types());
    lemma_stored_all_in_a_row(entries, own, stores_of_all(ty.referenced_types()));
}

/// Registering a list of types is making their stores.
pub proof fn lemma_registered_all_is_stored(entries: Entries, types: Seq<TypeModel>)
    ensures
        registered_all(entries, types) == stored_all(entries, stores_of_all(types)),
    decreases
            (if types.len() == 0 {
                0
            } else {
                2 * tallest(types) + 2
            }),
            types.len(),
{
    if types.len() > 0 {
        lemma_tallest_is_greatest(types);
        lemma_registered_all_is_stored(entries, types.drop_last());
        lemma_registered_is_stored(registered_all(entries, types.drop_last()), types.last());
        lemma_stored_all_in_a_row(
            entries,
            stores_of_all(types.drop_last()),
            stores_of(types.last()),
        );
    }
}

/// What a series of stores leaves in a table without repeated names: the
/// names stay distinct, every earlier entry keeps its place, every stored
/// name is declared, and each entry holds the type that was stored last under
/// its name, or what it held before where nothing was stored under it.
pub proof fn lemma_stored_all(entries: Entries, stores: Entries)
    requires
        unique_names(entries),
    ensures
        unique_names(stored_all(entries, stores)),
        extends(stored_all(entries, stores), entries),
        forall|k: int|
            0 <= k < stores.len() ==> declares(
                stored_all(entries, stores),
                (#[trigger] stores[k]).0,
            ),
        forall|i: int|
            0 <= i < stored_all(entries, stores).len() ==> match last_stored(
                stores,
                (#[trigger] stored_all(entries, stores)[i]).0,
            ) {
                Some(ty) => stored_all(entries, stores)[i].1 == ty,
                None => i < entries.len() && stored_all(entries, stores)[i].1 == entries[i].1,
            },
    decreases stores.len(),
{
    if stores.len() > 0 {
        let before = stored_all(entries, stores.drop_last());
        let name = stores.last().0;
        let ty = stores.last().1;
        let after = stored_all(entries, stores);
        lemma_stored_all(entries, stores.drop_last());
        lemma_upsert(before, name, ty);
        lemma_position(before, name);
        let at = position(before, name);
        assert(extends(after, entries)) by {
            assert forall|i: int| 0 <= i < entries.len() implies (#[trigger] after[i]).0
                == entries[i].0 by {
                assert(after[i].0 == before[i].0);
            }
        }
        assert forall|k: int| 0 <= k < stores.len() implies declares(
            after,
            (#[trigger] stores[k]).0,
        ) by {
            if k < stores.len() - 1 {
                assert(stores.drop_last()[k] == stores[k]);
                lemma_extends_keeps_declared(after, before, stores[k].0);
            }
        }
        assert forall|i: int| 0 <= i < after.len() implies match last_stored(
            stores,
            (#[trigger] after[i]).0,
        ) {
            Some(stored) => after[i].1 == stored,
            None => i < entries.len() && after[i].1 == entries[i].1,
        } by {
            if i == at {
                assert(after[i] == (name, ty));
            } else {
                assert(i < before.len());
                assert(after[i] == before[i]);
                if before[i].0 == name {
                    if i < at {
                        assert(before[i].0 != name);
                    } else {
                        assert(before[at].0 != before[i].0);
                    }
                }
                assert(last_stored(stores, before[i].0) == last_stored(
                    stores.drop_last(),
                    before[i].0,
                ));
            }
        }
    }
}

/// Stores under names that are all declared add no entry.
pub proof fn lemma_stored_all_keeps_length(entries: Entries, stores: Entries)
    requires
        unique_names(entries),
        forall|k: int| 0 <= k < stores.len() ==> declares(entries, (#[trigger] stores[k]).0),
    ensures
        stored_all(entries, stores).len() == entries.len(),
    decreases stores.len(),
{
    if stores.len() > 0 {
        let before = stored_all(entries, stores.drop_last());
        assert forall|k: int| 0 <= k < stores.drop_last().len() implies declares(
            entries,
            (#[trigger] stores.drop_last()[k]).0,
        ) by {
            assert(stores.drop_last()[k] == stores[k]);
        }
        lemma_stored_all_keeps_length(entries, stores.drop_last());
        lemma_stored_all(entries, stores.drop_last());
        assert(declares(entries, stores[stores.len() - 1].0));
        lemma_extends_keeps_declared(before, entries, stores.last().0);
        lemma_position(before, stores.last().0);
    }
}

/// Making the same stores a second time changes nothing.
pub proof fn lemma_stored_all_twice(entries: Entries, stores: Entries)
    requires
        unique_names(entries),
    ensures
        stored_all(stored_all(entries, stores), stores) == stored_all(entries, stores),
{
    let once = stored_all(entries, stores);
    let twice = stored_all(once, stores);
    lemma_stored_all(entries, stores);
    lemma_stored_all(once, stores);
    lemma_stored_all_keeps_length(once, stores);
    assert forall|i: int| 0 <= i < once.len() implies twice[i] == once[i] by {
        assert(twice[i].0 == once[i].0);
        match last_stored(stores, once[i].0) {
            Some(ty) => {
                assert(once[i].1 == ty);
                assert(twice[i].1 == ty);
            },
            None => {
                assert(twice[i].1 == once[i].1);
            },
        }
    }
    assert(twice =~= once);
}

/// Registration is idempotent: registering a type a second time leaves the
/// table as the first registration left it.
pub proof fn lemma_registration_is_idempotent(entries: Entries, ty: TypeModel)
    requires
        unique_names(entries),
    ensures
        registered(registered(entries, ty), ty) == registered(entries, ty),
{
    lemma_registered_is_stored(entries, ty);
    lemma_registered_is_stored(registered(entries, ty), ty);
    lemma_stored_all_twice(entries, stores_of(ty));
}

/// Registration declares nothing but what it stores: a name that is declared
/// after a type is registered was declared before, or is a name that one of
/// the stores goes by.
pub proof fn lemma_registered_declares_only(entries: Entries, ty: TypeModel, name: Seq<char>)
    requires
        unique_names(entries),
        declares(registered(entries, ty), name),
    ensures
        declares(entries, name) || last_stored(stores_of(ty), name) is Some,
{
    lemma_registered_is_stored(entries, ty);
    lemma_stored_all(entries, stores_of(ty));
    let after = registered(entries, ty);
    let i = choose|i: int| 0 <= i < after.len() && (#[trigger] after[i]).0 == name;
    if last_stored(stores_of(ty), name) is None {
        assert(i < entries.len());
        assert(entries[i].0 == name);
    }
}

} // verus!
