//! The table of named types that a generated SDK has to declare.

use crate::route::{Route, RouteModel};
use crate::types::{members_referenced_types, MemberModel, Type, TypeModel};
use indexmap::IndexMap;
use vstd::prelude::*;

verus! {

/// `indexmap::IndexMap`, which the verifier knows by name only.
#[verifier::external_type_specification]
#[verifier::external_body]
#[verifier::reject_recursive_types(K)]
#[verifier::reject_recursive_types(V)]
#[verifier::reject_recursive_types(S)]
pub struct ExIndexMap<K, V, S>(IndexMap<K, V, S>);

/// A declaration table as a value: names with their types, in the order in
/// which the names were first registered.
pub type Entries = Seq<(Seq<char>, TypeModel)>;

/// What an `IndexMap` of declarations holds: its key-value pairs in iteration
/// order, which is insertion order.
pub uninterp spec fn map_entries(map: IndexMap<String, Type>) -> Seq<(Seq<char>, TypeModel)>;

/// Makes an empty map with `IndexMap::new`.
#[verifier::external_body]
fn map_new() -> (map: IndexMap<String, Type>)
    ensures
        map_entries(map) == Seq::<(Seq<char>, TypeModel)>::empty(),
{
    IndexMap::new()
}

/// Stores a pair with `IndexMap::insert`. Where an equal key is present, the
/// pair keeps its place, takes the new value and the old value is handed back;
/// otherwise the pair goes last and nothing is handed back.
#[verifier::external_body]
fn map_insert(map: &mut IndexMap<String, Type>, key: String, value: Type) -> (previous: Option<Type>)
    ensures
        previous matches Some(replaced) ==> exists|i: int|
            #![trigger map_entries(*old(map))[i]]
            0 <= i < map_entries(*old(map)).len()
                && map_entries(*old(map))[i] == (key@, replaced@)
                && map_entries(*final(map)) == map_entries(*old(map)).update(i, (key@, value@)),
        previous is None ==> !declares(map_entries(*old(map)), key@)
            && map_entries(*final(map)) == map_entries(*old(map)).push((key@, value@)),
{
    map.insert(key, value)
}

/// Hands out the pairs of a map in iteration order, with `IndexMap::into_iter`.
#[verifier::external_body]
fn map_into_vec(map: IndexMap<String, Type>) -> (pairs: Vec<(String, Type)>)
    ensures
        pairs.deep_view() == map_entries(map),
{
    map.into_iter().collect()
}

/// Whether some entry goes by `name`.
pub open spec fn declares(entries: Entries, name: Seq<char>) -> bool {
    exists|i: int| 0 <= i < entries.len() && (#[trigger] entries[i]).0 == name
}

/// The place of the first entry that goes by `name`; the length when there is
/// none.
pub open spec fn position(entries: Entries, name: Seq<char>) -> int
    decreases entries.len(),
{
    if entries.len() == 0 {
        0
    } else if entries[0].0 == name {
        0
    } else {
        1 + position(entries.drop_first(), name)
    }
}

/// No two entries go by the same name.
pub open spec fn unique_names(entries: Entries) -> bool {
    forall|i: int, j: int|
        0 <= i < j < entries.len() ==> (#[trigger] entries[i]).0 != (#[trigger] entries[j]).0
}

/// The table after `ty` is stored under `name`: an entry that goes by the name
/// keeps its place and takes the new type; a new name goes last.
pub open spec fn upsert(entries: Entries, name: Seq<char>, ty: TypeModel) -> Entries {
    let at = position(entries, name);
    if at < entries.len() {
        entries.update(at, (name, ty))
    } else {
        entries.push((name, ty))
    }
}

impl TypeModel {
    /// How deeply types nest inside this one.
    pub open spec fn height(self) -> nat
        decreases self,
    {
        match self {
            TypeModel::Primitive(_) => 0,
            TypeModel::Union { .. } => 0,
            TypeModel::Array(element) => 1 + element.height(),
            TypeModel::Mapping { key, value } => 1 + if key.height() >= value.height() {
                key.height()
            } else {
                value.height()
            },
            TypeModel::Record { members, .. } => 1 + tallest_member(members),
        }
    }
}

/// The greatest height among the types of `members`; zero for none.
pub open spec fn tallest_member(members: Seq<MemberModel>) -> nat
    decreases members,
{
    if members.len() == 0 {
        0
    } else {
        let rest = tallest_member(members.drop_last());
        if members.last().ty.height() >= rest {
            members.last().ty.height()
        } else {
            rest
        }
    }
}

/// The greatest height among `types`; zero for none.
pub open spec fn tallest(types: Seq<TypeModel>) -> nat
    decreases types.len(),
{
    if types.len() == 0 {
        0
    } else {
        let rest = tallest(types.drop_last());
        if types.last().height() >= rest {
            types.last().height()
        } else {
            rest
        }
    }
}

/// Every type nested in `ty` is less high than `ty`.
pub proof fn lemma_referenced_types_are_lower(ty: TypeModel)
    ensures
        forall|i: int|
            0 <= i < ty.referenced_types().len() ==> (#[trigger] ty.referenced_types()[i]).height()
                < ty.height(),
        tallest(ty.referenced_types()) <= ty.height(),
        ty.referenced_types().len() > 0 ==> tallest(ty.referenced_types()) < ty.height(),
    decreases ty,
{
    let nested = ty.referenced_types();
    match ty {
        TypeModel::Primitive(_) => {},
        TypeModel::Union { .. } => {},
        TypeModel::Array(element) => {
            lemma_referenced_types_are_lower(*element);
            let inner = element.referenced_types();
            assert forall|i: int| 0 <= i < nested.len() implies (#[trigger] nested[i]).height()
                < ty.height() by {
                if i >= 1 {
                    assert(nested[i] == inner[i - 1]);
                }
            }
        },
        TypeModel::Mapping { key, value } => {
            lemma_referenced_types_are_lower(*key);
            lemma_referenced_types_are_lower(*value);
            let of_key = key.referenced_types();
            let of_value = value.referenced_types();
            assert forall|i: int| 0 <= i < nested.len() implies (#[trigger] nested[i]).height()
                < ty.height() by {
                if i >= 2 + of_key.len() {
                    assert(nested[i] == of_value[i - 2 - of_key.len()]);
                } else if i >= 2 {
                    assert(nested[i] == of_key[i - 2]);
                }
            }
        },
        TypeModel::Record { members, .. } => {
            lemma_members_referenced_types_are_lower(members);
            assert(nested == members_referenced_types(members));
            assert(ty.height() == 1 + tallest_member(members));
            assert forall|i: int| 0 <= i < nested.len() implies (#[trigger] nested[i]).height()
                < ty.height() by {
                assert(members_referenced_types(members)[i].height() <= tallest_member(members));
            }
        },
    }
    lemma_tallest_bounds(nested, ty.height());
}

/// Every type nested in the members of a record is no higher than the
/// highest member type.
pub proof fn lemma_members_referenced_types_are_lower(members: Seq<MemberModel>)
    ensures
        forall|i: int|
            0 <= i < members_referenced_types(members).len() ==> (
            #[trigger] members_referenced_types(members)[i]).height() <= tallest_member(members),
    decreases members,
{
    if members.len() > 0 {
        lemma_members_referenced_types_are_lower(members.drop_last());
        lemma_referenced_types_are_lower(members.last().ty);
        let nested = members_referenced_types(members);
        let before = members_referenced_types(members.drop_last());
        let inner = members.last().ty.referenced_types();
        assert forall|i: int| 0 <= i < nested.len() implies (#[trigger] nested[i]).height()
            <= tallest_member(members) by {
            if i < before.len() {
                assert(nested[i] == before[i]);
            } else if i == before.len() {
                assert(nested[i] == members.last().ty);
            } else {
                assert(nested[i] == inner[i - before.len() - 1]);
            }
        }
    }
}

/// When every type of a list is below `bound`, so is the greatest height,
/// unless the list is empty and the bound is zero.
pub proof fn lemma_tallest_bounds(types: Seq<TypeModel>, bound: nat)
    requires
        forall|i: int| 0 <= i < types.len() ==> (#[trigger] types[i]).height() < bound,
    ensures
        tallest(types) <= bound,
        types.len() > 0 ==> tallest(types) < bound,
    decreases types.len(),
{
    if types.len() > 0 {
        lemma_tallest_bounds(types.drop_last(), bound);
    }
}

/// No type of a list is higher than the list's greatest height.
pub proof fn lemma_tallest_is_greatest(types: Seq<TypeModel>)
    ensures
        forall|i: int| 0 <= i < types.len() ==> (#[trigger] types[i]).height() <= tallest(types),
        types.len() > 0 ==> tallest(types.drop_last()) <= tallest(types),
    decreases types.len(),
{
    if types.len() > 0 {
        lemma_tallest_is_greatest(types.drop_last());
        assert forall|i: int| 0 <= i < types.len() implies (#[trigger] types[i]).height()
            <= tallest(types) by {
            if i < types.len() - 1 {
                assert(types.drop_last()[i] == types[i]);
            }
        }
    }
}

/// The table after `ty` is registered: `ty` is stored under its name if it
/// has one, and then every type nested in it is registered in turn, in the
/// order in which `referenced_types` lists them.
pub open spec fn registered(entries: Entries, ty: TypeModel) -> Entries
    decreases 2 * ty.height() + 1, 0nat,
{
    let stored = match ty.name() {
        Some(name) => upsert(entries, name, ty),
        None => entries,
    };
    proof {
        lemma_referenced_types_are_lower(ty);
    }
    registered_all(stored, ty.referenced_types())
}

/// The table after each of `types` is registered, first to last.
pub open spec fn registered_all(entries: Entries, types: Seq<TypeModel>) -> Entries
    decreases
            (if types.len() == 0 {
                0
            } else {
                2 * tallest(types) + 2
            }),
            types.len(),
{
    if types.len() == 0 {
        entries
    } else {
        proof {
            lemma_tallest_is_greatest(types);
        }
        registered(registered_all(entries, types.drop_last()), types.last())
    }
}

/// Where `position` points: at the first entry that goes by the name, or past
/// the end when no entry does.
pub proof fn lemma_position(entries: Entries, name: Seq<char>)
    ensures
        0 <= position(entries, name) <= entries.len(),
        position(entries, name) < entries.len() ==> entries[position(entries, name)].0 == name,
        forall|j: int| 0 <= j < position(entries, name) ==> (#[trigger] entries[j]).0 != name,
        position(entries, name) < entries.len() <==> declares(entries, name),
    decreases entries.len(),
{
    if entries.len() > 0 && entries[0].0 != name {
        let rest = entries.drop_first();
        lemma_position(rest, name);
        let at = position(entries, name);
        assert forall|j: int| 0 <= j < at implies (#[trigger] entries[j]).0 != name by {
            if j > 0 {
                assert(rest[j - 1] == entries[j]);
            }
        }
        if at < entries.len() {
            assert(rest[at - 1] == entries[at]);
        }
        if declares(entries, name) {
            let w = choose|i: int| 0 <= i < entries.len() && (#[trigger] entries[i]).0 == name;
            assert(rest[w - 1] == entries[w]);
        }
    }
}

/// Storing a type keeps the names distinct, keeps every entry that was there
/// in its place, and leaves the name declared with that type.
pub proof fn lemma_upsert(entries: Entries, name: Seq<char>, ty: TypeModel)
    requires
        unique_names(entries),
    ensures
        unique_names(upsert(entries, name, ty)),
        declares(upsert(entries, name, ty), name),
        upsert(entries, name, ty).len() >= entries.len(),
        forall|i: int|
            0 <= i < entries.len() ==> (#[trigger] upsert(entries, name, ty)[i]).0 == entries[i].0,
        forall|other: Seq<char>|
            declares(entries, other) ==> #[trigger] declares(upsert(entries, name, ty), other),
{
    lemma_position(entries, name);
    let at = position(entries, name);
    let after = upsert(entries, name, ty);
    assert(after[at].0 == name);
    assert forall|other: Seq<char>| declares(entries, other) implies #[trigger] declares(
        after,
        other,
    ) by {
        let w = choose|i: int| 0 <= i < entries.len() && (#[trigger] entries[i]).0 == other;
        assert(after[w].0 == other);
    }
}

/// The table after the root types of one route are registered: the payload
/// type first, then the return type, each where the route has one.
pub open spec fn registered_route(entries: Entries, route: RouteModel) -> Entries {
    let with_payload = match route.payload_type {
        Some(ty) => registered(entries, ty),
        None => entries,
    };
    match route.return_type {
        Some(ty) => registered(with_payload, ty),
        None => with_payload,
    }
}

/// The table after the root types of the first `count` routes are registered,
/// in route order.
pub open spec fn registered_routes(entries: Entries, routes: Seq<RouteModel>, count: nat) -> Entries
    decreases count,
{
    if count == 0 || count > routes.len() {
        entries
    } else {
        registered_route(registered_routes(entries, routes, (count - 1) as nat), routes[count - 1])
    }
}

/// The named types of a generated SDK, in the order in which their names were
/// first registered. No name occurs twice.
///
/// A name that is registered again keeps its place and takes the type that
/// was registered last, whether or not the two types agree.
#[derive(Debug)]
pub struct TypeDeclarations {
    declarations: IndexMap<String, Type>,
}

impl View for TypeDeclarations {
    type V = Entries;

    closed spec fn view(&self) -> Entries {
        map_entries(self.declarations)
    }
}

impl TypeDeclarations {
    #[verifier::type_invariant]
    spec fn names_are_unique(self) -> bool {
        unique_names(map_entries(self.declarations))
    }

    /// An empty table.
    pub fn new() -> (res: Self)
        ensures
            res@ == Seq::<(Seq<char>, TypeModel)>::empty(),
    {
        Self { declarations: map_new() }
    }

    /// Stores `ty` under `name`.
    fn store(&mut self, name: String, ty: Type)
        ensures
            final(self)@ == upsert(old(self)@, name@, ty@),
    {
        proof {
            use_type_invariant(&*self);
            lemma_position(self@, name@);
            lemma_upsert(self@, name@, ty@);
        }
        let ghost before = self@;
        let ghost key = name@;
        let ghost value = ty@;
        let mut taken = TypeDeclarations::new();
        std::mem::swap(self, &mut taken);
        let mut map = taken.declarations;
        let previous = map_insert(&mut map, name, ty);
        proof {
            let after = map_entries(map);
            match previous {
                Some(replaced) => {
                    let i = choose|i: int|
                        #![trigger before[i]]
                        0 <= i < before.len() && before[i] == (key, replaced@) && after
                            == before.update(i, (key, value));
                    let at = position(before, key);
                    if at < i {
                        assert(before[at].0 != before[i].0);
                    }
                    assert(at == i);
                },
                None => {
                    assert(!declares(before, key));
                },
            }
            assert(after == upsert(before, key, value));
        }
        *self = TypeDeclarations { declarations: map };
    }

    /// Registers a type declaration: the type itself when it has a name, and
    /// every type nested in it.
    pub fn register(&mut self, ty: Type)
        ensures
            final(self)@ == registered(old(self)@, ty@),
        decreases 2 * ty@.height() + 1, 0nat,
    {
        let referenced = ty.referenced_types();
        let name = match ty.name() {
            Some(name) => Some(name.to_owned()),
            None => None,
        };
        let ghost model = ty@;
        match name {
            Some(name) => {
                self.store(name, ty);
            },
            None => {},
        }
        proof {
            lemma_referenced_types_are_lower(model);
        }
        self.register_all(referenced);
    }

    /// Registers each of `types`, first to last.
    pub fn register_all(&mut self, types: Vec<Type>)
        ensures
            final(self)@ == registered_all(old(self)@, types.deep_view()),
        decreases
                (if types.deep_view().len() == 0 {
                    0
                } else {
                    2 * tallest(types.deep_view()) + 2
                }),
                types.deep_view().len(),
    {
        let ghost all = types.deep_view();
        let ghost items = types@;
        let ghost start = self@;
        assert(all.take(0) =~= Seq::<TypeModel>::empty());
        for ty in it: types
            invariant
                it.seq() == items,
                all == types.deep_view(),
                all.len() == items.len(),
                forall|i: int| 0 <= i < items.len() ==> all[i] == (#[trigger] items[i])@,
                self@ == registered_all(start, all.take(it.index() as int)),
        {
            proof {
                let done = it.index() as int;
                lemma_tallest_is_greatest(all);
                assert(all.take(done + 1).drop_last() =~= all.take(done));
                assert(all.take(done + 1).last() == ty@);
            }
            self.register(ty);
        }
        assert(all.take(all.len() as int) =~= all);
    }

    /// Registers the root types of one route: its payload type, then its
    /// return type.
    pub fn register_route(&mut self, route: &Route)
        ensures
            final(self)@ == registered_route(old(self)@, route@),
    {
        match &route.payload_type {
            Some(ty) => {
                self.register(ty.clone());
            },
            None => {},
        }
        match &route.return_type {
            Some(ty) => {
                self.register(ty.clone());
            },
            None => {},
        }
    }

    /// Builds the table for a list of routes, registering the root types of
    /// each route in route order.
    pub fn from_routes(routes: &Vec<Route>) -> (res: Self)
        ensures
            res@ == registered_routes(
                Seq::<(Seq<char>, TypeModel)>::empty(),
                routes.deep_view(),
                routes.deep_view().len(),
            ),
    {
        let mut table = TypeDeclarations::new();
        let mut i: usize = 0;
        while i < routes.len()
            invariant
                i <= routes.len(),
                table@ == registered_routes(
                    Seq::<(Seq<char>, TypeModel)>::empty(),
                    routes.deep_view(),
                    i as nat,
                ),
            decreases routes.len() - i,
        {
            table.register_route(&routes[i]);
            i += 1;
        }
        table
    }

    /// Hands out the declarations in registration order. No name occurs twice.
    pub fn into_vec(self) -> (res: Vec<(String, Type)>)
        ensures
            res.deep_view() == self@,
            unique_names(self@),
    {
        proof {
            use_type_invariant(&self);
        }
        map_into_vec(self.declarations)
    }
}

} // verus!
