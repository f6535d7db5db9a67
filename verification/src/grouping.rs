//! Grouping of routes into versions and resources.

use crate::route::{Route, RouteModel};
use crate::text::contains_text;
use vstd::prelude::*;

verus! {

/// The routes of one resource.
#[derive(Debug, PartialEq, Eq)]
pub struct SdkResource {
    pub resource: String,
    pub routes: Vec<Route>,
}

/// The resources of one version of the API.
#[derive(Debug, PartialEq, Eq)]
pub struct SdkVersion {
    pub version: String,
    pub resources: Vec<SdkResource>,
}

/// The mathematical value of an [`SdkResource`].
pub struct SdkResourceModel {
    pub resource: Seq<char>,
    pub routes: Seq<RouteModel>,
}

/// The mathematical value of an [`SdkVersion`].
pub struct SdkVersionModel {
    pub version: Seq<char>,
    pub resources: Seq<SdkResourceModel>,
}

impl View for SdkResource {
    type V = SdkResourceModel;

    open spec fn view(&self) -> SdkResourceModel {
        SdkResourceModel { resource: self.resource@, routes: self.routes.deep_view() }
    }
}

impl DeepView for SdkResource {
    type V = SdkResourceModel;

    open spec fn deep_view(&self) -> SdkResourceModel {
        self@
    }
}

impl View for SdkVersion {
    type V = SdkVersionModel;

    open spec fn view(&self) -> SdkVersionModel {
        SdkVersionModel { version: self.version@, resources: self.resources.deep_view() }
    }
}

impl DeepView for SdkVersion {
    type V = SdkVersionModel;

    open spec fn deep_view(&self) -> SdkVersionModel {
        self@
    }
}

/// Copies a list of routes.
fn clone_routes(routes: &Vec<Route>) -> (res: Vec<Route>)
    ensures
        res.deep_view() == routes.deep_view(),
{
    let mut out: Vec<Route> = Vec::new();
    let mut i: usize = 0;
    while i < routes.len()
        invariant
            i <= routes.len(),
            out.len() == i,
            forall|j: int| 0 <= j < i ==> out@[j]@ == routes@[j]@,
        decreases routes.len() - i,
    {
        out.push(routes[i].clone());
        i += 1;
    }
    assert(out.deep_view() =~= routes.deep_view());
    out
}

impl Clone for SdkResource {
    fn clone(&self) -> (res: Self)
        ensures
            res@ == self@,
    {
        SdkResource { resource: self.resource.clone(), routes: clone_routes(&self.routes) }
    }
}

impl Clone for SdkVersion {
    fn clone(&self) -> (res: Self)
        ensures
            res@ == self@,
    {
        let mut resources: Vec<SdkResource> = Vec::new();
        let mut i: usize = 0;
        while i < self.resources.len()
            invariant
                i <= self.resources.len(),
                resources.len() == i,
                forall|j: int| 0 <= j < i ==> resources@[j]@ == self.resources@[j]@,
            decreases self.resources.len() - i,
        {
            resources.push(self.resources[i].clone());
            i += 1;
        }
        assert(resources.deep_view() =~= self.resources.deep_view());
        SdkVersion { version: self.version.clone(), resources }
    }
}

/// The keys without repetitions, each at the place of its first occurrence.
pub open spec fn first_seen(keys: Seq<Seq<char>>) -> Seq<Seq<char>>
    decreases keys.len(),
{
    if keys.len() == 0 {
        Seq::empty()
    } else {
        let before = first_seen(keys.drop_last());
        if before.contains(keys.last()) {
            before
        } else {
            before.push(keys.last())
        }
    }
}

/// The versions of the routes, in route order.
pub open spec fn versions_of(routes: Seq<RouteModel>) -> Seq<Seq<char>> {
    routes.map_values(|route: RouteModel| route.version)
}

/// The groups of the routes, in route order.
pub open spec fn groups_of(routes: Seq<RouteModel>) -> Seq<Seq<char>> {
    routes.map_values(|route: RouteModel| route.group)
}

/// The routes of one version, in route order.
pub open spec fn with_version(routes: Seq<RouteModel>, version: Seq<char>) -> Seq<RouteModel>
    decreases routes.len(),
{
    if routes.len() == 0 {
        Seq::empty()
    } else {
        let before = with_version(routes.drop_last(), version);
        if routes.last().version == version {
            before.push(routes.last())
        } else {
            before
        }
    }
}

/// The routes of one group, in route order.
pub open spec fn with_group(routes: Seq<RouteModel>, group: Seq<char>) -> Seq<RouteModel>
    decreases routes.len(),
{
    if routes.len() == 0 {
        Seq::empty()
    } else {
        let before = with_group(routes.drop_last(), group);
        if routes.last().group == group {
            before.push(routes.last())
        } else {
            before
        }
    }
}

/// The resources of a list of routes: one for each group, in the order in
/// which the groups are first seen, each with the routes of its group.
pub open spec fn resources_of(routes: Seq<RouteModel>) -> Seq<SdkResourceModel> {
    first_seen(groups_of(routes)).map_values(
        |group: Seq<char>| SdkResourceModel { resource: group, routes: with_group(routes, group) },
    )
}

/// The versions of a list of routes: one for each version, in the order in
/// which the versions are first seen, each with the resources of its routes.
pub open spec fn grouped(routes: Seq<RouteModel>) -> Seq<SdkVersionModel> {
    first_seen(versions_of(routes)).map_values(
        |version: Seq<char>|
            SdkVersionModel {
                version,
                resources: resources_of(with_version(routes, version)),
            },
    )
}

/// The place of the first occurrence of `key`; the length when it does not
/// occur.
pub open spec fn first_place(keys: Seq<Seq<char>>, key: Seq<char>) -> int
    decreases keys.len(),
{
    if keys.len() == 0 {
        0
    } else if keys[0] == key {
        0
    } else {
        1 + first_place(keys.drop_first(), key)
    }
}

/// Where `first_place` points: at the first occurrence of the key, or past
/// the end when the key does not occur.
pub proof fn lemma_first_place(keys: Seq<Seq<char>>, key: Seq<char>)
    ensures
        0 <= first_place(keys, key) <= keys.len(),
        first_place(keys, key) < keys.len() ==> keys[first_place(keys, key)] == key,
        forall|j: int| 0 <= j < first_place(keys, key) ==> keys[j] != key,
        first_place(keys, key) < keys.len() <==> keys.contains(key),
    decreases keys.len(),
{
    if keys.len() > 0 && keys[0] != key {
        let rest = keys.drop_first();
        lemma_first_place(rest, key);
        let at = first_place(keys, key);
        assert forall|j: int| 0 <= j < at implies keys[j] != key by {
            if j > 0 {
                assert(rest[j - 1] == keys[j]);
            }
        }
        if at < keys.len() {
            assert(rest[at - 1] == keys[at]);
        }
        if keys.contains(key) {
            let w = choose|i: int| 0 <= i < keys.len() && keys[i] == key;
            assert(rest[w - 1] == keys[w]);
        }
    }
}

/// `first_seen` keeps every key, keeps none twice, and keeps the keys in the
/// order of their first occurrences.
pub proof fn lemma_first_seen(keys: Seq<Seq<char>>)
    ensures
        forall|key: Seq<char>| #[trigger] first_seen(keys).contains(key) <==> keys.contains(key),
        first_seen(keys).no_duplicates(),
        forall|a: int, b: int|
            0 <= a < b < first_seen(keys).len() ==> first_place(keys, #[trigger] first_seen(keys)[a])
                < first_place(keys, #[trigger] first_seen(keys)[b]),
    decreases keys.len(),
{
    if keys.len() > 0 {
        let init = keys.drop_last();
        let last = keys.last();
        let before = first_seen(init);
        let after = first_seen(keys);
        lemma_first_seen(init);
        assert forall|key: Seq<char>| #[trigger] after.contains(key) <==> keys.contains(key) by {
            if keys.contains(key) {
                let i = choose|i: int| 0 <= i < keys.len() && keys[i] == key;
                if i < init.len() {
                    assert(init[i] == key);
                    assert(init.contains(key));
                    assert(before.contains(key));
                    let j = choose|j: int| 0 <= j < before.len() && before[j] == key;
                    assert(after[j] == key);
                } else if before.contains(key) {
                } else {
                    assert(after[before.len() as int] == key);
                }
            }
            if after.contains(key) {
                let j = choose|j: int| 0 <= j < after.len() && after[j] == key;
                if j < before.len() {
                    assert(before[j] == key);
                    assert(before.contains(key));
                    assert(init.contains(key));
                    let i = choose|i: int| 0 <= i < init.len() && init[i] == key;
                    assert(keys[i] == key);
                } else {
                    assert(keys[keys.len() - 1] == key);
                }
            }
        }
        assert forall|a: int, b: int| 0 <= a < b < after.len() implies first_place(
            keys,
            #[trigger] after[a],
        ) < first_place(keys, #[trigger] after[b]) by {
            assert(before[a] == after[a]);
            assert(before.contains(after[a]));
            assert(init.contains(after[a]));
            lemma_first_place(init, after[a]);
            lemma_first_place(keys, after[a]);
            lemma_first_place(init, after[b]);
            lemma_first_place(keys, after[b]);
            let at_a = first_place(init, after[a]);
            assert(keys[at_a] == init[at_a]);
            if first_place(keys, after[a]) < at_a {
                assert(init[first_place(keys, after[a])] == keys[first_place(keys, after[a])]);
            }
            assert(first_place(keys, after[a]) == at_a);
            if b < before.len() {
                assert(before[b] == after[b]);
                assert(before.contains(after[b]));
                assert(init.contains(after[b]));
                let at_b = first_place(init, after[b]);
                assert(keys[at_b] == init[at_b]);
                if first_place(keys, after[b]) < at_b {
                    assert(init[first_place(keys, after[b])] == keys[first_place(
                        keys,
                        after[b],
                    )]);
                }
                assert(first_place(keys, after[b]) == at_b);
                assert(first_place(init, before[a]) < first_place(init, before[b]));
            } else {
                assert(after[b] == last);
                assert(!before.contains(last));
                assert(!init.contains(last));
                if first_place(keys, last) < init.len() {
                    assert(init[first_place(keys, last)] == keys[first_place(keys, last)]);
                    assert(init.contains(last));
                }
            }
        }
    }
}

/// Grouping keeps the order of first appearance: of two versions, the one
/// whose first route comes earlier stands earlier, no version stands twice,
/// and every version of a route is there.
pub proof fn lemma_versions_in_first_seen_order(routes: Seq<RouteModel>)
    ensures
        grouped(routes).len() == first_seen(versions_of(routes)).len(),
        forall|i: int|
            0 <= i < grouped(routes).len() ==> (#[trigger] grouped(routes)[i]).version
                == first_seen(versions_of(routes))[i],
        forall|a: int, b: int|
            0 <= a < b < grouped(routes).len() ==> first_place(
                versions_of(routes),
                (#[trigger] grouped(routes)[a]).version,
            ) < first_place(versions_of(routes), (#[trigger] grouped(routes)[b]).version),
        forall|a: int, b: int|
            0 <= a < b < grouped(routes).len() ==> (#[trigger] grouped(routes)[a]).version != (
            #[trigger] grouped(routes)[b]).version,
        forall|i: int|
            0 <= i < routes.len() ==> first_seen(versions_of(routes)).contains(
                (#[trigger] routes[i]).version,
            ),
{
    let keys = versions_of(routes);
    lemma_first_seen(keys);
    assert forall|a: int, b: int| 0 <= a < b < grouped(routes).len() implies first_place(
        keys,
        (#[trigger] grouped(routes)[a]).version,
    ) < first_place(keys, (#[trigger] grouped(routes)[b]).version) by {
        assert(grouped(routes)[a].version == first_seen(keys)[a]);
        assert(grouped(routes)[b].version == first_seen(keys)[b]);
    }
    assert forall|i: int| 0 <= i < routes.len() implies first_seen(keys).contains(
        (#[trigger] routes[i]).version,
    ) by {
        assert(keys[i] == routes[i].version);
        assert(keys.contains(routes[i].version));
    }
}

/// Within a version, the resources keep the order of first appearance too,
/// and each holds the routes of its group in route order.
pub proof fn lemma_resources_in_first_seen_order(routes: Seq<RouteModel>)
    ensures
        resources_of(routes).len() == first_seen(groups_of(routes)).len(),
        forall|i: int|
            0 <= i < resources_of(routes).len() ==> (#[trigger] resources_of(routes)[i])
                == (SdkResourceModel {
                resource: first_seen(groups_of(routes))[i],
                routes: with_group(routes, first_seen(groups_of(routes))[i]),
            }),
        forall|a: int, b: int|
            0 <= a < b < resources_of(routes).len() ==> first_place(
                groups_of(routes),
                (#[trigger] resources_of(routes)[a]).resource,
            ) < first_place(groups_of(routes), (#[trigger] resources_of(routes)[b]).resource),
{
    let keys = groups_of(routes);
    lemma_first_seen(keys);
    assert forall|a: int, b: int| 0 <= a < b < resources_of(routes).len() implies first_place(
        keys,
        (#[trigger] resources_of(routes)[a]).resource,
    ) < first_place(keys, (#[trigger] resources_of(routes)[b]).resource) by {
        assert(resources_of(routes)[a].resource == first_seen(keys)[a]);
        assert(resources_of(routes)[b].resource == first_seen(keys)[b]);
    }
}

/// The versions of `routes`, each once, in the order in which they are first
/// seen.
pub fn distinct_versions(routes: &Vec<Route>) -> (res: Vec<String>)
    ensures
        res.deep_view() == first_seen(versions_of(routes.deep_view())),
{
    let mut versions: Vec<String> = Vec::new();
    let mut i: usize = 0;
    let ghost all = routes.deep_view();
    assert(versions_of(all.take(0)) =~= Seq::<Seq<char>>::empty());
    assert(versions.deep_view() =~= Seq::<Seq<char>>::empty());
    while i < routes.len()
        invariant
            i <= routes.len(),
            all == routes.deep_view(),
            versions.deep_view() == first_seen(versions_of(all.take(i as int))),
        decreases routes.len() - i,
    {
        let ghost keys = versions_of(all.take(i as int + 1));
        assert(keys.drop_last() =~= versions_of(all.take(i as int)));
        assert(keys.last() == routes@[i as int].version@);
        if !contains_text(&versions, &routes[i].version) {
            let ghost before = versions.deep_view();
            versions.push(routes[i].version.clone());
            assert(versions.deep_view() =~= before.push(routes@[i as int].version@));
        }
        i += 1;
    }
    assert(all.take(i as int) =~= all);
    versions
}

/// The groups of `routes`, each once, in the order in which they are first
/// seen.
pub fn distinct_groups(routes: &Vec<Route>) -> (res: Vec<String>)
    ensures
        res.deep_view() == first_seen(groups_of(routes.deep_view())),
{
    let mut groups: Vec<String> = Vec::new();
    let mut i: usize = 0;
    let ghost all = routes.deep_view();
    assert(groups_of(all.take(0)) =~= Seq::<Seq<char>>::empty());
    assert(groups.deep_view() =~= Seq::<Seq<char>>::empty());
    while i < routes.len()
        invariant
            i <= routes.len(),
            all == routes.deep_view(),
            groups.deep_view() == first_seen(groups_of(all.take(i as int))),
        decreases routes.len() - i,
    {
        let ghost keys = groups_of(all.take(i as int + 1));
        assert(keys.drop_last() =~= groups_of(all.take(i as int)));
        assert(keys.last() == routes@[i as int].group@);
        if !contains_text(&groups, &routes[i].group) {
            let ghost before = groups.deep_view();
            groups.push(routes[i].group.clone());
            assert(groups.deep_view() =~= before.push(routes@[i as int].group@));
        }
        i += 1;
    }
    assert(all.take(i as int) =~= all);
    groups
}

/// The routes of `routes` that belong to `version`, in their order.
pub fn routes_with_version(routes: &Vec<Route>, version: &String) -> (res: Vec<Route>)
    ensures
        res.deep_view() == with_version(routes.deep_view(), version@),
{
    let mut found: Vec<Route> = Vec::new();
    let mut i: usize = 0;
    let ghost all = routes.deep_view();
    assert(found.deep_view() =~= Seq::<RouteModel>::empty());
    assert(all.take(0) =~= Seq::<RouteModel>::empty());
    while i < routes.len()
        invariant
            i <= routes.len(),
            all == routes.deep_view(),
            found.deep_view() == with_version(all.take(i as int), version@),
        decreases routes.len() - i,
    {
        assert(all.take(i as int + 1).drop_last() =~= all.take(i as int));
        assert(all.take(i as int + 1).last() == routes@[i as int]@);
        if routes[i].version == *version {
            let ghost before = found.deep_view();
            found.push(routes[i].clone());
            assert(found.deep_view() =~= before.push(routes@[i as int]@));
        }
        i += 1;
    }
    assert(all.take(i as int) =~= all);
    found
}

/// The routes of `routes` that belong to `group`, in their order.
pub fn routes_with_group(routes: &Vec<Route>, group: &String) -> (res: Vec<Route>)
    ensures
        res.deep_view() == with_group(routes.deep_view(), group@),
{
    let mut found: Vec<Route> = Vec::new();
    let mut i: usize = 0;
    let ghost all = routes.deep_view();
    assert(found.deep_view() =~= Seq::<RouteModel>::empty());
    assert(all.take(0) =~= Seq::<RouteModel>::empty());
    while i < routes.len()
        invariant
            i <= routes.len(),
            all == routes.deep_view(),
            found.deep_view() == with_group(all.take(i as int), group@),
        decreases routes.len() - i,
    {
        assert(all.take(i as int + 1).drop_last() =~= all.take(i as int));
        assert(all.take(i as int + 1).last() == routes@[i as int]@);
        if routes[i].group == *group {
            let ghost before = found.deep_view();
            found.push(routes[i].clone());
            assert(found.deep_view() =~= before.push(routes@[i as int]@));
        }
        i += 1;
    }
    assert(all.take(i as int) =~= all);
    found
}

/// Groups routes into resources, by group.
pub fn resources_from_routes(routes: &Vec<Route>) -> (res: Vec<SdkResource>)
    ensures
        res.deep_view() == resources_of(routes.deep_view()),
{
    let groups = distinct_groups(routes);
    let mut resources: Vec<SdkResource> = Vec::new();
    let mut i: usize = 0;
    while i < groups.len()
        invariant
            i <= groups.len(),
            resources.len() == i,
            forall|j: int|
                0 <= j < i ==> (#[trigger] resources@[j])@ == (SdkResourceModel {
                    resource: groups@[j]@,
                    routes: with_group(routes.deep_view(), groups@[j]@),
                }),
        decreases groups.len() - i,
    {
        let members = routes_with_group(routes, &groups[i]);
        resources.push(SdkResource { resource: groups[i].clone(), routes: members });
        i += 1;
    }
    assert(resources.deep_view() =~= resources_of(routes.deep_view()));
    resources
}

/// Groups routes into versions, and the routes of each version into
/// resources. Versions and resources come in the order in which they are
/// first seen among the routes; the routes of a resource keep their order.
pub fn versions_from_routes(routes: Vec<Route>) -> (res: Vec<SdkVersion>)
    ensures
        res.deep_view() == grouped(routes.deep_view()),
{
    let names = distinct_versions(&routes);
    let mut versions: Vec<SdkVersion> = Vec::new();
    let mut i: usize = 0;
    while i < names.len()
        invariant
            i <= names.len(),
            versions.len() == i,
            forall|j: int|
                0 <= j < i ==> (#[trigger] versions@[j])@ == (SdkVersionModel {
                    version: names@[j]@,
                    resources: resources_of(with_version(routes.deep_view(), names@[j]@)),
                }),
        decreases names.len() - i,
    {
        let members = routes_with_version(&routes, &names[i]);
        let resources = resources_from_routes(&members);
        versions.push(SdkVersion { version: names[i].clone(), resources });
        i += 1;
    }
    assert(versions.deep_view() =~= grouped(routes.deep_view()));
    versions
}

} // verus!
