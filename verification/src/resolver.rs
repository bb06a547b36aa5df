//! The closure of a set of addons under the dependencies that they require.
//!
//! What the registries answered is held as a list of nodes: for a project
//! id, the addon that the project resolves to and the dependency edges of
//! that addon's version. Resolution walks the required edges from the
//! seeds, claims each project id once, and fails on the first project that
//! the list has no node for. Projects are named by their generic ids, which
//! carry the registry: a project of one registry never stands for a project
//! of another.

use vstd::prelude::*;
use crate::model::Addon;
use crate::text::{contains_text, copy_texts, has_text, lemma_has_text_texts, texts};

verus! {

/// One dependency of a version, as its registry tags it.
#[derive(Debug, Clone, PartialEq, Eq)]
pub struct DependencyEdge {
    pub project_id: String,
    pub version_id: Option<String>,
    pub required: bool,
}

/// What a registry answered for a project id.
#[derive(Debug, Clone, PartialEq, Eq)]
pub struct Node {
    pub id: String,
    pub addon: Addon,
    pub dependencies: Vec<DependencyEdge>,
}

/// What resolution lacks an answer for: a seed, or the project that a
/// required edge leads to. The edge is handed back as the registry gave
/// it, with the version that it asks for.
#[derive(Debug, Clone, PartialEq, Eq)]
pub enum Missing {
    Seed(String),
    Dependency(DependencyEdge),
}

/// The addons that resolution adds, each with the project id under which it was claimed.
#[derive(Debug, Clone, PartialEq, Eq)]
pub struct Closure {
    pub ids: Vec<String>,
    pub addons: Vec<Addon>,
}

/// The generic ids of a list of addons.
pub open spec fn ids_of(addons: Seq<Addon>) -> Seq<Seq<char>> {
    Seq::new(addons.len(), |i: int| addons[i].source.generic_id_text())
}

/// Whether each node stands under the generic id of its own addon.
pub open spec fn tells_truly(registry: Seq<Node>) -> bool {
    forall|n: int| 0 <= n < registry.len() ==> (#[trigger] registry[n]).id@ == registry[n].addon.source.generic_id_text()
}

/// Whether `edge` is one of the edges of the node of the project `from`.
pub open spec fn has_edge(registry: Seq<Node>, from: Seq<char>, edge: DependencyEdge) -> bool {
    exists|n: int| #[trigger] is_node_at(registry, from, n) && registry[n].dependencies@.contains(edge)
}


pub open spec fn has_node(registry: Seq<Node>, id: Seq<char>) -> bool {
    exists|n: int| 0 <= n < registry.len() && (#[trigger] registry[n]).id@ == id
}

/// Whether `n` is the place of the first node for `id`.
pub open spec fn is_node_at(registry: Seq<Node>, id: Seq<char>, n: int) -> bool {
    &&& 0 <= n < registry.len()
    &&& registry[n].id@ == id
    &&& forall|j: int| 0 <= j < n ==> (#[trigger] registry[j]).id@ != id
}

/// Whether the node has a required edge to the project `to`.
pub open spec fn needs(node: Node, to: Seq<char>) -> bool {
    exists|e: int|
        0 <= e < node.dependencies.len() && (#[trigger] node.dependencies[e]).required
            && node.dependencies[e].project_id@ == to
}

/// Whether the project `from` requires the project `to`.
pub open spec fn requires_project(registry: Seq<Node>, from: Seq<char>, to: Seq<char>) -> bool {
    exists|n: int| #[trigger] is_node_at(registry, from, n) && needs(registry[n], to)
}

/// Whether the project `id` resolves to `addon`.
pub open spec fn resolves_to(registry: Seq<Node>, id: Seq<char>, addon: Addon) -> bool {
    exists|n: int| #[trigger] is_node_at(registry, id, n) && registry[n].addon == addon
}

/// Whether a seed, or one of the first `limit` of `ids`, requires `to`.
pub open spec fn required_by_earlier(
    registry: Seq<Node>,
    seeds: Seq<Seq<char>>,
    ids: Seq<Seq<char>>,
    limit: int,
    to: Seq<char>,
) -> bool {
    ||| exists|s: int| 0 <= s < seeds.len() && requires_project(registry, #[trigger] seeds[s], to)
    ||| exists|j: int| 0 <= j < limit && j < ids.len() && requires_project(registry, #[trigger] ids[j], to)
}

/// Whether the project is owned already, a seed, or added.
pub open spec fn accounted(
    seeds: Seq<Seq<char>>,
    known: Seq<Seq<char>>,
    ids: Seq<Seq<char>>,
    id: Seq<char>,
) -> bool {
    known.contains(id) || seeds.contains(id) || ids.contains(id)
}

/// Whether every project that one of the first `limit` projects requires is
/// accounted for, the seeds counted first and then `ids`.
pub open spec fn closed_up_to(
    registry: Seq<Node>,
    seeds: Seq<Seq<char>>,
    known: Seq<Seq<char>>,
    ids: Seq<Seq<char>>,
    limit: int,
) -> bool {
    &&& forall|s: int, to: Seq<char>|
        0 <= s < seeds.len() && s < limit && #[trigger] requires_project(registry, seeds[s], to)
            ==> accounted(seeds, known, ids, to)
    &&& forall|j: int, to: Seq<char>|
        0 <= j < ids.len() && seeds.len() + j < limit && #[trigger] requires_project(
            registry,
            ids[j],
            to,
        ) ==> accounted(seeds, known, ids, to)
}

/// Whether `ids` and `addons` are what resolution has added once the first
/// `limit` projects of the seeds and the added ones have been walked: each
/// added project is new, is required by a seed or by a project added
/// before it, and resolves to its addon; and whatever a walked project
/// requires is owned, a seed, or added.
#[verifier::opaque]
pub open spec fn closure_up_to(
    seeds: Seq<Seq<char>>,
    known: Seq<Seq<char>>,
    registry: Seq<Node>,
    ids: Seq<Seq<char>>,
    addons: Seq<Addon>,
    limit: int,
) -> bool {
    &&& ids.len() == addons.len()
    &&& forall|k: int| 0 <= k < ids.len() ==> resolves_to(registry, #[trigger] ids[k], addons[k])
    &&& forall|k: int| 0 <= k < ids.len() ==> !known.contains(#[trigger] ids[k]) && !seeds.contains(ids[k])
    &&& forall|j: int, k: int| 0 <= j < k < ids.len() ==> #[trigger] ids[j] != #[trigger] ids[k]
    &&& forall|k: int| 0 <= k < ids.len() ==> required_by_earlier(registry, seeds, ids, k, #[trigger] ids[k])
    &&& closed_up_to(registry, seeds, known, ids, limit)
}

/// Whether `ids` and `addons` are what resolution adds for the seeds with
/// ids `seeds`, where the projects `known` are owned already.
pub open spec fn is_closure(
    seeds: Seq<Seq<char>>,
    known: Seq<Seq<char>>,
    registry: Seq<Node>,
    ids: Seq<Seq<char>>,
    addons: Seq<Addon>,
) -> bool {
    closure_up_to(seeds, known, registry, ids, addons, (seeds.len() + ids.len()) as int)
}

/// Whether the project is one that resolution walks: a seed, or one that
/// it has claimed on its way.
pub open spec fn walked(
    seeds: Seq<Seq<char>>,
    known: Seq<Seq<char>>,
    registry: Seq<Node>,
    id: Seq<char>,
) -> bool {
    seeds.contains(id) || exists|ids: Seq<Seq<char>>, addons: Seq<Addon>, limit: int| #[trigger]
        closure_up_to(seeds, known, registry, ids, addons, limit) && ids.contains(id)
}

/// Whether `missing` is what stops resolution: a seed without a node, or a
/// required edge of the node of a walked project that leads to a project
/// which is neither owned nor a seed and has no node.
pub open spec fn stops_at(
    seeds: Seq<Seq<char>>,
    known: Seq<Seq<char>>,
    registry: Seq<Node>,
    missing: Missing,
) -> bool {
    match missing {
        Missing::Seed(id) => seeds.contains(id@) && !has_node(registry, id@),
        Missing::Dependency(edge) => {
            &&& edge.required
            &&& !has_node(registry, edge.project_id@)
            &&& !known.contains(edge.project_id@)
            &&& !seeds.contains(edge.project_id@)
            &&& exists|from: Seq<char>| walked(seeds, known, registry, from) && #[trigger] has_edge(registry, from, edge)
        },
    }
}

/// Whether the list answers for every seed and for every project that one
/// of its nodes requires and that is not owned already.
pub open spec fn answers_needed(registry: Seq<Node>, seeds: Seq<Seq<char>>, known: Seq<Seq<char>>) -> bool {
    &&& forall|s: int| 0 <= s < seeds.len() ==> has_node(registry, #[trigger] seeds[s])
    &&& forall|n: int, to: Seq<char>|
        0 <= n < registry.len() && #[trigger] needs(registry[n], to) && !known.contains(to) ==> has_node(
            registry,
            to,
        )
}

/// The number of nodes whose project is not among `checked`.
pub open spec fn unclaimed(registry: Seq<Node>, checked: Seq<String>) -> nat
    decreases registry.len(),
{
    if registry.len() == 0 {
        0
    } else {
        unclaimed(registry.drop_last(), checked) + if has_text(checked, registry.last().id@) {
            0nat
        } else {
            1nat
        }
    }
}

proof fn lemma_has_text_push(list: Seq<String>, s: String, t: Seq<char>)
    ensures
        has_text(list.push(s), t) <==> (has_text(list, t) || s@ == t),
{
    let after = list.push(s);
    if has_text(list, t) {
        let i = choose|i: int| 0 <= i < list.len() && (#[trigger] list[i])@ == t;
        assert(after[i]@ == t);
    }
    if s@ == t {
        assert(after[list.len() as int]@ == t);
    }
    if has_text(after, t) {
        let i = choose|i: int| 0 <= i < after.len() && (#[trigger] after[i])@ == t;
        if i < list.len() {
            assert(list[i]@ == t);
        }
    }
}

proof fn lemma_claim_shrinks(registry: Seq<Node>, checked: Seq<String>, s: String)
    ensures
        unclaimed(registry, checked.push(s)) <= unclaimed(registry, checked),
        has_node(registry, s@) && !has_text(checked, s@) ==> unclaimed(registry, checked.push(s))
            < unclaimed(registry, checked),
    decreases registry.len(),
{
    if registry.len() > 0 {
        let rest = registry.drop_last();
        let last = registry.last();
        lemma_claim_shrinks(rest, checked, s);
        lemma_has_text_push(checked, s, last.id@);
        if has_node(registry, s@) && !has_text(checked, s@) {
            let n = choose|n: int| 0 <= n < registry.len() && (#[trigger] registry[n]).id@ == s@;
            if n < rest.len() {
                assert(rest[n].id@ == s@);
                assert(has_node(rest, s@));
            }
        }
    }
}

/// Claims `id`: says whether it was claimed before, and records it if not.
pub fn handle_checked(id: &String, checked_ids: &mut Vec<String>) -> (was_checked: bool)
    ensures
        was_checked == has_text(old(checked_ids)@, id@),
        was_checked ==> final(checked_ids)@ == old(checked_ids)@,
        !was_checked ==> final(checked_ids)@ == old(checked_ids)@.push(*id),
{
    let is_checked = contains_text(checked_ids, id);
    if !is_checked {
        checked_ids.push(id.clone());
    }
    is_checked
}

/// The place of the first node for `id`.
pub fn find_node(registry: &Vec<Node>, id: &String) -> (r: Option<usize>)
    ensures
        match r {
            Some(n) => is_node_at(registry@, id@, n as int),
            None => !has_node(registry@, id@),
        },
{
    let mut n: usize = 0;
    while n < registry.len()
        invariant
            n <= registry.len(),
            forall|j: int| 0 <= j < n ==> (#[trigger] registry@[j]).id@ != id@,
        decreases registry.len() - n,
    {
        if registry[n].id == *id {
            return Some(n);
        }
        n += 1;
    }
    None
}

impl DependencyEdge {
    pub fn duplicate(&self) -> (r: DependencyEdge)
        ensures
            r == *self,
    {
        DependencyEdge {
            project_id: self.project_id.clone(),
            version_id: match &self.version_id {
                Some(v) => Some(v.clone()),
                None => None,
            },
            required: self.required,
        }
    }
}

/// The generic ids of `addons`, in their order.
pub fn generic_ids(addons: &Vec<Addon>) -> (r: Vec<String>)
    ensures
        texts(r@) == ids_of(addons@),
{
    let mut out: Vec<String> = Vec::new();
    let mut i: usize = 0;
    while i < addons.len()
        invariant
            i <= addons.len(),
            out@.len() == i,
            forall|j: int| 0 <= j < i ==> (#[trigger] out@[j])@ == addons@[j].source.generic_id_text(),
        decreases addons.len() - i,
    {
        out.push(addons[i].generic_id());
        i += 1;
    }
    proof {
        assert(texts(out@) =~= ids_of(addons@));
    }
    out
}


proof fn lemma_closure_empty(seeds: Seq<Seq<char>>, known: Seq<Seq<char>>, registry: Seq<Node>)
    ensures
        closure_up_to(seeds, known, registry, Seq::<Seq<char>>::empty(), Seq::<Addon>::empty(), 0),
{
    reveal(closure_up_to);
}

proof fn lemma_closure_push(
    seeds: Seq<Seq<char>>,
    known: Seq<Seq<char>>,
    registry: Seq<Node>,
    ids: Seq<Seq<char>>,
    addons: Seq<Addon>,
    limit: int,
    id: Seq<char>,
    addon: Addon,
)
    requires
        closure_up_to(seeds, known, registry, ids, addons, limit),
        limit <= seeds.len() + ids.len(),
        !accounted(seeds, known, ids, id),
        resolves_to(registry, id, addon),
        required_by_earlier(registry, seeds, ids, ids.len() as int, id),
    ensures
        closure_up_to(seeds, known, registry, ids.push(id), addons.push(addon), limit),
{
    reveal(closure_up_to);
    let ids2 = ids.push(id);
    let addons2 = addons.push(addon);
    assert forall|k: int| 0 <= k < ids2.len() implies resolves_to(registry, #[trigger] ids2[k], addons2[k]) by {
        if k < ids.len() {
            assert(ids2[k] == ids[k]);
            assert(addons2[k] == addons[k]);
        }
    }
    assert forall|k: int| 0 <= k < ids2.len() implies !known.contains(#[trigger] ids2[k]) && !seeds.contains(ids2[k]) by {
        if k < ids.len() {
            assert(ids2[k] == ids[k]);
        }
    }
    assert forall|j: int, k: int| 0 <= j < k < ids2.len() implies #[trigger] ids2[j] != #[trigger] ids2[k] by {
        assert(ids2[j] == ids[j]);
        if k < ids.len() {
            assert(ids2[k] == ids[k]);
        } else {
            assert(ids.contains(ids[j]));
        }
    }
    assert forall|k: int| 0 <= k < ids2.len() implies required_by_earlier(registry, seeds, ids2, k, #[trigger] ids2[k]) by {
        let to = ids2[k];
        if k < ids.len() {
            assert(ids2[k] == ids[k]);
        }
        assert(required_by_earlier(registry, seeds, ids, k, to));
        if exists|j: int| 0 <= j < k && j < ids.len() && requires_project(registry, #[trigger] ids[j], to) {
            let j = choose|j: int| 0 <= j < k && j < ids.len() && requires_project(registry, #[trigger] ids[j], to);
            assert(ids2[j] == ids[j]);
        }
    }
    assert(closed_up_to(registry, seeds, known, ids2, limit)) by {
        assert forall|s: int, to: Seq<char>|
            0 <= s < seeds.len() && s < limit && #[trigger] requires_project(registry, seeds[s], to)
            implies accounted(seeds, known, ids2, to) by {
            lemma_accounted_push(seeds, known, ids, id, to);
        }
        assert forall|j: int, to: Seq<char>|
            0 <= j < ids2.len() && seeds.len() + j < limit && #[trigger] requires_project(registry, ids2[j], to)
            implies accounted(seeds, known, ids2, to) by {
            assert(ids2[j] == ids[j]);
            lemma_accounted_push(seeds, known, ids, id, to);
        }
    }
}

proof fn lemma_accounted_concat(
    seeds: Seq<Seq<char>>,
    known: Seq<Seq<char>>,
    ids: Seq<Seq<char>>,
    to: Seq<char>,
)
    ensures
        accounted(seeds, known, ids, to) <==> (known + seeds + ids).contains(to),
{
    let all = known + seeds + ids;
    if known.contains(to) {
        let i = choose|i: int| 0 <= i < known.len() && known[i] == to;
        assert(all[i] == to);
    }
    if seeds.contains(to) {
        let i = choose|i: int| 0 <= i < seeds.len() && seeds[i] == to;
        assert(all[known.len() + i] == to);
    }
    if ids.contains(to) {
        let i = choose|i: int| 0 <= i < ids.len() && ids[i] == to;
        assert(all[known.len() + seeds.len() + i] == to);
    }
    if all.contains(to) {
        let i = choose|i: int| 0 <= i < all.len() && all[i] == to;
        if i < known.len() {
            assert(known[i] == to);
        } else if i < known.len() + seeds.len() {
            assert(seeds[i - known.len()] == to);
        } else {
            assert(ids[i - known.len() - seeds.len()] == to);
        }
    }
}

proof fn lemma_accounted_push(
    seeds: Seq<Seq<char>>,
    known: Seq<Seq<char>>,
    ids: Seq<Seq<char>>,
    id: Seq<char>,
    to: Seq<char>,
)
    ensures
        accounted(seeds, known, ids, to) ==> accounted(seeds, known, ids.push(id), to),
        accounted(seeds, known, ids.push(id), id),
{
    if ids.contains(to) {
        let i = choose|i: int| 0 <= i < ids.len() && ids[i] == to;
        assert(ids.push(id)[i] == to);
    }
    assert(ids.push(id)[ids.len() as int] == id);
}

proof fn lemma_closure_advance(
    seeds: Seq<Seq<char>>,
    known: Seq<Seq<char>>,
    registry: Seq<Node>,
    ids: Seq<Seq<char>>,
    addons: Seq<Addon>,
    limit: int,
    from: Seq<char>,
)
    requires
        closure_up_to(seeds, known, registry, ids, addons, limit),
        0 <= limit < seeds.len() + ids.len(),
        from == (seeds + ids)[limit],
        forall|to: Seq<char>| #[trigger] requires_project(registry, from, to) ==> accounted(seeds, known, ids, to),
    ensures
        closure_up_to(seeds, known, registry, ids, addons, limit + 1),
{
    reveal(closure_up_to);
}

proof fn lemma_closure_node(
    seeds: Seq<Seq<char>>,
    known: Seq<Seq<char>>,
    registry: Seq<Node>,
    ids: Seq<Seq<char>>,
    addons: Seq<Addon>,
    limit: int,
    k: int,
)
    requires
        closure_up_to(seeds, known, registry, ids, addons, limit),
        0 <= k < ids.len(),
    ensures
        has_node(registry, ids[k]),
{
    reveal(closure_up_to);
    assert(resolves_to(registry, ids[k], addons[k]));
    let m = choose|m: int| #[trigger] is_node_at(registry, ids[k], m) && registry[m].addon == addons[k];
    assert(registry[m].id@ == ids[k]);
}


/// Where each node stands under the generic id of its addon, each added
/// addon has the generic id under which it was claimed.
pub proof fn lemma_closure_ids(
    seeds: Seq<Seq<char>>,
    known: Seq<Seq<char>>,
    registry: Seq<Node>,
    ids: Seq<Seq<char>>,
    addons: Seq<Addon>,
)
    requires
        is_closure(seeds, known, registry, ids, addons),
        tells_truly(registry),
    ensures
        ids.len() == addons.len(),
        forall|k: int| 0 <= k < ids.len() ==> #[trigger] ids[k] == addons[k].source.generic_id_text(),
{
    reveal(closure_up_to);
    assert forall|k: int| 0 <= k < ids.len() implies #[trigger] ids[k] == addons[k].source.generic_id_text() by {
        assert(resolves_to(registry, ids[k], addons[k]));
        let m = choose|m: int| #[trigger] is_node_at(registry, ids[k], m) && registry[m].addon == addons[k];
        assert(registry[m].id@ == ids[k]);
    }
}

/// Resolution succeeds wherever the list answers for the seeds and for
/// what is required and not owned; what stops it is never an owned project.
pub proof fn lemma_answered_is_resolved(
    seeds: Seq<Seq<char>>,
    known: Seq<Seq<char>>,
    registry: Seq<Node>,
    missing: Missing,
)
    requires
        answers_needed(registry, seeds, known),
    ensures
        !stops_at(seeds, known, registry, missing),
{
    if stops_at(seeds, known, registry, missing) {
        match missing {
            Missing::Seed(id) => {
                let s = choose|s: int| 0 <= s < seeds.len() && seeds[s] == id@;
                assert(has_node(registry, seeds[s]));
            },
            Missing::Dependency(edge) => {
                let from = choose|from: Seq<char>| walked(seeds, known, registry, from) && #[trigger] has_edge(registry, from, edge);
                let n = choose|n: int| #[trigger] is_node_at(registry, from, n) && registry[n].dependencies@.contains(edge);
                let e = choose|e: int| 0 <= e < registry[n].dependencies@.len() && registry[n].dependencies@[e] == edge;
                assert(registry[n].dependencies[e].required);
                assert(needs(registry[n], edge.project_id@));
            },
        }
    }
}

/// Where the list answers for the seeds, and each project that the seeds
/// require is owned already or is a seed itself, nothing stops resolution,
/// whatever else the list holds or lacks.
pub proof fn lemma_owned_requirements_resolve(
    seeds: Seq<Seq<char>>,
    known: Seq<Seq<char>>,
    registry: Seq<Node>,
    missing: Missing,
)
    requires
        forall|s: int| 0 <= s < seeds.len() ==> has_node(registry, #[trigger] seeds[s]),
        forall|s: int, to: Seq<char>| 0 <= s < seeds.len() && #[trigger] requires_project(registry, seeds[s], to) ==> known.contains(to) || seeds.contains(to),
    ensures
        !stops_at(seeds, known, registry, missing),
{
    if stops_at(seeds, known, registry, missing) {
        match missing {
            Missing::Seed(id) => {
                let s = choose|s: int| 0 <= s < seeds.len() && seeds[s] == id@;
                assert(has_node(registry, seeds[s]));
            },
            Missing::Dependency(edge) => {
                let to = edge.project_id@;
                let from = choose|from: Seq<char>| walked(seeds, known, registry, from) && #[trigger] has_edge(registry, from, edge);
                if seeds.contains(from) {
                    let s = choose|s: int| 0 <= s < seeds.len() && seeds[s] == from;
                    let n = choose|n: int| #[trigger] is_node_at(registry, from, n) && registry[n].dependencies@.contains(edge);
                    let e = choose|e: int| 0 <= e < registry[n].dependencies@.len() && registry[n].dependencies@[e] == edge;
                    assert(registry[n].dependencies[e].required);
                    assert(needs(registry[n], to));
                    assert(requires_project(registry, seeds[s], to));
                } else {
                    let (ids, addons, limit) = choose|ids: Seq<Seq<char>>, addons: Seq<Addon>, limit: int| #[trigger]
                        closure_up_to(seeds, known, registry, ids, addons, limit) && ids.contains(from);
                    reveal(closure_up_to);
                    assert(ids.len() > 0);
                    assert(required_by_earlier(registry, seeds, ids, 0, ids[0]));
                    let s = choose|s: int| 0 <= s < seeds.len() && requires_project(registry, #[trigger] seeds[s], ids[0]);
                    assert(known.contains(ids[0]) || seeds.contains(ids[0]));
                }
            },
        }
    }
}

/// Where each project that the seeds require is owned already or is a seed
/// itself, resolution adds nothing.
pub proof fn lemma_closed_seeds_add_nothing(
    seeds: Seq<Seq<char>>,
    known: Seq<Seq<char>>,
    registry: Seq<Node>,
    ids: Seq<Seq<char>>,
    addons: Seq<Addon>,
)
    requires
        is_closure(seeds, known, registry, ids, addons),
        forall|s: int, to: Seq<char>| 0 <= s < seeds.len() && #[trigger] requires_project(registry, seeds[s], to) ==> known.contains(to) || seeds.contains(to),
    ensures
        ids.len() == 0,
        addons.len() == 0,
{
    reveal(closure_up_to);
    if ids.len() > 0 {
        assert(required_by_earlier(registry, seeds, ids, 0, ids[0]));
        let s = choose|s: int| 0 <= s < seeds.len() && requires_project(registry, #[trigger] seeds[s], ids[0]);
        assert(known.contains(ids[0]) || seeds.contains(ids[0]));
    }
}

/// Running resolution again adds nothing: where the list answers for the
/// seeds and all that they require is owned already or is a seed, whatever
/// meets the contract of resolution is success with nothing added.
pub proof fn lemma_rerun_adds_nothing(
    seeds: Seq<Seq<char>>,
    known: Seq<Seq<char>>,
    registry: Seq<Node>,
    r: Result<Closure, Missing>,
)
    requires
        match r {
            Ok(c) => is_closure(seeds, known, registry, texts(c.ids@), c.addons@),
            Err(missing) => stops_at(seeds, known, registry, missing),
        },
        forall|s: int| 0 <= s < seeds.len() ==> has_node(registry, #[trigger] seeds[s]),
        forall|s: int, to: Seq<char>| 0 <= s < seeds.len() && #[trigger] requires_project(registry, seeds[s], to) ==> known.contains(to) || seeds.contains(to),
    ensures
        r matches Ok(c) && c.ids@.len() == 0 && c.addons@.len() == 0,
{
    match r {
        Ok(c) => {
            lemma_closed_seeds_add_nothing(seeds, known, registry, texts(c.ids@), c.addons@);
            assert(texts(c.ids@).len() == c.ids@.len());
        },
        Err(missing) => {
            lemma_owned_requirements_resolve(seeds, known, registry, missing);
        },
    }
}

/// No project is added twice, and none that is owned already or is a seed.
pub proof fn lemma_closure_adds_only_new(
    seeds: Seq<Seq<char>>,
    known: Seq<Seq<char>>,
    registry: Seq<Node>,
    ids: Seq<Seq<char>>,
    addons: Seq<Addon>,
)
    requires
        is_closure(seeds, known, registry, ids, addons),
    ensures
        forall|k: int| 0 <= k < ids.len() ==> !known.contains(#[trigger] ids[k]) && !seeds.contains(ids[k]),
        forall|j: int, k: int| 0 <= j < k < ids.len() ==> #[trigger] ids[j] != #[trigger] ids[k],
{
    reveal(closure_up_to);
}

/// Resolves the dependencies of `seed_addons` to closure. `already_known_ids`
/// are the generic ids of the projects that the caller owns; `registry`
/// holds what the registries answered. The result is the addons to add,
/// seeds excluded, or what the list has no node for: a seed, or the
/// required edge to a project that is neither owned nor a seed. Owned
/// projects are never asked for.
pub fn resolve_closure(
    seed_addons: &Vec<Addon>,
    already_known_ids: &Vec<String>,
    registry: &Vec<Node>,
) -> (r: Result<Closure, Missing>)
    ensures
        match r {
            Ok(c) => {
                &&& is_closure(
                    ids_of(seed_addons@),
                    texts(already_known_ids@),
                    registry@,
                    texts(c.ids@),
                    c.addons@,
                )
                &&& tells_truly(registry@) ==> texts(c.ids@) == ids_of(c.addons@)
            },
            Err(missing) => stops_at(ids_of(seed_addons@), texts(already_known_ids@), registry@, missing),
        },
        answers_needed(registry@, ids_of(seed_addons@), texts(already_known_ids@)) ==> r is Ok,
{
    let ghost seeds = ids_of(seed_addons@);
    let ghost known = texts(already_known_ids@);
    let seed_ids = generic_ids(seed_addons);
    let mut checked = copy_texts(already_known_ids);
    let mut seed_copy = copy_texts(&seed_ids);
    checked.append(&mut seed_copy);
    let mut queue = seed_ids;
    let mut ids: Vec<String> = Vec::new();
    let mut addons: Vec<Addon> = Vec::new();
    let mut qi: usize = 0;
    proof {
        assert(texts(ids@) =~= Seq::<Seq<char>>::empty());
        assert(texts(queue@).len() == queue@.len());
        assert(texts(queue@) =~= seeds + texts(ids@));
        assert(texts(checked@) =~= known + seeds + texts(ids@));
        lemma_closure_empty(seeds, known, registry@);
    }
    while qi < queue.len()
        invariant
            qi <= queue.len(),
            seeds == ids_of(seed_addons@),
            known == texts(already_known_ids@),
            texts(queue@) == seeds + texts(ids@),
            queue@.len() == seeds.len() + ids@.len(),
            texts(checked@) == known + seeds + texts(ids@),
            closure_up_to(seeds, known, registry@, texts(ids@), addons@, qi as int),
        decreases unclaimed(registry@, checked@) + queue.len() - qi,
    {
        let ghost bound = unclaimed(registry@, checked@) + queue.len();
        let ghost from = texts(queue@)[qi as int];
        let n = match find_node(registry, &queue[qi]) {
            Some(n) => n,
            None => {
                let missing = Missing::Seed(queue[qi].clone());
                proof {
                    if qi < seeds.len() {
                        assert(seeds[qi as int] == from);
                        assert(seeds.contains(from));
                    } else {
                        let k = qi - seeds.len();
                        assert((seeds + texts(ids@))[qi as int] == texts(ids@)[k]);
                        lemma_closure_node(seeds, known, registry@, texts(ids@), addons@, qi as int, k);
                    }
                    assert(stops_at(seeds, known, registry@, missing));
                    if answers_needed(registry@, seeds, known) {
                        lemma_answered_is_resolved(seeds, known, registry@, missing);
                    }
                }
                return Err(missing);
            },
        };
        let mut e: usize = 0;
        while e < registry[n].dependencies.len()
            invariant
                e <= registry@[n as int].dependencies.len(),
                n < registry.len(),
                qi < queue.len(),
                seeds == ids_of(seed_addons@),
                known == texts(already_known_ids@),
                from == texts(queue@)[qi as int],
                is_node_at(registry@, from, n as int),
                texts(queue@) == seeds + texts(ids@),
                queue@.len() == seeds.len() + ids@.len(),
                texts(checked@) == known + seeds + texts(ids@),
                closure_up_to(seeds, known, registry@, texts(ids@), addons@, qi as int),
                unclaimed(registry@, checked@) + queue.len() <= bound,
                forall|d: int| 0 <= d < e && (#[trigger] registry@[n as int].dependencies[d]).required ==> accounted(seeds, known, texts(ids@), registry@[n as int].dependencies[d].project_id@),
            decreases registry@[n as int].dependencies.len() - e,
        {
            let edge = &registry[n].dependencies[e];
            let ghost to = edge.project_id@;
            let ghost old_checked = checked@;
            let ghost old_ids = texts(ids@);
            let ghost old_queue = queue@;
            if edge.required {
                proof {
                    lemma_has_text_texts(checked@, to);
                    lemma_accounted_concat(seeds, known, old_ids, to);
                }
                if !handle_checked(&edge.project_id, &mut checked) {
                    proof {
                        lemma_claim_shrinks(registry@, old_checked, edge.project_id);
                    }
                    match find_node(registry, &edge.project_id) {
                        None => {
                            let missing = Missing::Dependency(edge.duplicate());
                            proof {
                                assert(registry@[n as int].dependencies@[e as int] == *edge);
                                assert(registry@[n as int].dependencies@.contains(*edge));
                                assert(has_edge(registry@, from, *edge));
                                assert((seeds + old_ids)[qi as int] == from);
                                if qi < seeds.len() {
                                    assert(seeds[qi as int] == from);
                                    assert(seeds.contains(from));
                                } else {
                                    let k = qi - seeds.len();
                                    assert(old_ids[k] == from);
                                    assert(old_ids.contains(from));
                                    assert(closure_up_to(seeds, known, registry@, old_ids, addons@, qi as int));
                                }
                                assert(walked(seeds, known, registry@, from));
                                assert(!accounted(seeds, known, old_ids, to));
                                assert(stops_at(seeds, known, registry@, missing));
                                if answers_needed(registry@, seeds, known) {
                                    lemma_answered_is_resolved(seeds, known, registry@, missing);
                                }
                            }
                            return Err(missing);
                        },
                        Some(m) => {
                            let addon = registry[m].addon.duplicate();
                            proof {
                                assert(registry@[m as int].id@ == to);
                                assert(has_node(registry@, to));
                                assert(needs(registry@[n as int], to));
                                assert(requires_project(registry@, from, to));
                                assert((seeds + old_ids)[qi as int] == from);
                                if qi < seeds.len() {
                                    assert(seeds[qi as int] == from);
                                } else {
                                    assert(old_ids[qi - seeds.len()] == from);
                                }
                                assert(required_by_earlier(registry@, seeds, old_ids, old_ids.len() as int, to));
                                assert(is_node_at(registry@, to, m as int));
                                assert(resolves_to(registry@, to, addon));
                                lemma_closure_push(seeds, known, registry@, old_ids, addons@, qi as int, to, addon);
                            }
                            ids.push(edge.project_id.clone());
                            queue.push(edge.project_id.clone());
                            addons.push(addon);
                            proof {
                                assert(texts(ids@) =~= old_ids.push(to));
                                assert(texts(queue@) =~= texts(old_queue).push(to));
                                assert(texts(queue@) =~= seeds + texts(ids@));
                                assert(texts(checked@) =~= texts(old_checked).push(to));
                                assert(texts(checked@) =~= known + seeds + texts(ids@));
                                assert(texts(queue@)[qi as int] == from);
                            }
                        },
                    }
                }
            }
            proof {
                assert forall|d: int| 0 <= d < e + 1 && (#[trigger] registry@[n as int].dependencies[d]).required implies accounted(seeds, known, texts(ids@), registry@[n as int].dependencies[d].project_id@) by {
                    let target = registry@[n as int].dependencies[d].project_id@;
                    if texts(ids@) != old_ids {
                        lemma_accounted_push(seeds, known, old_ids, to, target);
                    }
                    if d == e {
                        lemma_has_text_texts(old_checked, to);
                        lemma_accounted_concat(seeds, known, old_ids, to);
                    }
                }
            }
            e += 1;
        }
        proof {
            let order = seeds + texts(ids@);
            assert(order[qi as int] == from);
            assert forall|to: Seq<char>| #[trigger] requires_project(registry@, from, to) implies accounted(seeds, known, texts(ids@), to) by {
                let m = choose|m: int| #[trigger] is_node_at(registry@, from, m) && needs(registry@[m], to);
                assert(m == n) by {
                    if m < n {
                        assert(registry@[m].id@ == from);
                    } else if n < m {
                        assert(registry@[n as int].id@ == from);
                    }
                }
                let d = choose|d: int| 0 <= d < registry@[n as int].dependencies.len() && (#[trigger] registry@[n as int].dependencies[d]).required && registry@[n as int].dependencies[d].project_id@ == to;
                assert(accounted(seeds, known, texts(ids@), registry@[n as int].dependencies[d].project_id@));
            }
            lemma_closure_advance(seeds, known, registry@, texts(ids@), addons@, qi as int, from);
        }
        qi += 1;
    }
    proof {
        if tells_truly(registry@) {
            lemma_closure_ids(seeds, known, registry@, texts(ids@), addons@);
            assert(texts(ids@) =~= ids_of(addons@));
        }
    }
    Ok(Closure { ids, addons })
}

} // verus!
