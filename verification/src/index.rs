//! The set of addons of a modpack, in which no project and no name occurs twice.

use vstd::prelude::*;
use crate::model::Addon;
use crate::text::{is_before, lemma_text_before_irreflexive, lemma_text_before_transitive, text_before};

verus! {

#[derive(Debug, Clone, PartialEq, Eq)]
pub struct Index {
    pub addons: Vec<Addon>,
}

/// Whether no two addons of the list are the same project or share a name
/// up to case.
pub open spec fn distinct(addons: Seq<Addon>) -> bool {
    forall|i: int, j: int| 0 <= i < j < addons.len() ==> !(#[trigger] addons[i]).collides(#[trigger] addons[j])
}

/// Whether the list holds an addon that `addon` may not stand beside.
pub open spec fn collides_any(addons: Seq<Addon>, addon: Addon) -> bool {
    exists|i: int| 0 <= i < addons.len() && (#[trigger] addons[i]).collides(addon)
}

/// The list after adding `addon`: unchanged where it collides with an entry.
pub open spec fn inserted(addons: Seq<Addon>, addon: Addon) -> Seq<Addon> {
    if collides_any(addons, addon) {
        addons
    } else {
        addons.push(addon)
    }
}

/// The list after adding each of `more` in turn.
pub open spec fn inserted_all(addons: Seq<Addon>, more: Seq<Addon>) -> Seq<Addon>
    decreases more.len(),
{
    if more.len() == 0 {
        addons
    } else {
        inserted(inserted_all(addons, more.drop_last()), more.last())
    }
}

/// The place of the first addon that `text` names, if it names one.
pub open spec fn is_first_match(addons: Seq<Addon>, text: Seq<char>, i: int) -> bool {
    &&& 0 <= i < addons.len()
    &&& addons[i].matches_text(text)
    &&& forall|j: int| 0 <= j < i ==> !(#[trigger] addons[j]).matches_text(text)
}

/// Adding one addon keeps a list free of collisions.
pub proof fn lemma_insert_keeps_distinct(addons: Seq<Addon>, addon: Addon)
    requires
        distinct(addons),
    ensures
        distinct(inserted(addons, addon)),
{
    if !collides_any(addons, addon) {
        let after = addons.push(addon);
        assert forall|i: int, j: int| 0 <= i < j < after.len() implies !(#[trigger] after[i]).collides(#[trigger] after[j]) by {
            if j == addons.len() {
                assert(addons[i] == after[i]);
                assert(!addons[i].collides(addon));
            } else {
                assert(addons[i] == after[i]);
                assert(addons[j] == after[j]);
            }
        }
    }
}

/// Whatever is added, and in whatever order, a list that was free of
/// collisions stays so, and keeps what it held.
pub proof fn lemma_inserts_keep_distinct(addons: Seq<Addon>, more: Seq<Addon>)
    requires
        distinct(addons),
    ensures
        distinct(inserted_all(addons, more)),
        addons.len() <= inserted_all(addons, more).len(),
        inserted_all(addons, more).take(addons.len() as int) == addons,
    decreases more.len(),
{
    if more.len() == 0 {
        assert(addons.take(addons.len() as int) =~= addons);
    } else {
        lemma_inserts_keep_distinct(addons, more.drop_last());
        let before = inserted_all(addons, more.drop_last());
        lemma_insert_keeps_distinct(before, more.last());
        assert(inserted(before, more.last()).take(addons.len() as int) =~= before.take(
            addons.len() as int,
        ));
    }
}

/// An addon that is added a second time changes nothing.
pub proof fn lemma_insert_twice(addons: Seq<Addon>, addon: Addon)
    ensures
        inserted(inserted(addons, addon), addon) == inserted(addons, addon),
{
    if !collides_any(addons, addon) {
        let after = addons.push(addon);
        assert(after[addons.len() as int].collides(addon));
    }
}

impl Index {
    pub open spec fn wf(self) -> bool {
        distinct(self.addons@)
    }

    pub fn new() -> (r: Index)
        ensures
            r.addons@.len() == 0,
            r.wf(),
    {
        Index { addons: Vec::new() }
    }

    /// Whether the index holds an addon that `addon` may not stand beside.
    pub fn has_collision(&self, addon: &Addon) -> (r: bool)
        ensures
            r == collides_any(self.addons@, *addon),
    {
        let mut i: usize = 0;
        while i < self.addons.len()
            invariant
                i <= self.addons.len(),
                forall|j: int| 0 <= j < i ==> !(#[trigger] self.addons@[j]).collides(*addon),
            decreases self.addons.len() - i,
        {
            if self.addons[i].collides_with(addon) {
                return true;
            }
            i += 1;
        }
        false
    }

    /// Whether no two addons of the index collide.
    pub fn is_wf(&self) -> (r: bool)
        ensures
            r == self.wf(),
    {
        let mut j: usize = 0;
        while j < self.addons.len()
            invariant
                j <= self.addons.len(),
                forall|a: int, b: int| 0 <= a < b < j ==> !(#[trigger] self.addons@[a]).collides(#[trigger] self.addons@[b]),
            decreases self.addons.len() - j,
        {
            let mut i: usize = 0;
            while i < j
                invariant
                    i <= j < self.addons.len(),
                    forall|a: int| 0 <= a < i ==> !(#[trigger] self.addons@[a]).collides(self.addons@[j as int]),
                decreases j - i,
            {
                if self.addons[i].collides_with(&self.addons[j]) {
                    return false;
                }
                i += 1;
            }
            j += 1;
        }
        true
    }

    /// Adds `addon` unless it collides with an entry, and says whether it was added.
    pub fn insert(&mut self, addon: Addon) -> (added: bool)
        ensures
            added == !collides_any(old(self).addons@, addon),
            final(self).addons@ == inserted(old(self).addons@, addon),
            old(self).wf() ==> final(self).wf(),
    {
        proof {
            if self.wf() {
                lemma_insert_keeps_distinct(self.addons@, addon);
            }
        }
        if self.has_collision(&addon) {
            false
        } else {
            self.addons.push(addon);
            true
        }
    }

    /// Adds each of `addons` in turn, skipping those that collide with an
    /// entry or with one added before them, and returns the ones added.
    pub fn add_mods(&mut self, addons: Vec<Addon>) -> (added: Vec<Addon>)
        ensures
            final(self).addons@ == inserted_all(old(self).addons@, addons@),
            old(self).addons@.len() <= final(self).addons@.len(),
            added@ == final(self).addons@.skip(old(self).addons@.len() as int),
            final(self).addons@.take(old(self).addons@.len() as int) == old(self).addons@,
            old(self).wf() ==> final(self).wf(),
    {
        let ghost before = self.addons@;
        let mut added: Vec<Addon> = Vec::new();
        let mut i: usize = 0;
        proof {
            assert(addons@.take(0) =~= Seq::<Addon>::empty());
            assert(before.skip(before.len() as int) =~= Seq::<Addon>::empty());
            assert(before.take(before.len() as int) =~= before);
        }
        while i < addons.len()
            invariant
                i <= addons.len(),
                before == old(self).addons@,
                self.addons@ == inserted_all(before, addons@.take(i as int)),
                before.len() <= self.addons@.len(),
                added@ == self.addons@.skip(before.len() as int),
                self.addons@.take(before.len() as int) == before,
            decreases addons.len() - i,
        {
            let ghost held = self.addons@;
            proof {
                assert(addons@.take(i as int + 1).drop_last() =~= addons@.take(i as int));
                assert(addons@.take(i as int + 1).last() == addons@[i as int]);
            }
            let addon = addons[i].duplicate();
            if self.insert(addon) {
                added.push(addons[i].duplicate());
                proof {
                    assert(self.addons@.skip(before.len() as int) =~= held.skip(
                        before.len() as int,
                    ).push(addons@[i as int]));
                    assert(self.addons@.take(before.len() as int) =~= held.take(
                        before.len() as int,
                    ));
                }
            }
            i += 1;
        }
        proof {
            assert(addons@.take(addons.len() as int) =~= addons@);
            if old(self).wf() {
                lemma_inserts_keep_distinct(before, addons@);
            }
        }
        added
    }

    /// The place of the first addon that `text` names by its name or id.
    pub fn select_addon(&self, text: &str) -> (r: Option<usize>)
        ensures
            match r {
                Some(i) => is_first_match(self.addons@, text@, i as int),
                None => forall|j: int| 0 <= j < self.addons@.len() ==> !(#[trigger] self.addons@[j]).matches_text(text@),
            },
    {
        let mut i: usize = 0;
        while i < self.addons.len()
            invariant
                i <= self.addons.len(),
                forall|j: int| 0 <= j < i ==> !(#[trigger] self.addons@[j]).matches_text(text@),
            decreases self.addons.len() - i,
        {
            if self.addons[i].matches_str(text) {
                return Some(i);
            }
            i += 1;
        }
        None
    }
}

/// Whether `addon` is the same project as one of `list`.
pub open spec fn is_among(list: Seq<Addon>, addon: Addon) -> bool {
    exists|i: int| 0 <= i < list.len() && (#[trigger] list[i]).identity() == addon.identity()
}

/// The addons that are none of the projects of `dropped`, in their order.
pub open spec fn remaining(addons: Seq<Addon>, dropped: Seq<Addon>) -> Seq<Addon> {
    addons.filter(|a: Addon| !is_among(dropped, a))
}

/// The addons of the first registry, of the second and of the release
/// platform, each in their order.
pub open spec fn by_origin(addons: Seq<Addon>) -> (Seq<Addon>, Seq<Addon>, Seq<Addon>) {
    (
        addons.filter(|a: Addon| a.source is Modrinth),
        addons.filter(|a: Addon| a.source is Curseforge),
        addons.filter(|a: Addon| a.source is Github),
    )
}

/// What is kept of a list without collisions is without collisions.
pub proof fn lemma_kept_stay_distinct(addons: Seq<Addon>, pred: spec_fn(Addon) -> bool)
    requires
        distinct(addons),
    ensures
        distinct(addons.filter(pred)),
    decreases addons.len(),
{
    reveal(Seq::filter);
    if addons.len() > 0 {
        let rest = addons.drop_last();
        let last = addons.last();
        assert(distinct(rest)) by {
            assert forall|i: int, j: int| 0 <= i < j < rest.len() implies !(#[trigger] rest[i]).collides(#[trigger] rest[j]) by {
                assert(rest[i] == addons[i]);
                assert(rest[j] == addons[j]);
            }
        }
        lemma_kept_stay_distinct(rest, pred);
        if pred(last) {
            let kept = rest.filter(pred);
            let all = kept.push(last);
            assert forall|i: int, j: int| 0 <= i < j < all.len() implies !(#[trigger] all[i]).collides(#[trigger] all[j]) by {
                if j == kept.len() {
                    assert(all[i] == kept[i]);
                    assert(kept.contains(kept[i]));
                    rest.lemma_filter_contains_rev(pred, kept[i]);
                    let k = choose|k: int| 0 <= k < rest.len() && rest[k] == kept[i];
                    assert(addons[k] == rest[k]);
                    assert(!addons[k].collides(addons[addons.len() - 1]));
                } else {
                    assert(all[i] == kept[i]);
                    assert(all[j] == kept[j]);
                }
            }
        }
    }
}

fn among(list: &Vec<Addon>, addon: &Addon) -> (r: bool)
    ensures
        r == is_among(list@, *addon),
{
    let mut i: usize = 0;
    while i < list.len()
        invariant
            i <= list.len(),
            forall|j: int| 0 <= j < i ==> (#[trigger] list@[j]).identity() != addon.identity(),
        decreases list.len() - i,
    {
        if list[i].source.same_project(&addon.source) {
            return true;
        }
        i += 1;
    }
    false
}

impl Index {
    /// Drops the addons that are the same project as one of `dropped`.
    pub fn remove_addons(&mut self, dropped: &Vec<Addon>)
        ensures
            final(self).addons@ == remaining(old(self).addons@, dropped@),
            old(self).wf() ==> final(self).wf(),
    {
        let ghost pred = |a: Addon| !is_among(dropped@, a);
        let ghost all = self.addons@;
        let mut kept: Vec<Addon> = Vec::new();
        let mut i: usize = 0;
        proof {
            reveal(Seq::filter);
            assert(all.take(0).filter(pred) =~= Seq::<Addon>::empty());
        }
        while i < self.addons.len()
            invariant
                i <= self.addons.len(),
                all == self.addons@,
                pred == (|a: Addon| !is_among(dropped@, a)),
                kept@ == all.take(i as int).filter(pred),
            decreases self.addons.len() - i,
        {
            proof {
                assert(all.take(i as int + 1) =~= all.take(i as int).push(all[i as int]));
                all.take(i as int).lemma_filter_push(all[i as int], pred);
            }
            if !among(dropped, &self.addons[i]) {
                kept.push(self.addons[i].duplicate());
            }
            i += 1;
        }
        proof {
            assert(all.take(all.len() as int) =~= all);
            if distinct(all) {
                lemma_kept_stay_distinct(all, pred);
            }
        }
        self.addons = kept;
    }
}

/// Parts the addons by where they come from.
pub fn seperate_mods_by_platform(addons: Vec<Addon>) -> (r: (Vec<Addon>, Vec<Addon>, Vec<Addon>))
    ensures
        (r.0@, r.1@, r.2@) == by_origin(addons@),
{
    let ghost first = |a: Addon| a.source is Modrinth;
    let ghost second = |a: Addon| a.source is Curseforge;
    let ghost third = |a: Addon| a.source is Github;
    let ghost all = addons@;
    let mut rest = addons;
    let n: usize = rest.len();
    let mut mr: Vec<Addon> = Vec::new();
    let mut cf: Vec<Addon> = Vec::new();
    let mut gh: Vec<Addon> = Vec::new();
    let mut i: usize = 0;
    proof {
        reveal(Seq::filter);
        assert(all.take(0).filter(first) =~= Seq::<Addon>::empty());
        assert(all.take(0).filter(second) =~= Seq::<Addon>::empty());
        assert(all.take(0).filter(third) =~= Seq::<Addon>::empty());
        assert(all.skip(0) =~= all);
    }
    while i < n
        invariant
            i <= n,
            n == all.len(),
            first == (|a: Addon| a.source is Modrinth),
            second == (|a: Addon| a.source is Curseforge),
            third == (|a: Addon| a.source is Github),
            rest@ == all.skip(i as int),
            mr@ == all.take(i as int).filter(first),
            cf@ == all.take(i as int).filter(second),
            gh@ == all.take(i as int).filter(third),
        decreases n - i,
    {
        let addon = rest.remove(0);
        proof {
            assert(addon == all[i as int]);
            assert(rest@ =~= all.skip(i as int + 1));
            assert(all.take(i as int + 1) =~= all.take(i as int).push(all[i as int]));
            all.take(i as int).lemma_filter_push(all[i as int], first);
            all.take(i as int).lemma_filter_push(all[i as int], second);
            all.take(i as int).lemma_filter_push(all[i as int], third);
        }
        let origin: u8 = match &addon.source {
            crate::model::AddonSource::Modrinth(_) => 0,
            crate::model::AddonSource::Curseforge(_) => 1,
            crate::model::AddonSource::Github(_) => 2,
        };
        if origin == 0 {
            mr.push(addon);
        } else if origin == 1 {
            cf.push(addon);
        } else {
            gh.push(addon);
        }
        i += 1;
    }
    proof {
        assert(all.take(n as int) =~= all);
    }
    (mr, cf, gh)
}

/// Whether the addons stand in the order of their names.
pub open spec fn sorted_by_name(addons: Seq<Addon>) -> bool {
    forall|i: int, j: int| 0 <= i < j < addons.len() ==> !text_before((#[trigger] addons[j]).name@, (#[trigger] addons[i]).name@)
}

/// The place at which an addon with the name `name` enters a list in the
/// order of names: before the first addon that it stands before.
fn place_of(sorted: &Vec<Addon>, name: &String) -> (r: usize)
    ensures
        r <= sorted@.len(),
        forall|j: int| 0 <= j < r ==> !text_before(name@, (#[trigger] sorted@[j]).name@),
        r < sorted@.len() ==> text_before(name@, sorted@[r as int].name@),
{
    let mut p: usize = 0;
    while p < sorted.len()
        invariant
            p <= sorted.len(),
            forall|j: int| 0 <= j < p ==> !text_before(name@, (#[trigger] sorted@[j]).name@),
        decreases sorted.len() - p,
    {
        if is_before(name.as_str(), sorted[p].name.as_str()) {
            return p;
        }
        p += 1;
    }
    p
}

/// The addons in the order of their names; addons of the same name keep their order.
pub fn sort_by_name(addons: Vec<Addon>) -> (r: Vec<Addon>)
    ensures
        sorted_by_name(r@),
        r@.to_multiset() == addons@.to_multiset(),
{
    let ghost all = addons@;
    let mut rest = addons;
    let n: usize = rest.len();
    let mut out: Vec<Addon> = Vec::new();
    let mut i: usize = 0;
    proof {
        assert(all.skip(0) =~= all);
        assert(all.take(0) =~= out@);
    }
    while i < n
        invariant
            i <= n,
            n == all.len(),
            rest@ == all.skip(i as int),
            sorted_by_name(out@),
            out@.to_multiset() == all.take(i as int).to_multiset(),
        decreases n - i,
    {
        let addon = rest.remove(0);
        let ghost before = out@;
        let p = place_of(&out, &addon.name);
        proof {
            assert(addon == all[i as int]);
            assert(rest@ =~= all.skip(i as int + 1));
            assert(all.take(i as int + 1) =~= all.take(i as int).push(addon));
            vstd::seq_lib::to_multiset_build(all.take(i as int), addon);
            vstd::seq_lib::to_multiset_insert(before, p as int, addon);
            let after = before.insert(p as int, addon);
            assert forall|a: int, b: int| 0 <= a < b < after.len() implies !text_before((#[trigger] after[b]).name@, (#[trigger] after[a]).name@) by {
                if b == p {
                    assert(after[a] == before[a]);
                } else if a == p {
                    assert(after[b] == before[b - 1]);
                    if b - 1 > p {
                        assert(!text_before(before[b - 1].name@, before[p as int].name@));
                    }
                    if text_before(before[b - 1].name@, addon.name@) {
                        lemma_text_before_transitive(before[b - 1].name@, addon.name@, before[p as int].name@);
                        lemma_text_before_irreflexive(before[p as int].name@);
                    }
                } else {
                    let x = if a < p { a } else { a - 1 };
                    let y = if b < p { b } else { b - 1 };
                    assert(after[a] == before[x]);
                    assert(after[b] == before[y]);
                }
            }
        }
        out.insert(p, addon);
        i += 1;
    }
    proof {
        assert(all.take(n as int) =~= all);
    }
    out
}

} // verus!
