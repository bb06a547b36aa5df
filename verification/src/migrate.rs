//! Moving a modpack to another game version: how each addon stands with the
//! new target, and what the index holds afterwards.

use vstd::prelude::*;
use vstd::string::*;
use crate::compat::{best_match, compatible_ones, filter_compatible, is_best, views, Candidate, CandidateView, VersionPointer};
use crate::model::{Addon, AddonSource, CurseforgeSource, GithubSource, Modpack, ModrinthSource, Versions};

verus! {

#[derive(Debug, Clone, Copy, PartialEq, Eq, Structural)]
pub enum Compatibility {
    /// A version lists the new game version itself.
    Compatible,
    /// A version lists only a game version that the pack accepts as a fallback.
    Partial,
    /// No version can be used.
    Incompatible,
    /// The origin cannot be asked.
    Unknown,
}

/// How an addon stands with a target, and the version to move it to.
#[derive(Debug, Clone, PartialEq, Eq)]
pub struct Classification {
    pub compatibility: Compatibility,
    pub version: Option<VersionPointer>,
}

/// An addon with its classification.
#[derive(Debug, Clone, PartialEq, Eq)]
pub struct Migration {
    pub addon: Addon,
    pub version: Option<VersionPointer>,
    pub compatibility: Compatibility,
}

/// Whether `r` classifies `addon` against `target`, given the versions that
/// its registry lists.
pub open spec fn classifies(
    addon: Addon,
    candidates: Seq<CandidateView>,
    target: Modpack,
    r: Classification,
) -> bool {
    let usable = compatible_ones(candidates, target, addon.project_type);
    if addon.source is Github {
        r.compatibility == Compatibility::Unknown && r.version is None
    } else if usable.len() == 0 {
        r.compatibility == Compatibility::Incompatible && r.version is None
    } else {
        exists|i: int| #[trigger]
            is_best(usable, i, target) && r.version == Some(usable[i].id) && r.compatibility == (
            if usable[i].on_primary_version(target) {
                Compatibility::Compatible
            } else {
                Compatibility::Partial
            })
    }
}

/// The addon with its version pointer set to `pointer`, where the pointer
/// is of the kind that the addon's registry uses; else the addon itself.
pub open spec fn repointed(addon: Addon, pointer: VersionPointer) -> Addon {
    match (addon.source, pointer) {
        (AddonSource::Modrinth(s), VersionPointer::Text(v)) => Addon {
            source: AddonSource::Modrinth(ModrinthSource { id: s.id, version: v }),
            ..addon
        },
        (AddonSource::Curseforge(s), VersionPointer::Number(n)) => Addon {
            source: AddonSource::Curseforge(CurseforgeSource { id: s.id, version: n }),
            ..addon
        },
        (AddonSource::Github(s), VersionPointer::Text(v)) => Addon {
            source: AddonSource::Github(
                GithubSource { repo: s.repo, tag: v, filter_by: s.filter_by, asset_index: s.asset_index },
            ),
            ..addon
        },
        _ => addon,
    }
}

/// The addons that have a version to move to, each moved to it, in their order.
pub open spec fn migrated(list: Seq<Migration>) -> Seq<Addon>
    decreases list.len(),
{
    if list.len() == 0 {
        Seq::empty()
    } else {
        match list.last().version {
            Some(v) => migrated(list.drop_last()).push(repointed(list.last().addon, v)),
            None => migrated(list.drop_last()),
        }
    }
}

/// The pack after the move to `minecraft`: its loader version follows to
/// `loader_version`, unless the pack asks for the latest whatever the game version.
pub open spec fn retargeted(modpack: Modpack, minecraft: String, loader_version: String) -> Modpack {
    Modpack {
        versions: Versions {
            minecraft,
            loader: modpack.versions.loader,
            loader_version: if modpack.versions.loader_version@ == "latest"@ {
                modpack.versions.loader_version
            } else {
                loader_version
            },
        },
        ..modpack
    }
}

pub fn classify(addon: &Addon, candidates: Vec<Candidate>, new_target: &Modpack) -> (r: Classification)
    ensures
        classifies(*addon, views(candidates@), *new_target, r),
{
    match &addon.source {
        AddonSource::Github(_) => {
            return Classification { compatibility: Compatibility::Unknown, version: None };
        },
        _ => {},
    }
    let usable = filter_compatible(candidates, new_target, &addon.project_type);
    let ghost listed = usable@;
    match best_match(usable, new_target) {
        None => Classification { compatibility: Compatibility::Incompatible, version: None },
        Some(chosen) => {
            let compatibility = if chosen.is_on_primary_version(new_target) {
                Compatibility::Compatible
            } else {
                Compatibility::Partial
            };
            let r = Classification { compatibility, version: Some(chosen.id) };
            proof {
                let i = choose|i: int| #[trigger] is_best(views(listed), i, *new_target) && chosen == listed[i];
                assert(is_best(views(listed), i, *new_target) && r.version == Some(views(listed)[i].id));
            }
            r
        },
    }
}

impl Addon {
    /// The addon moved to the version `pointer`.
    pub fn with_version(self, pointer: VersionPointer) -> (r: Addon)
        ensures
            r == repointed(self, pointer),
    {
        let Addon { name, project_type, side, source, options, filename } = self;
        let source = match (source, pointer) {
            (AddonSource::Modrinth(s), VersionPointer::Text(v)) => AddonSource::Modrinth(
                ModrinthSource { id: s.id, version: v },
            ),
            (AddonSource::Curseforge(s), VersionPointer::Number(n)) => AddonSource::Curseforge(
                CurseforgeSource { id: s.id, version: n },
            ),
            (AddonSource::Github(s), VersionPointer::Text(v)) => AddonSource::Github(
                GithubSource { repo: s.repo, tag: v, filter_by: s.filter_by, asset_index: s.asset_index },
            ),
            (source, _) => source,
        };
        Addon { name, project_type, side, source, options, filename }
    }
}

impl Modpack {
    /// The pack moved to the game version `minecraft`, for which
    /// `loader_version` is the loader version to use.
    pub fn retarget(self, minecraft: String, loader_version: String) -> (r: Modpack)
        ensures
            r == retargeted(self, minecraft, loader_version),
    {
        let keep = self.wants_latest_loader();
        let Modpack { name, version, authors, description, index_path, options, versions } = self;
        let loader_version = if keep { versions.loader_version } else { loader_version };
        Modpack {
            name,
            version,
            authors,
            description,
            index_path,
            options,
            versions: Versions { minecraft, loader: versions.loader, loader_version },
        }
    }
}

/// How many addons of the list stand as `which`.
pub fn count_of(list: &Vec<Migration>, which: Compatibility) -> (r: usize)
    ensures
        r == list@.filter(|m: Migration| m.compatibility == which).len(),
{
    let ghost pred = |m: Migration| m.compatibility == which;
    let mut n: usize = 0;
    let mut i: usize = 0;
    proof {
        reveal(Seq::filter);
        assert(list@.take(0).filter(pred) =~= Seq::<Migration>::empty());
    }
    while i < list.len()
        invariant
            i <= list.len(),
            n <= i,
            pred == (|m: Migration| m.compatibility == which),
            n == list@.take(i as int).filter(pred).len(),
        decreases list.len() - i,
    {
        proof {
            assert(list@.take(i as int + 1) =~= list@.take(i as int).push(list@[i as int]));
            list@.take(i as int).lemma_filter_push(list@[i as int], pred);
        }
        if list[i].compatibility == which {
            n += 1;
        }
        i += 1;
    }
    proof {
        assert(list@.take(list.len() as int) =~= list@);
    }
    n
}

/// The addons to drop where the incompatible ones are not kept.
pub fn incompatible_addons(list: &Vec<Migration>) -> (r: Vec<Addon>)
    ensures
        r@ == list@.filter(|m: Migration| m.compatibility == Compatibility::Incompatible).map_values(
            |m: Migration| m.addon,
        ),
{
    let ghost pred = |m: Migration| m.compatibility == Compatibility::Incompatible;
    let ghost pick = |m: Migration| m.addon;
    let mut out: Vec<Addon> = Vec::new();
    let mut i: usize = 0;
    proof {
        reveal(Seq::filter);
        assert(list@.take(0).filter(pred) =~= Seq::<Migration>::empty());
        assert(Seq::<Migration>::empty().map_values(pick) =~= Seq::<Addon>::empty());
    }
    while i < list.len()
        invariant
            i <= list.len(),
            pred == (|m: Migration| m.compatibility == Compatibility::Incompatible),
            pick == (|m: Migration| m.addon),
            out@ == list@.take(i as int).filter(pred).map_values(pick),
        decreases list.len() - i,
    {
        proof {
            assert(list@.take(i as int + 1) =~= list@.take(i as int).push(list@[i as int]));
            list@.take(i as int).lemma_filter_push(list@[i as int], pred);
            assert(list@.take(i as int).filter(pred).push(list@[i as int]).map_values(pick)
                =~= list@.take(i as int).filter(pred).map_values(pick).push(list@[i as int].addon));
        }
        if list[i].compatibility == Compatibility::Incompatible {
            out.push(list[i].addon.duplicate());
        }
        i += 1;
    }
    proof {
        assert(list@.take(list.len() as int) =~= list@);
    }
    out
}

/// The addons to write back: each that has a version to move to, moved to it.
pub fn migrated_addons(list: Vec<Migration>) -> (r: Vec<Addon>)
    ensures
        r@ == migrated(list@),
{
    let ghost all = list@;
    let mut rest = list;
    let n: usize = rest.len();
    let mut out: Vec<Addon> = Vec::new();
    let mut i: usize = 0;
    proof {
        assert(all.skip(0) =~= all);
    }
    while i < n
        invariant
            i <= n,
            n == all.len(),
            rest@ == all.skip(i as int),
            out@ == migrated(all.take(i as int)),
        decreases n - i,
    {
        let entry = rest.remove(0);
        proof {
            assert(entry == all[i as int]);
            assert(rest@ =~= all.skip(i as int + 1));
            assert(all.take(i as int + 1).drop_last() =~= all.take(i as int));
            assert(all.take(i as int + 1).last() == all[i as int]);
        }
        let Migration { addon, version, compatibility: _ } = entry;
        match version {
            Some(v) => {
                out.push(addon.with_version(v));
            },
            None => {},
        }
        i += 1;
    }
    proof {
        assert(all.take(n as int) =~= all);
    }
    out
}

/// An addon with the versions that its registry lists.
#[derive(Debug, Clone, PartialEq, Eq)]
pub struct Listing {
    pub addon: Addon,
    pub candidates: Vec<Candidate>,
}

/// Whether `m` is the listed addon with its classification against `target`.
pub open spec fn migration_of(listing: Listing, target: Modpack, m: Migration) -> bool {
    m.addon == listing.addon && classifies(
        listing.addon,
        views(listing.candidates@),
        target,
        Classification { compatibility: m.compatibility, version: m.version },
    )
}

/// Classifies every addon against the new target, in their order.
pub fn classify_all(listings: Vec<Listing>, new_target: &Modpack) -> (r: Vec<Migration>)
    ensures
        r@.len() == listings@.len(),
        forall|i: int| 0 <= i < r@.len() ==> migration_of(listings@[i], *new_target, #[trigger] r@[i]),
{
    let ghost all = listings@;
    let mut rest = listings;
    let n: usize = rest.len();
    let mut out: Vec<Migration> = Vec::new();
    let mut i: usize = 0;
    proof {
        assert(all.skip(0) =~= all);
    }
    while i < n
        invariant
            i <= n,
            n == all.len(),
            rest@ == all.skip(i as int),
            out@.len() == i,
            forall|k: int| 0 <= k < i ==> migration_of(all[k], *new_target, #[trigger] out@[k]),
        decreases n - i,
    {
        let listing = rest.remove(0);
        proof {
            assert(listing == all[i as int]);
            assert(rest@ =~= all.skip(i as int + 1));
        }
        let Listing { addon, candidates } = listing;
        let Classification { compatibility, version } = classify(&addon, candidates, new_target);
        out.push(Migration { addon, version, compatibility });
        i += 1;
    }
    out
}

} // verus!
