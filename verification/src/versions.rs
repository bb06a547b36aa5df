//! Which versions of the game and of a loader there are to choose from.

use vstd::prelude::*;
use vstd::string::*;
use crate::error::Error;
use crate::model::ModLoader;
use crate::text::{begins_with, slice, starts_with};

verus! {

#[derive(Debug, Clone, Copy, PartialEq, Eq, Structural)]
pub enum VersionType {
    Release,
    Snapshot,
    OldAlpha,
    OldBeta,
}

#[derive(Debug, Clone, PartialEq, Eq)]
pub struct LatestVersions {
    pub release: String,
    pub snapshot: String,
}

#[derive(Debug, Clone, PartialEq, Eq)]
pub struct ManifestVersion {
    pub id: String,
    pub version_type: VersionType,
}

#[derive(Debug, Clone, PartialEq, Eq)]
pub struct VersionManifest {
    pub latest: LatestVersions,
    pub versions: Vec<ManifestVersion>,
}

/// The ids of the game versions of the kind `filter`, or of all where no
/// kind is asked for, in their order.
pub open spec fn listed_versions(versions: Seq<ManifestVersion>, filter: Option<VersionType>) -> Seq<String> {
    versions.filter(
        |v: ManifestVersion|
            match filter {
                Some(kind) => v.version_type == kind,
                None => true,
            },
    ).map_values(|v: ManifestVersion| v.id)
}

/// The kinds of game version to choose from: releases only, unless
/// snapshots are asked for.
pub open spec fn filter_for(snapshots: bool) -> Option<VersionType> {
    if snapshots {
        None
    } else {
        Some(VersionType::Release)
    }
}

/// The versions that begin with `prefix`, in their order.
pub open spec fn with_prefix(versions: Seq<String>, prefix: Seq<char>) -> Seq<String> {
    versions.filter(|v: String| begins_with(v@, prefix))
}

/// The loader version to use where the pack asks for the latest: loaders
/// that list the newest first give the first, the others the last.
pub open spec fn latest_of(loader: ModLoader, versions: Seq<String>) -> String {
    match loader {
        ModLoader::Fabric => versions.first(),
        ModLoader::Quilt => versions.first(),
        ModLoader::Forge => versions.last(),
        ModLoader::NeoForge => versions.last(),
    }
}

pub fn version_filter(snapshots: bool) -> (r: Option<VersionType>)
    ensures
        r == filter_for(snapshots),
{
    if snapshots {
        None
    } else {
        Some(VersionType::Release)
    }
}

pub fn list_mc_versions(manifest: &VersionManifest, filter: Option<VersionType>) -> (r: Vec<String>)
    ensures
        r@ == listed_versions(manifest.versions@, filter),
{
    let ghost pred = |v: ManifestVersion|
        match filter {
            Some(kind) => v.version_type == kind,
            None => true,
        };
    let ghost pick = |v: ManifestVersion| v.id;
    let ghost all = manifest.versions@;
    let mut out: Vec<String> = Vec::new();
    let mut i: usize = 0;
    proof {
        reveal(Seq::filter);
        assert(all.take(0).filter(pred) =~= Seq::<ManifestVersion>::empty());
        assert(Seq::<ManifestVersion>::empty().map_values(pick) =~= Seq::<String>::empty());
    }
    while i < manifest.versions.len()
        invariant
            i <= manifest.versions.len(),
            all == manifest.versions@,
            pred == (|v: ManifestVersion|
                match filter {
                    Some(kind) => v.version_type == kind,
                    None => true,
                }),
            pick == (|v: ManifestVersion| v.id),
            out@ == all.take(i as int).filter(pred).map_values(pick),
        decreases manifest.versions.len() - i,
    {
        proof {
            assert(all.take(i as int + 1) =~= all.take(i as int).push(all[i as int]));
            all.take(i as int).lemma_filter_push(all[i as int], pred);
            assert(all.take(i as int).filter(pred).push(all[i as int]).map_values(pick)
                =~= all.take(i as int).filter(pred).map_values(pick).push(all[i as int].id));
        }
        let keep = match filter {
            Some(kind) => manifest.versions[i].version_type == kind,
            None => true,
        };
        if keep {
            out.push(manifest.versions[i].id.clone());
        }
        i += 1;
    }
    proof {
        assert(all.take(manifest.versions.len() as int) =~= all);
    }
    out
}

/// The versions of `versions` that begin with `prefix`.
pub fn versions_with_prefix(versions: &Vec<String>, prefix: &str) -> (r: Vec<String>)
    ensures
        r@ == with_prefix(versions@, prefix@),
{
    let ghost pred = |v: String| begins_with(v@, prefix@);
    let mut out: Vec<String> = Vec::new();
    let mut i: usize = 0;
    proof {
        reveal(Seq::filter);
        assert(versions@.take(0).filter(pred) =~= Seq::<String>::empty());
    }
    while i < versions.len()
        invariant
            i <= versions.len(),
            pred == (|v: String| begins_with(v@, prefix@)),
            out@ == versions@.take(i as int).filter(pred),
        decreases versions.len() - i,
    {
        proof {
            assert(versions@.take(i as int + 1) =~= versions@.take(i as int).push(
                versions@[i as int],
            ));
            versions@.take(i as int).lemma_filter_push(versions@[i as int], pred);
        }
        if starts_with(versions[i].as_str(), prefix) {
            out.push(versions[i].clone());
        }
        i += 1;
    }
    proof {
        assert(versions@.take(versions.len() as int) =~= versions@);
    }
    out
}

/// The loader versions of a metadata listing that go with the game version
/// `mc_version`. Two loaders list versions for every game version; one
/// names the game version at the start of each of its versions; one names
/// it without the leading `1.`.
pub fn get_compatible_loader_versions(loader: &ModLoader, mc_version: &str, listed: Vec<String>) -> (r: Vec<String>)
    ensures
        r@ == match *loader {
            ModLoader::Fabric => listed@,
            ModLoader::Quilt => listed@,
            ModLoader::Forge => with_prefix(listed@, mc_version@),
            ModLoader::NeoForge => if begins_with(mc_version@, "1."@) {
                with_prefix(listed@, mc_version@.subrange(2, mc_version@.len() as int))
            } else {
                Seq::<String>::empty()
            },
        },
{
    match loader {
        ModLoader::Fabric => listed,
        ModLoader::Quilt => listed,
        ModLoader::Forge => versions_with_prefix(&listed, mc_version),
        ModLoader::NeoForge => {
            if starts_with(mc_version, "1.") {
                proof {
                    reveal_strlit("1.");
                }
                let n: usize = mc_version.unicode_len();
                let short = slice(mc_version, 2, n);
                versions_with_prefix(&listed, short.as_str())
            } else {
                Vec::new()
            }
        },
    }
}

/// The loader version to use for `mc_version` where the latest is asked
/// for, among the versions that go with it; a loader with none does not
/// support the game version.
pub fn get_latest_loader_version(loader: &ModLoader, mc_version: &str, versions: &Vec<String>) -> (r: Result<String, Error>)
    ensures
        match r {
            Ok(v) => versions@.len() > 0 && v == latest_of(*loader, versions@),
            Err(e) => versions@.len() == 0 && (e matches Error::NoLoaderSupport(l, m) && l@
                == loader.label_text() && m@ == mc_version@),
        },
{
    if versions.len() == 0 {
        return Err(Error::NoLoaderSupport(loader.label(), String::from_str(mc_version)));
    }
    Ok(
        match loader {
            ModLoader::Fabric => versions[0].clone(),
            ModLoader::Quilt => versions[0].clone(),
            ModLoader::Forge => versions[versions.len() - 1].clone(),
            ModLoader::NeoForge => versions[versions.len() - 1].clone(),
        },
    )
}

impl VersionType {
    /// The word that stands for the value where it is written down.
    pub open spec fn label_text(self) -> Seq<char> {
        match self {
            VersionType::Release => "release"@,
            VersionType::Snapshot => "snapshot"@,
            VersionType::OldAlpha => "old_alpha"@,
            VersionType::OldBeta => "old_beta"@,
        }
    }

    pub fn label(&self) -> (r: String)
        ensures
            r@ == self.label_text(),
    {
        match self {
            VersionType::Release => String::from_str("release"),
            VersionType::Snapshot => String::from_str("snapshot"),
            VersionType::OldAlpha => String::from_str("old_alpha"),
            VersionType::OldBeta => String::from_str("old_beta"),
        }
    }

    /// The value that a word stands for, if it stands for one.
    pub fn from_label(label: &str) -> (r: Option<VersionType>)
        ensures
            match r {
                Some(value) => label@ == value.label_text(),
                None => forall|value: VersionType| label@ != value.label_text(),
            },
    {
        let owned = String::from_str(label);
        if owned == String::from_str("release") {
            Some(VersionType::Release)
        } else if owned == String::from_str("snapshot") {
            Some(VersionType::Snapshot)
        } else if owned == String::from_str("old_alpha") {
            Some(VersionType::OldAlpha)
        } else if owned == String::from_str("old_beta") {
            Some(VersionType::OldBeta)
        } else {
            None
        }
    }
}

} // verus!
