//! The archive format with a single manifest that lists every file with its
//! hashes and download address.

use vstd::prelude::*;
use vstd::string::*;
use crate::cfpack::CfFile;
use crate::curseforge::Mod;
use crate::error::Error;
use crate::index::is_among;
use crate::hashing::{sha1_hex, sha1_of, sha512_hex, sha512_of};
use crate::model::{Addon, AddonSource, ModLoader, Placement, Modpack, PackOptions, ProjectType, Side, Versions};
use crate::modrinth::{has_hash, hash_by, is_hash_at, Project, SideSupportType, VersionFile};
use crate::text::{contains_text, has_text, hex};

verus! {

#[derive(Debug, Clone, PartialEq, Eq)]
pub struct FileHashes {
    pub sha1: String,
    pub sha512: String,
}

#[derive(Debug, Clone, Copy, PartialEq, Eq)]
pub struct FileEnv {
    pub client: SideSupportType,
    pub server: SideSupportType,
}

#[derive(Debug, Clone, Copy, PartialEq, Eq, Structural, Hash)]
pub enum PackDependency {
    Minecraft,
    Forge,
    NeoForge,
    FabricLoader,
    QuiltLoader,
}

#[derive(Debug, Clone, Copy, PartialEq, Eq, Structural)]
pub enum Game {
    Minecraft,
}

/// One file of the pack.
#[derive(Debug, Clone, PartialEq, Eq)]
pub struct File {
    pub path: String,
    pub hashes: FileHashes,
    pub env: Option<FileEnv>,
    pub downloads: Vec<String>,
    pub file_size: usize,
}

/// The version that the pack needs of the game or of a loader.
#[derive(Debug, Clone, PartialEq, Eq)]
pub struct PackVersion {
    pub dependency: PackDependency,
    pub version: String,
}

#[derive(Debug, Clone, PartialEq, Eq)]
pub struct Metadata {
    pub format_version: i32,
    pub game: Game,
    pub version_id: String,
    pub name: String,
    pub summary: Option<String>,
    pub files: Vec<File>,
    pub dependencies: Vec<PackVersion>,
}

impl Metadata {
    /// The needed versions stand for a map: none is given twice.
    pub open spec fn wf(self) -> bool {
        distinct_dependencies(self.dependencies@)
    }
}

impl FileEnv {
    /// Where a file is needed, for an addon of the given side.
    pub open spec fn of(side: Side) -> FileEnv {
        match side {
            Side::Both => FileEnv {
                client: SideSupportType::Required,
                server: SideSupportType::Required,
            },
            Side::Client => FileEnv {
                client: SideSupportType::Required,
                server: SideSupportType::Unsupported,
            },
            Side::Server => FileEnv {
                client: SideSupportType::Unsupported,
                server: SideSupportType::Required,
            },
        }
    }

    pub fn from(value: Side) -> (r: FileEnv)
        ensures
            r == Self::of(value),
    {
        let (client, server) = match value {
            Side::Both => (SideSupportType::Required, SideSupportType::Required),
            Side::Client => (SideSupportType::Required, SideSupportType::Unsupported),
            Side::Server => (SideSupportType::Unsupported, SideSupportType::Required),
        };
        FileEnv { client, server }
    }
}

impl PackDependency {
    /// The entry under which a pack names the version of a loader.
    pub open spec fn of(loader: ModLoader) -> PackDependency {
        match loader {
            ModLoader::Fabric => PackDependency::FabricLoader,
            ModLoader::Quilt => PackDependency::QuiltLoader,
            ModLoader::Forge => PackDependency::Forge,
            ModLoader::NeoForge => PackDependency::NeoForge,
        }
    }

    /// The loader that an entry names; none for the game itself.
    pub open spec fn loader(self) -> Option<ModLoader> {
        match self {
            PackDependency::Forge => Some(ModLoader::Forge),
            PackDependency::NeoForge => Some(ModLoader::NeoForge),
            PackDependency::FabricLoader => Some(ModLoader::Fabric),
            PackDependency::QuiltLoader => Some(ModLoader::Quilt),
            PackDependency::Minecraft => None,
        }
    }

    /// The key of the entry in the manifest.
    pub open spec fn key_text(self) -> Seq<char> {
        match self {
            PackDependency::Minecraft => "minecraft"@,
            PackDependency::Forge => "forge"@,
            PackDependency::NeoForge => "neoforge"@,
            PackDependency::FabricLoader => "fabric-loader"@,
            PackDependency::QuiltLoader => "quilt-loader"@,
        }
    }

    pub fn from(value: ModLoader) -> (r: PackDependency)
        ensures
            r == Self::of(value),
    {
        match value {
            ModLoader::Fabric => PackDependency::FabricLoader,
            ModLoader::Quilt => PackDependency::QuiltLoader,
            ModLoader::Forge => PackDependency::Forge,
            ModLoader::NeoForge => PackDependency::NeoForge,
        }
    }

    pub fn key(&self) -> (r: String)
        ensures
            r@ == self.key_text(),
    {
        match self {
            PackDependency::Minecraft => String::from_str("minecraft"),
            PackDependency::Forge => String::from_str("forge"),
            PackDependency::NeoForge => String::from_str("neoforge"),
            PackDependency::FabricLoader => String::from_str("fabric-loader"),
            PackDependency::QuiltLoader => String::from_str("quilt-loader"),
        }
    }
}

impl ModLoader {
    /// The loader that a pack's entry names.
    pub fn try_from(value: PackDependency) -> (r: Result<ModLoader, Error>)
        ensures
            match r {
                Ok(loader) => value.loader() == Some(loader),
                Err(e) => value == PackDependency::Minecraft && (e matches Error::Other(text) && text@
                    == "Tried to parse 'Minecraft' mrpack DependencyType into ModLoader"@),
            },
    {
        match value {
            PackDependency::Forge => Ok(ModLoader::Forge),
            PackDependency::NeoForge => Ok(ModLoader::NeoForge),
            PackDependency::FabricLoader => Ok(ModLoader::Fabric),
            PackDependency::QuiltLoader => Ok(ModLoader::Quilt),
            PackDependency::Minecraft => Err(
                Error::Other(
                    String::from_str("Tried to parse 'Minecraft' mrpack DependencyType into ModLoader"),
                ),
            ),
        }
    }
}

/// A loader and the entry that names it stand for each other.
pub proof fn lemma_loader_entry_round_trip(loader: ModLoader)
    ensures
        PackDependency::of(loader).loader() == Some(loader),
        PackDependency::of(loader) != PackDependency::Minecraft,
{
}

/// The name of the archive of a pack: its name, a dash, its version, a dot
/// and the format's extension.
pub open spec fn archive_name_text(name: Seq<char>, version: Seq<char>, extension: Seq<char>) -> Seq<char> {
    name + "-"@ + version + "."@ + extension
}

pub fn archive_name(name: &str, version: &str, extension: &str) -> (r: String)
    ensures
        r@ == archive_name_text(name@, version@, extension@),
{
    String::from_str(name).concat("-").concat(version).concat(".").concat(extension)
}

/// The entry of a file that the registry hosts: under the folder of its
/// project type, with the registry's hashes and address. It fails where
/// the registry gave no SHA-1 or no SHA-512 digest.
pub fn registry_file(
    file: &VersionFile,
    project_type: &ProjectType,
    side: &Side,
    options: &PackOptions,
) -> (r: Result<File, Error>)
    ensures
        match r {
            Ok(f) => {
                &&& f.path@ == project_type.export_folder_text(*options) + "/"@ + file.filename@
                &&& exists|i: int| #[trigger] is_hash_at(file.hashes@, "sha1"@, i) && f.hashes.sha1 == file.hashes@[i].value
                &&& exists|i: int| #[trigger] is_hash_at(file.hashes@, "sha512"@, i) && f.hashes.sha512 == file.hashes@[i].value
                &&& f.env == Some(FileEnv::of(*side))
                &&& f.downloads@ == seq![file.url]
                &&& f.file_size == file.size
            },
            Err(e) => (!has_hash(file.hashes@, "sha1"@) || !has_hash(file.hashes@, "sha512"@)) && (e
                matches Error::Other(text) && text@ == file.url@ + " file does not have the hashes that a pack needs"@),
        },
{
    let sha1 = hash_by(file, "sha1");
    let sha512 = hash_by(file, "sha512");
    match (sha1, sha512) {
        (Some(sha1), Some(sha512)) => {
            let folder = project_type.export_folder(options);
            let mut downloads: Vec<String> = Vec::new();
            downloads.push(file.url.clone());
            proof {
                assert(downloads@ =~= seq![file.url]);
            }
            Ok(
                File {
                    path: folder.concat("/").concat(file.filename.as_str()),
                    hashes: FileHashes { sha1, sha512 },
                    env: Some(FileEnv::from(*side)),
                    downloads,
                    file_size: file.size,
                },
            )
        },
        _ => Err(
            Error::Other(
                file.url.clone().concat(" file does not have the hashes that a pack needs"),
            ),
        ),
    }
}

/// The entry of a file that was fetched and is hashed here.
pub fn materialized_file(
    file_name: &str,
    url: &str,
    size: usize,
    bytes: &[u8],
    project_type: &ProjectType,
    options: &PackOptions,
) -> (r: File)
    ensures
        r.path@ == project_type.export_folder_text(*options) + "/"@ + file_name@,
        r.hashes.sha1@ == hex(sha1_of(bytes@)),
        r.hashes.sha512@ == hex(sha512_of(bytes@)),
        r.env is None,
        r.downloads@.len() == 1 && r.downloads@[0]@ == url@,
        r.file_size == size,
{
    let folder = project_type.export_folder(options);
    let mut downloads: Vec<String> = Vec::new();
    downloads.push(String::from_str(url));
    File {
        path: folder.concat("/").concat(file_name),
        hashes: FileHashes { sha1: sha1_hex(bytes), sha512: sha512_hex(bytes) },
        env: None,
        downloads,
        file_size: size,
    }
}

/// The manifest of a pack with the given files, for the loader version `loader_version`.
pub fn metadata(modpack: &Modpack, loader_version: String, files: Vec<File>) -> (r: Metadata)
    ensures
        r.format_version == 1,
        r.game == Game::Minecraft,
        r.version_id == modpack.version,
        r.name == modpack.name,
        r.summary == modpack.description,
        r.files == files,
        r.dependencies@ == seq![
            PackVersion { dependency: PackDependency::Minecraft, version: modpack.versions.minecraft },
            PackVersion {
                dependency: PackDependency::of(modpack.versions.loader),
                version: loader_version,
            },
        ],
        r.wf(),
{
    let mut dependencies: Vec<PackVersion> = Vec::new();
    dependencies.push(
        PackVersion {
            dependency: PackDependency::Minecraft,
            version: modpack.versions.minecraft.clone(),
        },
    );
    dependencies.push(
        PackVersion { dependency: PackDependency::from(modpack.versions.loader), version: loader_version },
    );
    let r = Metadata {
        format_version: 1,
        game: Game::Minecraft,
        version_id: modpack.version.clone(),
        name: modpack.name.clone(),
        summary: match &modpack.description {
            Some(s) => Some(s.clone()),
            None => None,
        },
        files,
        dependencies,
    };
    proof {
        assert(r.dependencies@ =~= seq![
            PackVersion { dependency: PackDependency::Minecraft, version: modpack.versions.minecraft },
            PackVersion {
                dependency: PackDependency::of(modpack.versions.loader),
                version: loader_version,
            },
        ]);
    }
    r
}

/// Whether `i` is the place of the first entry for the game (`game` set) or
/// for a loader (`game` not set).
pub open spec fn is_first_entry(dependencies: Seq<PackVersion>, game: bool, i: int) -> bool {
    &&& 0 <= i < dependencies.len()
    &&& (dependencies[i].dependency == PackDependency::Minecraft) == game
    &&& forall|j: int| 0 <= j < i ==> ((#[trigger] dependencies[j]).dependency == PackDependency::Minecraft) != game
}

pub open spec fn has_entry(dependencies: Seq<PackVersion>, game: bool) -> bool {
    exists|i: int| 0 <= i < dependencies.len() && ((#[trigger] dependencies[i]).dependency == PackDependency::Minecraft) == game
}

fn first_entry(dependencies: &Vec<PackVersion>, game: bool) -> (r: Option<usize>)
    ensures
        match r {
            Some(i) => is_first_entry(dependencies@, game, i as int),
            None => !has_entry(dependencies@, game),
        },
{
    let mut i: usize = 0;
    while i < dependencies.len()
        invariant
            i <= dependencies.len(),
            forall|j: int| 0 <= j < i ==> ((#[trigger] dependencies@[j]).dependency == PackDependency::Minecraft) != game,
        decreases dependencies.len() - i,
    {
        if (dependencies[i].dependency == PackDependency::Minecraft) == game {
            return Some(i);
        }
        i += 1;
    }
    None
}

/// What is said of a pack that cannot be imported for want of an entry:
/// for the game where it has none, else for a loader.
pub open spec fn missing_entry_text(has_game: bool) -> Seq<char> {
    if has_game {
        "modpack does not have a mod loader"@
    } else {
        "modpack does not name a game version"@
    }
}

/// The target that a manifest declares: the version of its first entry for
/// the game, and the loader and version of its first entry for a loader.
/// A manifest without one of the two cannot be imported.
pub fn declared_versions(dependencies: &Vec<PackVersion>) -> (r: Result<Versions, Error>)
    ensures
        match r {
            Ok(v) => exists|g: int, l: int| #[trigger] is_first_entry(dependencies@, true, g) && #[trigger] is_first_entry(dependencies@, false, l)
                && v.minecraft == dependencies@[g].version
                && Some(v.loader) == dependencies@[l].dependency.loader()
                && v.loader_version == dependencies@[l].version,
            Err(e) => (!has_entry(dependencies@, true) || !has_entry(dependencies@, false)) && (e
                matches Error::BadImport(text) && text@ == missing_entry_text(has_entry(dependencies@, true))),
        },
{
    let game = first_entry(dependencies, true);
    let loader = first_entry(dependencies, false);
    match (game, loader) {
        (Some(g), Some(l)) => {
            match ModLoader::try_from(dependencies[l].dependency) {
                Ok(found) => {
                    let v = Versions {
                        minecraft: dependencies[g].version.clone(),
                        loader: found,
                        loader_version: dependencies[l].version.clone(),
                    };
                    proof {
                        assert(is_first_entry(dependencies@, true, g as int) && is_first_entry(dependencies@, false, l as int));
                    }
                    Ok(v)
                },
                Err(_) => {
                    proof {
                        assert(false);
                    }
                    Err(Error::BadImport(String::from_str("modpack does not have a mod loader")))
                },
            }
        },
        (None, _) => Err(Error::BadImport(String::from_str("modpack does not name a game version"))),
        (_, None) => Err(Error::BadImport(String::from_str("modpack does not have a mod loader"))),
    }
}

/// The SHA-1 digest of each file, in order: what an import asks the registry about.
pub fn sha1_hashes(files: &Vec<File>) -> (r: Vec<String>)
    ensures
        r@ == files@.map_values(|f: File| f.hashes.sha1),
{
    let ghost pick = |f: File| f.hashes.sha1;
    let mut out: Vec<String> = Vec::new();
    let mut i: usize = 0;
    while i < files.len()
        invariant
            i <= files.len(),
            pick == (|f: File| f.hashes.sha1),
            out@ == files@.take(i as int).map_values(pick),
        decreases files.len() - i,
    {
        out.push(files[i].hashes.sha1.clone());
        proof {
            assert(files@.take(i as int + 1).map_values(pick) =~= files@.take(i as int).map_values(
                pick,
            ).push(pick(files@[i as int])));
        }
        i += 1;
    }
    proof {
        assert(files@.take(files.len() as int) =~= files@);
    }
    out
}

/// The paths of the files that the registry knew by hash: they are addons
/// now and are removed from what was unpacked.
pub fn matched_paths(files: &Vec<File>, matched_hashes: &Vec<String>) -> (r: Vec<String>)
    ensures
        r@ == files@.filter(|f: File| has_text(matched_hashes@, f.hashes.sha1@)).map_values(
            |f: File| f.path,
        ),
{
    let ghost pred = |f: File| has_text(matched_hashes@, f.hashes.sha1@);
    let ghost pick = |f: File| f.path;
    let mut out: Vec<String> = Vec::new();
    let mut i: usize = 0;
    proof {
        reveal(Seq::filter);
        assert(files@.take(0).filter(pred) =~= Seq::<File>::empty());
        assert(Seq::<File>::empty().map_values(pick) =~= Seq::<String>::empty());
    }
    while i < files.len()
        invariant
            i <= files.len(),
            pred == (|f: File| has_text(matched_hashes@, f.hashes.sha1@)),
            pick == (|f: File| f.path),
            out@ == files@.take(i as int).filter(pred).map_values(pick),
        decreases files.len() - i,
    {
        proof {
            assert(files@.take(i as int + 1) =~= files@.take(i as int).push(files@[i as int]));
            files@.take(i as int).lemma_filter_push(files@[i as int], pred);
            assert(files@.take(i as int).filter(pred).push(files@[i as int]).map_values(pick)
                =~= files@.take(i as int).filter(pred).map_values(pick).push(files@[i as int].path));
        }
        if contains_text(matched_hashes, &files[i].hashes.sha1) {
            out.push(files[i].path.clone());
        }
        i += 1;
    }
    proof {
        assert(files@.take(files.len() as int) =~= files@);
    }
    out
}

/// A version that the registry knew by the hash of one of its files.
#[derive(Debug, Clone, PartialEq, Eq)]
pub struct HashedVersion {
    pub hash: String,
    pub project_id: String,
    pub version_id: String,
}

/// Whether `i` is the place of the first version of the project `project_id`.
pub open spec fn is_version_at(versions: Seq<HashedVersion>, project_id: Seq<char>, i: int) -> bool {
    &&& 0 <= i < versions.len()
    &&& versions[i].project_id@ == project_id
    &&& forall|j: int| 0 <= j < i ==> (#[trigger] versions[j]).project_id@ != project_id
}

/// The version that was found for the project, if one was.
pub fn version_of(versions: &Vec<HashedVersion>, project_id: &String) -> (r: Option<usize>)
    ensures
        match r {
            Some(i) => is_version_at(versions@, project_id@, i as int),
            None => forall|j: int| 0 <= j < versions@.len() ==> (#[trigger] versions@[j]).project_id@ != project_id@,
        },
{
    let mut i: usize = 0;
    while i < versions.len()
        invariant
            i <= versions.len(),
            forall|j: int| 0 <= j < i ==> (#[trigger] versions@[j]).project_id@ != project_id@,
        decreases versions.len() - i,
    {
        if versions[i].project_id == *project_id {
            return Some(i);
        }
        i += 1;
    }
    None
}

/// Whether `addon` is what an import makes of the project, given the
/// versions that the registry knew by hash: the project at the first
/// version that was found for it.
pub open spec fn imports(project: Project, versions: Seq<HashedVersion>, addon: Addon) -> bool {
    exists|i: int| #[trigger] is_version_at(versions, project.id@, i) && addon == (Addon {
        filename: None,
        ..project.as_addon(versions[i].version_id, versions[i].version_id)
    })
}

/// The addon of an imported pack for a project that the registry knew by
/// hash: at the version that was found for it; none where none was.
pub fn imported_addon(project: &Project, versions: &Vec<HashedVersion>) -> (r: Option<Addon>)
    ensures
        match r {
            Some(addon) => imports(*project, versions@, addon),
            None => forall|j: int| 0 <= j < versions@.len() ==> (#[trigger] versions@[j]).project_id@ != project.id@,
        },
{
    match version_of(versions, &project.id) {
        None => None,
        Some(i) => {
            let addon = project.addon(versions[i].version_id.clone());
            let Addon { name, project_type, side, source, options, filename: _ } = addon;
            proof {
                assert(is_version_at(versions@, project.id@, i as int));
            }
            Some(Addon { name, project_type, side, source, options, filename: None })
        },
    }
}

/// Whether the registry found, by the hashes of an exported pack, for each
/// of the addons the version that the addon is at, under the addon's project.
pub open spec fn found_for(addons: Seq<Addon>, versions: Seq<HashedVersion>) -> bool {
    &&& versions.len() == addons.len()
    &&& forall|k: int| 0 <= k < addons.len() ==> ((#[trigger] addons[k]).source matches AddonSource::Modrinth(s)
        && versions[k].project_id@ == s.id@ && versions[k].version_id@ == s.version@)
}

/// Where the registry finds every exported addon again by the hash of its
/// file, and no two addons are the same project, an import gives each
/// project the identity and the version of the addon that was exported.
pub proof fn lemma_import_recovers_exported(
    addons: Seq<Addon>,
    versions: Seq<HashedVersion>,
    k: int,
    project: Project,
    imported: Addon,
)
    requires
        found_for(addons, versions),
        forall|i: int, j: int| 0 <= i < j < addons.len() ==> (#[trigger] addons[i]).identity() != (#[trigger] addons[j]).identity(),
        0 <= k < addons.len(),
        addons[k].source matches AddonSource::Modrinth(s) && project.id@ == s.id@,
        imports(project, versions, imported),
    ensures
        imported.identity() == addons[k].identity(),
        imported.source matches AddonSource::Modrinth(t) && t.version@ == addons[k].source->Modrinth_0.version@,
{
    let i = choose|i: int| #[trigger] is_version_at(versions, project.id@, i) && imported == (Addon {
        filename: None,
        ..project.as_addon(versions[i].version_id, versions[i].version_id)
    });
    assert(addons[k].source is Modrinth);
    assert(versions[k].project_id@ == project.id@);
    if i < k {
        assert(addons[i].source is Modrinth);
        assert(addons[i].identity() == addons[k].identity());
    }
}

/// The ids of the projects of the versions, in order: what an import asks
/// the registry about next.
pub fn project_ids(versions: &Vec<HashedVersion>) -> (r: Vec<String>)
    ensures
        r@ == versions@.map_values(|v: HashedVersion| v.project_id),
{
    let ghost pick = |v: HashedVersion| v.project_id;
    let mut out: Vec<String> = Vec::new();
    let mut i: usize = 0;
    while i < versions.len()
        invariant
            i <= versions.len(),
            pick == (|v: HashedVersion| v.project_id),
            out@ == versions@.take(i as int).map_values(pick),
        decreases versions.len() - i,
    {
        out.push(versions[i].project_id.clone());
        proof {
            assert(versions@.take(i as int + 1).map_values(pick) =~= versions@.take(
                i as int,
            ).map_values(pick).push(pick(versions@[i as int])));
        }
        i += 1;
    }
    proof {
        assert(versions@.take(versions.len() as int) =~= versions@);
    }
    out
}

/// Whether a file that lies loose among the unpacked mods can be looked
/// up by fingerprint: its name ends like an archive of classes.
pub fn is_jar(file_name: &str) -> (r: bool)
    ensures
        r == crate::text::finishes_with(file_name@, ".jar"@),
{
    crate::text::ends_with(file_name, ".jar")
}

impl PackDependency {
    /// The value that a word stands for, if it stands for one.
    pub fn from_key(label: &str) -> (r: Option<PackDependency>)
        ensures
            match r {
                Some(value) => label@ == value.key_text(),
                None => forall|value: PackDependency| label@ != value.key_text(),
            },
    {
        let owned = String::from_str(label);
        if owned == String::from_str("minecraft") {
            Some(PackDependency::Minecraft)
        } else if owned == String::from_str("forge") {
            Some(PackDependency::Forge)
        } else if owned == String::from_str("neoforge") {
            Some(PackDependency::NeoForge)
        } else if owned == String::from_str("fabric-loader") {
            Some(PackDependency::FabricLoader)
        } else if owned == String::from_str("quilt-loader") {
            Some(PackDependency::QuiltLoader)
        } else {
            None
        }
    }
}

/// How an addon enters an archive with a manifest of files: one of the
/// format's own registry is listed from registry data, one of a release is
/// listed after its file was hashed here, and one of the other registry,
/// which gives no address to list, goes under the overrides.
pub open spec fn placement_of(source: AddonSource) -> Placement {
    match source {
        AddonSource::Modrinth(_) => Placement::Listed,
        AddonSource::Github(_) => Placement::Materialized,
        AddonSource::Curseforge(_) => Placement::Override,
    }
}

pub fn placement(source: &AddonSource) -> (r: Placement)
    ensures
        r == placement_of(*source),
{
    match source {
        AddonSource::Modrinth(_) => Placement::Listed,
        AddonSource::Github(_) => Placement::Materialized,
        AddonSource::Curseforge(_) => Placement::Override,
    }
}

/// A file that was found loose among what was unpacked, with its SHA-1 digest.
#[derive(Debug, Clone, PartialEq, Eq)]
pub struct LooseFile {
    pub path: String,
    pub sha1: String,
}

/// The paths of the loose files that the registry knew by hash: they are
/// addons now and are removed from what was unpacked.
pub fn matched_loose(files: &Vec<LooseFile>, matched_hashes: &Vec<String>) -> (r: Vec<String>)
    ensures
        r@ == files@.filter(|f: LooseFile| has_text(matched_hashes@, f.sha1@)).map_values(
            |f: LooseFile| f.path,
        ),
{
    let ghost pred = |f: LooseFile| has_text(matched_hashes@, f.sha1@);
    let ghost pick = |f: LooseFile| f.path;
    let mut out: Vec<String> = Vec::new();
    let mut i: usize = 0;
    proof {
        reveal(Seq::filter);
        assert(files@.take(0).filter(pred) =~= Seq::<LooseFile>::empty());
        assert(Seq::<LooseFile>::empty().map_values(pick) =~= Seq::<String>::empty());
    }
    while i < files.len()
        invariant
            i <= files.len(),
            pred == (|f: LooseFile| has_text(matched_hashes@, f.sha1@)),
            pick == (|f: LooseFile| f.path),
            out@ == files@.take(i as int).filter(pred).map_values(pick),
        decreases files.len() - i,
    {
        proof {
            assert(files@.take(i as int + 1) =~= files@.take(i as int).push(files@[i as int]));
            files@.take(i as int).lemma_filter_push(files@[i as int], pred);
            assert(files@.take(i as int).filter(pred).push(files@[i as int]).map_values(pick)
                =~= files@.take(i as int).filter(pred).map_values(pick).push(files@[i as int].path));
        }
        if contains_text(matched_hashes, &files[i].sha1) {
            out.push(files[i].path.clone());
        }
        i += 1;
    }
    proof {
        assert(files@.take(files.len() as int) =~= files@);
    }
    out
}


/// Whether no entry for the game or for a loader occurs twice: the list stands for a map, and a
/// lookup finds the only entry of its key.
pub open spec fn distinct_dependencies(list: Seq<PackVersion>) -> bool {
    forall|i: int, j: int| 0 <= i < j < list.len() ==> (#[trigger] list[i]).dependency != (#[trigger] list[j]).dependency
}

pub fn has_distinct_dependencies(list: &Vec<PackVersion>) -> (r: bool)
    ensures
        r == distinct_dependencies(list@),
{
    let mut j: usize = 0;
    while j < list.len()
        invariant
            j <= list.len(),
            forall|a: int, b: int| 0 <= a < b < j ==> (#[trigger] list@[a]).dependency != (#[trigger] list@[b]).dependency,
        decreases list.len() - j,
    {
        let mut i: usize = 0;
        while i < j
            invariant
                i <= j < list.len(),
                forall|a: int| 0 <= a < i ==> (#[trigger] list@[a]).dependency != list@[j as int].dependency,
            decreases j - i,
        {
            if list[i].dependency == list[j].dependency {
                return false;
            }
            i += 1;
        }
        j += 1;
    }
    true
}

/// Where no key occurs twice, the entry for the game that a lookup
/// finds is the only entry for the game.
pub proof fn lemma_game_entry_is_the_only(list: Seq<PackVersion>, i: int, j: int)
    requires
        distinct_dependencies(list),
        is_first_entry(list, true, i),
        0 <= j < list.len(),
        list[j].dependency == PackDependency::Minecraft,
    ensures
        i == j,
{
}

/// Whether a version was found for the project.
pub open spec fn has_version(versions: Seq<HashedVersion>, project_id: Seq<char>) -> bool {
    exists|j: int| 0 <= j < versions.len() && (#[trigger] versions[j]).project_id@ == project_id
}

/// Whether `addon` is the import of one of the projects.
pub open spec fn imported_from(projects: Seq<Project>, versions: Seq<HashedVersion>, addon: Addon) -> bool {
    exists|p: int| 0 <= p < projects.len() && imports(#[trigger] projects[p], versions, addon)
}

/// Whether the list holds the import of the project.
pub open spec fn holds_import(list: Seq<Addon>, project: Project, versions: Seq<HashedVersion>) -> bool {
    exists|i: int| 0 <= i < list.len() && imports(project, versions, #[trigger] list[i])
}

/// Whether `list` is what an import makes of the projects: the import of
/// each project that a version was found for, and nothing else.
pub open spec fn is_import_of(projects: Seq<Project>, versions: Seq<HashedVersion>, list: Seq<Addon>) -> bool {
    &&& forall|i: int| 0 <= i < list.len() ==> imported_from(projects, versions, #[trigger] list[i])
    &&& forall|p: int| 0 <= p < projects.len() && has_version(versions, (#[trigger] projects[p]).id@) ==> holds_import(
        list,
        projects[p],
        versions,
    )
}

/// The addons of the projects that the registry knew by hash, in the order
/// of the projects.
pub fn imported_addons(projects: &Vec<Project>, versions: &Vec<HashedVersion>) -> (r: Vec<Addon>)
    ensures
        is_import_of(projects@, versions@, r@),
{
    let mut out: Vec<Addon> = Vec::new();
    let mut k: usize = 0;
    while k < projects.len()
        invariant
            k <= projects.len(),
            forall|i: int| 0 <= i < out@.len() ==> imported_from(projects@, versions@, #[trigger] out@[i]),
            forall|p: int| 0 <= p < k && has_version(versions@, (#[trigger] projects@[p]).id@) ==> holds_import(out@, projects@[p], versions@),
        decreases projects.len() - k,
    {
        let ghost before = out@;
        match imported_addon(&projects[k], versions) {
            Some(addon) => {
                out.push(addon);
                proof {
                    assert(imports(projects@[k as int], versions@, addon));
                    assert(out@[before.len() as int] == addon);
                    assert forall|i: int| 0 <= i < out@.len() implies imported_from(projects@, versions@, #[trigger] out@[i]) by {
                        if i < before.len() {
                            assert(out@[i] == before[i]);
                        }
                    }
                    assert forall|p: int| 0 <= p < k + 1 && has_version(versions@, (#[trigger] projects@[p]).id@) implies holds_import(out@, projects@[p], versions@) by {
                        if p < k {
                            let i = choose|i: int| 0 <= i < before.len() && imports(projects@[p], versions@, #[trigger] before[i]);
                            assert(out@[i] == before[i]);
                        }
                    }
                }
            },
            None => {},
        }
        k += 1;
    }
    out
}

/// Whether the registries answered for an exported index: every addon is
/// of one of the two registries and was found again, by the hash of its
/// file at the first or by its fingerprint at the second, and nothing was
/// found that was not exported.
pub open spec fn answered(
    exported: Seq<Addon>,
    projects: Seq<Project>,
    versions: Seq<HashedVersion>,
    mods: Seq<Mod>,
    matched: Seq<CfFile>,
) -> bool {
    &&& forall|k: int| 0 <= k < exported.len() ==> found_again(#[trigger] exported[k], projects, versions, mods, matched)
    &&& forall|p: int| 0 <= p < projects.len() ==> is_among(exported, project_as(#[trigger] projects[p]))
    &&& forall|m: int| 0 <= m < mods.len() ==> is_among(exported, mod_as(#[trigger] mods[m]))
}

/// Whether the registries found the addon again.
pub open spec fn found_again(
    addon: Addon,
    projects: Seq<Project>,
    versions: Seq<HashedVersion>,
    mods: Seq<Mod>,
    matched: Seq<CfFile>,
) -> bool {
    match addon.source {
        AddonSource::Modrinth(s) => has_version(versions, s.id@) && exists|p: int|
            0 <= p < projects.len() && (#[trigger] projects[p]).id@ == s.id@,
        AddonSource::Curseforge(s) => exists|m: int|
            0 <= m < mods.len() && (#[trigger] mods[m]).id == s.id && crate::cfpack::importable(mods[m], matched),
        AddonSource::Github(_) => false,
    }
}

/// An addon that stands for a project of the first registry, whatever its version.
pub open spec fn project_as(project: Project) -> Addon {
    project.as_addon(project.id, project.id)
}

/// An addon that stands for a mod of the second registry, whatever its file.
pub open spec fn mod_as(cf_mod: Mod) -> Addon {
    cf_mod.as_addon(ProjectType::Unknown, 0, cf_mod.name)
}

/// Whether two lists hold the same projects: each generic id of the one
/// is a generic id of the other.
pub open spec fn same_ids(a: Seq<Addon>, b: Seq<Addon>) -> bool {
    &&& forall|i: int| 0 <= i < a.len() ==> is_among(b, #[trigger] a[i])
    &&& forall|k: int| 0 <= k < b.len() ==> is_among(a, #[trigger] b[k])
}

/// An index that is exported to an archive and imported again holds the
/// same generic ids as before, where the registries answer for every one
/// of its addons: what the first registry knows by hash and what the
/// second matches by fingerprint are, together, the projects that were
/// exported. Names and versions may differ.
pub proof fn lemma_import_recovers_ids(
    exported: Seq<Addon>,
    projects: Seq<Project>,
    versions: Seq<HashedVersion>,
    mods: Seq<Mod>,
    matched: Seq<CfFile>,
    first: Seq<Addon>,
    second: Seq<Addon>,
)
    requires
        answered(exported, projects, versions, mods, matched),
        is_import_of(projects, versions, first),
        crate::cfpack::is_import_of(mods, matched, second),
    ensures
        same_ids(first + second, exported),
{
    let all = first + second;
    assert forall|i: int| 0 <= i < all.len() implies is_among(exported, #[trigger] all[i]) by {
        if i < first.len() {
            assert(all[i] == first[i]);
            assert(imported_from(projects, versions, first[i]));
            let p = choose|p: int| 0 <= p < projects.len() && imports(#[trigger] projects[p], versions, first[i]);
            assert(is_among(exported, project_as(projects[p])));
            let k = choose|k: int| 0 <= k < exported.len() && (#[trigger] exported[k]).identity() == project_as(projects[p]).identity();
            assert(exported[k].identity() == all[i].identity());
        } else {
            let j = i - first.len();
            assert(all[i] == second[j]);
            assert(crate::cfpack::imported_from(mods, matched, second[j]));
            let m = choose|m: int| 0 <= m < mods.len() && crate::cfpack::imports(#[trigger] mods[m], matched, second[j]);
            assert(is_among(exported, mod_as(mods[m])));
            let k = choose|k: int| 0 <= k < exported.len() && (#[trigger] exported[k]).identity() == mod_as(mods[m]).identity();
            assert(exported[k].identity() == all[i].identity());
        }
    }
    assert forall|k: int| 0 <= k < exported.len() implies is_among(all, #[trigger] exported[k]) by {
        assert(found_again(exported[k], projects, versions, mods, matched));
        match exported[k].source {
            AddonSource::Modrinth(s) => {
                let p = choose|p: int| 0 <= p < projects.len() && (#[trigger] projects[p]).id@ == s.id@;
                assert(has_version(versions, projects[p].id@));
                assert(holds_import(first, projects[p], versions));
                let i = choose|i: int| 0 <= i < first.len() && imports(projects[p], versions, #[trigger] first[i]);
                assert(all[i] == first[i]);
                assert(all[i].identity() == exported[k].identity());
            },
            AddonSource::Curseforge(s) => {
                let m = choose|m: int| 0 <= m < mods.len() && (#[trigger] mods[m]).id == s.id && crate::cfpack::importable(mods[m], matched);
                assert(crate::cfpack::holds_import(second, mods[m], matched));
                let i = choose|i: int| 0 <= i < second.len() && crate::cfpack::imports(mods[m], matched, #[trigger] second[i]);
                assert(all[first.len() + i] == second[i]);
                assert(all[first.len() + i].identity() == exported[k].identity());
            },
            AddonSource::Github(_) => {},
        }
    }
}

} // verus!
