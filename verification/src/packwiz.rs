//! The directory format in which every addon has a descriptor, every
//! descriptor is listed with its hash in an index, and the index is named
//! with its hash by the pack's root descriptor.

use vstd::prelude::*;
use vstd::string::*;
use crate::curseforge::{File, FileHash};
use crate::error::Error;
use crate::github::ReleaseAsset;
use crate::hashing::{sha256_hex, sha256_of};
use crate::model::{Addon, AddonOptions, AddonSource, CurseforgeSource, ModLoader, Modpack, ModrinthSource, ProjectType, Side, Versions};
use crate::modrinth::{has_hash, hash_by, is_hash_at, VersionFile};
use crate::text::{begins_with, ends_with, finishes_with, find_char, first_index_of, hex, lemma_first_index_of, lowercase_of, replace_char, replaced, slice, starts_with, to_lowercase};

verus! {

#[derive(Debug, Clone, Copy, PartialEq, Eq, Structural)]
pub enum HashFormat {
    Sha512,
    Sha256,
    Sha1,
    Md5,
    Murmur2,
}

#[derive(Debug, Clone, Copy, PartialEq, Eq, Structural)]
pub enum DownloadMode {
    Url,
    Curseforge,
}

/// The version that the pack needs of the game or of a loader, by name.
#[derive(Debug, Clone, PartialEq, Eq)]
pub struct VersionEntry {
    pub name: String,
    pub version: String,
}

#[derive(Debug, Clone, PartialEq, Eq)]
pub struct PwIndexInfo {
    pub file: String,
    pub hash_format: HashFormat,
    pub hash: String,
}

#[derive(Debug, Clone, PartialEq, Eq)]
pub struct PwPack {
    pub name: String,
    pub author: Option<String>,
    pub version: Option<String>,
    pub description: Option<String>,
    pub pack_format: String,
    pub index: PwIndexInfo,
    pub versions: Vec<VersionEntry>,
}

#[derive(Debug, Clone, PartialEq, Eq)]
pub struct IndexFile {
    pub file: String,
    pub hash: String,
    pub hash_format: Option<HashFormat>,
    pub metafile: Option<bool>,
}

#[derive(Debug, Clone, PartialEq, Eq)]
pub struct PwIndex {
    pub hash_format: HashFormat,
    pub files: Vec<IndexFile>,
}

#[derive(Debug, Clone, PartialEq, Eq)]
pub struct ModDownload {
    pub url: Option<String>,
    pub hash_format: HashFormat,
    pub hash: String,
    pub mode: Option<DownloadMode>,
}

#[derive(Debug, Clone, PartialEq, Eq)]
pub struct ModrinthModUpdate {
    pub mod_id: String,
    pub version: String,
}

#[derive(Debug, Clone, Copy, PartialEq, Eq)]
pub struct CurseforgeModUpdate {
    pub project_id: i32,
    pub file_id: i32,
}

#[derive(Debug, Clone, PartialEq, Eq)]
pub struct ModUpdate {
    pub modrinth: Option<ModrinthModUpdate>,
    pub curseforge: Option<CurseforgeModUpdate>,
}

#[derive(Debug, Clone, PartialEq, Eq)]
pub struct ModOptions {
    pub optional: bool,
    pub default: Option<bool>,
    pub description: Option<String>,
}

#[derive(Debug, Clone, PartialEq, Eq)]
pub struct PwMod {
    pub name: String,
    pub filename: String,
    pub download: ModDownload,
    pub option: Option<ModOptions>,
    pub side: Option<Side>,
    pub update: Option<ModUpdate>,
}

/// A descriptor as it is written: where, with which hash, and its text.
#[derive(Debug, Clone, PartialEq, Eq)]
pub struct PwModHelper {
    pub file_path: String,
    pub hash: String,
    pub pwmod_str: String,
}

/// A descriptor as it is written: where, with which hash, and its text.
#[derive(Debug, Clone, PartialEq, Eq)]
pub struct ExportHelper {
    pub file_path: String,
    pub hash: String,
    pub pwmod_str: String,
}

/// Where a descriptor or the index is read from.
#[derive(Debug, Clone, PartialEq, Eq)]
pub enum PwFile {
    Local(String),
    Url(String),
}

impl PwPack {
    /// The needed versions stand for a map: no name is given twice.
    pub open spec fn wf(self) -> bool {
        distinct_names(self.versions@)
    }
}

impl HashFormat {
    /// The format that the second registry numbers `algo`.
    pub open spec fn of_algo(algo: int) -> Option<HashFormat> {
        if algo == 1 {
            Some(HashFormat::Sha1)
        } else if algo == 2 {
            Some(HashFormat::Md5)
        } else {
            None
        }
    }

    pub fn from(value: i32) -> (r: Option<HashFormat>)
        ensures
            r == Self::of_algo(value as int),
    {
        if value == 1 {
            Some(HashFormat::Sha1)
        } else if value == 2 {
            Some(HashFormat::Md5)
        } else {
            None
        }
    }
}

/// The pointer by which an installed addon is resolved again; none for an
/// origin that the format has no pointer for.
pub open spec fn update_of(source: AddonSource) -> Option<ModUpdate> {
    match source {
        AddonSource::Modrinth(s) => Some(
            ModUpdate {
                modrinth: Some(ModrinthModUpdate { mod_id: s.id, version: s.version }),
                curseforge: None,
            },
        ),
        AddonSource::Curseforge(s) => Some(
            ModUpdate {
                modrinth: None,
                curseforge: Some(CurseforgeModUpdate { project_id: s.id, file_id: s.version }),
            },
        ),
        AddonSource::Github(_) => None,
    }
}

/// The origin that a pointer names: the first registry's where it has one,
/// else the second registry's; none where it has neither.
pub open spec fn source_of(update: Option<ModUpdate>) -> Option<AddonSource> {
    match update {
        Some(u) => match u.modrinth {
            Some(m) => Some(AddonSource::Modrinth(ModrinthSource { id: m.mod_id, version: m.version })),
            None => match u.curseforge {
                Some(c) => Some(
                    AddonSource::Curseforge(CurseforgeSource { id: c.project_id, version: c.file_id }),
                ),
                None => None,
            },
        },
        None => None,
    }
}

/// An origin that is written as a pointer is read back as itself.
pub proof fn lemma_pointer_round_trip(source: AddonSource)
    requires
        !(source is Github),
    ensures
        source_of(update_of(source)) == Some(source),
{
}

/// The project type that a descriptor has by the folder it lies in.
pub open spec fn type_of_folder(folder: Seq<char>) -> ProjectType {
    if folder == "mods"@ {
        ProjectType::Mod
    } else if folder == "resourcepacks"@ {
        ProjectType::Resourcepack
    } else if folder == "datapacks"@ {
        ProjectType::Datapack
    } else if folder == "shaderpacks"@ || folder == "shaders"@ {
        ProjectType::Shader
    } else {
        ProjectType::Unknown
    }
}

/// The place of a descriptor in the pack: the folder of its project type,
/// and the addon's name in lower case with a dash for each space.
pub open spec fn descriptor_path_text(project_type: ProjectType, name: Seq<char>) -> Seq<char> {
    project_type.folder_text() + "/"@ + replaced(lowercase_of(name), ' ', '-') + ".pw.toml"@
}

/// Whether `i` is the place of the file's first hash in the format numbered `algo`.
pub open spec fn is_algo_at(hashes: Seq<FileHash>, algo: int, i: int) -> bool {
    &&& 0 <= i < hashes.len()
    &&& hashes[i].algo == algo
    &&& forall|j: int| 0 <= j < i ==> (#[trigger] hashes[j]).algo != algo
}

impl AddonSource {
    pub fn try_from(value: Option<ModUpdate>) -> (r: Result<AddonSource, Error>)
        ensures
            match r {
                Ok(source) => source_of(value) == Some(source),
                Err(e) => source_of(value) is None && (e matches Error::Other(text) && text@
                    == "unable to import mod as it does not have update information"@),
            },
    {
        match value {
            Some(update) => {
                match update.modrinth {
                    Some(m) => {
                        return Ok(
                            AddonSource::Modrinth(ModrinthSource { id: m.mod_id, version: m.version }),
                        );
                    },
                    None => {},
                }
                match update.curseforge {
                    Some(c) => {
                        return Ok(
                            AddonSource::Curseforge(
                                CurseforgeSource { id: c.project_id, version: c.file_id },
                            ),
                        );
                    },
                    None => {},
                }
                Err(
                    Error::Other(
                        String::from_str("unable to import mod as it does not have update information"),
                    ),
                )
            },
            None => Err(
                Error::Other(
                    String::from_str("unable to import mod as it does not have update information"),
                ),
            ),
        }
    }

    /// The pointer by which the addon is resolved again after installation.
    pub fn update(&self) -> (r: Option<ModUpdate>)
        ensures
            r == update_of(*self),
    {
        match self {
            AddonSource::Modrinth(s) => Some(
                ModUpdate {
                    modrinth: Some(
                        ModrinthModUpdate { mod_id: s.id.clone(), version: s.version.clone() },
                    ),
                    curseforge: None,
                },
            ),
            AddonSource::Curseforge(s) => Some(
                ModUpdate {
                    modrinth: None,
                    curseforge: Some(CurseforgeModUpdate { project_id: s.id, file_id: s.version }),
                },
            ),
            AddonSource::Github(_) => None,
        }
    }
}

impl IndexFile {
    /// The project type of the descriptor, by the folder it is listed under.
    pub open spec fn project_type(self) -> ProjectType {
        let at = first_index_of(self.file@, '/');
        if at < self.file@.len() {
            type_of_folder(self.file@.subrange(0, at))
        } else {
            ProjectType::Unknown
        }
    }

    pub fn get_project_type(&self) -> (r: ProjectType)
        ensures
            r == self.project_type(),
    {
        let n: usize = self.file.as_str().unicode_len();
        let at = find_char(self.file.as_str(), '/');
        proof {
            lemma_first_index_of(self.file@, '/');
        }
        if at >= n {
            return ProjectType::Unknown;
        }
        let folder = slice(self.file.as_str(), 0, at);
        if folder == String::from_str("mods") {
            ProjectType::Mod
        } else if folder == String::from_str("resourcepacks") {
            ProjectType::Resourcepack
        } else if folder == String::from_str("datapacks") {
            ProjectType::Datapack
        } else if folder == String::from_str("shaderpacks") || folder == String::from_str("shaders") {
            ProjectType::Shader
        } else {
            ProjectType::Unknown
        }
    }
}

impl PwFile {
    /// A source is an address where it begins like one, else a path.
    pub fn from(value: &str) -> (r: PwFile)
        ensures
            match r {
                PwFile::Url(url) => begins_with(value@, "http"@) && url@ == value@,
                PwFile::Local(path) => !begins_with(value@, "http"@) && path@ == value@,
            },
    {
        if starts_with(value, "http") {
            PwFile::Url(String::from_str(value))
        } else {
            PwFile::Local(String::from_str(value))
        }
    }
}

pub fn descriptor_path(project_type: &ProjectType, name: &str) -> (r: String)
    ensures
        r@ == descriptor_path_text(*project_type, name@),
{
    let lower = to_lowercase(name);
    let dashed = replace_char(lower.as_str(), ' ', '-');
    project_type.folder().concat("/").concat(dashed.as_str()).concat(".pw.toml")
}

/// The descriptor of an addon of the first registry, for the file to download.
pub fn modrinth_descriptor(addon: &Addon, file: &VersionFile) -> (r: Result<PwMod, Error>)
    ensures
        match r {
            Ok(d) => {
                &&& d.name == addon.name
                &&& d.filename == file.filename
                &&& d.download.url == Some(file.url)
                &&& d.download.hash_format == HashFormat::Sha1
                &&& exists|i: int| #[trigger] is_hash_at(file.hashes@, "sha1"@, i) && d.download.hash == file.hashes@[i].value
                &&& d.download.mode is None
                &&& d.option is None
                &&& d.side == Some(addon.side)
                &&& d.update == update_of(addon.source)
            },
            Err(e) => !has_hash(file.hashes@, "sha1"@) && (e matches Error::Other(text) && text@
                == file.url@ + " file does not have a sha1 hash"@),
        },
{
    match hash_by(file, "sha1") {
        None => Err(Error::Other(file.url.clone().concat(" file does not have a sha1 hash"))),
        Some(hash) => Ok(
            PwMod {
                name: addon.name.clone(),
                filename: file.filename.clone(),
                download: ModDownload {
                    url: Some(file.url.clone()),
                    hash_format: HashFormat::Sha1,
                    hash,
                    mode: None,
                },
                option: None,
                side: Some(addon.side),
                update: addon.source.update(),
            },
        ),
    }
}

/// The first hash of a file in the format numbered `algo`.
pub fn hash_of_algo(hashes: &Vec<FileHash>, algo: i32) -> (r: Option<String>)
    ensures
        match r {
            Some(value) => exists|i: int| #[trigger] is_algo_at(hashes@, algo as int, i) && value == hashes@[i].value,
            None => forall|j: int| 0 <= j < hashes@.len() ==> (#[trigger] hashes@[j]).algo != algo,
        },
{
    let mut i: usize = 0;
    while i < hashes.len()
        invariant
            i <= hashes.len(),
            forall|j: int| 0 <= j < i ==> (#[trigger] hashes@[j]).algo != algo,
        decreases hashes.len() - i,
    {
        if hashes[i].algo == algo {
            proof {
                assert(is_algo_at(hashes@, algo as int, i as int));
            }
            return Some(hashes[i].value.clone());
        }
        i += 1;
    }
    None
}

/// The descriptor of an addon of the second registry. That registry gives
/// no public address: the descriptor names none, and says that the file is
/// resolved by its ids when the pack is installed.
pub fn curseforge_descriptor(addon: &Addon, file: &File) -> (r: Result<PwMod, Error>)
    ensures
        match r {
            Ok(d) => {
                &&& d.name == addon.name
                &&& d.filename == file.file_name
                &&& d.download.url is None
                &&& d.download.hash_format == HashFormat::Sha1
                &&& exists|i: int| #[trigger] is_algo_at(file.hashes@, 1, i) && d.download.hash == file.hashes@[i].value
                &&& d.download.mode == Some(DownloadMode::Curseforge)
                &&& d.option is None
                &&& d.side == Some(addon.side)
                &&& d.update == update_of(addon.source)
            },
            Err(e) => (forall|j: int| 0 <= j < file.hashes@.len() ==> (#[trigger] file.hashes@[j]).algo != 1)
                && (e matches Error::Other(text) && text@ == file.file_name@ + " file does not have a sha1 hash"@),
        },
{
    match hash_of_algo(&file.hashes, 1) {
        None => Err(Error::Other(file.file_name.clone().concat(" file does not have a sha1 hash"))),
        Some(hash) => Ok(
            PwMod {
                name: addon.name.clone(),
                filename: file.file_name.clone(),
                download: ModDownload {
                    url: None,
                    hash_format: HashFormat::Sha1,
                    hash,
                    mode: Some(DownloadMode::Curseforge),
                },
                option: None,
                side: Some(addon.side),
                update: addon.source.update(),
            },
        ),
    }
}

/// The descriptor of an addon that is an asset of a release, whose bytes
/// were fetched and are hashed here.
pub fn github_descriptor(addon: &Addon, asset: &ReleaseAsset, bytes: &[u8]) -> (r: PwMod)
    ensures
        r.name == addon.name,
        r.filename == asset.name,
        r.download.url == Some(asset.browser_download_url),
        r.download.hash_format == HashFormat::Sha256,
        r.download.hash@ == hex(sha256_of(bytes@)),
        r.download.mode is None,
        r.option is None,
        r.side == Some(addon.side),
        r.update is None,
{
    PwMod {
        name: addon.name.clone(),
        filename: asset.name.clone(),
        download: ModDownload {
            url: Some(asset.browser_download_url.clone()),
            hash_format: HashFormat::Sha256,
            hash: sha256_hex(bytes),
            mode: None,
        },
        option: None,
        side: Some(addon.side),
        update: None,
    }
}

/// A descriptor's text with its place in the pack and the SHA-256 of the text.
pub fn export_helper(project_type: &ProjectType, name: &str, pwmod_str: String) -> (r: ExportHelper)
    ensures
        r.file_path@ == descriptor_path_text(*project_type, name@),
        r.hash@ == hex(sha256_of(vstd::utf8::encode_utf8(pwmod_str@))),
        r.pwmod_str == pwmod_str,
{
    let hash = sha256_hex(pwmod_str.as_str().as_bytes());
    ExportHelper { file_path: descriptor_path(project_type, name), hash, pwmod_str }
}

/// The entry of the index for a written descriptor.
pub open spec fn index_entry(helper: ExportHelper) -> IndexFile {
    IndexFile { file: helper.file_path, hash: helper.hash, hash_format: None, metafile: Some(true) }
}

/// The index of a pack: one entry for each descriptor, hashed with SHA-256.
pub fn index_of(helpers: &Vec<ExportHelper>) -> (r: PwIndex)
    ensures
        r.hash_format == HashFormat::Sha256,
        r.files@ == helpers@.map_values(|h: ExportHelper| index_entry(h)),
{
    let ghost entry = |h: ExportHelper| index_entry(h);
    let mut files: Vec<IndexFile> = Vec::new();
    let mut i: usize = 0;
    while i < helpers.len()
        invariant
            i <= helpers.len(),
            entry == (|h: ExportHelper| index_entry(h)),
            files@ == helpers@.take(i as int).map_values(entry),
        decreases helpers.len() - i,
    {
        files.push(
            IndexFile {
                file: helpers[i].file_path.clone(),
                hash: helpers[i].hash.clone(),
                hash_format: None,
                metafile: Some(true),
            },
        );
        proof {
            assert(helpers@.take(i as int + 1).map_values(entry) =~= helpers@.take(
                i as int,
            ).map_values(entry).push(entry(helpers@[i as int])));
        }
        i += 1;
    }
    proof {
        assert(helpers@.take(helpers.len() as int) =~= helpers@);
    }
    PwIndex { hash_format: HashFormat::Sha256, files }
}

/// The root descriptor of a pack whose index has the text `index_str`.
pub fn pack_of(modpack: &Modpack, loader_version: String, index_str: &str) -> (r: PwPack)
    ensures
        r.name == modpack.name,
        r.author == (if modpack.authors@.len() > 0 {
            Some(modpack.authors@[0])
        } else {
            None
        }),
        r.version == Some(modpack.version),
        r.description == modpack.description,
        r.pack_format@ == "packwiz:1.1.0"@,
        r.index.file@ == "index.toml"@,
        r.index.hash_format == HashFormat::Sha256,
        r.index.hash@ == hex(sha256_of(vstd::utf8::encode_utf8(index_str@))),
        r.versions@.len() == 2,
        r.versions@[0].name@ == "minecraft"@,
        r.versions@[0].version == modpack.versions.minecraft,
        r.versions@[1].name@ == modpack.versions.loader.tag_text(),
        r.versions@[1].version == loader_version,
        r.wf(),
{
    proof {
        reveal_strlit("minecraft");
        reveal_strlit("fabric");
        reveal_strlit("quilt");
        reveal_strlit("forge");
        reveal_strlit("neoforge");
    }
    let mut versions: Vec<VersionEntry> = Vec::new();
    versions.push(
        VersionEntry {
            name: String::from_str("minecraft"),
            version: modpack.versions.minecraft.clone(),
        },
    );
    versions.push(VersionEntry { name: modpack.versions.loader.tag(), version: loader_version });
    proof {
        assert(versions@.len() == 2);
        assert(versions@[0].name@.len() == 9);
        assert(versions@[1].name@.len() != 9);
        assert(versions@[0].name@ != versions@[1].name@);
    }
    PwPack {
        name: modpack.name.clone(),
        author: if modpack.authors.len() > 0 {
            Some(modpack.authors[0].clone())
        } else {
            None
        },
        version: Some(modpack.version.clone()),
        description: match &modpack.description {
            Some(s) => Some(s.clone()),
            None => None,
        },
        pack_format: String::from_str("packwiz:1.1.0"),
        index: PwIndexInfo {
            file: String::from_str("index.toml"),
            hash_format: HashFormat::Sha256,
            hash: sha256_hex(index_str.as_bytes()),
        },
        versions,
    }
}

/// The folder or address that a pack lies under, given where its root
/// descriptor is. A source that does not end in the root descriptor's name
/// after a slash is no pack.
pub fn base_path(source: &str) -> (r: Result<String, Error>)
    ensures
        match r {
            Ok(base) => finishes_with(source@, "/pack.toml"@) && base@ + "/pack.toml"@ == source@,
            Err(e) => !finishes_with(source@, "/pack.toml"@) && (e matches Error::BadImport(text)
                && text@ == "please provide a valid url or path to a packwiz pack.toml file"@),
        },
{
    if !ends_with(source, "/pack.toml") {
        return Err(
            Error::BadImport(
                String::from_str("please provide a valid url or path to a packwiz pack.toml file"),
            ),
        );
    }
    let n: usize = source.unicode_len();
    let m: usize = "/pack.toml".unicode_len();
    let base = slice(source, 0, n - m);
    proof {
        assert(base@ + "/pack.toml"@ =~= source@);
    }
    Ok(base)
}

/// The addon that a descriptor stands for. A descriptor without a pointer
/// to a registry cannot be imported; the failure names the addon.
pub fn imported_addon(pw_mod: PwMod, file: &IndexFile) -> (r: Result<Addon, Error>)
    ensures
        match r {
            Ok(addon) => {
                &&& addon.name == pw_mod.name
                &&& addon.project_type == file.project_type()
                &&& addon.side == (match pw_mod.side {
                    Some(side) => side,
                    None => Side::Both,
                })
                &&& Some(addon.source) == source_of(pw_mod.update)
                &&& addon.options == Some(AddonOptions::nothing_set())
                &&& addon.filename is None
            },
            Err(e) => source_of(pw_mod.update) is None && (e matches Error::Other(text) && text@
                == pw_mod.name@ + ": "@
                + "unable to import mod as it does not have update information"@),
        },
{
    let project_type = file.get_project_type();
    let side = match pw_mod.side {
        Some(side) => side,
        None => Side::Both,
    };
    match AddonSource::try_from(pw_mod.update) {
        Ok(source) => Ok(
            Addon {
                name: pw_mod.name,
                project_type,
                side,
                source,
                options: Some(AddonOptions::unset()),
                filename: None,
            },
        ),
        Err(e) => {
            let text = e.message();
            Err(Error::Other(pw_mod.name.concat(": ").concat(text.as_str())))
        },
    }
}

/// Whether `i` is the place of the first entry for the game (`game` set) or
/// for a loader (`game` not set).
pub open spec fn is_first_entry(versions: Seq<VersionEntry>, game: bool, i: int) -> bool {
    &&& 0 <= i < versions.len()
    &&& (versions[i].name@ == "minecraft"@) == game
    &&& forall|j: int| 0 <= j < i ==> ((#[trigger] versions[j]).name@ == "minecraft"@) != game
}

pub open spec fn has_entry(versions: Seq<VersionEntry>, game: bool) -> bool {
    exists|i: int| 0 <= i < versions.len() && ((#[trigger] versions[i]).name@ == "minecraft"@) == game
}

fn first_entry(versions: &Vec<VersionEntry>, game: bool) -> (r: Option<usize>)
    ensures
        match r {
            Some(i) => is_first_entry(versions@, game, i as int),
            None => !has_entry(versions@, game),
        },
{
    let key = String::from_str("minecraft");
    let mut i: usize = 0;
    while i < versions.len()
        invariant
            i <= versions.len(),
            key@ == "minecraft"@,
            forall|j: int| 0 <= j < i ==> ((#[trigger] versions@[j]).name@ == "minecraft"@) != game,
        decreases versions.len() - i,
    {
        if (versions[i].name == key) == game {
            return Some(i);
        }
        i += 1;
    }
    None
}

/// The target that a root descriptor declares: the version of its first
/// entry for the game, and the loader and version of its first other
/// entry. A pack without a game version, without a loader, or with a
/// loader that is none of the known ones cannot be imported.
pub fn declared_versions(versions: &Vec<VersionEntry>) -> (r: Result<Versions, Error>)
    ensures
        match r {
            Ok(v) => exists|g: int, l: int| #[trigger] is_first_entry(versions@, true, g) && #[trigger] is_first_entry(versions@, false, l)
                && v.minecraft == versions@[g].version
                && v.loader.tag_text() == versions@[l].name@
                && v.loader_version == versions@[l].version,
            Err(e) => e matches Error::BadImport(text) && (if !has_entry(versions@, true) {
                text@ == "modpack does not name a game version"@
            } else if !has_entry(versions@, false) {
                text@ == "modpack does not have a mod loader"@
            } else {
                text@ == "modpack has an unsupported mod loader"@ && exists|l: int| #[trigger]
                    is_first_entry(versions@, false, l) && forall|loader: ModLoader|
                        versions@[l].name@ != loader.tag_text()
            }),
        },
{
    let game = first_entry(versions, true);
    let loader = first_entry(versions, false);
    match (game, loader) {
        (Some(g), Some(l)) => {
            match ModLoader::from_tag(versions[l].name.as_str()) {
                Some(found) => {
                    let v = Versions {
                        minecraft: versions[g].version.clone(),
                        loader: found,
                        loader_version: versions[l].version.clone(),
                    };
                    proof {
                        assert(is_first_entry(versions@, true, g as int) && is_first_entry(versions@, false, l as int));
                    }
                    Ok(v)
                },
                None => {
                    proof {
                        assert(is_first_entry(versions@, false, l as int));
                    }
                    Err(Error::BadImport(String::from_str("modpack has an unsupported mod loader")))
                },
            }
        },
        (None, _) => Err(Error::BadImport(String::from_str("modpack does not name a game version"))),
        (_, None) => Err(Error::BadImport(String::from_str("modpack does not have a mod loader"))),
    }
}

impl HashFormat {
    /// The word that stands for the value where it is written down.
    pub open spec fn label_text(self) -> Seq<char> {
        match self {
            HashFormat::Sha512 => "sha512"@,
            HashFormat::Sha256 => "sha256"@,
            HashFormat::Sha1 => "sha1"@,
            HashFormat::Md5 => "md5"@,
            HashFormat::Murmur2 => "murmur2"@,
        }
    }

    pub fn label(&self) -> (r: String)
        ensures
            r@ == self.label_text(),
    {
        match self {
            HashFormat::Sha512 => String::from_str("sha512"),
            HashFormat::Sha256 => String::from_str("sha256"),
            HashFormat::Sha1 => String::from_str("sha1"),
            HashFormat::Md5 => String::from_str("md5"),
            HashFormat::Murmur2 => String::from_str("murmur2"),
        }
    }

    /// The value that a word stands for, if it stands for one.
    pub fn from_label(label: &str) -> (r: Option<HashFormat>)
        ensures
            match r {
                Some(value) => label@ == value.label_text(),
                None => forall|value: HashFormat| label@ != value.label_text(),
            },
    {
        let owned = String::from_str(label);
        if owned == String::from_str("sha512") {
            Some(HashFormat::Sha512)
        } else if owned == String::from_str("sha256") {
            Some(HashFormat::Sha256)
        } else if owned == String::from_str("sha1") {
            Some(HashFormat::Sha1)
        } else if owned == String::from_str("md5") {
            Some(HashFormat::Md5)
        } else if owned == String::from_str("murmur2") {
            Some(HashFormat::Murmur2)
        } else {
            None
        }
    }
}
impl DownloadMode {
    /// The word that stands for the value where it is written down.
    pub open spec fn label_text(self) -> Seq<char> {
        match self {
            DownloadMode::Url => "url"@,
            DownloadMode::Curseforge => "metadata:curseforge"@,
        }
    }

    pub fn label(&self) -> (r: String)
        ensures
            r@ == self.label_text(),
    {
        match self {
            DownloadMode::Url => String::from_str("url"),
            DownloadMode::Curseforge => String::from_str("metadata:curseforge"),
        }
    }

    /// The value that a word stands for, if it stands for one.
    pub fn from_label(label: &str) -> (r: Option<DownloadMode>)
        ensures
            match r {
                Some(value) => label@ == value.label_text(),
                None => forall|value: DownloadMode| label@ != value.label_text(),
            },
    {
        let owned = String::from_str(label);
        if owned == String::from_str("url") {
            Some(DownloadMode::Url)
        } else if owned == String::from_str("metadata:curseforge") {
            Some(DownloadMode::Curseforge)
        } else {
            None
        }
    }
}


/// Whether no name occurs twice: the list stands for a map, and a
/// lookup finds the only entry of its key.
pub open spec fn distinct_names(list: Seq<VersionEntry>) -> bool {
    forall|i: int, j: int| 0 <= i < j < list.len() ==> (#[trigger] list[i]).name@ != (#[trigger] list[j]).name@
}

pub fn has_distinct_names(list: &Vec<VersionEntry>) -> (r: bool)
    ensures
        r == distinct_names(list@),
{
    let mut j: usize = 0;
    while j < list.len()
        invariant
            j <= list.len(),
            forall|a: int, b: int| 0 <= a < b < j ==> (#[trigger] list@[a]).name@ != (#[trigger] list@[b]).name@,
        decreases list.len() - j,
    {
        let mut i: usize = 0;
        while i < j
            invariant
                i <= j < list.len(),
                forall|a: int| 0 <= a < i ==> (#[trigger] list@[a]).name@ != list@[j as int].name@,
            decreases j - i,
        {
            if list[i].name == list[j].name {
                return false;
            }
            i += 1;
        }
        j += 1;
    }
    true
}

/// Where no key occurs twice, the entry for the game that a lookup
/// finds is the only entry for the game.
pub proof fn lemma_game_entry_is_the_only(list: Seq<VersionEntry>, i: int, j: int)
    requires
        distinct_names(list),
        is_first_entry(list, true, i),
        0 <= j < list.len(),
        list[j].name@ == "minecraft"@,
    ensures
        i == j,
{
}

} // verus!
