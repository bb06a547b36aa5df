//! The canonical addon model: a modpack's target, its addons and where each
//! addon comes from.

use vstd::prelude::*;
use vstd::string::*;
use crate::text::{begins_with, decimal, decimal_string, lowercase_of, replace_char, replaced, slice, starts_with, to_lowercase};

verus! {

#[derive(Debug, Clone, Copy, PartialEq, Eq, Structural, Hash)]
pub enum ProjectType {
    Project,
    Mod,
    Shader,
    Plugin,
    Modpack,
    Datapack,
    Resourcepack,
    Unknown,
}

#[derive(Debug, Clone, Copy, PartialEq, Eq, Structural, Hash)]
pub enum Side {
    Both,
    Client,
    Server,
}

#[derive(Debug, Clone, Copy, PartialEq, Eq, Structural, Hash)]
pub enum ModLoader {
    Fabric,
    Quilt,
    Forge,
    NeoForge,
}

#[derive(Debug, Clone, Copy, PartialEq, Eq, Structural, Hash)]
pub enum ReleaseFilter {
    Tag,
    Title,
    Unfiltered,
}

#[derive(Debug, Clone, Copy, PartialEq, Eq, Structural, Hash)]
pub enum ReleaseChannel {
    Release,
    Beta,
    Alpha,
}

#[derive(Debug, Clone, PartialEq, Eq)]
pub struct ModrinthSource {
    pub id: String,
    pub version: String,
}

#[derive(Debug, Clone, Copy, PartialEq, Eq)]
pub struct CurseforgeSource {
    pub id: i32,
    pub version: i32,
}

#[derive(Debug, Clone, PartialEq, Eq)]
pub struct GithubSource {
    pub repo: String,
    pub tag: String,
    pub filter_by: ReleaseFilter,
    pub asset_index: usize,
}

#[derive(Debug, Clone, PartialEq, Eq)]
pub enum AddonSource {
    Modrinth(ModrinthSource),
    Curseforge(CurseforgeSource),
    Github(GithubSource),
}

#[derive(Debug, Clone, PartialEq, Eq)]
pub struct AddonOptions {
    pub pinned: bool,
    pub mod_loader: Option<ModLoader>,
    pub game_versions: Option<String>,
    pub release_channel: Option<ReleaseChannel>,
}

#[derive(Debug, Clone, PartialEq, Eq)]
pub struct Addon {
    pub name: String,
    pub project_type: ProjectType,
    pub side: Side,
    pub source: AddonSource,
    pub options: Option<AddonOptions>,
    pub filename: Option<String>,
}

#[derive(Debug, Clone, PartialEq, Eq)]
pub struct PackOptions {
    pub acceptable_versions: Option<Vec<String>>,
    pub acceptable_loaders: Option<Vec<ModLoader>>,
    pub overrides_path: Option<String>,
    pub mods_output: Option<String>,
    pub resourcepacks_output: Option<String>,
    pub shaders_output: Option<String>,
    pub datapacks_output: Option<String>,
}

#[derive(Debug, Clone, PartialEq, Eq)]
pub struct Versions {
    pub minecraft: String,
    pub loader: ModLoader,
    pub loader_version: String,
}

#[derive(Debug, Clone, PartialEq, Eq)]
pub struct Modpack {
    pub name: String,
    pub version: String,
    pub authors: Vec<String>,
    pub description: Option<String>,
    pub index_path: String,
    pub options: PackOptions,
    pub versions: Versions,
}

/// Where an addon comes from.
#[derive(Debug, Clone, Copy, PartialEq, Eq, Structural, Hash)]
pub enum Registry {
    Modrinth,
    Curseforge,
    Github,
}

/// How an addon enters an exported pack: listed with the registry's own
/// data, listed after its file was fetched and hashed here, or put as a
/// file under the overrides.
#[derive(Debug, Clone, Copy, PartialEq, Eq, Structural, Hash)]
pub enum Placement {
    Listed,
    Materialized,
    Override,
}

/// What identifies an addon across renames: the registry and the id it has there.
pub enum GenericId {
    Modrinth(Seq<char>),
    Curseforge(int),
    Github(Seq<char>),
}

pub fn copy_text_option(value: &Option<String>) -> (r: Option<String>)
    ensures
        r == *value,
{
    match value {
        Some(s) => Some(s.clone()),
        None => None,
    }
}

pub fn copy_loaders(list: &Vec<ModLoader>) -> (r: Vec<ModLoader>)
    ensures
        r@ == list@,
{
    let mut out: Vec<ModLoader> = Vec::new();
    let mut i: usize = 0;
    while i < list.len()
        invariant
            i <= list.len(),
            out@ == list@.take(i as int),
        decreases list.len() - i,
    {
        out.push(list[i]);
        proof {
            assert(list@.take(i as int + 1) =~= list@.take(i as int).push(list@[i as int]));
        }
        i += 1;
    }
    proof {
        assert(list@.take(list.len() as int) =~= list@);
    }
    out
}

impl ModLoader {
    /// The lower-case tag under which registries list the loader.
    pub open spec fn tag_text(self) -> Seq<char> {
        match self {
            ModLoader::Fabric => "fabric"@,
            ModLoader::Quilt => "quilt"@,
            ModLoader::Forge => "forge"@,
            ModLoader::NeoForge => "neoforge"@,
        }
    }

    /// The loader's name as shown to a reader.
    pub open spec fn label_text(self) -> Seq<char> {
        match self {
            ModLoader::Fabric => "Fabric"@,
            ModLoader::Quilt => "Quilt"@,
            ModLoader::Forge => "Forge"@,
            ModLoader::NeoForge => "Neoforge"@,
        }
    }

    pub fn tag(&self) -> (r: String)
        ensures
            r@ == self.tag_text(),
    {
        match self {
            ModLoader::Fabric => String::from_str("fabric"),
            ModLoader::Quilt => String::from_str("quilt"),
            ModLoader::Forge => String::from_str("forge"),
            ModLoader::NeoForge => String::from_str("neoforge"),
        }
    }

    pub fn label(&self) -> (r: String)
        ensures
            r@ == self.label_text(),
    {
        match self {
            ModLoader::Fabric => String::from_str("Fabric"),
            ModLoader::Quilt => String::from_str("Quilt"),
            ModLoader::Forge => String::from_str("Forge"),
            ModLoader::NeoForge => String::from_str("Neoforge"),
        }
    }

    /// The loader with the given lower-case tag, if there is one.
    pub fn from_tag(tag: &str) -> (r: Option<ModLoader>)
        ensures
            match r {
                Some(loader) => tag@ == loader.tag_text(),
                None => forall|loader: ModLoader| tag@ != loader.tag_text(),
            },
    {
        let owned = String::from_str(tag);
        if owned == String::from_str("fabric") {
            Some(ModLoader::Fabric)
        } else if owned == String::from_str("quilt") {
            Some(ModLoader::Quilt)
        } else if owned == String::from_str("forge") {
            Some(ModLoader::Forge)
        } else if owned == String::from_str("neoforge") {
            Some(ModLoader::NeoForge)
        } else {
            None
        }
    }
}

impl ReleaseFilter {
    pub open spec fn label_text(self) -> Seq<char> {
        match self {
            ReleaseFilter::Tag => "tag"@,
            ReleaseFilter::Title => "title"@,
            ReleaseFilter::Unfiltered => "none"@,
        }
    }

    pub fn label(&self) -> (r: String)
        ensures
            r@ == self.label_text(),
    {
        match self {
            ReleaseFilter::Tag => String::from_str("tag"),
            ReleaseFilter::Title => String::from_str("title"),
            ReleaseFilter::Unfiltered => String::from_str("none"),
        }
    }
}

impl ProjectType {
    /// The project type that a registry class id stands for, if it is one
    /// that a modpack can hold.
    pub open spec fn of_class(value: int) -> Option<ProjectType> {
        if value == 6 {
            Some(ProjectType::Mod)
        } else if value == 6552 {
            Some(ProjectType::Shader)
        } else if value == 6945 {
            Some(ProjectType::Datapack)
        } else if value == 12 {
            Some(ProjectType::Resourcepack)
        } else {
            None
        }
    }

    pub fn try_from(value: i32) -> (r: Option<ProjectType>)
        ensures
            r == Self::of_class(value as int),
    {
        if value == 6 {
            Some(ProjectType::Mod)
        } else if value == 6552 {
            Some(ProjectType::Shader)
        } else if value == 6945 {
            Some(ProjectType::Datapack)
        } else if value == 12 {
            Some(ProjectType::Resourcepack)
        } else {
            None
        }
    }

    pub open spec fn label_text(self) -> Seq<char> {
        match self {
            ProjectType::Project => "project"@,
            ProjectType::Mod => "mod"@,
            ProjectType::Shader => "shader"@,
            ProjectType::Plugin => "plugin"@,
            ProjectType::Modpack => "modpack"@,
            ProjectType::Datapack => "datapack"@,
            ProjectType::Resourcepack => "resourcepack"@,
            ProjectType::Unknown => "unknown"@,
        }
    }

    pub fn label(&self) -> (r: String)
        ensures
            r@ == self.label_text(),
    {
        match self {
            ProjectType::Project => String::from_str("project"),
            ProjectType::Mod => String::from_str("mod"),
            ProjectType::Shader => String::from_str("shader"),
            ProjectType::Plugin => String::from_str("plugin"),
            ProjectType::Modpack => String::from_str("modpack"),
            ProjectType::Datapack => String::from_str("datapack"),
            ProjectType::Resourcepack => String::from_str("resourcepack"),
            ProjectType::Unknown => String::from_str("unknown"),
        }
    }

    /// The folder that files of this type are installed to: the pack's own
    /// choice for the type where it made one, else the usual folder.
    pub open spec fn export_folder_text(self, options: PackOptions) -> Seq<char> {
        match self {
            ProjectType::Mod => match options.mods_output {
                Some(p) => p@,
                None => "mods"@,
            },
            ProjectType::Shader => match options.shaders_output {
                Some(p) => p@,
                None => "shaderpacks"@,
            },
            ProjectType::Datapack => match options.datapacks_output {
                Some(p) => p@,
                None => "datapacks"@,
            },
            ProjectType::Resourcepack => match options.resourcepacks_output {
                Some(p) => p@,
                None => "resourcepacks"@,
            },
            _ => "mods"@,
        }
    }

    pub fn export_folder(&self, options: &PackOptions) -> (r: String)
        ensures
            r@ == self.export_folder_text(*options),
    {
        match self {
            ProjectType::Mod => match &options.mods_output {
                Some(p) => p.clone(),
                None => String::from_str("mods"),
            },
            ProjectType::Shader => match &options.shaders_output {
                Some(p) => p.clone(),
                None => String::from_str("shaderpacks"),
            },
            ProjectType::Datapack => match &options.datapacks_output {
                Some(p) => p.clone(),
                None => String::from_str("datapacks"),
            },
            ProjectType::Resourcepack => match &options.resourcepacks_output {
                Some(p) => p.clone(),
                None => String::from_str("resourcepacks"),
            },
            _ => String::from_str("mods"),
        }
    }

    /// The subdirectory of a hash-indexed pack that holds this type.
    pub open spec fn folder_text(self) -> Seq<char> {
        match self {
            ProjectType::Mod => "mods"@,
            ProjectType::Shader => "shaderpacks"@,
            ProjectType::Datapack => "datapacks"@,
            ProjectType::Resourcepack => "resourcepacks"@,
            _ => "overrides/unknown"@,
        }
    }

    pub fn folder(&self) -> (r: String)
        ensures
            r@ == self.folder_text(),
    {
        match self {
            ProjectType::Mod => String::from_str("mods"),
            ProjectType::Shader => String::from_str("shaderpacks"),
            ProjectType::Datapack => String::from_str("datapacks"),
            ProjectType::Resourcepack => String::from_str("resourcepacks"),
            _ => String::from_str("overrides/unknown"),
        }
    }
}

impl Registry {
    /// The registry's name and a colon: what a generic id begins with.
    pub open spec fn prefix_text(self) -> Seq<char> {
        match self {
            Registry::Modrinth => "modrinth:"@,
            Registry::Curseforge => "curseforge:"@,
            Registry::Github => "github:"@,
        }
    }

    pub fn prefix(&self) -> (r: String)
        ensures
            r@ == self.prefix_text(),
    {
        match self {
            Registry::Modrinth => String::from_str("modrinth:"),
            Registry::Curseforge => String::from_str("curseforge:"),
            Registry::Github => String::from_str("github:"),
        }
    }
}

/// The registry and the id at the registry that a generic id names; none
/// where the text begins with no registry's name.
pub fn origin_of(id: &str) -> (r: Option<(Registry, String)>)
    ensures
        match r {
            Some((registry, native)) => id@ == registry.prefix_text() + native@,
            None => forall|registry: Registry| !begins_with(id@, registry.prefix_text()),
        },
{
    let n: usize = id.unicode_len();
    if starts_with(id, "modrinth:") {
        let native = slice(id, "modrinth:".unicode_len(), n);
        proof {
            assert(id@ =~= "modrinth:"@ + native@);
        }
        Some((Registry::Modrinth, native))
    } else if starts_with(id, "curseforge:") {
        let native = slice(id, "curseforge:".unicode_len(), n);
        proof {
            assert(id@ =~= "curseforge:"@ + native@);
        }
        Some((Registry::Curseforge, native))
    } else if starts_with(id, "github:") {
        let native = slice(id, "github:".unicode_len(), n);
        proof {
            assert(id@ =~= "github:"@ + native@);
        }
        Some((Registry::Github, native))
    } else {
        None
    }
}

/// The text after a registry's prefix is the whole of what follows it.
proof fn lemma_prefix_cancels(p: Seq<char>, x: Seq<char>, y: Seq<char>)
    requires
        p + x == p + y,
    ensures
        x == y,
{
    assert(x =~= (p + x).subrange(p.len() as int, (p + x).len() as int));
    assert(y =~= (p + y).subrange(p.len() as int, (p + y).len() as int));
}

/// Two sources have the same generic id as text exactly when they are the
/// same project at the same registry.
pub proof fn lemma_generic_id_is_identity(a: AddonSource, b: AddonSource)
    ensures
        (a.generic_id_text() == b.generic_id_text()) <==> (a.identity() == b.identity()),
{
    reveal_strlit("modrinth:");
    reveal_strlit("curseforge:");
    reveal_strlit("github:");
    let ta = a.generic_id_text();
    let tb = b.generic_id_text();
    assert(ta[0] == a.registry().prefix_text()[0]);
    assert(tb[0] == b.registry().prefix_text()[0]);
    if ta == tb {
        assert(a.registry() == b.registry());
        lemma_prefix_cancels(a.registry().prefix_text(), a.native_id(), b.native_id());
        match (a, b) {
            (AddonSource::Curseforge(x), AddonSource::Curseforge(y)) => {
                crate::text::lemma_decimal_injective(x.id as int, y.id as int);
            },
            _ => {},
        }
    }
}

impl AddonOptions {
    /// Options of an addon that is not pinned and overrides nothing.
    pub open spec fn nothing_set() -> AddonOptions {
        AddonOptions { pinned: false, mod_loader: None, game_versions: None, release_channel: None }
    }

    pub fn unset() -> (r: AddonOptions)
        ensures
            r == Self::nothing_set(),
    {
        AddonOptions { pinned: false, mod_loader: None, game_versions: None, release_channel: None }
    }

    pub fn duplicate(&self) -> (r: AddonOptions)
        ensures
            r == *self,
    {
        AddonOptions {
            pinned: self.pinned,
            mod_loader: self.mod_loader,
            game_versions: copy_text_option(&self.game_versions),
            release_channel: self.release_channel,
        }
    }
}

impl AddonSource {
    pub open spec fn identity(self) -> GenericId {
        match self {
            AddonSource::Modrinth(s) => GenericId::Modrinth(s.id@),
            AddonSource::Curseforge(s) => GenericId::Curseforge(s.id as int),
            AddonSource::Github(s) => GenericId::Github(s.repo@),
        }
    }

    pub open spec fn registry(self) -> Registry {
        match self {
            AddonSource::Modrinth(_) => Registry::Modrinth,
            AddonSource::Curseforge(_) => Registry::Curseforge,
            AddonSource::Github(_) => Registry::Github,
        }
    }

    /// The generic id as text: the registry's name, a colon, and the id
    /// that the addon has at the registry.
    pub open spec fn generic_id_text(self) -> Seq<char> {
        self.registry().prefix_text() + self.native_id()
    }

    /// The id that the addon has at its registry, as text.
    pub open spec fn native_id(self) -> Seq<char> {
        match self {
            AddonSource::Modrinth(s) => s.id@,
            AddonSource::Curseforge(s) => decimal(s.id as int),
            AddonSource::Github(s) => s.repo@,
        }
    }

    pub fn duplicate(&self) -> (r: AddonSource)
        ensures
            r == *self,
    {
        match self {
            AddonSource::Modrinth(s) => AddonSource::Modrinth(
                ModrinthSource { id: s.id.clone(), version: s.version.clone() },
            ),
            AddonSource::Curseforge(s) => AddonSource::Curseforge(
                CurseforgeSource { id: s.id, version: s.version },
            ),
            AddonSource::Github(s) => AddonSource::Github(
                GithubSource {
                    repo: s.repo.clone(),
                    tag: s.tag.clone(),
                    filter_by: s.filter_by,
                    asset_index: s.asset_index,
                },
            ),
        }
    }

    /// Whether both sources name the same project at the same registry.
    pub fn same_project(&self, other: &AddonSource) -> (r: bool)
        ensures
            r == (self.identity() == other.identity()),
    {
        match (self, other) {
            (AddonSource::Modrinth(a), AddonSource::Modrinth(b)) => a.id == b.id,
            (AddonSource::Curseforge(a), AddonSource::Curseforge(b)) => a.id == b.id,
            (AddonSource::Github(a), AddonSource::Github(b)) => a.repo == b.repo,
            _ => false,
        }
    }
}

impl Addon {
    pub open spec fn identity(self) -> GenericId {
        self.source.identity()
    }

    /// The name under which the addon's descriptor is stored: its name in
    /// lower case, with a dash for each space, and the descriptor suffix.
    pub open spec fn index_file_name_text(self) -> Seq<char> {
        replaced(lowercase_of(self.name@), ' ', '-') + ".toml"@
    }

    /// Whether `text` names this addon: by its name, whatever the case, or
    /// by its generic id.
    pub open spec fn matches_text(self, text: Seq<char>) -> bool {
        lowercase_of(text) == lowercase_of(self.name@) || text == self.source.generic_id_text()
    }

    /// Whether an index may not hold both: they are the same project, or
    /// their names differ at most in case.
    pub open spec fn collides(self, other: Addon) -> bool {
        self.identity() == other.identity() || lowercase_of(self.name@) == lowercase_of(
            other.name@,
        )
    }

    pub fn duplicate(&self) -> (r: Addon)
        ensures
            r == *self,
    {
        Addon {
            name: self.name.clone(),
            project_type: self.project_type,
            side: self.side,
            source: self.source.duplicate(),
            options: match &self.options {
                Some(o) => Some(o.duplicate()),
                None => None,
            },
            filename: copy_text_option(&self.filename),
        }
    }

    pub fn index_file_name(&self) -> (r: String)
        ensures
            r@ == self.index_file_name_text(),
    {
        let lower = to_lowercase(self.name.as_str());
        let dashed = replace_char(lower.as_str(), ' ', '-');
        dashed.concat(".toml")
    }

    /// The name of the file that holds the addon's descriptor: the one it
    /// was read from or given, else the one derived from its name.
    pub open spec fn storage_key_text(self) -> Seq<char> {
        match self.filename {
            Some(f) => f@,
            None => self.index_file_name_text(),
        }
    }

    pub fn storage_key(&self) -> (r: String)
        ensures
            r@ == self.storage_key_text(),
    {
        match &self.filename {
            Some(f) => f.clone(),
            None => self.index_file_name(),
        }
    }

    /// The generic id of the addon: its registry and the id it has there,
    /// written as one text. Two addons have the same generic id exactly
    /// when they are the same project at the same registry.
    pub fn generic_id(&self) -> (r: String)
        ensures
            r@ == self.source.generic_id_text(),
    {
        match &self.source {
            AddonSource::Modrinth(source) => Registry::Modrinth.prefix().concat(source.id.as_str()),
            AddonSource::Curseforge(source) => {
                let id = decimal_string(source.id);
                Registry::Curseforge.prefix().concat(id.as_str())
            },
            AddonSource::Github(source) => Registry::Github.prefix().concat(source.repo.as_str()),
        }
    }

    /// The id that the addon has at its registry, without the registry.
    pub fn native_id(&self) -> (r: String)
        ensures
            r@ == self.source.native_id(),
    {
        match &self.source {
            AddonSource::Modrinth(source) => source.id.clone(),
            AddonSource::Curseforge(source) => decimal_string(source.id),
            AddonSource::Github(source) => source.repo.clone(),
        }
    }

    pub fn matches_str(&self, string: &str) -> (r: bool)
        ensures
            r == self.matches_text(string@),
    {
        if to_lowercase(string) == to_lowercase(self.name.as_str()) {
            return true;
        }
        String::from_str(string) == self.generic_id()
    }

    pub fn collides_with(&self, other: &Addon) -> (r: bool)
        ensures
            r == self.collides(*other),
    {
        if self.source.same_project(&other.source) {
            return true;
        }
        to_lowercase(self.name.as_str()) == to_lowercase(other.name.as_str())
    }

    /// Whether the addon is pinned to its current version.
    pub fn is_pinned(&self) -> (r: bool)
        ensures
            r == (self.options matches Some(o) && o.pinned),
    {
        match &self.options {
            Some(o) => o.pinned,
            None => false,
        }
    }
}

impl PackOptions {
    /// Options that widen nothing and redirect no folder.
    pub open spec fn nothing_set() -> PackOptions {
        PackOptions {
            acceptable_versions: None,
            acceptable_loaders: None,
            overrides_path: None,
            mods_output: None,
            resourcepacks_output: None,
            shaders_output: None,
            datapacks_output: None,
        }
    }

    pub fn unset() -> (r: PackOptions)
        ensures
            r == Self::nothing_set(),
    {
        PackOptions {
            acceptable_versions: None,
            acceptable_loaders: None,
            overrides_path: None,
            mods_output: None,
            resourcepacks_output: None,
            shaders_output: None,
            datapacks_output: None,
        }
    }
}

impl Modpack {
    pub fn new(
        name: String,
        authors: Vec<String>,
        description: Option<String>,
        version: String,
        minecraft_version: String,
        mod_loader: ModLoader,
        loader_version: String,
    ) -> (r: Modpack)
        ensures
            r.name == name,
            r.authors == authors,
            r.description == description,
            r.version == version,
            r.index_path@ == "./index"@,
            r.options == PackOptions::nothing_set(),
            r.versions == (Versions {
                minecraft: minecraft_version,
                loader: mod_loader,
                loader_version: loader_version,
            }),
    {
        Modpack {
            name,
            version,
            authors,
            description,
            index_path: String::from_str("./index"),
            options: PackOptions::unset(),
            versions: Versions { minecraft: minecraft_version, loader: mod_loader, loader_version },
        }
    }

    /// The loader version to write into a pack, given the latest one that
    /// exists for the target: the pack's own, unless it asks for the latest.
    pub open spec fn loader_version_text(self, latest: Seq<char>) -> Seq<char> {
        if self.versions.loader_version@ == "latest"@ {
            latest
        } else {
            self.versions.loader_version@
        }
    }

    /// Whether the pack follows the latest loader version instead of naming one.
    pub fn wants_latest_loader(&self) -> (r: bool)
        ensures
            r == (self.versions.loader_version@ == "latest"@),
    {
        self.versions.loader_version == String::from_str("latest")
    }

    pub fn get_loader_version(&self, latest: &String) -> (r: String)
        ensures
            r@ == self.loader_version_text(latest@),
    {
        if self.wants_latest_loader() {
            latest.clone()
        } else {
            self.versions.loader_version.clone()
        }
    }
}

impl Side {
    /// The word that stands for the value where it is written down.
    pub open spec fn label_text(self) -> Seq<char> {
        match self {
            Side::Both => "both"@,
            Side::Client => "client"@,
            Side::Server => "server"@,
        }
    }

    pub fn label(&self) -> (r: String)
        ensures
            r@ == self.label_text(),
    {
        match self {
            Side::Both => String::from_str("both"),
            Side::Client => String::from_str("client"),
            Side::Server => String::from_str("server"),
        }
    }

    /// The value that a word stands for, if it stands for one.
    pub fn from_label(label: &str) -> (r: Option<Side>)
        ensures
            match r {
                Some(value) => label@ == value.label_text(),
                None => forall|value: Side| label@ != value.label_text(),
            },
    {
        let owned = String::from_str(label);
        if owned == String::from_str("both") {
            Some(Side::Both)
        } else if owned == String::from_str("client") {
            Some(Side::Client)
        } else if owned == String::from_str("server") {
            Some(Side::Server)
        } else {
            None
        }
    }
}
impl ReleaseChannel {
    /// The word that stands for the value where it is written down.
    pub open spec fn label_text(self) -> Seq<char> {
        match self {
            ReleaseChannel::Release => "Release"@,
            ReleaseChannel::Beta => "Beta"@,
            ReleaseChannel::Alpha => "Alpha"@,
        }
    }

    pub fn label(&self) -> (r: String)
        ensures
            r@ == self.label_text(),
    {
        match self {
            ReleaseChannel::Release => String::from_str("Release"),
            ReleaseChannel::Beta => String::from_str("Beta"),
            ReleaseChannel::Alpha => String::from_str("Alpha"),
        }
    }

    /// The value that a word stands for, if it stands for one.
    pub fn from_label(label: &str) -> (r: Option<ReleaseChannel>)
        ensures
            match r {
                Some(value) => label@ == value.label_text(),
                None => forall|value: ReleaseChannel| label@ != value.label_text(),
            },
    {
        let owned = String::from_str(label);
        if owned == String::from_str("Release") {
            Some(ReleaseChannel::Release)
        } else if owned == String::from_str("Beta") {
            Some(ReleaseChannel::Beta)
        } else if owned == String::from_str("Alpha") {
            Some(ReleaseChannel::Alpha)
        } else {
            None
        }
    }
}
impl ProjectType {
    /// The value that a word stands for, if it stands for one.
    pub fn from_label(label: &str) -> (r: Option<ProjectType>)
        ensures
            match r {
                Some(value) => label@ == value.label_text(),
                None => forall|value: ProjectType| label@ != value.label_text(),
            },
    {
        let owned = String::from_str(label);
        if owned == String::from_str("project") {
            Some(ProjectType::Project)
        } else if owned == String::from_str("mod") {
            Some(ProjectType::Mod)
        } else if owned == String::from_str("shader") {
            Some(ProjectType::Shader)
        } else if owned == String::from_str("plugin") {
            Some(ProjectType::Plugin)
        } else if owned == String::from_str("modpack") {
            Some(ProjectType::Modpack)
        } else if owned == String::from_str("datapack") {
            Some(ProjectType::Datapack)
        } else if owned == String::from_str("resourcepack") {
            Some(ProjectType::Resourcepack)
        } else if owned == String::from_str("unknown") {
            Some(ProjectType::Unknown)
        } else {
            None
        }
    }
}
impl ReleaseFilter {
    /// The value that a word stands for, if it stands for one.
    pub fn from_label(label: &str) -> (r: Option<ReleaseFilter>)
        ensures
            match r {
                Some(value) => label@ == value.label_text(),
                None => forall|value: ReleaseFilter| label@ != value.label_text(),
            },
    {
        let owned = String::from_str(label);
        if owned == String::from_str("tag") {
            Some(ReleaseFilter::Tag)
        } else if owned == String::from_str("title") {
            Some(ReleaseFilter::Title)
        } else if owned == String::from_str("none") {
            Some(ReleaseFilter::Unfiltered)
        } else {
            None
        }
    }
}

} // verus!
