//! What the first mod registry reports, and how it enters the addon model.

use vstd::prelude::*;
use vstd::string::*;
use crate::compat::{pick_version, picks, views, Candidate, VersionPointer};
use crate::error::Error;
use crate::model::{Addon, AddonOptions, AddonSource, Modpack, ModrinthSource, ProjectType, Registry, Side};
use crate::resolver::DependencyEdge;
use crate::text::{lowercase_of, texts, to_lowercase};

verus! {

#[derive(Debug, Clone, Copy, PartialEq, Eq, Structural)]
pub enum SideSupportType {
    Required,
    Optional,
    Unsupported,
    Unknown,
}

#[derive(Debug, Clone, Copy, PartialEq, Eq, Structural)]
pub enum DependencyType {
    Required,
    Optional,
    Incompatible,
    Embedded,
    Unsupported,
    Unknown,
}

#[derive(Debug, Clone, PartialEq, Eq)]
pub struct ProjectLicense {
    pub name: String,
}

#[derive(Debug, Clone, PartialEq, Eq)]
pub struct Project {
    pub slug: String,
    pub title: String,
    pub description: String,
    pub client_side: SideSupportType,
    pub server_side: SideSupportType,
    pub project_type: ProjectType,
    pub id: String,
    pub license: Option<ProjectLicense>,
}

/// One hash of a file: the algorithm's name and the digest in hexadecimal.
#[derive(Debug, Clone, PartialEq, Eq)]
pub struct HashEntry {
    pub algorithm: String,
    pub value: String,
}

#[derive(Debug, Clone, PartialEq, Eq)]
pub struct VersionFile {
    pub hashes: Vec<HashEntry>,
    pub url: String,
    pub filename: String,
    pub primary: bool,
    pub size: usize,
}

#[derive(Debug, Clone, PartialEq, Eq)]
pub struct VersionDependency {
    pub version_id: Option<String>,
    pub project_id: Option<String>,
    pub file_name: Option<String>,
    pub dependency_type: DependencyType,
}

#[derive(Debug, Clone, PartialEq, Eq)]
pub struct Version {
    pub version_number: String,
    pub dependencies: Vec<VersionDependency>,
    pub game_versions: Vec<String>,
    pub loaders: Vec<String>,
    pub id: String,
    pub project_id: String,
    pub files: Vec<VersionFile>,
    pub date_published: u128,
}

#[derive(Debug, Clone, PartialEq, Eq)]
pub enum SearchFacet {
    ProjectType(ProjectType),
    Categories(String),
    Versions(String),
}

#[derive(Debug, Clone, PartialEq, Eq)]
pub struct SearchHit {
    pub title: String,
    pub project_id: String,
}

#[derive(Debug, Clone, PartialEq, Eq)]
pub struct SearchResult {
    pub hits: Vec<SearchHit>,
    pub offset: i32,
    pub limit: i32,
    pub total_hits: i32,
}

impl VersionFile {
    /// The hashes stand for a map from algorithm to digest: no algorithm
    /// is given twice.
    pub open spec fn wf(self) -> bool {
        distinct_algorithms(self.hashes@)
    }

    pub fn is_wf(&self) -> (r: bool)
        ensures
            r == self.wf(),
    {
        has_distinct_algorithms(&self.hashes)
    }
}

/// Whether a side runs the project: it needs it or can use it.
pub open spec fn uses_side(support: SideSupportType) -> bool {
    support == SideSupportType::Required || support == SideSupportType::Optional
}

/// The side an addon is installed on: the one side that runs it, else both.
pub open spec fn side_of(client: SideSupportType, server: SideSupportType) -> Side {
    if uses_side(client) && !uses_side(server) {
        Side::Client
    } else if !uses_side(client) && uses_side(server) {
        Side::Server
    } else {
        Side::Both
    }
}

/// Whether `i` is the place of the file to download: the first that the
/// registry marks primary, else the first.
pub open spec fn is_primary_at(files: Seq<VersionFile>, i: int) -> bool {
    &&& 0 <= i < files.len()
    &&& forall|j: int| 0 <= j < i ==> !(#[trigger] files[j]).primary
    &&& (files[i].primary || (i == 0 && forall|j: int| 0 <= j < files.len() ==> !(#[trigger] files[j]).primary))
}

/// Whether `i` is the place of the file's first hash by `algorithm`.
pub open spec fn is_hash_at(hashes: Seq<HashEntry>, algorithm: Seq<char>, i: int) -> bool {
    &&& 0 <= i < hashes.len()
    &&& hashes[i].algorithm@ == algorithm
    &&& forall|j: int| 0 <= j < i ==> (#[trigger] hashes[j]).algorithm@ != algorithm
}

pub open spec fn has_hash(hashes: Seq<HashEntry>, algorithm: Seq<char>) -> bool {
    exists|i: int| 0 <= i < hashes.len() && (#[trigger] hashes[i]).algorithm@ == algorithm
}

pub fn should_use_side(support_type: &SideSupportType) -> (r: bool)
    ensures
        r == uses_side(*support_type),
{
    match support_type {
        SideSupportType::Required => true,
        SideSupportType::Optional => true,
        _ => false,
    }
}

pub fn get_side(client_side: &SideSupportType, server_side: &SideSupportType) -> (r: Side)
    ensures
        r == side_of(*client_side, *server_side),
{
    let use_client = should_use_side(client_side);
    let use_server = should_use_side(server_side);
    if use_client && !use_server {
        Side::Client
    } else if !use_client && use_server {
        Side::Server
    } else {
        Side::Both
    }
}

/// The place of the file to download among `files`.
pub fn primary_index(files: &Vec<VersionFile>) -> (r: usize)
    requires
        files@.len() > 0,
    ensures
        is_primary_at(files@, r as int),
{
    let mut i: usize = 0;
    while i < files.len()
        invariant
            i <= files.len(),
            forall|j: int| 0 <= j < i ==> !(#[trigger] files@[j]).primary,
        decreases files.len() - i,
    {
        if files[i].primary {
            return i;
        }
        i += 1;
    }
    0
}

pub fn primary_file(files: Vec<VersionFile>) -> (r: VersionFile)
    requires
        files@.len() > 0,
    ensures
        exists|i: int| #[trigger] is_primary_at(files@, i) && r == files@[i],
{
    let mut rest = files;
    let i = primary_index(&rest);
    rest.remove(i)
}

/// The digest that `file` has by `algorithm`, if it has one.
pub fn hash_by(file: &VersionFile, algorithm: &str) -> (r: Option<String>)
    ensures
        match r {
            Some(value) => exists|i: int| #[trigger] is_hash_at(file.hashes@, algorithm@, i) && value == file.hashes@[i].value,
            None => !has_hash(file.hashes@, algorithm@),
        },
{
    let wanted = String::from_str(algorithm);
    let mut i: usize = 0;
    while i < file.hashes.len()
        invariant
            i <= file.hashes.len(),
            wanted@ == algorithm@,
            forall|j: int| 0 <= j < i ==> (#[trigger] file.hashes@[j]).algorithm@ != algorithm@,
        decreases file.hashes.len() - i,
    {
        if file.hashes[i].algorithm == wanted {
            proof {
                assert(is_hash_at(file.hashes@, algorithm@, i as int));
            }
            return Some(file.hashes[i].value.clone());
        }
        i += 1;
    }
    None
}

/// The SHA-1 digest of the file to download, or the failure that names the
/// file where it has none.
pub fn get_primary_hash(files: Vec<VersionFile>) -> (r: Result<String, Error>)
    requires
        files@.len() > 0,
    ensures
        exists|i: int| #[trigger] is_primary_at(files@, i) && match r {
            Ok(hash) => exists|h: int| #[trigger] is_hash_at(files@[i].hashes@, "sha1"@, h) && hash == files@[i].hashes@[h].value,
            Err(e) => !has_hash(files@[i].hashes@, "sha1"@) && (e matches Error::Other(text) && text@ == files@[i].url@ + " file does not have a sha1 hash"@),
        },
{
    let primary = primary_file(files);
    let ghost i = choose|i: int| #[trigger] is_primary_at(files@, i) && primary == files@[i];
    let r = match hash_by(&primary, "sha1") {
        Some(hash) => Ok(hash),
        None => Err(Error::Other(primary.url.clone().concat(" file does not have a sha1 hash"))),
    };
    proof {
        assert(is_primary_at(files@, i));
    }
    r
}

impl VersionDependency {
    /// Whether `r` is the dependency as an edge: to the project that it
    /// names, under that project's generic id, with the version that it
    /// asks for; none where it names no project.
    pub open spec fn is_edge(self, r: Option<DependencyEdge>) -> bool {
        match self.project_id {
            Some(id) => r matches Some(e) && (e.project_id@ == Registry::Modrinth.prefix_text() + id@
                && e.version_id == self.version_id && e.required == (self.dependency_type
                == DependencyType::Required)),
            None => r is None,
        }
    }

    pub fn edge(self) -> (r: Option<DependencyEdge>)
        ensures
            self.is_edge(r),
    {
        let required = self.dependency_type == DependencyType::Required;
        match self.project_id {
            Some(id) => Some(
                DependencyEdge {
                    project_id: Registry::Modrinth.prefix().concat(id.as_str()),
                    version_id: self.version_id,
                    required,
                },
            ),
            None => None,
        }
    }
}

impl Version {
    /// The version as a candidate for installation.
    pub open spec fn as_candidate(self) -> Candidate {
        Candidate {
            id: VersionPointer::Text(self.id),
            game_versions: self.game_versions,
            loaders: self.loaders,
            available: true,
            published: self.date_published,
        }
    }

    pub fn into_candidate(self) -> (r: Candidate)
        ensures
            r == self.as_candidate(),
    {
        Candidate {
            id: VersionPointer::Text(self.id),
            game_versions: self.game_versions,
            loaders: self.loaders,
            available: true,
            published: self.date_published,
        }
    }
}

/// The versions as candidates, in their order.
pub fn candidates_of(versions: Vec<Version>) -> (r: Vec<Candidate>)
    ensures
        r@ == versions@.map_values(|v: Version| v.as_candidate()),
{
    let ghost all = versions@;
    let ghost convert = |v: Version| v.as_candidate();
    let mut rest = versions;
    let n: usize = rest.len();
    let mut out: Vec<Candidate> = Vec::new();
    let mut i: usize = 0;
    proof {
        assert(all.skip(0) =~= all);
    }
    while i < n
        invariant
            i <= n,
            n == all.len(),
            convert == (|v: Version| v.as_candidate()),
            rest@ == all.skip(i as int),
            out@ == all.take(i as int).map_values(convert),
        decreases n - i,
    {
        let version = rest.remove(0);
        proof {
            assert(version == all[i as int]);
            assert(rest@ =~= all.skip(i as int + 1));
            assert(all.take(i as int + 1).map_values(convert) =~= all.take(i as int).map_values(
                convert,
            ).push(convert(all[i as int])));
        }
        out.push(version.into_candidate());
        i += 1;
    }
    proof {
        assert(all.take(n as int) =~= all);
    }
    out
}

impl Project {
    /// The addon that the project becomes at the version `version_id`.
    pub open spec fn as_addon(self, version_id: String, filename: String) -> Addon {
        Addon {
            name: self.title,
            project_type: self.project_type,
            side: side_of(self.client_side, self.server_side),
            source: AddonSource::Modrinth(ModrinthSource { id: self.id, version: version_id }),
            options: Some(AddonOptions::nothing_set()),
            filename: Some(filename),
        }
    }

    /// The addon that the project becomes at the version `version_id`. Its
    /// descriptor is stored under the project's slug.
    pub fn addon(&self, version_id: String) -> (r: Addon)
        ensures
            r.filename matches Some(f) && (f@ == self.slug@ + ".toml"@ && r == self.as_addon(
                version_id,
                f,
            )),
    {
        Addon {
            name: self.title.clone(),
            project_type: self.project_type,
            side: get_side(&self.client_side, &self.server_side),
            source: AddonSource::Modrinth(ModrinthSource { id: self.id.clone(), version: version_id }),
            options: Some(AddonOptions::unset()),
            filename: Some(self.slug.clone().concat(".toml")),
        }
    }
}

/// Whether `r` is what resolving the project gives: the project at the
/// version that was asked for, else at the version that the pack installs
/// among those listed, or the failure of picking one.
pub open spec fn resolves(
    modpack: Modpack,
    project: Project,
    versions: Seq<Version>,
    version_id: Option<String>,
    r: Result<Addon, Error>,
) -> bool {
    match version_id {
        Some(id) => r matches Ok(addon) && (addon.filename matches Some(f) && addon == project.as_addon(
            id,
            f,
        )),
        None => {
            let listed = views(versions.map_values(|v: Version| v.as_candidate()));
            match r {
                Ok(addon) => exists|c: Candidate| #[trigger]
                    picks(project.title, project.project_type, listed, modpack, Ok(c)) && (c.id
                        matches VersionPointer::Text(id) && (addon.filename matches Some(f) && addon
                        == project.as_addon(id, f))),
                Err(e) => picks(project.title, project.project_type, listed, modpack, Err(e)),
            }
        },
    }
}

/// Resolves the project that a dependency edge leads to: at the version
/// that the edge asks for, where it asks for one, else at the version that
/// the pack installs.
pub fn resolve_dependency(
    modpack: &Modpack,
    edge: &DependencyEdge,
    project: &Project,
    versions: Vec<Version>,
) -> (r: Result<Addon, Error>)
    ensures
        resolves(*modpack, *project, versions@, edge.version_id, r),
        r matches Ok(addon) ==> addon.source.generic_id_text() == Registry::Modrinth.prefix_text()
            + project.id@,
{
    let version_id = match &edge.version_id {
        Some(v) => Some(v.clone()),
        None => None,
    };
    resolve_mod(modpack, project, versions, version_id)
}

/// Resolves a project to the addon to add: at the version that was asked
/// for, else at the version that the pack installs.
pub fn resolve_mod(
    modpack: &Modpack,
    project: &Project,
    versions: Vec<Version>,
    version_id: Option<String>,
) -> (r: Result<Addon, Error>)
    ensures
        resolves(*modpack, *project, versions@, version_id, r),
        r matches Ok(addon) ==> addon.source.generic_id_text() == Registry::Modrinth.prefix_text()
            + project.id@,
{
    match version_id {
        Some(id) => Ok(project.addon(id)),
        None => {
            let candidates = candidates_of(versions);
            let ghost made = candidates@;
            match pick_version(&project.title, &project.project_type, candidates, modpack) {
                Err(e) => Err(e),
                Ok(c) => {
                    let ghost chosen = c;
                    proof {
                        crate::compat::lemma_picked_is_listed(
                            project.title,
                            project.project_type,
                            made,
                            *modpack,
                            c,
                        );
                    }
                    match c.id {
                        VersionPointer::Text(id) => {
                            let addon = project.addon(id);
                            proof {
                                assert(picks(
                                    project.title,
                                    project.project_type,
                                    views(made),
                                    *modpack,
                                    Ok(chosen),
                                ));
                            }
                            Ok(addon)
                        },
                        VersionPointer::Number(_) => {
                            proof {
                                assert(false);
                            }
                            Err(Error::NoCompatibleVersions(project.title.clone()))
                        },
                    }
                },
            }
        },
    }
}

/// Whether a pattern matches somewhere in a text; none where the pattern is no valid one.
pub uninterp spec fn regex_match_of(pattern: Seq<char>, text: Seq<char>) -> Option<bool>;

/// Calls `Regex::new` and `Regex::is_match` of the regex crate, which
/// lazy-regex hands on. The result is only named: whether the pattern is
/// valid and whether it matches depend on the two texts alone.
#[verifier::external_body]
fn regex_is_match(pattern: &str, text: &str) -> (r: Option<bool>)
    ensures
        r == regex_match_of(pattern@, text@),
{
    match lazy_regex::Regex::new(pattern) {
        Ok(re) => Some(re.is_match(text)),
        Err(_) => None,
    }
}

/// The pattern of an id or slug: three to sixty-four word characters or
/// one of a few marks.
pub open spec fn id_pattern() -> Seq<char> {
    "^[\\w!@$()`.+,\"\\-']{3,64}$"@
}

/// Whether `r` is the verdict on `id`, given whether the pattern matched it.
pub open spec fn is_verdict(id: Seq<char>, matched: Option<bool>, r: Result<(), Error>) -> bool {
    match r {
        Ok(_) => matched == Some(true),
        Err(e) => matched != Some(true) && (e matches Error::InvalidId(text) && text@ == id),
    }
}

/// The verdict on an id, given whether the pattern of ids matched it.
pub fn id_verdict(id: &str, matched: Option<bool>) -> (r: Result<(), Error>)
    ensures
        is_verdict(id@, matched, r),
{
    match matched {
        Some(true) => Ok(()),
        _ => Err(Error::InvalidId(String::from_str(id))),
    }
}

/// Checks that a text can be an id or slug of the registry, before the
/// registry is asked about it.
pub fn check_id(id: &str) -> (r: Result<(), Error>)
    ensures
        is_verdict(id@, regex_match_of(id_pattern(), id@), r),
{
    let matched = regex_is_match("^[\\w!@$()`.+,\"\\-']{3,64}$", id);
    id_verdict(id, matched)
}

impl SearchFacet {
    pub open spec fn rendered(self) -> Seq<char> {
        match self {
            SearchFacet::ProjectType(t) => "project_type: \""@ + t.label_text() + "\""@,
            SearchFacet::Categories(c) => "categories: "@ + c@,
            SearchFacet::Versions(v) => "versions: "@ + v@,
        }
    }

    /// The facet as the registry's search expects it.
    pub fn render(&self) -> (r: String)
        ensures
            r@ == self.rendered(),
    {
        match self {
            SearchFacet::ProjectType(t) => {
                let label = t.label();
                String::from_str("project_type: \"").concat(label.as_str()).concat("\"")
            },
            SearchFacet::Categories(c) => String::from_str("categories: ").concat(c.as_str()),
            SearchFacet::Versions(v) => String::from_str("versions: ").concat(v.as_str()),
        }
    }
}

/// The place of the first hit whose title is `query`, whatever the case.
pub fn exact_hit(hits: &Vec<SearchHit>, query: &str) -> (r: Option<usize>)
    ensures
        match r {
            Some(i) => i < hits@.len() && lowercase_of(hits@[i as int].title@) == lowercase_of(query@)
                && forall|j: int| 0 <= j < i ==> lowercase_of((#[trigger] hits@[j]).title@) != lowercase_of(query@),
            None => forall|j: int| 0 <= j < hits@.len() ==> lowercase_of((#[trigger] hits@[j]).title@) != lowercase_of(query@),
        },
{
    let wanted = to_lowercase(query);
    let mut i: usize = 0;
    while i < hits.len()
        invariant
            i <= hits.len(),
            wanted@ == lowercase_of(query@),
            forall|j: int| 0 <= j < i ==> lowercase_of((#[trigger] hits@[j]).title@) != lowercase_of(query@),
        decreases hits.len() - i,
    {
        if to_lowercase(hits[i].title.as_str()) == wanted {
            return Some(i);
        }
        i += 1;
    }
    None
}

impl SideSupportType {
    /// The word that stands for the value where it is written down.
    pub open spec fn label_text(self) -> Seq<char> {
        match self {
            SideSupportType::Required => "required"@,
            SideSupportType::Optional => "optional"@,
            SideSupportType::Unsupported => "unsupported"@,
            SideSupportType::Unknown => "unknown"@,
        }
    }

    pub fn label(&self) -> (r: String)
        ensures
            r@ == self.label_text(),
    {
        match self {
            SideSupportType::Required => String::from_str("required"),
            SideSupportType::Optional => String::from_str("optional"),
            SideSupportType::Unsupported => String::from_str("unsupported"),
            SideSupportType::Unknown => String::from_str("unknown"),
        }
    }

    /// The value that a word stands for, if it stands for one.
    pub fn from_label(label: &str) -> (r: Option<SideSupportType>)
        ensures
            match r {
                Some(value) => label@ == value.label_text(),
                None => forall|value: SideSupportType| label@ != value.label_text(),
            },
    {
        let owned = String::from_str(label);
        if owned == String::from_str("required") {
            Some(SideSupportType::Required)
        } else if owned == String::from_str("optional") {
            Some(SideSupportType::Optional)
        } else if owned == String::from_str("unsupported") {
            Some(SideSupportType::Unsupported)
        } else if owned == String::from_str("unknown") {
            Some(SideSupportType::Unknown)
        } else {
            None
        }
    }
}
impl DependencyType {
    /// The word that stands for the value where it is written down.
    pub open spec fn label_text(self) -> Seq<char> {
        match self {
            DependencyType::Required => "required"@,
            DependencyType::Optional => "optional"@,
            DependencyType::Incompatible => "incompatible"@,
            DependencyType::Embedded => "embedded"@,
            DependencyType::Unsupported => "unsupported"@,
            DependencyType::Unknown => "unknown"@,
        }
    }

    pub fn label(&self) -> (r: String)
        ensures
            r@ == self.label_text(),
    {
        match self {
            DependencyType::Required => String::from_str("required"),
            DependencyType::Optional => String::from_str("optional"),
            DependencyType::Incompatible => String::from_str("incompatible"),
            DependencyType::Embedded => String::from_str("embedded"),
            DependencyType::Unsupported => String::from_str("unsupported"),
            DependencyType::Unknown => String::from_str("unknown"),
        }
    }

    /// The value that a word stands for, if it stands for one.
    pub fn from_label(label: &str) -> (r: Option<DependencyType>)
        ensures
            match r {
                Some(value) => label@ == value.label_text(),
                None => forall|value: DependencyType| label@ != value.label_text(),
            },
    {
        let owned = String::from_str(label);
        if owned == String::from_str("required") {
            Some(DependencyType::Required)
        } else if owned == String::from_str("optional") {
            Some(DependencyType::Optional)
        } else if owned == String::from_str("incompatible") {
            Some(DependencyType::Incompatible)
        } else if owned == String::from_str("embedded") {
            Some(DependencyType::Embedded)
        } else if owned == String::from_str("unsupported") {
            Some(DependencyType::Unsupported)
        } else if owned == String::from_str("unknown") {
            Some(DependencyType::Unknown)
        } else {
            None
        }
    }
}


/// Whether no algorithm occurs twice: the list stands for a map, and a
/// lookup finds the only entry of its key.
pub open spec fn distinct_algorithms(list: Seq<HashEntry>) -> bool {
    forall|i: int, j: int| 0 <= i < j < list.len() ==> (#[trigger] list[i]).algorithm@ != (#[trigger] list[j]).algorithm@
}

pub fn has_distinct_algorithms(list: &Vec<HashEntry>) -> (r: bool)
    ensures
        r == distinct_algorithms(list@),
{
    let mut j: usize = 0;
    while j < list.len()
        invariant
            j <= list.len(),
            forall|a: int, b: int| 0 <= a < b < j ==> (#[trigger] list@[a]).algorithm@ != (#[trigger] list@[b]).algorithm@,
        decreases list.len() - j,
    {
        let mut i: usize = 0;
        while i < j
            invariant
                i <= j < list.len(),
                forall|a: int| 0 <= a < i ==> (#[trigger] list@[a]).algorithm@ != list@[j as int].algorithm@,
            decreases j - i,
        {
            if list[i].algorithm == list[j].algorithm {
                return false;
            }
            i += 1;
        }
        j += 1;
    }
    true
}

/// Where no algorithm occurs twice, the entry that a lookup finds is the
/// only one of its key.
pub proof fn lemma_hash_is_the_only(list: Seq<HashEntry>, key: Seq<char>, i: int, j: int)
    requires
        distinct_algorithms(list),
        is_hash_at(list, key, i),
        0 <= j < list.len(),
        list[j].algorithm@ == key,
    ensures
        i == j,
{
}

} // verus!
