//! What the second mod registry reports, and how it enters the addon model.

use vstd::prelude::*;
use vstd::string::*;
use crate::compat::{lemma_picked_is_listed, pick_version, picks, views, Candidate, CandidateView, VersionPointer};
use crate::error::Error;
use crate::model::{Addon, AddonOptions, AddonSource, CurseforgeSource, Modpack, ProjectType, Registry, Side};
use crate::resolver::DependencyEdge;
use crate::text::{decimal, decimal_string, lowercase_of, texts, to_lowercase};

verus! {

#[derive(Debug, Clone, PartialEq, Eq)]
pub struct CurseResponse<T> {
    pub data: T,
}

#[derive(Debug, Clone, PartialEq, Eq)]
pub struct Mod {
    pub id: i32,
    pub game_id: i32,
    pub name: String,
    pub slug: String,
    pub summary: String,
    pub website_url: String,
    pub class_id: Option<i32>,
    pub allow_mod_distribution: Option<bool>,
}

#[derive(Debug, Clone, PartialEq, Eq)]
pub struct FileHash {
    pub value: String,
    pub algo: i32,
}

#[derive(Debug, Clone, Copy, PartialEq, Eq, Structural)]
pub enum FileRelationType {
    EmbeddedLibrary,
    OptionalDependency,
    RequiredDependency,
    Tool,
    Incompatible,
    Include,
}

#[derive(Debug, Clone, Copy, PartialEq, Eq)]
pub struct FileDependency {
    pub mod_id: i32,
    pub relation_type: FileRelationType,
}

#[derive(Debug, Clone, PartialEq, Eq)]
pub struct File {
    pub id: i32,
    pub mod_id: i32,
    pub is_available: bool,
    pub file_name: String,
    pub hashes: Vec<FileHash>,
    pub download_url: Option<String>,
    pub game_versions: Vec<String>,
    pub dependencies: Vec<FileDependency>,
    pub file_date: u128,
}

#[derive(Debug, Clone, PartialEq, Eq)]
pub struct Match {
    pub id: i32,
    pub file: File,
}

#[derive(Debug, Clone, PartialEq, Eq)]
pub struct FingerprintMatches {
    pub exact_matches: Vec<Match>,
}

/// Each text in lower case.
pub open spec fn lowered(list: Seq<Seq<char>>) -> Seq<Seq<char>> {
    Seq::new(list.len(), |i: int| lowercase_of(list[i]))
}

impl FileRelationType {
    /// The number that the registry writes for the relation.
    pub open spec fn code_of(self) -> u8 {
        match self {
            FileRelationType::EmbeddedLibrary => 1,
            FileRelationType::OptionalDependency => 2,
            FileRelationType::RequiredDependency => 3,
            FileRelationType::Tool => 4,
            FileRelationType::Incompatible => 5,
            FileRelationType::Include => 6,
        }
    }

    pub fn code(&self) -> (r: u8)
        ensures
            r == self.code_of(),
    {
        match self {
            FileRelationType::EmbeddedLibrary => 1,
            FileRelationType::OptionalDependency => 2,
            FileRelationType::RequiredDependency => 3,
            FileRelationType::Tool => 4,
            FileRelationType::Incompatible => 5,
            FileRelationType::Include => 6,
        }
    }

    pub fn from_code(code: u8) -> (r: Option<FileRelationType>)
        ensures
            match r {
                Some(relation) => relation.code_of() == code,
                None => code < 1 || code > 6,
            },
    {
        if code == 1 {
            Some(FileRelationType::EmbeddedLibrary)
        } else if code == 2 {
            Some(FileRelationType::OptionalDependency)
        } else if code == 3 {
            Some(FileRelationType::RequiredDependency)
        } else if code == 4 {
            Some(FileRelationType::Tool)
        } else if code == 5 {
            Some(FileRelationType::Incompatible)
        } else if code == 6 {
            Some(FileRelationType::Include)
        } else {
            None
        }
    }
}

impl FileDependency {
    pub fn edge(&self) -> (r: DependencyEdge)
        ensures
            r.project_id@ == Registry::Curseforge.prefix_text() + decimal(self.mod_id as int),
            r.version_id is None,
            r.required == (self.relation_type == FileRelationType::RequiredDependency),
    {
        DependencyEdge {
            project_id: Registry::Curseforge.prefix().concat(decimal_string(self.mod_id).as_str()),
            version_id: None,
            required: self.relation_type == FileRelationType::RequiredDependency,
        }
    }
}

/// Each string of the list in lower case.
pub fn lowercase_all(list: &Vec<String>) -> (r: Vec<String>)
    ensures
        texts(r@) == lowered(texts(list@)),
{
    let mut out: Vec<String> = Vec::new();
    let mut i: usize = 0;
    while i < list.len()
        invariant
            i <= list.len(),
            out@.len() == i,
            forall|j: int| 0 <= j < i ==> (#[trigger] out@[j])@ == lowercase_of(list@[j]@),
        decreases list.len() - i,
    {
        out.push(to_lowercase(list[i].as_str()));
        i += 1;
    }
    proof {
        assert(texts(out@) =~= lowered(texts(list@)));
    }
    out
}

impl File {
    /// What the file says as a candidate for installation. The registry
    /// lists loaders among the game versions, capitalised: the loaders of
    /// the candidate are the same entries in lower case.
    pub open spec fn as_candidate(self) -> CandidateView {
        CandidateView {
            id: VersionPointer::Number(self.id),
            game_versions: texts(self.game_versions@),
            loaders: lowered(texts(self.game_versions@)),
            available: self.is_available,
            published: self.file_date,
        }
    }

    pub fn into_candidate(self) -> (r: Candidate)
        ensures
            r@ == self.as_candidate(),
    {
        let loaders = lowercase_all(&self.game_versions);
        Candidate {
            id: VersionPointer::Number(self.id),
            game_versions: self.game_versions,
            loaders,
            available: self.is_available,
            published: self.file_date,
        }
    }
}

/// The files as candidates, in their order.
pub fn candidates_of(files: Vec<File>) -> (r: Vec<Candidate>)
    ensures
        views(r@) == files@.map_values(|f: File| f.as_candidate()),
{
    let ghost all = files@;
    let ghost convert = |f: File| f.as_candidate();
    let mut rest = files;
    let n: usize = rest.len();
    let mut out: Vec<Candidate> = Vec::new();
    let mut i: usize = 0;
    proof {
        assert(all.skip(0) =~= all);
        assert(views(out@) =~= all.take(0).map_values(convert));
    }
    while i < n
        invariant
            i <= n,
            n == all.len(),
            convert == (|f: File| f.as_candidate()),
            rest@ == all.skip(i as int),
            views(out@) == all.take(i as int).map_values(convert),
        decreases n - i,
    {
        let file = rest.remove(0);
        let ghost before = out@;
        proof {
            assert(file == all[i as int]);
            assert(rest@ =~= all.skip(i as int + 1));
        }
        let candidate = file.into_candidate();
        out.push(candidate);
        proof {
            assert(views(out@) =~= views(before).push(candidate@));
            assert(all.take(i as int + 1).map_values(convert) =~= all.take(i as int).map_values(
                convert,
            ).push(convert(all[i as int])));
        }
        i += 1;
    }
    proof {
        assert(all.take(n as int) =~= all);
    }
    out
}

impl Mod {
    /// The project type of the mod, if it has one that a pack can hold.
    pub open spec fn project_type(self) -> Option<ProjectType> {
        match self.class_id {
            Some(class) => ProjectType::of_class(class as int),
            None => None,
        }
    }

    /// The addon that the mod becomes at the file `file_id`.
    pub open spec fn as_addon(self, project_type: ProjectType, file_id: i32, filename: String) -> Addon {
        Addon {
            name: self.name,
            project_type,
            side: Side::Both,
            source: AddonSource::Curseforge(CurseforgeSource { id: self.id, version: file_id }),
            options: Some(AddonOptions::nothing_set()),
            filename: Some(filename),
        }
    }

    pub fn get_project_type(&self) -> (r: Option<ProjectType>)
        ensures
            r == self.project_type(),
    {
        match self.class_id {
            Some(class) => ProjectType::try_from(class),
            None => None,
        }
    }

    /// The addon that the mod becomes at the file `file_id`. Its descriptor
    /// is stored under the mod's slug.
    pub fn addon(&self, project_type: ProjectType, file_id: i32) -> (r: Addon)
        ensures
            r.filename matches Some(f) && (f@ == self.slug@ + ".toml"@ && r == self.as_addon(
                project_type,
                file_id,
                f,
            )),
    {
        Addon {
            name: self.name.clone(),
            project_type,
            side: Side::Both,
            source: AddonSource::Curseforge(CurseforgeSource { id: self.id, version: file_id }),
            options: Some(AddonOptions::unset()),
            filename: Some(self.slug.clone().concat(".toml")),
        }
    }
}

/// Resolves a mod to the addon to add, at the file that the pack installs.
pub fn resolve_mod(modpack: &Modpack, cf_mod: &Mod, files: Vec<File>) -> (r: Result<Addon, Error>)
    ensures
        match cf_mod.project_type() {
            None => r == Err::<Addon, Error>(Error::UnsupportedProjectType(cf_mod.name)),
            Some(project_type) => {
                let listed = files@.map_values(|f: File| f.as_candidate());
                match r {
                    Ok(addon) => exists|c: Candidate| #[trigger]
                        picks(cf_mod.name, project_type, listed, *modpack, Ok(c)) && (c.id
                            matches VersionPointer::Number(id) && (addon.filename matches Some(f)
                            && addon == cf_mod.as_addon(project_type, id, f))),
                    Err(e) => picks(cf_mod.name, project_type, listed, *modpack, Err(e)),
                }
            },
        },
        r matches Ok(addon) ==> addon.source.generic_id_text() == Registry::Curseforge.prefix_text()
            + decimal(cf_mod.id as int),
{
    let project_type = match cf_mod.get_project_type() {
        Some(t) => t,
        None => {
            return Err(Error::UnsupportedProjectType(cf_mod.name.clone()));
        },
    };
    let candidates = candidates_of(files);
    let ghost made = candidates@;
    match pick_version(&cf_mod.name, &project_type, candidates, modpack) {
        Err(e) => Err(e),
        Ok(c) => {
            let ghost chosen = c;
            proof {
                lemma_picked_is_listed(cf_mod.name, project_type, made, *modpack, c);
                let k = choose|k: int| 0 <= k < made.len() && (#[trigger] made[k]).id == c.id;
                assert(views(made)[k].id == made[k].id);
            }
            match c.id {
                VersionPointer::Number(id) => {
                    let addon = cf_mod.addon(project_type, id);
                    proof {
                        assert(picks(cf_mod.name, project_type, views(made), *modpack, Ok(chosen)));
                    }
                    Ok(addon)
                },
                VersionPointer::Text(_) => {
                    proof {
                        assert(false);
                    }
                    Err(Error::NoCompatibleVersions(cf_mod.name.clone()))
                },
            }
        },
    }
}

} // verus!
