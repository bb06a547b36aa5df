//! The archive format with a manifest of project and file ids and a
//! readable list of the mods.

use vstd::prelude::*;
use vstd::string::*;
use crate::curseforge::{File, Mod};
use crate::error::Error;
use crate::model::{Addon, AddonOptions, AddonSource, CurseforgeSource, ModLoader, Modpack, Side, Versions, Placement};
use crate::text::{find_char, first_index_of, lemma_first_index_of, slice};

verus! {

#[derive(Debug, Clone, PartialEq, Eq)]
pub struct CfManifest {
    pub minecraft: CfMinecraft,
    pub manifest_type: String,
    pub manifest_version: i32,
    pub name: String,
    pub version: String,
    pub author: String,
    pub files: Vec<CfFile>,
    pub overrides: String,
}

#[derive(Debug, Clone, PartialEq, Eq)]
pub struct CfMinecraft {
    pub version: String,
    pub mod_loaders: Vec<CfModLoader>,
}

#[derive(Debug, Clone, PartialEq, Eq)]
pub struct CfModLoader {
    pub id: String,
    pub primary: bool,
}

#[derive(Debug, Clone, Copy, PartialEq, Eq)]
pub struct CfFile {
    pub project_id: i32,
    pub file_id: i32,
    pub required: bool,
}

/// The texts of `list` with `separator` between each two.
pub open spec fn joined(list: Seq<String>, separator: Seq<char>) -> Seq<char>
    decreases list.len(),
{
    if list.len() == 0 {
        Seq::empty()
    } else if list.len() == 1 {
        list[0]@
    } else {
        joined(list.drop_last(), separator) + separator + list.last()@
    }
}

/// The manifest entries of the addons that come from this format's own
/// registry, in their order; each is required.
pub open spec fn manifest_files(addons: Seq<Addon>) -> Seq<CfFile>
    decreases addons.len(),
{
    if addons.len() == 0 {
        Seq::empty()
    } else {
        match addons.last().source {
            AddonSource::Curseforge(s) => manifest_files(addons.drop_last()).push(
                CfFile { project_id: s.id, file_id: s.version, required: true },
            ),
            _ => manifest_files(addons.drop_last()),
        }
    }
}

/// The line of the mod list for one mod.
pub open spec fn modlist_line(m: Mod) -> Seq<char> {
    "\n<li><a href=\""@ + m.website_url@ + "\">"@ + m.name@ + "</a></li>"@
}

pub open spec fn modlist_lines(mods: Seq<Mod>) -> Seq<char>
    decreases mods.len(),
{
    if mods.len() == 0 {
        Seq::empty()
    } else {
        modlist_lines(mods.drop_last()) + modlist_line(mods.last())
    }
}

/// The readable list of the mods: one linked item for each.
pub open spec fn modlist_text(mods: Seq<Mod>) -> Seq<char> {
    "<ul>"@ + modlist_lines(mods) + "\n</ul>"@
}

/// What a loader id says: the loader's tag before the first dash, and the
/// version from there to the next dash or the end.
pub open spec fn loader_id_parts(id: Seq<char>) -> Option<(Seq<char>, Seq<char>)> {
    let at = first_index_of(id, '-');
    if at < id.len() {
        let rest = id.subrange(at + 1, id.len() as int);
        Some((id.subrange(0, at), rest.subrange(0, first_index_of(rest, '-'))))
    } else {
        None
    }
}

pub fn join(list: &Vec<String>, separator: &str) -> (r: String)
    ensures
        r@ == joined(list@, separator@),
{
    let mut out = String::new();
    let mut i: usize = 0;
    while i < list.len()
        invariant
            i <= list.len(),
            out@ == joined(list@.take(i as int), separator@),
        decreases list.len() - i,
    {
        proof {
            assert(list@.take(i as int + 1).drop_last() =~= list@.take(i as int));
            assert(list@.take(i as int + 1).last() == list@[i as int]);
            if i == 0 {
                assert(out@ + list@[0]@ =~= list@[0]@);
            }
        }
        if i > 0 {
            out.append(separator);
        }
        out.append(list[i].as_str());
        i += 1;
    }
    proof {
        assert(list@.take(list.len() as int) =~= list@);
    }
    out
}

pub fn files_of(addons: &Vec<Addon>) -> (r: Vec<CfFile>)
    ensures
        r@ == manifest_files(addons@),
{
    let mut out: Vec<CfFile> = Vec::new();
    let mut i: usize = 0;
    while i < addons.len()
        invariant
            i <= addons.len(),
            out@ == manifest_files(addons@.take(i as int)),
        decreases addons.len() - i,
    {
        proof {
            assert(addons@.take(i as int + 1).drop_last() =~= addons@.take(i as int));
            assert(addons@.take(i as int + 1).last() == addons@[i as int]);
        }
        match &addons[i].source {
            AddonSource::Curseforge(s) => {
                out.push(CfFile { project_id: s.id, file_id: s.version, required: true });
            },
            _ => {},
        }
        i += 1;
    }
    proof {
        assert(addons@.take(addons.len() as int) =~= addons@);
    }
    out
}

/// The manifest of a pack with the given addons, for the loader version `loader_version`.
pub fn manifest(modpack: &Modpack, loader_version: &str, addons: &Vec<Addon>) -> (r: CfManifest)
    ensures
        r.minecraft.version == modpack.versions.minecraft,
        r.minecraft.mod_loaders@.len() == 1,
        r.minecraft.mod_loaders@[0].primary,
        r.minecraft.mod_loaders@[0].id@ == modpack.versions.loader.tag_text() + "-"@ + loader_version@,
        r.manifest_type@ == "minecraftModpack"@,
        r.manifest_version == 1,
        r.name == modpack.name,
        r.version == modpack.version,
        r.author@ == joined(modpack.authors@, ", "@),
        r.files@ == manifest_files(addons@),
        r.overrides@ == "overrides"@,
{
    let mut mod_loaders: Vec<CfModLoader> = Vec::new();
    mod_loaders.push(
        CfModLoader {
            id: modpack.versions.loader.tag().concat("-").concat(loader_version),
            primary: true,
        },
    );
    CfManifest {
        minecraft: CfMinecraft { version: modpack.versions.minecraft.clone(), mod_loaders },
        manifest_type: String::from_str("minecraftModpack"),
        manifest_version: 1,
        name: modpack.name.clone(),
        version: modpack.version.clone(),
        author: join(&modpack.authors, ", "),
        files: files_of(addons),
        overrides: String::from_str("overrides"),
    }
}

pub fn modlist(mods: &Vec<Mod>) -> (r: String)
    ensures
        r@ == modlist_text(mods@),
{
    let mut out = String::from_str("<ul>");
    let mut i: usize = 0;
    proof {
        assert("<ul>"@ + modlist_lines(mods@.take(0)) =~= "<ul>"@);
    }
    while i < mods.len()
        invariant
            i <= mods.len(),
            out@ == "<ul>"@ + modlist_lines(mods@.take(i as int)),
        decreases mods.len() - i,
    {
        let ghost before = out@;
        out.append("\n<li><a href=\"");
        out.append(mods[i].website_url.as_str());
        out.append("\">");
        out.append(mods[i].name.as_str());
        out.append("</a></li>");
        proof {
            assert(mods@.take(i as int + 1).drop_last() =~= mods@.take(i as int));
            assert(mods@.take(i as int + 1).last() == mods@[i as int]);
            assert(out@ =~= before + modlist_line(mods@[i as int]));
            assert(out@ =~= "<ul>"@ + modlist_lines(mods@.take(i as int + 1)));
        }
        i += 1;
    }
    proof {
        assert(mods@.take(mods.len() as int) =~= mods@);
    }
    out.append("\n</ul>");
    out
}

/// Whether `i` is the place of the loader that a manifest marks as its
/// own: the first that it marks.
pub open spec fn is_primary_loader_at(loaders: Seq<CfModLoader>, i: int) -> bool {
    &&& 0 <= i < loaders.len()
    &&& loaders[i].primary
    &&& forall|j: int| 0 <= j < i ==> !(#[trigger] loaders[j]).primary
}

/// The place of the loader that a manifest marks as its own.
pub fn primary_loader(loaders: &Vec<CfModLoader>) -> (r: Option<usize>)
    ensures
        match r {
            Some(i) => is_primary_loader_at(loaders@, i as int),
            None => forall|j: int| 0 <= j < loaders@.len() ==> !(#[trigger] loaders@[j]).primary,
        },
{
    let mut i: usize = 0;
    while i < loaders.len()
        invariant
            i <= loaders.len(),
            forall|j: int| 0 <= j < i ==> !(#[trigger] loaders@[j]).primary,
        decreases loaders.len() - i,
    {
        if loaders[i].primary {
            return Some(i);
        }
        i += 1;
    }
    None
}

/// The loader and its version that a loader id of a manifest names. An id
/// without a dash, or with the tag of no loader, cannot be imported.
pub fn parse_loader_id(id: &str) -> (r: Result<(ModLoader, String), Error>)
    ensures
        match r {
            Ok((loader, version)) => loader_id_parts(id@) == Some((loader.tag_text(), version@)),
            Err(e) => (e matches Error::Other(text) && text@ == "Pack has unsupported mod loader"@)
                && match loader_id_parts(id@) {
                Some((tag, _)) => forall|loader: ModLoader| tag != loader.tag_text(),
                None => true,
            },
        },
{
    let n: usize = id.unicode_len();
    let at = find_char(id, '-');
    proof {
        lemma_first_index_of(id@, '-');
    }
    if at >= n {
        return Err(Error::Other(String::from_str("Pack has unsupported mod loader")));
    }
    let tag = slice(id, 0, at);
    let rest = slice(id, at + 1, n);
    let end = find_char(rest.as_str(), '-');
    proof {
        lemma_first_index_of(rest@, '-');
    }
    let version = slice(rest.as_str(), 0, end);
    match ModLoader::from_tag(tag.as_str()) {
        Some(loader) => Ok((loader, version)),
        None => Err(Error::Other(String::from_str("Pack has unsupported mod loader"))),
    }
}

/// Whether a loader id names no loader of the known ones.
pub open spec fn names_no_loader(id: Seq<char>) -> bool {
    match loader_id_parts(id) {
        Some((tag, _)) => forall|loader: ModLoader| tag != loader.tag_text(),
        None => true,
    }
}

/// The target that a manifest declares, by the loader that it marks as its
/// own. A manifest that marks none, or one whose id names no known
/// loader, cannot be imported.
pub fn declared_versions(minecraft: &CfMinecraft) -> (r: Result<Versions, Error>)
    ensures
        match r {
            Ok(v) => v.minecraft == minecraft.version && exists|i: int| #[trigger]
                is_primary_loader_at(minecraft.mod_loaders@, i) && loader_id_parts(
                    minecraft.mod_loaders@[i].id@,
                ) == Some((v.loader.tag_text(), v.loader_version@)),
            Err(e) => (e matches Error::Other(text) && text@ == "Pack has unsupported mod loader"@) && (
            (forall|j: int| 0 <= j < minecraft.mod_loaders@.len() ==> !(#[trigger] minecraft.mod_loaders@[j]).primary)
                || exists|i: int| #[trigger]
                    is_primary_loader_at(minecraft.mod_loaders@, i) && names_no_loader(
                        minecraft.mod_loaders@[i].id@,
                    )),
        },
{
    match primary_loader(&minecraft.mod_loaders) {
        None => Err(Error::Other(String::from_str("Pack has unsupported mod loader"))),
        Some(i) => match parse_loader_id(minecraft.mod_loaders[i].id.as_str()) {
            Err(e) => {
                proof {
                    assert(is_primary_loader_at(minecraft.mod_loaders@, i as int));
                }
                Err(e)
            },
            Ok((loader, loader_version)) => {
                proof {
                    assert(is_primary_loader_at(minecraft.mod_loaders@, i as int));
                }
                Ok(Versions { minecraft: minecraft.version.clone(), loader, loader_version })
            },
        },
    }
}

/// Whether `i` is the place of the first file that a manifest lists for the project.
pub open spec fn is_file_at(files: Seq<CfFile>, project_id: i32, i: int) -> bool {
    &&& 0 <= i < files.len()
    &&& files[i].project_id == project_id
    &&& forall|j: int| 0 <= j < i ==> (#[trigger] files[j]).project_id != project_id
}

/// The file that a manifest lists for the project, if it lists one.
pub fn file_of(files: &Vec<CfFile>, project_id: i32) -> (r: Option<i32>)
    ensures
        match r {
            Some(file_id) => exists|i: int| #[trigger] is_file_at(files@, project_id, i) && files@[i].file_id == file_id,
            None => forall|j: int| 0 <= j < files@.len() ==> (#[trigger] files@[j]).project_id != project_id,
        },
{
    let mut i: usize = 0;
    while i < files.len()
        invariant
            i <= files.len(),
            forall|j: int| 0 <= j < i ==> (#[trigger] files@[j]).project_id != project_id,
        decreases files.len() - i,
    {
        if files[i].project_id == project_id {
            proof {
                assert(is_file_at(files@, project_id, i as int));
            }
            return Some(files[i].file_id);
        }
        i += 1;
    }
    None
}

/// The addon for a mod that a manifest lists, at the first file that it
/// lists for the mod: none where the manifest has no file for it, or where
/// its project type is none that a pack can hold.
pub fn imported_addon(cf_mod: &Mod, files: &Vec<CfFile>) -> (r: Option<Addon>)
    ensures
        match r {
            Some(addon) => imports(*cf_mod, files@, addon),
            None => !importable(*cf_mod, files@),
        },
{
    let project_type = match cf_mod.get_project_type() {
        Some(t) => t,
        None => {
            return None;
        },
    };
    match file_of(files, cf_mod.id) {
        None => None,
        Some(file_id) => Some(
            Addon {
                name: cf_mod.name.clone(),
                project_type,
                side: Side::Both,
                source: AddonSource::Curseforge(CurseforgeSource { id: cf_mod.id, version: file_id }),
                options: Some(AddonOptions::unset()),
                filename: None,
            },
        ),
    }
}

/// An addon of this format's registry that is exported and imported again
/// is the same project at the same file, where no other addon of the pack
/// is the same project.
pub proof fn lemma_import_recovers_exported(addons: Seq<Addon>, k: int, i: int)
    requires
        0 <= k < addons.len(),
        addons[k].source is Curseforge,
        forall|j: int| 0 <= j < addons.len() && j != k ==> (#[trigger] addons[j]).identity() != addons[k].identity(),
        is_file_at(manifest_files(addons), addons[k].source->Curseforge_0.id, i),
    ensures
        manifest_files(addons)[i].file_id == addons[k].source->Curseforge_0.version,
{
    let id = addons[k].source->Curseforge_0.id;
    lemma_manifest_entries(addons, i);
    let j = choose|j: int| 0 <= j < addons.len() && (#[trigger] addons[j]).source == AddonSource::Curseforge(
        CurseforgeSource { id: manifest_files(addons)[i].project_id, version: manifest_files(addons)[i].file_id },
    );
    if j != k {
        assert(addons[j].identity() == addons[k].identity());
    }
}

/// Every entry of a manifest stands for an addon of the pack.
pub proof fn lemma_manifest_entries(addons: Seq<Addon>, i: int)
    requires
        0 <= i < manifest_files(addons).len(),
    ensures
        exists|j: int| 0 <= j < addons.len() && (#[trigger] addons[j]).source == AddonSource::Curseforge(
            CurseforgeSource { id: manifest_files(addons)[i].project_id, version: manifest_files(addons)[i].file_id },
        ),
    decreases addons.len(),
{
    let rest = addons.drop_last();
    let last = addons.last();
    let entries = manifest_files(addons);
    if last.source is Curseforge && i == entries.len() - 1 {
        assert(addons[addons.len() - 1] == last);
    } else {
        assert(manifest_files(rest)[i] == entries[i]);
        lemma_manifest_entries(rest, i);
        let j = choose|j: int| 0 <= j < rest.len() && (#[trigger] rest[j]).source == AddonSource::Curseforge(
            CurseforgeSource { id: manifest_files(rest)[i].project_id, version: manifest_files(rest)[i].file_id },
        );
        assert(addons[j] == rest[j]);
    }
}

/// What an export writes for an addon of this format's registry, an import
/// reads back for its project.
pub proof fn lemma_manifest_lists_each_addon(addons: Seq<Addon>, k: int)
    requires
        0 <= k < addons.len(),
        addons[k].source is Curseforge,
    ensures
        manifest_files(addons).contains(
            CfFile {
                project_id: addons[k].source->Curseforge_0.id,
                file_id: addons[k].source->Curseforge_0.version,
                required: true,
            },
        ),
    decreases addons.len(),
{
    let wanted = CfFile {
        project_id: addons[k].source->Curseforge_0.id,
        file_id: addons[k].source->Curseforge_0.version,
        required: true,
    };
    let rest = addons.drop_last();
    if k == addons.len() - 1 {
        let all = manifest_files(addons);
        assert(all[all.len() - 1] == wanted);
    } else {
        lemma_manifest_lists_each_addon(rest, k);
        let before = manifest_files(rest);
        let i = choose|i: int| 0 <= i < before.len() && before[i] == wanted;
        assert(manifest_files(addons)[i] == wanted);
    }
}

/// How an addon enters an archive with a manifest of ids: one of the
/// format's own registry is listed, every other goes under the overrides.
pub open spec fn placement_of(source: AddonSource) -> Placement {
    match source {
        AddonSource::Curseforge(_) => Placement::Listed,
        _ => Placement::Override,
    }
}

pub fn placement(source: &AddonSource) -> (r: Placement)
    ensures
        r == placement_of(*source),
{
    match source {
        AddonSource::Curseforge(_) => Placement::Listed,
        _ => Placement::Override,
    }
}

/// The files that the registry matched by fingerprint, as a manifest
/// would list them: each under its mod, required.
pub fn matched_entries(files: &Vec<File>) -> (r: Vec<CfFile>)
    ensures
        r@ == files@.map_values(
            |f: File| (CfFile { project_id: f.mod_id, file_id: f.id, required: true }),
        ),
{
    let ghost entry = |f: File| (CfFile { project_id: f.mod_id, file_id: f.id, required: true });
    let mut out: Vec<CfFile> = Vec::new();
    let mut i: usize = 0;
    while i < files.len()
        invariant
            i <= files.len(),
            entry == (|f: File| (CfFile { project_id: f.mod_id, file_id: f.id, required: true })),
            out@ == files@.take(i as int).map_values(entry),
        decreases files.len() - i,
    {
        out.push(CfFile { project_id: files[i].mod_id, file_id: files[i].id, required: true });
        proof {
            assert(files@.take(i as int + 1).map_values(entry) =~= files@.take(i as int).map_values(
                entry,
            ).push(entry(files@[i as int])));
        }
        i += 1;
    }
    proof {
        assert(files@.take(files.len() as int) =~= files@);
    }
    out
}

/// The names of the matched files of a mod: once the mod is an addon,
/// they are removed from what was unpacked.
pub fn file_names_of(files: &Vec<File>, mod_id: i32) -> (r: Vec<String>)
    ensures
        r@ == files@.filter(|f: File| f.mod_id == mod_id).map_values(|f: File| f.file_name),
{
    let ghost pred = |f: File| f.mod_id == mod_id;
    let ghost pick = |f: File| f.file_name;
    let mut out: Vec<String> = Vec::new();
    let mut i: usize = 0;
    proof {
        reveal(Seq::filter);
        assert(files@.take(0).filter(pred) =~= Seq::<File>::empty());
        assert(Seq::<File>::empty().map_values(pick) =~= Seq::<String>::empty());
    }
    while i < files.len()
        invariant
            i <= files.len(),
            pred == (|f: File| f.mod_id == mod_id),
            pick == (|f: File| f.file_name),
            out@ == files@.take(i as int).filter(pred).map_values(pick),
        decreases files.len() - i,
    {
        proof {
            assert(files@.take(i as int + 1) =~= files@.take(i as int).push(files@[i as int]));
            files@.take(i as int).lemma_filter_push(files@[i as int], pred);
            assert(files@.take(i as int).filter(pred).push(files@[i as int]).map_values(pick)
                =~= files@.take(i as int).filter(pred).map_values(pick).push(
                files@[i as int].file_name,
            ));
        }
        if files[i].mod_id == mod_id {
            out.push(files[i].file_name.clone());
        }
        i += 1;
    }
    proof {
        assert(files@.take(files.len() as int) =~= files@);
    }
    out
}

/// Whether `addon` is what an import makes of the mod, given the files
/// that are listed or were matched for it.
pub open spec fn imports(cf_mod: Mod, files: Seq<CfFile>, addon: Addon) -> bool {
    &&& cf_mod.project_type() == Some(addon.project_type)
    &&& addon.name == cf_mod.name
    &&& addon.side == Side::Both
    &&& addon.options == Some(AddonOptions::nothing_set())
    &&& addon.filename is None
    &&& addon.source matches AddonSource::Curseforge(s) && (s.id == cf_mod.id && exists|i: int| #[trigger]
        is_file_at(files, cf_mod.id, i) && files[i].file_id == s.version)
}

/// Whether the mod can be imported: its project type is one that a pack
/// can hold, and a file is listed for it.
pub open spec fn importable(cf_mod: Mod, files: Seq<CfFile>) -> bool {
    cf_mod.project_type() is Some && exists|j: int| 0 <= j < files.len() && (#[trigger] files[j]).project_id == cf_mod.id
}

/// Whether `addon` is the import of one of the mods.
pub open spec fn imported_from(mods: Seq<Mod>, files: Seq<CfFile>, addon: Addon) -> bool {
    exists|m: int| 0 <= m < mods.len() && imports(#[trigger] mods[m], files, addon)
}

/// Whether the list holds the import of the mod.
pub open spec fn holds_import(list: Seq<Addon>, cf_mod: Mod, files: Seq<CfFile>) -> bool {
    exists|i: int| 0 <= i < list.len() && imports(cf_mod, files, #[trigger] list[i])
}

/// Whether `list` is what an import makes of the mods: the import of each
/// mod that can be imported, and nothing else.
pub open spec fn is_import_of(mods: Seq<Mod>, files: Seq<CfFile>, list: Seq<Addon>) -> bool {
    &&& forall|i: int| 0 <= i < list.len() ==> imported_from(mods, files, #[trigger] list[i])
    &&& forall|m: int| 0 <= m < mods.len() && importable(#[trigger] mods[m], files) ==> holds_import(list, mods[m], files)
}

/// The addons of the mods that a manifest lists or that were matched by
/// fingerprint, in the order of the mods.
pub fn imported_addons(mods: &Vec<Mod>, files: &Vec<CfFile>) -> (r: Vec<Addon>)
    ensures
        is_import_of(mods@, files@, r@),
{
    let mut out: Vec<Addon> = Vec::new();
    let mut k: usize = 0;
    while k < mods.len()
        invariant
            k <= mods.len(),
            forall|i: int| 0 <= i < out@.len() ==> imported_from(mods@, files@, #[trigger] out@[i]),
            forall|m: int| 0 <= m < k && importable(#[trigger] mods@[m], files@) ==> holds_import(out@, mods@[m], files@),
        decreases mods.len() - k,
    {
        let ghost before = out@;
        match imported_addon(&mods[k], files) {
            Some(addon) => {
                out.push(addon);
                proof {
                    assert(imports(mods@[k as int], files@, addon));
                    assert(out@[before.len() as int] == addon);
                    assert forall|i: int| 0 <= i < out@.len() implies imported_from(mods@, files@, #[trigger] out@[i]) by {
                        if i < before.len() {
                            assert(out@[i] == before[i]);
                        }
                    }
                    assert forall|m: int| 0 <= m < k + 1 && importable(#[trigger] mods@[m], files@) implies holds_import(out@, mods@[m], files@) by {
                        if m < k {
                            let i = choose|i: int| 0 <= i < before.len() && imports(mods@[m], files@, #[trigger] before[i]);
                            assert(out@[i] == before[i]);
                        }
                    }
                }
            },
            None => {},
        }
        k += 1;
    }
    out
}

} // verus!
