use emm::cfpack::{
    declared_versions, file_names_of, file_of, files_of, imported_addon, imported_addons, join, manifest,
    matched_entries,
    modlist, parse_loader_id, placement, primary_loader, CfFile, CfMinecraft, CfModLoader,
};
use emm::curseforge::{File, Mod};
use emm::error::Error;
use emm::model::{
    Addon, AddonOptions, AddonSource, CurseforgeSource, ModLoader, Modpack, ModrinthSource, Placement,
    ProjectType, Side, Versions,
};

fn cf(name: &str, id: i32, version: i32) -> Addon {
    Addon {
        name: name.to_string(),
        project_type: ProjectType::Mod,
        side: Side::Both,
        source: AddonSource::Curseforge(CurseforgeSource { id, version }),
        options: Some(AddonOptions::unset()),
        filename: None,
    }
}

fn mr(name: &str) -> Addon {
    Addon {
        source: AddonSource::Modrinth(ModrinthSource { id: "P".to_string(), version: "v".to_string() }),
        ..cf(name, 0, 0)
    }
}

fn listed(id: i32, name: &str, class_id: Option<i32>) -> Mod {
    Mod {
        id,
        game_id: 432,
        name: name.to_string(),
        slug: name.to_lowercase(),
        summary: String::new(),
        website_url: format!("https://cf.example/{id}"),
        class_id,
        allow_mod_distribution: None,
    }
}

fn loader(id: &str, primary: bool) -> CfModLoader {
    CfModLoader { id: id.to_string(), primary }
}

#[test]
fn join_puts_the_separator_between() {
    assert_eq!(join(&Vec::new(), ", "), "");
    assert_eq!(join(&vec!["a".to_string()], ", "), "a");
    assert_eq!(join(&vec!["a".to_string(), "b".to_string(), "c".to_string()], ", "), "a, b, c");
}

#[test]
fn only_addons_of_the_registry_are_listed() {
    let addons = vec![cf("a", 1, 10), mr("b"), cf("c", 3, 30)];
    assert_eq!(
        files_of(&addons),
        vec![
            CfFile { project_id: 1, file_id: 10, required: true },
            CfFile { project_id: 3, file_id: 30, required: true }
        ]
    );
    assert!(files_of(&vec![mr("b")]).is_empty());
}

#[test]
fn the_manifest_describes_the_pack() {
    let pack = Modpack::new(
        "Pack".to_string(),
        vec!["me".to_string(), "you".to_string()],
        None,
        "1.2.0".to_string(),
        "1.20.1".to_string(),
        ModLoader::Forge,
        "latest".to_string(),
    );
    let m = manifest(&pack, "47.2.0", &vec![cf("a", 1, 10), mr("b")]);
    assert_eq!(m.minecraft.version, "1.20.1");
    assert_eq!(m.minecraft.mod_loaders, vec![loader("forge-47.2.0", true)]);
    assert_eq!(m.manifest_type, "minecraftModpack");
    assert_eq!(m.manifest_version, 1);
    assert_eq!(m.name, "Pack");
    assert_eq!(m.version, "1.2.0");
    assert_eq!(m.author, "me, you");
    assert_eq!(m.files, vec![CfFile { project_id: 1, file_id: 10, required: true }]);
    assert_eq!(m.overrides, "overrides");
    assert_eq!(
        declared_versions(&m.minecraft),
        Ok(Versions { minecraft: "1.20.1".to_string(), loader: ModLoader::Forge, loader_version: "47.2.0".to_string() })
    );
}

#[test]
fn the_mod_list_links_every_mod() {
    assert_eq!(modlist(&Vec::new()), "<ul>\n</ul>");
    assert_eq!(
        modlist(&vec![listed(1, "One", Some(6)), listed(2, "Two", Some(6))]),
        "<ul>\n<li><a href=\"https://cf.example/1\">One</a></li>\n<li><a href=\"https://cf.example/2\">Two</a></li>\n</ul>"
    );
}

#[test]
fn loader_ids_name_loader_and_version() {
    assert_eq!(parse_loader_id("forge-47.2.0"), Ok((ModLoader::Forge, "47.2.0".to_string())));
    assert_eq!(parse_loader_id("fabric-0.15.11"), Ok((ModLoader::Fabric, "0.15.11".to_string())));
    assert_eq!(parse_loader_id("quilt-0.26.0-beta.1"), Ok((ModLoader::Quilt, "0.26.0".to_string())));
    assert_eq!(parse_loader_id("neoforge-"), Ok((ModLoader::NeoForge, "".to_string())));
    let refused = Err(Error::Other("Pack has unsupported mod loader".to_string()));
    assert_eq!(parse_loader_id("liteloader-1.0"), refused);
    assert_eq!(parse_loader_id("forge"), refused);
    assert_eq!(parse_loader_id(""), refused);
    assert_eq!(parse_loader_id("Forge-47"), refused);
}

#[test]
fn the_primary_loader_is_the_first_marked() {
    assert_eq!(primary_loader(&vec![loader("a-1", false), loader("b-1", true), loader("c-1", true)]), Some(1));
    assert_eq!(primary_loader(&vec![loader("a-1", false)]), None);
    assert_eq!(primary_loader(&Vec::new()), None);
}

#[test]
fn declared_versions_need_a_primary_loader() {
    let minecraft = CfMinecraft {
        version: "1.20.1".to_string(),
        mod_loaders: vec![loader("forge-47.2.0", false), loader("fabric-0.15.0", true)],
    };
    assert_eq!(
        declared_versions(&minecraft),
        Ok(Versions { minecraft: "1.20.1".to_string(), loader: ModLoader::Fabric, loader_version: "0.15.0".to_string() })
    );
    let none = CfMinecraft { version: "1.20.1".to_string(), mod_loaders: vec![loader("forge-47.2.0", false)] };
    assert!(declared_versions(&none).is_err());
    let unknown = CfMinecraft { version: "1.20.1".to_string(), mod_loaders: vec![loader("rift-1", true)] };
    assert_eq!(declared_versions(&unknown), Err(Error::Other("Pack has unsupported mod loader".to_string())));
}

#[test]
fn a_listed_mod_is_imported_at_its_file() {
    let files = vec![
        CfFile { project_id: 1, file_id: 10, required: true },
        CfFile { project_id: 2, file_id: 20, required: true },
        CfFile { project_id: 1, file_id: 11, required: true },
    ];
    assert_eq!(file_of(&files, 1), Some(10));
    assert_eq!(file_of(&files, 2), Some(20));
    assert_eq!(file_of(&files, 3), None);
    let mut expected = cf("One", 1, 10);
    expected.project_type = ProjectType::Shader;
    assert_eq!(imported_addon(&listed(1, "One", Some(6552)), &files), Some(expected));
    assert_eq!(imported_addon(&listed(3, "Three", Some(6)), &files), None);
    assert_eq!(imported_addon(&listed(1, "One", Some(4471)), &files), None);
    assert_eq!(imported_addon(&listed(1, "One", None), &files), None);
}

#[test]
fn what_is_exported_is_imported_again() {
    let addons = vec![cf("One", 1, 10), mr("Other"), cf("Two", 2, 20)];
    let files = files_of(&addons);
    let back: Vec<Addon> = [listed(1, "One", Some(6)), listed(2, "Two", Some(6))]
        .iter()
        .filter_map(|m| imported_addon(m, &files))
        .collect();
    assert_eq!(back, vec![cf("One", 1, 10), cf("Two", 2, 20)]);
}

fn matched(id: i32, mod_id: i32, name: &str) -> File {
    File {
        id,
        mod_id,
        is_available: true,
        file_name: name.to_string(),
        hashes: Vec::new(),
        download_url: None,
        game_versions: Vec::new(),
        dependencies: Vec::new(),
        file_date: 0,
    }
}

#[test]
fn only_the_registry_of_the_format_is_listed() {
    assert_eq!(placement(&cf("a", 1, 2).source), Placement::Listed);
    assert_eq!(placement(&mr("b").source), Placement::Override);
}

#[test]
fn matched_files_are_listed_and_named() {
    let files = vec![matched(10, 1, "one.jar"), matched(20, 2, "two.jar"), matched(11, 1, "one-b.jar")];
    assert_eq!(
        matched_entries(&files),
        vec![
            CfFile { project_id: 1, file_id: 10, required: true },
            CfFile { project_id: 2, file_id: 20, required: true },
            CfFile { project_id: 1, file_id: 11, required: true },
        ]
    );
    assert_eq!(file_names_of(&files, 1), vec!["one.jar".to_string(), "one-b.jar".to_string()]);
    assert_eq!(file_names_of(&files, 2), vec!["two.jar".to_string()]);
    assert!(file_names_of(&files, 3).is_empty());
    assert!(matched_entries(&Vec::new()).is_empty());
}

#[test]
fn every_importable_mod_is_imported_in_order() {
    let files = vec![
        CfFile { project_id: 2, file_id: 20, required: true },
        CfFile { project_id: 1, file_id: 10, required: true },
    ];
    let mods = vec![
        listed(1, "One", Some(6)),
        listed(3, "Three", Some(6)),
        listed(2, "Two", Some(4471)),
        listed(2, "Two", Some(12)),
    ];
    let mut two = cf("Two", 2, 20);
    two.project_type = ProjectType::Resourcepack;
    assert_eq!(imported_addons(&mods, &files), vec![cf("One", 1, 10), two]);
    assert!(imported_addons(&Vec::new(), &files).is_empty());
}
