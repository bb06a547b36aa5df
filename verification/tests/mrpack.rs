use emm::error::Error;
use emm::model::{
    Addon, AddonOptions, AddonSource, CurseforgeSource, GithubSource, ModLoader, Modpack, ModrinthSource,
    PackOptions, Placement, ProjectType, ReleaseFilter, Side, Versions,
};
use emm::modrinth::{HashEntry, Project, SideSupportType, VersionFile};
use emm::mrpack::{
    archive_name, declared_versions, has_distinct_dependencies, imported_addon, imported_addons, is_jar,
    matched_loose,
    matched_paths, materialized_file, metadata, placement, project_ids, registry_file, sha1_hashes,
    version_of, File, FileEnv, FileHashes, Game, HashedVersion, LooseFile, PackDependency, PackVersion,
};

fn hosted(name: &str, hashes: &[(&str, &str)]) -> VersionFile {
    VersionFile {
        hashes: hashes
            .iter()
            .map(|(a, v)| HashEntry { algorithm: a.to_string(), value: v.to_string() })
            .collect(),
        url: format!("https://cdn.example/{name}"),
        filename: name.to_string(),
        primary: true,
        size: 1234,
    }
}

fn entry(path: &str, sha1: &str) -> File {
    File {
        path: path.to_string(),
        hashes: FileHashes { sha1: sha1.to_string(), sha512: "512".to_string() },
        env: None,
        downloads: Vec::new(),
        file_size: 0,
    }
}

fn needs(dependency: PackDependency, version: &str) -> PackVersion {
    PackVersion { dependency, version: version.to_string() }
}

#[test]
fn env_follows_the_side() {
    let required = SideSupportType::Required;
    let unsupported = SideSupportType::Unsupported;
    assert_eq!(FileEnv::from(Side::Both), FileEnv { client: required, server: required });
    assert_eq!(FileEnv::from(Side::Client), FileEnv { client: required, server: unsupported });
    assert_eq!(FileEnv::from(Side::Server), FileEnv { client: unsupported, server: required });
}

#[test]
fn loaders_and_entries_stand_for_each_other() {
    let pairs = [
        (ModLoader::Fabric, PackDependency::FabricLoader),
        (ModLoader::Quilt, PackDependency::QuiltLoader),
        (ModLoader::Forge, PackDependency::Forge),
        (ModLoader::NeoForge, PackDependency::NeoForge),
    ];
    for (loader, dependency) in pairs {
        assert_eq!(PackDependency::from(loader), dependency);
        assert_eq!(ModLoader::try_from(dependency), Ok(loader));
    }
    assert_eq!(
        ModLoader::try_from(PackDependency::Minecraft),
        Err(Error::Other("Tried to parse 'Minecraft' mrpack DependencyType into ModLoader".to_string()))
    );
}

#[test]
fn entries_have_their_keys() {
    assert_eq!(PackDependency::Minecraft.key(), "minecraft");
    assert_eq!(PackDependency::Forge.key(), "forge");
    assert_eq!(PackDependency::NeoForge.key(), "neoforge");
    assert_eq!(PackDependency::FabricLoader.key(), "fabric-loader");
    assert_eq!(PackDependency::QuiltLoader.key(), "quilt-loader");
}

#[test]
fn archives_are_named_after_the_pack() {
    assert_eq!(archive_name("My Pack", "1.2.0", "mrpack"), "My Pack-1.2.0.mrpack");
    assert_eq!(archive_name("p", "v", "zip"), "p-v.zip");
}

#[test]
fn a_hosted_file_is_listed_with_the_registry_hashes() {
    let file = hosted("sodium.jar", &[("sha512", "five"), ("sha1", "one")]);
    let listed = registry_file(&file, &ProjectType::Mod, &Side::Client, &PackOptions::unset()).unwrap();
    assert_eq!(
        listed,
        File {
            path: "mods/sodium.jar".to_string(),
            hashes: FileHashes { sha1: "one".to_string(), sha512: "five".to_string() },
            env: Some(FileEnv { client: SideSupportType::Required, server: SideSupportType::Unsupported }),
            downloads: vec!["https://cdn.example/sodium.jar".to_string()],
            file_size: 1234,
        }
    );
    let mut options = PackOptions::unset();
    options.shaders_output = Some("shaders".to_string());
    let listed = registry_file(&file, &ProjectType::Shader, &Side::Both, &options).unwrap();
    assert_eq!(listed.path, "shaders/sodium.jar");
}

#[test]
fn a_hosted_file_without_both_hashes_is_refused() {
    let expected =
        Err(Error::Other("https://cdn.example/a.jar file does not have the hashes that a pack needs".to_string()));
    let options = PackOptions::unset();
    assert_eq!(registry_file(&hosted("a.jar", &[("sha1", "one")]), &ProjectType::Mod, &Side::Both, &options), expected);
    assert_eq!(registry_file(&hosted("a.jar", &[("sha512", "five")]), &ProjectType::Mod, &Side::Both, &options), expected);
    assert_eq!(registry_file(&hosted("a.jar", &[]), &ProjectType::Mod, &Side::Both, &options), expected);
}

#[test]
fn a_fetched_file_is_hashed_here() {
    let listed = materialized_file(
        "thing.jar",
        "https://example/thing.jar",
        3,
        b"abc",
        &ProjectType::Unknown,
        &PackOptions::unset(),
    );
    assert_eq!(
        listed,
        File {
            path: "mods/thing.jar".to_string(),
            hashes: FileHashes {
                sha1: "a9993e364706816aba3e25717850c26c9cd0d89d".to_string(),
                sha512: "ddaf35a193617abacc417349ae20413112e6fa4e89a97ea20a9eeee64b55d39a2192992a274fc1a836ba3c23a3feebbd454d4423643ce80e2a9ac94fa54ca49f".to_string(),
            },
            env: None,
            downloads: vec!["https://example/thing.jar".to_string()],
            file_size: 3,
        }
    );
}

#[test]
fn the_manifest_names_game_and_loader() {
    let pack = Modpack::new(
        "Pack".to_string(),
        vec!["me".to_string()],
        Some("about".to_string()),
        "1.2.0".to_string(),
        "1.20.1".to_string(),
        ModLoader::Quilt,
        "latest".to_string(),
    );
    let files = vec![entry("mods/a.jar", "aa")];
    let m = metadata(&pack, "0.26.0".to_string(), files.clone());
    assert_eq!(m.format_version, 1);
    assert_eq!(m.game, Game::Minecraft);
    assert_eq!(m.version_id, "1.2.0");
    assert_eq!(m.name, "Pack");
    assert_eq!(m.summary, Some("about".to_string()));
    assert_eq!(m.files, files);
    assert_eq!(
        m.dependencies,
        vec![needs(PackDependency::Minecraft, "1.20.1"), needs(PackDependency::QuiltLoader, "0.26.0")]
    );
    assert_eq!(
        declared_versions(&m.dependencies),
        Ok(Versions { minecraft: "1.20.1".to_string(), loader: ModLoader::Quilt, loader_version: "0.26.0".to_string() })
    );
}

#[test]
fn declared_versions_take_the_first_of_each_kind() {
    let dependencies = vec![
        needs(PackDependency::Forge, "47.2.0"),
        needs(PackDependency::Minecraft, "1.20.1"),
        needs(PackDependency::FabricLoader, "0.15.0"),
        needs(PackDependency::Minecraft, "1.21"),
    ];
    assert_eq!(
        declared_versions(&dependencies),
        Ok(Versions { minecraft: "1.20.1".to_string(), loader: ModLoader::Forge, loader_version: "47.2.0".to_string() })
    );
}

#[test]
fn a_manifest_without_game_or_loader_is_no_pack() {
    let no_game = Err(Error::BadImport("modpack does not name a game version".to_string()));
    let no_loader = Err(Error::BadImport("modpack does not have a mod loader".to_string()));
    assert_eq!(declared_versions(&Vec::new()), no_game);
    assert_eq!(declared_versions(&vec![needs(PackDependency::Minecraft, "1.20.1")]), no_loader);
    assert_eq!(declared_versions(&vec![needs(PackDependency::Forge, "47.2.0")]), no_game);
}

#[test]
fn import_asks_about_the_sha1_of_each_file() {
    let files = vec![entry("mods/a.jar", "aa"), entry("mods/b.jar", "bb"), entry("mods/c.jar", "aa")];
    assert_eq!(sha1_hashes(&files), vec!["aa".to_string(), "bb".to_string(), "aa".to_string()]);
    assert!(sha1_hashes(&Vec::new()).is_empty());
}

#[test]
fn matched_files_are_removed_by_path() {
    let files = vec![entry("mods/a.jar", "aa"), entry("mods/b.jar", "bb"), entry("mods/c.jar", "cc")];
    let matched = vec!["cc".to_string(), "aa".to_string(), "zz".to_string()];
    assert_eq!(matched_paths(&files, &matched), vec!["mods/a.jar".to_string(), "mods/c.jar".to_string()]);
    assert!(matched_paths(&files, &Vec::new()).is_empty());
}

fn found(hash: &str, project_id: &str, version_id: &str) -> HashedVersion {
    HashedVersion {
        hash: hash.to_string(),
        project_id: project_id.to_string(),
        version_id: version_id.to_string(),
    }
}

#[test]
fn projects_are_imported_at_the_version_that_was_found() {
    let versions = vec![found("aa", "AAAA", "v1"), found("bb", "BBBB", "v2"), found("cc", "AAAA", "v3")];
    assert_eq!(version_of(&versions, &"AAAA".to_string()), Some(0));
    assert_eq!(version_of(&versions, &"BBBB".to_string()), Some(1));
    assert_eq!(version_of(&versions, &"CCCC".to_string()), None);
    assert_eq!(project_ids(&versions), vec!["AAAA".to_string(), "BBBB".to_string(), "AAAA".to_string()]);
    let project = Project {
        slug: "two".to_string(),
        title: "Two".to_string(),
        description: String::new(),
        client_side: SideSupportType::Unsupported,
        server_side: SideSupportType::Required,
        project_type: ProjectType::Datapack,
        id: "BBBB".to_string(),
        license: None,
    };
    assert_eq!(
        imported_addon(&project, &versions),
        Some(Addon {
            name: "Two".to_string(),
            project_type: ProjectType::Datapack,
            side: Side::Server,
            source: AddonSource::Modrinth(ModrinthSource { id: "BBBB".to_string(), version: "v2".to_string() }),
            options: Some(AddonOptions::unset()),
            filename: None,
        })
    );
    let unknown = Project { id: "ZZZZ".to_string(), ..project };
    assert_eq!(imported_addon(&unknown, &versions), None);
}

#[test]
fn loose_archives_are_told_by_their_name() {
    assert!(is_jar("sodium.jar"));
    assert!(is_jar(".jar"));
    assert!(!is_jar("sodium.jar.disabled"));
    assert!(!is_jar("sodium.zip"));
    assert!(!is_jar("jar"));
}

#[test]
fn what_is_exported_is_found_again_by_hash() {
    let exported = vec![
        Addon {
            name: "One".to_string(),
            project_type: ProjectType::Mod,
            side: Side::Both,
            source: AddonSource::Modrinth(ModrinthSource { id: "AAAA".to_string(), version: "v1".to_string() }),
            options: Some(AddonOptions::unset()),
            filename: None,
        },
        Addon {
            name: "Two".to_string(),
            project_type: ProjectType::Shader,
            side: Side::Both,
            source: AddonSource::Modrinth(ModrinthSource { id: "BBBB".to_string(), version: "v2".to_string() }),
            options: Some(AddonOptions::unset()),
            filename: None,
        },
    ];
    let hosted = [
        hosted("one.jar", &[("sha1", "h-one"), ("sha512", "x")]),
        hosted("two.zip", &[("sha1", "h-two"), ("sha512", "y")]),
    ];
    let mut files = Vec::new();
    for (addon, file) in exported.iter().zip(&hosted) {
        files.push(registry_file(file, &addon.project_type, &addon.side, &PackOptions::unset()).unwrap());
    }
    let asked = sha1_hashes(&files);
    assert_eq!(asked, vec!["h-one".to_string(), "h-two".to_string()]);
    let answered = vec![found("h-two", "BBBB", "v2"), found("h-one", "AAAA", "v1")];
    let mut back = Vec::new();
    for (addon, kind) in exported.iter().zip([ProjectType::Mod, ProjectType::Shader]) {
        let project = Project {
            slug: addon.name.to_lowercase(),
            title: format!("{} renamed", addon.name),
            description: String::new(),
            client_side: SideSupportType::Required,
            server_side: SideSupportType::Required,
            project_type: kind,
            id: addon.native_id(),
            license: None,
        };
        back.push(imported_addon(&project, &answered).unwrap());
    }
    let ids = |list: &Vec<Addon>| list.iter().map(|a| a.generic_id()).collect::<Vec<String>>();
    assert_eq!(ids(&back), ids(&exported));
    assert_eq!(back[0].source, exported[0].source);
    assert_eq!(back[1].source, exported[1].source);
    assert_eq!(back[0].name, "One renamed");
}

#[test]
fn each_origin_has_its_place_in_the_archive() {
    let first = AddonSource::Modrinth(ModrinthSource { id: "a".to_string(), version: "v".to_string() });
    let second = AddonSource::Curseforge(CurseforgeSource { id: 1, version: 2 });
    let release = AddonSource::Github(GithubSource {
        repo: "o/r".to_string(),
        tag: "t".to_string(),
        filter_by: ReleaseFilter::Unfiltered,
        asset_index: 0,
    });
    assert_eq!(placement(&first), Placement::Listed);
    assert_eq!(placement(&release), Placement::Materialized);
    assert_eq!(placement(&second), Placement::Override);
}

#[test]
fn matched_loose_files_are_removed_by_path() {
    let loose = |path: &str, sha1: &str| LooseFile { path: path.to_string(), sha1: sha1.to_string() };
    let files = vec![loose("mods/a.jar", "aa"), loose("mods/b.jar", "bb"), loose("mods/c.jar", "cc")];
    let matched = vec!["cc".to_string(), "zz".to_string(), "aa".to_string()];
    assert_eq!(matched_loose(&files, &matched), vec!["mods/a.jar".to_string(), "mods/c.jar".to_string()]);
    assert!(matched_loose(&files, &Vec::new()).is_empty());
    assert!(matched_loose(&Vec::new(), &matched).is_empty());
}

#[test]
fn needed_versions_stand_for_a_map() {
    assert!(has_distinct_dependencies(&vec![
        needs(PackDependency::Minecraft, "1.20.1"),
        needs(PackDependency::Forge, "47")
    ]));
    assert!(!has_distinct_dependencies(&vec![
        needs(PackDependency::Minecraft, "1.20.1"),
        needs(PackDependency::Forge, "47"),
        needs(PackDependency::Minecraft, "1.21")
    ]));
    assert!(has_distinct_dependencies(&Vec::new()));
    let pack = Modpack::new(
        "Pack".to_string(),
        Vec::new(),
        None,
        "1".to_string(),
        "1.20.1".to_string(),
        ModLoader::Fabric,
        "latest".to_string(),
    );
    assert!(has_distinct_dependencies(&metadata(&pack, "0.15.0".to_string(), Vec::new()).dependencies));
}

#[test]
fn a_whole_index_comes_back_with_its_ids() {
    let first = |name: &str, id: &str, version: &str| Addon {
        name: name.to_string(),
        project_type: ProjectType::Mod,
        side: Side::Both,
        source: AddonSource::Modrinth(ModrinthSource { id: id.to_string(), version: version.to_string() }),
        options: Some(AddonOptions::unset()),
        filename: None,
    };
    let second = |name: &str, id: i32, version: i32| Addon {
        source: AddonSource::Curseforge(CurseforgeSource { id, version }),
        ..first(name, "", "")
    };
    let exported = vec![first("One", "123", "v1"), second("Two", 123, 7), first("Three", "456", "v3")];
    let project = |title: &str, id: &str| Project {
        slug: title.to_lowercase(),
        title: title.to_string(),
        description: String::new(),
        client_side: SideSupportType::Required,
        server_side: SideSupportType::Required,
        project_type: ProjectType::Mod,
        id: id.to_string(),
        license: None,
    };
    let projects = vec![project("Three again", "456"), project("One again", "123")];
    let versions = vec![found("h1", "123", "v1"), found("h3", "456", "v3")];
    let mods = vec![emm::curseforge::Mod {
        id: 123,
        game_id: 432,
        name: "Two again".to_string(),
        slug: "two".to_string(),
        summary: String::new(),
        website_url: String::new(),
        class_id: Some(6),
        allow_mod_distribution: None,
    }];
    let matched = vec![emm::cfpack::CfFile { project_id: 123, file_id: 7, required: true }];
    let mut back = imported_addons(&projects, &versions);
    back.extend(emm::cfpack::imported_addons(&mods, &matched));
    let ids = |list: &Vec<Addon>| {
        let mut ids: Vec<String> = list.iter().map(|a| a.generic_id()).collect();
        ids.sort();
        ids
    };
    assert_eq!(ids(&back), ids(&exported));
    assert_eq!(ids(&back), vec!["curseforge:123".to_string(), "modrinth:123".to_string(), "modrinth:456".to_string()]);
    assert_eq!(back.len(), 3);
}

#[test]
fn only_projects_with_a_version_are_imported() {
    let project = |id: &str| Project {
        slug: id.to_string(),
        title: id.to_string(),
        description: String::new(),
        client_side: SideSupportType::Required,
        server_side: SideSupportType::Required,
        project_type: ProjectType::Mod,
        id: id.to_string(),
        license: None,
    };
    let versions = vec![found("h", "AAAA", "v1")];
    let back = imported_addons(&vec![project("ZZZZ"), project("AAAA")], &versions);
    assert_eq!(back.len(), 1);
    assert_eq!(back[0].generic_id(), "modrinth:AAAA");
    assert!(imported_addons(&Vec::new(), &versions).is_empty());
}
