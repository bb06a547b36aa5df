use emm::compat::{Candidate, VersionPointer};
use emm::migrate::{
    classify, classify_all, count_of, incompatible_addons, migrated_addons, Classification, Compatibility,
    Listing, Migration,
};
use emm::model::{
    Addon, AddonOptions, AddonSource, CurseforgeSource, GithubSource, ModLoader, Modpack, ModrinthSource,
    ProjectType, ReleaseFilter, Side,
};

fn target(minecraft: &str) -> Modpack {
    Modpack::new(
        "pack".to_string(),
        Vec::new(),
        None,
        "1".to_string(),
        minecraft.to_string(),
        ModLoader::Fabric,
        "0.15.0".to_string(),
    )
}

fn with_source(source: AddonSource) -> Addon {
    Addon {
        name: "addon".to_string(),
        project_type: ProjectType::Mod,
        side: Side::Both,
        source,
        options: Some(AddonOptions::unset()),
        filename: None,
    }
}

fn mr(version: &str) -> Addon {
    with_source(AddonSource::Modrinth(ModrinthSource { id: "P".to_string(), version: version.to_string() }))
}

fn cf(version: i32) -> Addon {
    with_source(AddonSource::Curseforge(CurseforgeSource { id: 5, version }))
}

fn gh(tag: &str) -> Addon {
    with_source(AddonSource::Github(GithubSource {
        repo: "o/r".to_string(),
        tag: tag.to_string(),
        filter_by: ReleaseFilter::Unfiltered,
        asset_index: 0,
    }))
}

fn version(id: &str, versions: &[&str], published: u128) -> Candidate {
    Candidate {
        id: VersionPointer::Text(id.to_string()),
        game_versions: versions.iter().map(|v| v.to_string()).collect(),
        loaders: vec!["fabric".to_string()],
        available: true,
        published,
    }
}

#[test]
fn no_version_for_the_new_target_is_incompatible() {
    let addon = mr("old");
    let listed = vec![version("old", &["1.20.1"], 1), version("older", &["1.19.4"], 0)];
    let r = classify(&addon, listed, &target("1.21"));
    assert_eq!(r, Classification { compatibility: Compatibility::Incompatible, version: None });
    let entry = Migration { addon: addon.clone(), version: r.version, compatibility: r.compatibility };
    assert_eq!(incompatible_addons(&vec![entry.clone()]), vec![addon.clone()]);
    assert!(migrated_addons(vec![entry]).is_empty());
    assert_eq!(addon, mr("old"));
}

#[test]
fn a_version_for_the_new_target_is_compatible() {
    let listed = vec![version("a", &["1.20.1"], 1), version("b", &["1.21"], 2), version("c", &["1.21"], 3)];
    let r = classify(&mr("a"), listed, &target("1.21"));
    assert_eq!(
        r,
        Classification {
            compatibility: Compatibility::Compatible,
            version: Some(VersionPointer::Text("c".to_string()))
        }
    );
}

#[test]
fn a_version_for_a_fallback_only_is_partial() {
    let mut new_target = target("1.21");
    new_target.options.acceptable_versions = Some(vec!["1.20.1".to_string()]);
    let listed = vec![version("a", &["1.20.1"], 1), version("z", &["1.19"], 9)];
    let r = classify(&mr("a"), listed, &new_target);
    assert_eq!(
        r,
        Classification {
            compatibility: Compatibility::Partial,
            version: Some(VersionPointer::Text("a".to_string()))
        }
    );
}

#[test]
fn releases_cannot_be_classified() {
    let listed = vec![version("a", &["1.21"], 1)];
    let r = classify(&gh("v1"), listed, &target("1.21"));
    assert_eq!(r, Classification { compatibility: Compatibility::Unknown, version: None });
}

#[test]
fn with_version_rewrites_the_pointer() {
    assert_eq!(mr("a").with_version(VersionPointer::Text("b".to_string())), mr("b"));
    assert_eq!(cf(1).with_version(VersionPointer::Number(2)), cf(2));
    assert_eq!(gh("v1").with_version(VersionPointer::Text("v2".to_string())), gh("v2"));
    assert_eq!(mr("a").with_version(VersionPointer::Number(2)), mr("a"));
    assert_eq!(cf(1).with_version(VersionPointer::Text("b".to_string())), cf(1));
}

#[test]
fn retarget_moves_the_loader_version_unless_latest() {
    let moved = target("1.20.1").retarget("1.21".to_string(), "0.16.0".to_string());
    assert_eq!(moved.versions.minecraft, "1.21");
    assert_eq!(moved.versions.loader_version, "0.16.0");
    assert_eq!(moved.versions.loader, ModLoader::Fabric);
    assert_eq!(moved.name, "pack");
    let mut follows = target("1.20.1");
    follows.versions.loader_version = "latest".to_string();
    let moved = follows.retarget("1.21".to_string(), "0.16.0".to_string());
    assert_eq!(moved.versions.minecraft, "1.21");
    assert_eq!(moved.versions.loader_version, "latest");
}

#[test]
fn counts_and_lists_follow_the_classification() {
    let list = vec![
        Migration {
            addon: mr("a"),
            version: Some(VersionPointer::Text("b".to_string())),
            compatibility: Compatibility::Compatible,
        },
        Migration { addon: cf(1), version: None, compatibility: Compatibility::Incompatible },
        Migration {
            addon: cf(3),
            version: Some(VersionPointer::Number(4)),
            compatibility: Compatibility::Partial,
        },
        Migration { addon: gh("v1"), version: None, compatibility: Compatibility::Unknown },
        Migration { addon: mr("x"), version: None, compatibility: Compatibility::Incompatible },
    ];
    assert_eq!(count_of(&list, Compatibility::Compatible), 1);
    assert_eq!(count_of(&list, Compatibility::Partial), 1);
    assert_eq!(count_of(&list, Compatibility::Incompatible), 2);
    assert_eq!(count_of(&list, Compatibility::Unknown), 1);
    assert_eq!(count_of(&Vec::new(), Compatibility::Unknown), 0);
    assert_eq!(incompatible_addons(&list), vec![cf(1), mr("x")]);
    assert_eq!(migrated_addons(list), vec![mr("b"), cf(4)]);
}

#[test]
fn every_addon_is_classified_in_order() {
    let listings = vec![
        Listing { addon: mr("a"), candidates: vec![version("a", &["1.20.1"], 1), version("b", &["1.21"], 2)] },
        Listing { addon: gh("v1"), candidates: Vec::new() },
        Listing { addon: cf(1), candidates: Vec::new() },
    ];
    let list = classify_all(listings, &target("1.21"));
    assert_eq!(
        list,
        vec![
            Migration {
                addon: mr("a"),
                version: Some(VersionPointer::Text("b".to_string())),
                compatibility: Compatibility::Compatible,
            },
            Migration { addon: gh("v1"), version: None, compatibility: Compatibility::Unknown },
            Migration { addon: cf(1), version: None, compatibility: Compatibility::Incompatible },
        ]
    );
    assert_eq!(migrated_addons(list), vec![mr("b")]);
}
