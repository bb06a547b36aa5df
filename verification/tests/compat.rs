use emm::compat::{
    best_match, best_match_index, filter_compatible, get_version_filters, pick_version, Candidate,
    FilterVersions, VersionPointer,
};
use emm::error::Error;
use emm::model::{ModLoader, Modpack, ProjectType};

fn pack(minecraft: &str, loader: ModLoader) -> Modpack {
    Modpack::new(
        "pack".to_string(),
        vec!["me".to_string()],
        None,
        "1.0.0".to_string(),
        minecraft.to_string(),
        loader,
        "latest".to_string(),
    )
}

fn candidate(id: &str, versions: &[&str], loaders: &[&str], published: u128) -> Candidate {
    Candidate {
        id: VersionPointer::Text(id.to_string()),
        game_versions: versions.iter().map(|v| v.to_string()).collect(),
        loaders: loaders.iter().map(|l| l.to_string()).collect(),
        available: true,
        published,
    }
}

fn ids(list: &[Candidate]) -> Vec<VersionPointer> {
    list.iter().map(|c| c.id.clone()).collect()
}

fn text(id: &str) -> VersionPointer {
    VersionPointer::Text(id.to_string())
}

#[test]
fn filter_keeps_the_version_for_the_target() {
    let target = pack("1.20.1", ModLoader::Fabric);
    let list = vec![
        candidate("v1", &["1.20.1"], &["fabric"], 0),
        candidate("v2", &["1.21"], &["fabric"], 0),
    ];
    let kept = filter_compatible(list.clone(), &target, &ProjectType::Mod);
    assert_eq!(ids(&kept), vec![text("v1")]);
    assert_eq!(best_match(kept, &target).map(|c| c.id), Some(text("v1")));
}

#[test]
fn later_publication_wins() {
    let target = pack("1.20.1", ModLoader::Fabric);
    let list = vec![
        candidate("va", &["1.20.1"], &["fabric"], 1),
        candidate("vb", &["1.20.1"], &["fabric"], 2),
    ];
    assert_eq!(best_match(list, &target).map(|c| c.id), Some(text("vb")));
}

#[test]
fn filter_returns_nothing_where_nothing_matches() {
    let target = pack("1.20.1", ModLoader::Fabric);
    let list = vec![candidate("v2", &["1.21"], &["fabric"], 0)];
    assert!(filter_compatible(list, &target, &ProjectType::Mod).is_empty());
    assert!(filter_compatible(Vec::new(), &target, &ProjectType::Mod).is_empty());
}

#[test]
fn unavailable_candidates_are_dropped() {
    let target = pack("1.20.1", ModLoader::Fabric);
    let mut gone = candidate("v1", &["1.20.1"], &["fabric"], 0);
    gone.available = false;
    assert!(filter_compatible(vec![gone], &target, &ProjectType::Mod).is_empty());
}

#[test]
fn only_mods_are_gated_by_loader() {
    let target = pack("1.20.1", ModLoader::Fabric);
    let list = vec![candidate("v1", &["1.20.1"], &["forge"], 0)];
    assert!(filter_compatible(list.clone(), &target, &ProjectType::Mod).is_empty());
    assert_eq!(ids(&filter_compatible(list.clone(), &target, &ProjectType::Shader)), vec![text("v1")]);
    assert_eq!(
        ids(&filter_compatible(list.clone(), &target, &ProjectType::Resourcepack)),
        vec![text("v1")]
    );
    assert_eq!(ids(&filter_compatible(list, &target, &ProjectType::Datapack)), vec![text("v1")]);
}

#[test]
fn loader_tags_are_compared_as_written() {
    let target = pack("1.20.1", ModLoader::Fabric);
    let list = vec![candidate("v1", &["1.20.1"], &["Fabric"], 0)];
    assert!(filter_compatible(list, &target, &ProjectType::Mod).is_empty());
}

#[test]
fn acceptable_versions_widen_the_filter() {
    let mut target = pack("1.20.1", ModLoader::Fabric);
    let list = vec![
        candidate("v1", &["1.20"], &["fabric"], 0),
        candidate("v2", &["1.19.4"], &["fabric"], 0),
        candidate("v3", &["1.20.1"], &["fabric"], 0),
    ];
    let narrow = filter_compatible(list.clone(), &target, &ProjectType::Mod);
    assert_eq!(ids(&narrow), vec![text("v3")]);
    target.options.acceptable_versions = Some(vec!["1.20".to_string()]);
    let wide = filter_compatible(list, &target, &ProjectType::Mod);
    assert_eq!(ids(&wide), vec![text("v1"), text("v3")]);
    for kept in &narrow {
        assert!(wide.contains(kept));
    }
}

#[test]
fn acceptable_loaders_widen_the_filter() {
    let mut target = pack("1.20.1", ModLoader::Quilt);
    let list = vec![
        candidate("v1", &["1.20.1"], &["fabric"], 0),
        candidate("v2", &["1.20.1"], &["quilt"], 0),
        candidate("v3", &["1.20.1"], &["forge"], 0),
    ];
    let narrow = filter_compatible(list.clone(), &target, &ProjectType::Mod);
    assert_eq!(ids(&narrow), vec![text("v2")]);
    target.options.acceptable_loaders = Some(vec![ModLoader::Fabric]);
    let wide = filter_compatible(list, &target, &ProjectType::Mod);
    assert_eq!(ids(&wide), vec![text("v1"), text("v2")]);
}

#[test]
fn best_match_is_none_only_for_no_candidates() {
    let target = pack("1.20.1", ModLoader::Fabric);
    assert_eq!(best_match(Vec::new(), &target), None);
    assert_eq!(best_match_index(&Vec::new(), &target), None);
    let one = vec![candidate("v1", &["1.0"], &[], 0)];
    assert_eq!(best_match_index(&one, &target), Some(0));
}

#[test]
fn primary_version_wins_in_either_order() {
    let mut target = pack("1.20.1", ModLoader::Fabric);
    target.options.acceptable_versions = Some(vec!["1.20".to_string()]);
    let primary = candidate("primary", &["1.20.1"], &["fabric"], 5);
    let fallback = candidate("fallback", &["1.20"], &["fabric"], 5);
    assert_eq!(
        best_match(vec![primary.clone(), fallback.clone()], &target).map(|c| c.id),
        Some(text("primary"))
    );
    assert_eq!(
        best_match(vec![fallback, primary], &target).map(|c| c.id),
        Some(text("primary"))
    );
}

#[test]
fn primary_version_wins_over_a_later_publication() {
    let target = pack("1.20.1", ModLoader::Fabric);
    let list = vec![
        candidate("late", &["1.20"], &["fabric"], 100),
        candidate("early", &["1.20.1"], &["fabric"], 1),
    ];
    assert_eq!(best_match_index(&list, &target), Some(1));
}

#[test]
fn primary_loader_breaks_a_tie_of_time() {
    let target = pack("1.20.1", ModLoader::Quilt);
    let list = vec![
        candidate("fabric", &["1.20.1"], &["fabric"], 7),
        candidate("quilt", &["1.20.1"], &["quilt"], 7),
    ];
    assert_eq!(best_match_index(&list, &target), Some(1));
    let later = vec![
        candidate("fabric", &["1.20.1"], &["fabric"], 8),
        candidate("quilt", &["1.20.1"], &["quilt"], 7),
    ];
    assert_eq!(best_match_index(&later, &target), Some(0));
}

#[test]
fn input_order_breaks_a_full_tie() {
    let target = pack("1.20.1", ModLoader::Fabric);
    let list = vec![
        candidate("first", &["1.20.1"], &["fabric"], 3),
        candidate("second", &["1.20.1"], &["fabric"], 3),
        candidate("third", &["1.20.1"], &["fabric"], 3),
    ];
    assert_eq!(best_match_index(&list, &target), Some(0));
    assert_eq!(best_match(list, &target).map(|c| c.id), Some(text("first")));
}

#[test]
fn version_filters_start_with_the_target() {
    let mut target = pack("1.20.1", ModLoader::Quilt);
    assert_eq!(get_version_filters(&target), (vec!["1.20.1".to_string()], vec![ModLoader::Quilt]));
    target.options.acceptable_versions = Some(vec!["1.20".to_string(), "1.19".to_string()]);
    target.options.acceptable_loaders = Some(vec![ModLoader::Fabric]);
    assert_eq!(
        get_version_filters(&target),
        (
            vec!["1.20.1".to_string(), "1.20".to_string(), "1.19".to_string()],
            vec![ModLoader::Quilt, ModLoader::Fabric]
        )
    );
}

#[test]
fn pick_version_names_the_project_in_its_errors() {
    let target = pack("1.20.1", ModLoader::Fabric);
    let title = "Sodium".to_string();
    let list = vec![candidate("v1", &["1.20.1"], &["fabric"], 0)];
    assert_eq!(
        pick_version(&title, &ProjectType::Modpack, list.clone(), &target),
        Err(Error::UnsupportedProjectType("Sodium".to_string()))
    );
    assert_eq!(
        pick_version(&title, &ProjectType::Plugin, list.clone(), &target),
        Err(Error::UnsupportedProjectType("Sodium".to_string()))
    );
    assert_eq!(
        pick_version(&title, &ProjectType::Mod, Vec::new(), &target),
        Err(Error::NoCompatibleVersions("Sodium".to_string()))
    );
    assert_eq!(
        pick_version(&title, &ProjectType::Mod, list, &target).map(|c| c.id),
        Ok(text("v1"))
    );
}

#[test]
fn lists_of_candidates_filter_and_choose() {
    let target = pack("1.20.1", ModLoader::Fabric);
    let list = vec![
        candidate("old", &["1.20.1"], &["fabric"], 1),
        candidate("other", &["1.21"], &["fabric"], 9),
        candidate("new", &["1.20.1"], &["fabric"], 2),
    ];
    let kept = FilterVersions::filter_compatible(list, &target, &ProjectType::Mod);
    assert_eq!(ids(&kept), vec![text("old"), text("new")]);
    assert_eq!(FilterVersions::best_match(kept, &target).map(|c| c.id), Some(text("new")));
}
