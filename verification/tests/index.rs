use emm::index::Index;
use emm::model::{
    Addon, AddonOptions, AddonSource, CurseforgeSource, GithubSource, ModrinthSource, ProjectType,
    ReleaseFilter, Side,
};

fn modrinth(name: &str, id: &str) -> Addon {
    Addon {
        name: name.to_string(),
        project_type: ProjectType::Mod,
        side: Side::Both,
        source: AddonSource::Modrinth(ModrinthSource { id: id.to_string(), version: "v".to_string() }),
        options: Some(AddonOptions::unset()),
        filename: None,
    }
}

fn curseforge(name: &str, id: i32) -> Addon {
    Addon {
        name: name.to_string(),
        project_type: ProjectType::Mod,
        side: Side::Both,
        source: AddonSource::Curseforge(CurseforgeSource { id, version: 1 }),
        options: None,
        filename: None,
    }
}

fn github(name: &str, repo: &str) -> Addon {
    Addon {
        name: name.to_string(),
        project_type: ProjectType::Unknown,
        side: Side::Both,
        source: AddonSource::Github(GithubSource {
            repo: repo.to_string(),
            tag: "v1".to_string(),
            filter_by: ReleaseFilter::Unfiltered,
            asset_index: 0,
        }),
        options: None,
        filename: None,
    }
}

#[test]
fn new_index_is_empty() {
    let index = Index::new();
    assert!(index.addons.is_empty());
    assert!(index.is_wf());
}

#[test]
fn insert_refuses_the_same_project() {
    let mut index = Index::new();
    assert!(index.insert(modrinth("Sodium", "AANobbMI")));
    assert!(!index.insert(modrinth("Sodium Renamed", "AANobbMI")));
    assert_eq!(index.addons.len(), 1);
    assert_eq!(index.addons[0].name, "Sodium");
}

#[test]
fn insert_refuses_the_same_name_whatever_the_case() {
    let mut index = Index::new();
    assert!(index.insert(modrinth("Sodium", "AANobbMI")));
    assert!(!index.insert(curseforge("SODIUM", 394468)));
    assert!(!index.insert(github("sodium", "owner/sodium")));
    assert_eq!(index.addons.len(), 1);
}

#[test]
fn the_same_id_at_another_registry_is_another_project() {
    let mut index = Index::new();
    assert!(index.insert(modrinth("One", "123")));
    assert!(index.insert(curseforge("Two", 123)));
    assert!(index.insert(github("Three", "123")));
    assert_eq!(index.addons.len(), 3);
    assert!(index.is_wf());
}

#[test]
fn add_mods_skips_what_collides_and_returns_what_was_added() {
    let mut index = Index { addons: vec![modrinth("Sodium", "AANobbMI")] };
    let added = index.add_mods(vec![
        modrinth("Lithium", "gvQqBUqZ"),
        modrinth("sodium", "other"),
        modrinth("Lithium", "gvQqBUqZ"),
        curseforge("JEI", 238222),
    ]);
    assert_eq!(added, vec![modrinth("Lithium", "gvQqBUqZ"), curseforge("JEI", 238222)]);
    assert_eq!(
        index.addons,
        vec![modrinth("Sodium", "AANobbMI"), modrinth("Lithium", "gvQqBUqZ"), curseforge("JEI", 238222)]
    );
    assert!(index.is_wf());
}

#[test]
fn no_sequence_of_adds_leaves_a_duplicate() {
    let mut index = Index::new();
    let names = ["a", "B", "A", "b", "c", "C", "a"];
    for (step, name) in names.iter().enumerate() {
        index.insert(modrinth(name, &format!("id{}", step % 4)));
        assert!(index.is_wf());
    }
    index.add_mods(vec![curseforge("a", 1), curseforge("d", 1), curseforge("e", 1)]);
    assert!(index.is_wf());
    assert_eq!(index.addons.iter().map(|a| a.name.as_str()).collect::<Vec<_>>(), vec!["a", "B", "d"]);
}

#[test]
fn is_wf_finds_a_duplicate() {
    let by_id = Index { addons: vec![modrinth("a", "x"), modrinth("b", "x")] };
    assert!(!by_id.is_wf());
    let by_name = Index { addons: vec![modrinth("Name", "x"), curseforge("nAME", 2)] };
    assert!(!by_name.is_wf());
}

#[test]
fn has_collision_looks_at_every_entry() {
    let index = Index { addons: vec![modrinth("a", "x"), curseforge("b", 7)] };
    assert!(index.has_collision(&curseforge("zzz", 7)));
    assert!(index.has_collision(&github("B", "o/r")));
    assert!(!index.has_collision(&github("c", "o/r")));
}

#[test]
fn select_addon_finds_by_name_or_id() {
    let index = Index {
        addons: vec![modrinth("Sodium", "AANobbMI"), curseforge("JEI", 238222), github("Thing", "owner/thing")],
    };
    assert_eq!(index.select_addon("sodium"), Some(0));
    assert_eq!(index.select_addon("modrinth:AANobbMI"), Some(0));
    assert_eq!(index.select_addon("modrinth:aanobbmi"), None);
    assert_eq!(index.select_addon("AANobbMI"), None);
    assert_eq!(index.select_addon("curseforge:238222"), Some(1));
    assert_eq!(index.select_addon("modrinth:238222"), None);
    assert_eq!(index.select_addon("github:owner/thing"), Some(2));
    assert_eq!(index.select_addon("THING"), Some(2));
    assert_eq!(index.select_addon("nothing"), None);
}

#[test]
fn addons_are_parted_by_origin() {
    let list = vec![
        modrinth("a", "1"),
        curseforge("b", 2),
        github("c", "o/c"),
        modrinth("d", "4"),
        github("e", "o/e"),
    ];
    let (first, second, third) = emm::index::seperate_mods_by_platform(list);
    assert_eq!(first, vec![modrinth("a", "1"), modrinth("d", "4")]);
    assert_eq!(second, vec![curseforge("b", 2)]);
    assert_eq!(third, vec![github("c", "o/c"), github("e", "o/e")]);
    let (first, second, third) = emm::index::seperate_mods_by_platform(Vec::new());
    assert!(first.is_empty() && second.is_empty() && third.is_empty());
}

#[test]
fn removed_projects_leave_the_index() {
    let mut index = Index {
        addons: vec![modrinth("a", "1"), curseforge("b", 2), github("c", "o/c"), modrinth("d", "4")],
    };
    index.remove_addons(&vec![curseforge("renamed", 2), modrinth("a", "unknown"), modrinth("x", "4")]);
    assert_eq!(index.addons, vec![modrinth("a", "1"), github("c", "o/c")]);
    index.remove_addons(&Vec::new());
    assert_eq!(index.addons.len(), 2);
    assert!(index.is_wf());
}

#[test]
fn addons_are_sorted_by_name() {
    let list = vec![
        modrinth("b", "1"),
        modrinth("a", "2"),
        modrinth("B", "3"),
        modrinth("ab", "4"),
        modrinth("", "5"),
        modrinth("a", "6"),
        modrinth("é", "7"),
    ];
    let sorted = emm::index::sort_by_name(list.clone());
    let mut expected = list;
    expected.sort_by(|x, y| x.name.cmp(&y.name));
    assert_eq!(sorted, expected);
    let ids: Vec<String> = sorted.iter().map(|a| a.native_id()).collect();
    assert_eq!(ids, vec!["5", "3", "2", "6", "4", "1", "7"]);
    assert!(emm::index::sort_by_name(Vec::new()).is_empty());
}
