use emm::compat::VersionPointer;
use emm::model::{
    Addon, AddonOptions, AddonSource, CurseforgeSource, GithubSource, ModLoader, ModrinthSource, ProjectType,
    ReleaseFilter, Side,
};
use emm::error::Error;
use emm::update::{
    get_url, get_version_url, link_of, pin, plan_updates, pointer_from, set_pin, to_hyperlink, unpin,
    update_to, version_pointer, without_pinned, Latest,
};

fn with_source(source: AddonSource, options: Option<AddonOptions>) -> Addon {
    Addon {
        name: "addon".to_string(),
        project_type: ProjectType::Mod,
        side: Side::Both,
        source,
        options,
        filename: None,
    }
}

fn mr(version: &str) -> Addon {
    with_source(
        AddonSource::Modrinth(ModrinthSource { id: "P".to_string(), version: version.to_string() }),
        Some(AddonOptions::unset()),
    )
}

fn cf(version: i32) -> Addon {
    with_source(AddonSource::Curseforge(CurseforgeSource { id: 5, version }), Some(AddonOptions::unset()))
}

fn gh(tag: &str) -> Addon {
    with_source(
        AddonSource::Github(GithubSource {
            repo: "o/r".to_string(),
            tag: tag.to_string(),
            filter_by: ReleaseFilter::Unfiltered,
            asset_index: 0,
        }),
        Some(AddonOptions::unset()),
    )
}

fn pinned(addon: Addon) -> Addon {
    Addon { options: Some(AddonOptions { pinned: true, ..addon.options.clone().unwrap() }), ..addon }
}

fn text(v: &str) -> VersionPointer {
    VersionPointer::Text(v.to_string())
}

#[test]
fn an_addon_moves_to_a_new_version_only() {
    assert_eq!(update_to(mr("a"), text("b")), Some(mr("b")));
    assert_eq!(update_to(mr("a"), text("a")), None);
    assert_eq!(update_to(cf(1), VersionPointer::Number(2)), Some(cf(2)));
    assert_eq!(update_to(cf(1), VersionPointer::Number(1)), None);
    assert_eq!(update_to(gh("v1"), text("v2")), Some(gh("v2")));
    assert_eq!(update_to(gh("v1"), text("v1")), None);
    assert_eq!(update_to(mr("a"), VersionPointer::Number(2)), None);
    assert_eq!(update_to(cf(1), text("b")), None);
}

#[test]
fn pinning_sets_the_flag_and_the_version() {
    assert_eq!(pin(mr("a"), None), Some(pinned(mr("a"))));
    assert_eq!(pin(mr("a"), Some(text("b"))), Some(pinned(mr("b"))));
    assert_eq!(pin(cf(1), Some(VersionPointer::Number(9))), Some(pinned(cf(9))));
    assert_eq!(pin(gh("v1"), Some(text("v0"))), Some(pinned(gh("v0"))));
    assert_eq!(pin(pinned(mr("a")), Some(text("b"))), None);
    let bare = Addon { options: None, ..mr("a") };
    assert_eq!(pin(bare, None), Some(pinned(mr("a"))));
}

#[test]
fn pinning_keeps_the_other_options() {
    let options = AddonOptions {
        pinned: false,
        mod_loader: Some(ModLoader::Quilt),
        game_versions: Some("1.20".to_string()),
        release_channel: None,
    };
    let addon = Addon { options: Some(options.clone()), ..mr("a") };
    let expected = Addon { options: Some(AddonOptions { pinned: true, ..options }), ..mr("a") };
    assert_eq!(set_pin(addon, true), expected);
}

#[test]
fn unpinning_clears_the_flag() {
    assert_eq!(unpin(pinned(mr("a"))), Some(mr("a")));
    assert_eq!(unpin(mr("a")), None);
    assert_eq!(unpin(Addon { options: None, ..mr("a") }), None);
}

#[test]
fn pinned_addons_are_left_out_of_an_update() {
    let bare = Addon { options: None, ..cf(3) };
    let list = vec![mr("a"), pinned(cf(1)), bare.clone(), pinned(gh("v1")), gh("v2")];
    assert_eq!(without_pinned(list), vec![mr("a"), bare, gh("v2")]);
    assert!(without_pinned(Vec::new()).is_empty());
}

#[test]
fn pages_of_addons_and_versions() {
    assert_eq!(get_url(&mr("a"), ""), "https://modrinth.com/project/P");
    assert_eq!(get_url(&cf(1), "https://cf.example/jei"), "https://cf.example/jei");
    assert_eq!(get_url(&gh("v1"), ""), "https://github.com/o/r");
    assert_eq!(get_version_url(&mr("a"), ""), "https://modrinth.com/project/P/version/a");
    assert_eq!(get_version_url(&cf(17), "https://cf.example/jei"), "https://cf.example/jei/files/17");
    assert_eq!(get_version_url(&gh("v1"), ""), "https://github.com/o/r/releases/tag/v1");
}

#[test]
fn links_are_found_by_id() {
    let links = vec![(1, "one".to_string()), (2, "two".to_string()), (1, "again".to_string())];
    assert_eq!(link_of(&links, 1), Some("one".to_string()));
    assert_eq!(link_of(&links, 2), Some("two".to_string()));
    assert_eq!(link_of(&links, 3), None);
}

#[test]
fn hyperlinks_wrap_the_placeholder() {
    assert_eq!(to_hyperlink("https://x", "name", false), "name");
    assert_eq!(
        to_hyperlink("https://x", "name", true),
        "\u{1b}]8;;https://x\u{1b}\\name\u{1b}]8;;\u{1b}\\"
    );
}

#[test]
fn a_text_names_a_version_of_the_addon() {
    assert_eq!(version_pointer(&mr("a"), "xyz"), Ok(text("xyz")));
    assert_eq!(version_pointer(&mr("a"), "12"), Ok(text("12")));
    assert_eq!(version_pointer(&gh("v1"), "v2"), Ok(text("v2")));
    assert_eq!(version_pointer(&cf(1), "4712345"), Ok(VersionPointer::Number(4712345)));
    assert_eq!(version_pointer(&cf(1), "-3"), Ok(VersionPointer::Number(-3)));
    let refused = Err(Error::Other("Could not parse version id to integer".to_string()));
    assert_eq!(version_pointer(&cf(1), "xyz"), refused);
    assert_eq!(version_pointer(&cf(1), ""), refused);
    assert_eq!(version_pointer(&cf(1), "99999999999"), refused);
    assert_eq!(pointer_from(&cf(1), "7", None), refused);
    assert_eq!(pointer_from(&cf(1), "x", Some(7)), Ok(VersionPointer::Number(7)));
    assert_eq!(pointer_from(&mr("a"), "x", Some(7)), Ok(text("x")));
}

#[test]
fn an_update_writes_back_what_moved() {
    let list = vec![
        Latest { addon: mr("a"), version: Some(text("b")) },
        Latest { addon: cf(1), version: Some(VersionPointer::Number(1)) },
        Latest { addon: gh("v1"), version: None },
        Latest { addon: cf(2), version: Some(VersionPointer::Number(3)) },
        Latest { addon: gh("v1"), version: Some(text("v2")) },
    ];
    assert_eq!(plan_updates(list), vec![mr("b"), cf(3), gh("v2")]);
    assert!(plan_updates(Vec::new()).is_empty());
}
