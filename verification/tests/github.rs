use emm::error::Error;
use emm::github::{
    changed, default_asset, find_filter, find_release, parse_repo, release_addon, repo_from, split_repo,
    GithubRelease, ReleaseAsset,
};
use emm::model::{Addon, AddonOptions, AddonSource, GithubSource, ModLoader, Modpack, ProjectType, ReleaseFilter, Side};

fn release(tag: &str, assets: usize) -> GithubRelease {
    GithubRelease {
        name: format!("Release {tag}"),
        tag_name: tag.to_string(),
        prerelease: false,
        assets: (0..assets)
            .map(|i| ReleaseAsset {
                browser_download_url: format!("https://example/{tag}/{i}"),
                name: format!("asset-{i}.jar"),
                size: 1,
            })
            .collect(),
    }
}

fn pack() -> Modpack {
    Modpack::new(
        "pack".to_string(),
        Vec::new(),
        None,
        "1".to_string(),
        "1.20.1".to_string(),
        ModLoader::Fabric,
        "latest".to_string(),
    )
}

#[test]
fn repos_split_at_the_first_slash() {
    assert_eq!(split_repo("owner/name"), Some(("owner".to_string(), "name".to_string())));
    assert_eq!(split_repo("owner/name/more"), Some(("owner".to_string(), "name/more".to_string())));
    assert_eq!(split_repo("/name"), Some(("".to_string(), "name".to_string())));
    assert_eq!(split_repo("owner/"), Some(("owner".to_string(), "".to_string())));
    assert_eq!(split_repo("owner"), None);
    assert_eq!(split_repo(""), None);
}

#[test]
fn releases_are_found_by_tag() {
    let releases = vec![release("v1", 1), release("v2", 2), release("v1", 3)];
    assert_eq!(find_release(&releases, "v1"), Some(0));
    assert_eq!(find_release(&releases, "v2"), Some(1));
    assert_eq!(find_release(&releases, "v3"), None);
}

#[test]
fn the_first_asset_is_taken_where_there_is_no_choice() {
    assert_eq!(default_asset(&release("v1", 1), false), Some(0));
    assert_eq!(default_asset(&release("v1", 3), true), Some(0));
    assert_eq!(default_asset(&release("v1", 3), false), None);
    assert_eq!(default_asset(&release("v1", 0), false), None);
}

#[test]
fn a_release_becomes_an_addon() {
    assert_eq!(
        release_addon("owner", "name", "v1".to_string(), 2),
        Addon {
            name: "name".to_string(),
            project_type: ProjectType::Unknown,
            side: Side::Both,
            source: AddonSource::Github(GithubSource {
                repo: "owner/name".to_string(),
                tag: "v1".to_string(),
                filter_by: ReleaseFilter::Unfiltered,
                asset_index: 2,
            }),
            options: Some(AddonOptions::unset()),
            filename: None,
        }
    );
}

#[test]
fn a_filter_is_found_where_the_game_version_is_named() {
    assert_eq!(find_filter("Mod-1.20.1-Fabric", &pack()), Some("mod-{mc_version}-fabric".to_string()));
    assert_eq!(find_filter("1.20.1 and 1.20.1", &pack()), Some("{mc_version} and {mc_version}".to_string()));
    assert_eq!(find_filter("Mod-1.21-Fabric", &pack()), None);
    assert_eq!(find_filter("", &pack()), None);
}

#[test]
fn changed_says_whether_anything_was_replaced() {
    assert_eq!(changed(&"abc".to_string(), "abc".to_string()), None);
    assert_eq!(changed(&"abc".to_string(), "abd".to_string()), Some("abd".to_string()));
}

#[test]
fn repositories_are_named_by_address_or_by_name() {
    let expected = Ok(("owner".to_string(), "repo.name".to_string()));
    assert_eq!(parse_repo("owner/repo.name"), expected);
    assert_eq!(parse_repo("https://github.com/owner/repo.name"), expected);
    assert_eq!(parse_repo("http://github.com/owner/repo.name"), expected);
    assert_eq!(parse_repo("https://github.com/owner/repo.name/releases/tag/v1"), expected);
    assert_eq!(parse_repo("my-user/my_repo"), Ok(("my-user".to_string(), "my_repo".to_string())));
}

#[test]
fn a_text_without_a_slash_names_no_repository() {
    let refused = Err(Error::Other("Invalid github url \nuse a github url or user/repo'".to_string()));
    assert_eq!(parse_repo("owner"), refused);
    assert_eq!(parse_repo(""), refused);
    assert_eq!(parse_repo("/"), refused);
    assert_eq!(repo_from(None), refused);
    assert_eq!(repo_from(Some(("a".to_string(), "b".to_string()))), Ok(("a".to_string(), "b".to_string())));
}
