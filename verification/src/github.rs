//! What the release-hosting platform reports, and how it enters the addon model.

use vstd::prelude::*;
use vstd::string::*;
use crate::error::Error;
use crate::model::{Addon, AddonOptions, AddonSource, GithubSource, Modpack, ProjectType, ReleaseFilter, Side};
use crate::text::{find_char, first_index_of, lemma_first_index_of, lowercase_of, slice, to_lowercase};

verus! {

#[derive(Debug, Clone, PartialEq, Eq)]
pub struct Repository {
    pub full_name: String,
    pub description: String,
}

#[derive(Debug, Clone, PartialEq, Eq)]
pub struct ReleaseAsset {
    pub browser_download_url: String,
    pub name: String,
    pub size: usize,
}

#[derive(Debug, Clone, PartialEq, Eq)]
pub struct GithubRelease {
    pub name: String,
    pub tag_name: String,
    pub prerelease: bool,
    pub assets: Vec<ReleaseAsset>,
}

/// `text` with each occurrence of `from` replaced by `to`, as `str::replace` does it.
pub uninterp spec fn replace_of(text: Seq<char>, from: Seq<char>, to: Seq<char>) -> Seq<char>;

/// Calls `str::replace`, which replaces all matches of a pattern with
/// another string. The result is only named: it depends on the three texts alone.
#[verifier::external_body]
fn replace_text(text: &str, from: &str, to: &str) -> (r: String)
    ensures
        r@ == replace_of(text@, from@, to@),
{
    text.replace(from, to)
}

/// What the first two groups of a pattern capture at its first match in a
/// text; none where the pattern is no valid one, does not match, or a
/// group takes no part in the match.
pub uninterp spec fn regex_groups_of(pattern: Seq<char>, text: Seq<char>) -> Option<(Seq<char>, Seq<char>)>;

/// Calls `Regex::new` and `Regex::captures` of the regex crate, which
/// lazy-regex hands on, and copies the first two groups out. The result is
/// only named: it depends on the two texts alone.
#[verifier::external_body]
fn regex_groups(pattern: &str, text: &str) -> (r: Option<(String, String)>)
    ensures
        match r {
            Some((a, b)) => regex_groups_of(pattern@, text@) == Some((a@, b@)),
            None => regex_groups_of(pattern@, text@) is None,
        },
{
    let re = lazy_regex::Regex::new(pattern).ok()?;
    let found = re.captures(text)?;
    Some((found.get(1)?.as_str().to_string(), found.get(2)?.as_str().to_string()))
}

/// The pattern of a repository: `user/repo`, with or without the
/// platform's address before it and a path behind it.
pub open spec fn repo_pattern() -> Seq<char> {
    "(?:https?://github\\.com/)?([\\w.-]+?)/([\\w.-]+)(?:/.*)?"@
}

/// The failure for a text that names no repository.
pub open spec fn invalid_repo_text() -> Seq<char> {
    "Invalid github url \nuse a github url or user/repo'"@
}

/// The user and the repository, given what the pattern captured.
pub fn repo_from(groups: Option<(String, String)>) -> (r: Result<(String, String), Error>)
    ensures
        match groups {
            Some(pair) => r == Ok::<(String, String), Error>(pair),
            None => r matches Err(Error::Other(why)) && why@ == invalid_repo_text(),
        },
{
    match groups {
        Some(pair) => Ok(pair),
        None => Err(Error::Other(String::from_str("Invalid github url \nuse a github url or user/repo'"))),
    }
}

/// The user and the repository that a text names: an address at the
/// platform, or just `user/repo`.
pub fn parse_repo(input: &str) -> (r: Result<(String, String), Error>)
    ensures
        match r {
            Ok((user, repo)) => regex_groups_of(repo_pattern(), input@) == Some((user@, repo@)),
            Err(e) => regex_groups_of(repo_pattern(), input@) is None && (e matches Error::Other(why)
                && why@ == invalid_repo_text()),
        },
{
    let groups = regex_groups("(?:https?://github\\.com/)?([\\w.-]+?)/([\\w.-]+)(?:/.*)?", input);
    repo_from(groups)
}

/// A text in which something was replaced, or nothing where it was left as it was.
pub fn changed(before: &String, parsed: String) -> (r: Option<String>)
    ensures
        r == if parsed@ == before@ {
            None
        } else {
            Some(parsed)
        },
{
    if parsed == *before {
        None
    } else {
        Some(parsed)
    }
}

/// The filter that a release's name or tag suggests: the text in lower
/// case, with the pack's game version replaced by a placeholder; none
/// where the text does not name the game version.
pub fn find_filter(string: &str, modpack: &Modpack) -> (r: Option<String>)
    ensures
        ({
            let lower = lowercase_of(string@);
            let parsed = replace_of(lower, modpack.versions.minecraft@, "{mc_version}"@);
            match r {
                Some(p) => p@ == parsed && parsed != lower,
                None => parsed == lower,
            }
        }),
{
    let lowercase_name = to_lowercase(string);
    let parsed = replace_text(
        lowercase_name.as_str(),
        modpack.versions.minecraft.as_str(),
        "{mc_version}",
    );
    changed(&lowercase_name, parsed)
}

/// The owner and the name of a repository written as `owner/name`: what
/// stands before the first slash and what follows it.
pub open spec fn repo_parts(repo: Seq<char>) -> Option<(Seq<char>, Seq<char>)> {
    let at = first_index_of(repo, '/');
    if at < repo.len() {
        Some((repo.subrange(0, at), repo.subrange(at + 1, repo.len() as int)))
    } else {
        None
    }
}

pub fn split_repo(repo: &str) -> (r: Option<(String, String)>)
    ensures
        match r {
            Some((owner, name)) => repo_parts(repo@) == Some((owner@, name@)),
            None => repo_parts(repo@) is None,
        },
{
    let n: usize = repo.unicode_len();
    let at = find_char(repo, '/');
    proof {
        lemma_first_index_of(repo@, '/');
    }
    if at < n {
        Some((slice(repo, 0, at), slice(repo, at + 1, n)))
    } else {
        None
    }
}

/// The place of the first release with the tag `tag`.
pub fn find_release(releases: &Vec<GithubRelease>, tag: &str) -> (r: Option<usize>)
    ensures
        match r {
            Some(i) => i < releases@.len() && releases@[i as int].tag_name@ == tag@ && forall|j: int|
                0 <= j < i ==> (#[trigger] releases@[j]).tag_name@ != tag@,
            None => forall|j: int| 0 <= j < releases@.len() ==> (#[trigger] releases@[j]).tag_name@ != tag@,
        },
{
    let wanted = String::from_str(tag);
    let mut i: usize = 0;
    while i < releases.len()
        invariant
            i <= releases.len(),
            wanted@ == tag@,
            forall|j: int| 0 <= j < i ==> (#[trigger] releases@[j]).tag_name@ != tag@,
        decreases releases.len() - i,
    {
        if releases[i].tag_name == wanted {
            return Some(i);
        }
        i += 1;
    }
    None
}

/// The asset to take without asking: the first, where that was asked for
/// or the release has only one.
pub fn default_asset(release: &GithubRelease, first_asset: bool) -> (r: Option<usize>)
    ensures
        r == if first_asset || release.assets@.len() == 1 {
            Some(0usize)
        } else {
            None
        },
{
    if first_asset || release.assets.len() == 1 {
        Some(0)
    } else {
        None
    }
}

/// The addon for an asset of a release of `user/repo`.
pub fn release_addon(user: &str, repo: &str, tag: String, asset_index: usize) -> (r: Addon)
    ensures
        r.name@ == repo@,
        r.project_type == ProjectType::Unknown,
        r.side == Side::Both,
        r.options == Some(AddonOptions::nothing_set()),
        r.filename is None,
        r.source matches AddonSource::Github(s) && (s.repo@ == user@ + "/"@ + repo@ && s.tag == tag
            && s.filter_by == ReleaseFilter::Unfiltered && s.asset_index == asset_index),
{
    Addon {
        name: String::from_str(repo),
        project_type: ProjectType::Unknown,
        side: Side::Both,
        source: AddonSource::Github(
            GithubSource {
                repo: String::from_str(user).concat("/").concat(repo),
                tag,
                filter_by: ReleaseFilter::Unfiltered,
                asset_index,
            },
        ),
        options: Some(AddonOptions::unset()),
        filename: None,
    }
}

} // verus!
