//! Moving addons to newer versions, pinning them, and the links that a
//! listing shows.

use vstd::prelude::*;
use vstd::string::*;
use crate::compat::VersionPointer;
use crate::migrate::repointed;
use crate::model::{Addon, AddonOptions, AddonSource};
use crate::error::Error;
use crate::text::{decimal, decimal_string, parse_i32, parsed_i32_of};

verus! {

/// Whether the addon is at the version `pointer` already.
pub open spec fn points_at(source: AddonSource, pointer: VersionPointer) -> bool {
    match (source, pointer) {
        (AddonSource::Modrinth(s), VersionPointer::Text(v)) => s.version@ == v@,
        (AddonSource::Curseforge(s), VersionPointer::Number(n)) => s.version == n,
        (AddonSource::Github(s), VersionPointer::Text(v)) => s.tag@ == v@,
        _ => false,
    }
}

/// Whether the pointer is of the kind that the addon's registry uses.
pub open spec fn fits(source: AddonSource, pointer: VersionPointer) -> bool {
    match (source, pointer) {
        (AddonSource::Modrinth(_), VersionPointer::Text(_)) => true,
        (AddonSource::Curseforge(_), VersionPointer::Number(_)) => true,
        (AddonSource::Github(_), VersionPointer::Text(_)) => true,
        _ => false,
    }
}

/// The addon moved to `latest`, where that is another version than it is at.
pub open spec fn updated(addon: Addon, latest: VersionPointer) -> Option<Addon> {
    if fits(addon.source, latest) && !points_at(addon.source, latest) {
        Some(repointed(addon, latest))
    } else {
        None
    }
}

/// The addon with its pin set or cleared.
pub open spec fn with_pin(addon: Addon, pinned: bool) -> Addon {
    Addon {
        options: Some(
            match addon.options {
                Some(o) => AddonOptions { pinned, ..o },
                None => AddonOptions { pinned, ..AddonOptions::nothing_set() },
            },
        ),
        ..addon
    }
}

/// The addons that are not pinned, in their order.
pub open spec fn unpinned(addons: Seq<Addon>) -> Seq<Addon> {
    addons.filter(|a: Addon| !(a.options matches Some(o) && o.pinned))
}

/// The page of the addon at its registry. The second registry's pages are
/// known by lookup only: `cf_link` is what was found for the addon there.
pub open spec fn url_text(addon: Addon, cf_link: Seq<char>) -> Seq<char> {
    match addon.source {
        AddonSource::Modrinth(s) => "https://modrinth.com/project/"@ + s.id@,
        AddonSource::Curseforge(_) => cf_link,
        AddonSource::Github(s) => "https://github.com/"@ + s.repo@,
    }
}

/// The page of the version that the addon is at.
pub open spec fn version_url_text(addon: Addon, cf_link: Seq<char>) -> Seq<char> {
    match addon.source {
        AddonSource::Modrinth(s) => url_text(addon, cf_link) + "/version/"@ + s.version@,
        AddonSource::Curseforge(s) => url_text(addon, cf_link) + "/files/"@ + decimal(s.version as int),
        AddonSource::Github(s) => url_text(addon, cf_link) + "/releases/tag/"@ + s.tag@,
    }
}

/// A link as a terminal shows it: the placeholder, wrapped in the escape
/// sequence that carries the address where the terminal supports that.
pub open spec fn hyperlink_text(link: Seq<char>, placeholder: Seq<char>, supported: bool) -> Seq<char> {
    if supported {
        "\u{1b}]8;;"@ + link + "\u{1b}\\"@ + placeholder + "\u{1b}]8;;\u{1b}\\"@
    } else {
        placeholder
    }
}

/// Whether `r` is the pointer that `text` names for an addon of the given
/// origin, given the integer that the text is read as: the text itself,
/// but for the registry whose versions are numbered, where a text that is
/// no integer names none.
pub open spec fn names_pointer(
    source: AddonSource,
    text: Seq<char>,
    number: Option<i32>,
    r: Result<VersionPointer, Error>,
) -> bool {
    match source {
        AddonSource::Curseforge(_) => match number {
            Some(n) => r == Ok::<VersionPointer, Error>(VersionPointer::Number(n)),
            None => r matches Err(Error::Other(why)) && why@ == "Could not parse version id to integer"@,
        },
        _ => r matches Ok(VersionPointer::Text(v)) && v@ == text,
    }
}

/// The pointer that a text names for the addon, given the integer that
/// the text is read as.
pub fn pointer_from(addon: &Addon, version: &str, number: Option<i32>) -> (r: Result<VersionPointer, Error>)
    ensures
        names_pointer(addon.source, version@, number, r),
{
    match &addon.source {
        AddonSource::Curseforge(_) => match number {
            Some(n) => Ok(VersionPointer::Number(n)),
            None => Err(Error::Other(String::from_str("Could not parse version id to integer"))),
        },
        _ => Ok(VersionPointer::Text(String::from_str(version))),
    }
}

/// The pointer that a text names for the addon.
pub fn version_pointer(addon: &Addon, version: &str) -> (r: Result<VersionPointer, Error>)
    ensures
        names_pointer(addon.source, version@, parsed_i32_of(version@), r),
{
    let number = parse_i32(version);
    pointer_from(addon, version, number)
}

pub fn update_to(addon: Addon, latest: VersionPointer) -> (r: Option<Addon>)
    ensures
        r == updated(addon, latest),
{
    let fits = match (&addon.source, &latest) {
        (AddonSource::Modrinth(s), VersionPointer::Text(v)) => s.version != *v,
        (AddonSource::Curseforge(s), VersionPointer::Number(n)) => s.version != *n,
        (AddonSource::Github(s), VersionPointer::Text(v)) => s.tag != *v,
        _ => false,
    };
    if fits {
        Some(addon.with_version(latest))
    } else {
        None
    }
}

pub fn set_pin(addon: Addon, pinned: bool) -> (r: Addon)
    ensures
        r == with_pin(addon, pinned),
{
    let Addon { name, project_type, side, source, options, filename } = addon;
    let options = match options {
        Some(o) => AddonOptions {
            pinned,
            mod_loader: o.mod_loader,
            game_versions: o.game_versions,
            release_channel: o.release_channel,
        },
        None => AddonOptions {
            pinned,
            mod_loader: None,
            game_versions: None,
            release_channel: None,
        },
    };
    Addon { name, project_type, side, source, options: Some(options), filename }
}

/// Pins the addon, at the version `version` where one is given. An addon
/// that is pinned already is left as it is, and `None` says so.
pub fn pin(addon: Addon, version: Option<VersionPointer>) -> (r: Option<Addon>)
    ensures
        r == if addon.options matches Some(o) && o.pinned {
            None
        } else {
            Some(
                with_pin(
                    match version {
                        Some(v) => repointed(addon, v),
                        None => addon,
                    },
                    true,
                ),
            )
        },
{
    if addon.is_pinned() {
        return None;
    }
    let moved = match version {
        Some(v) => addon.with_version(v),
        None => addon,
    };
    Some(set_pin(moved, true))
}

/// Clears the pin of the addon. An addon that is not pinned is left as it
/// is, and `None` says so.
pub fn unpin(addon: Addon) -> (r: Option<Addon>)
    ensures
        r == if addon.options matches Some(o) && o.pinned {
            Some(with_pin(addon, false))
        } else {
            None
        },
{
    if addon.is_pinned() {
        Some(set_pin(addon, false))
    } else {
        None
    }
}

/// The addons that an update without a selection looks at.
pub fn without_pinned(addons: Vec<Addon>) -> (r: Vec<Addon>)
    ensures
        r@ == unpinned(addons@),
{
    let ghost pred = |a: Addon| !(a.options matches Some(o) && o.pinned);
    let ghost all = addons@;
    let mut rest = addons;
    let n: usize = rest.len();
    let mut out: Vec<Addon> = Vec::new();
    let mut i: usize = 0;
    proof {
        reveal(Seq::filter);
        assert(all.take(0).filter(pred) =~= Seq::<Addon>::empty());
        assert(all.skip(0) =~= all);
    }
    while i < n
        invariant
            i <= n,
            n == all.len(),
            pred == (|a: Addon| !(a.options matches Some(o) && o.pinned)),
            rest@ == all.skip(i as int),
            out@ == all.take(i as int).filter(pred),
        decreases n - i,
    {
        let addon = rest.remove(0);
        proof {
            assert(addon == all[i as int]);
            assert(rest@ =~= all.skip(i as int + 1));
            assert(all.take(i as int + 1) =~= all.take(i as int).push(all[i as int]));
            all.take(i as int).lemma_filter_push(all[i as int], pred);
        }
        if !addon.is_pinned() {
            out.push(addon);
        }
        i += 1;
    }
    proof {
        assert(all.take(n as int) =~= all);
    }
    out
}

pub fn get_url(addon: &Addon, cf_link: &str) -> (r: String)
    ensures
        r@ == url_text(*addon, cf_link@),
{
    match &addon.source {
        AddonSource::Modrinth(source) => String::from_str("https://modrinth.com/project/").concat(
            source.id.as_str(),
        ),
        AddonSource::Curseforge(_) => String::from_str(cf_link),
        AddonSource::Github(source) => String::from_str("https://github.com/").concat(
            source.repo.as_str(),
        ),
    }
}

pub fn get_version_url(addon: &Addon, cf_link: &str) -> (r: String)
    ensures
        r@ == version_url_text(*addon, cf_link@),
{
    let url = get_url(addon, cf_link);
    match &addon.source {
        AddonSource::Modrinth(source) => url.concat("/version/").concat(source.version.as_str()),
        AddonSource::Curseforge(source) => {
            let version = decimal_string(source.version);
            url.concat("/files/").concat(version.as_str())
        },
        AddonSource::Github(source) => url.concat("/releases/tag/").concat(source.tag.as_str()),
    }
}

/// The page that the second registry has for the mod `id`, if `links` holds it.
pub fn link_of(links: &Vec<(i32, String)>, id: i32) -> (r: Option<String>)
    ensures
        match r {
            Some(link) => exists|i: int| 0 <= i < links@.len() && (#[trigger] links@[i]).0 == id && links@[i].1 == link
                && forall|j: int| 0 <= j < i ==> (#[trigger] links@[j]).0 != id,
            None => forall|j: int| 0 <= j < links@.len() ==> (#[trigger] links@[j]).0 != id,
        },
{
    let mut i: usize = 0;
    while i < links.len()
        invariant
            i <= links.len(),
            forall|j: int| 0 <= j < i ==> (#[trigger] links@[j]).0 != id,
        decreases links.len() - i,
    {
        if links[i].0 == id {
            return Some(links[i].1.clone());
        }
        i += 1;
    }
    None
}

pub fn to_hyperlink(link: &str, placeholder: &str, supported: bool) -> (r: String)
    ensures
        r@ == hyperlink_text(link@, placeholder@, supported),
{
    if supported {
        String::from_str("\u{1b}]8;;").concat(link).concat("\u{1b}\\").concat(placeholder).concat(
            "\u{1b}]8;;\u{1b}\\",
        )
    } else {
        String::from_str(placeholder)
    }
}

/// An addon with the version that its registry has for the pack now, if it has one.
#[derive(Debug, Clone, PartialEq, Eq)]
pub struct Latest {
    pub addon: Addon,
    pub version: Option<VersionPointer>,
}

/// The addons to write back after an update: each for which the registry
/// has another version than it is at, moved to that version, in their order.
pub open spec fn updates(list: Seq<Latest>) -> Seq<Addon>
    decreases list.len(),
{
    if list.len() == 0 {
        Seq::empty()
    } else {
        let before = updates(list.drop_last());
        match list.last().version {
            Some(v) => match updated(list.last().addon, v) {
                Some(a) => before.push(a),
                None => before,
            },
            None => before,
        }
    }
}

pub fn plan_updates(list: Vec<Latest>) -> (r: Vec<Addon>)
    ensures
        r@ == updates(list@),
{
    let ghost all = list@;
    let mut rest = list;
    let n: usize = rest.len();
    let mut out: Vec<Addon> = Vec::new();
    let mut i: usize = 0;
    proof {
        assert(all.skip(0) =~= all);
    }
    while i < n
        invariant
            i <= n,
            n == all.len(),
            rest@ == all.skip(i as int),
            out@ == updates(all.take(i as int)),
        decreases n - i,
    {
        let entry = rest.remove(0);
        proof {
            assert(entry == all[i as int]);
            assert(rest@ =~= all.skip(i as int + 1));
            assert(all.take(i as int + 1).drop_last() =~= all.take(i as int));
            assert(all.take(i as int + 1).last() == all[i as int]);
        }
        let Latest { addon, version } = entry;
        match version {
            Some(v) => match update_to(addon, v) {
                Some(a) => {
                    out.push(a);
                },
                None => {},
            },
            None => {},
        }
        i += 1;
    }
    proof {
        assert(all.take(n as int) =~= all);
    }
    out
}

} // verus!
