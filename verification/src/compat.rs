//! Which versions of an addon a modpack can use, and which of them is installed.

use vstd::prelude::*;
use vstd::string::*;
use crate::error::Error;
use crate::model::{copy_loaders, ModLoader, Modpack, ProjectType};
use crate::text::{contains_text, copy_texts, has_text, lemma_has_text_texts, texts};

verus! {

/// The id that a registry gives to one version of a project.
#[derive(Debug, Clone, PartialEq, Eq)]
pub enum VersionPointer {
    Text(String),
    Number(i32),
}

/// One version of a project, as a registry reports it.
#[derive(Debug, Clone, PartialEq, Eq)]
pub struct Candidate {
    pub id: VersionPointer,
    pub game_versions: Vec<String>,
    pub loaders: Vec<String>,
    pub available: bool,
    pub published: u128,
}

/// What a candidate says, as plain values.
pub struct CandidateView {
    pub id: VersionPointer,
    pub game_versions: Seq<Seq<char>>,
    pub loaders: Seq<Seq<char>>,
    pub available: bool,
    pub published: u128,
}

impl View for Candidate {
    type V = CandidateView;

    open spec fn view(&self) -> CandidateView {
        CandidateView {
            id: self.id,
            game_versions: texts(self.game_versions@),
            loaders: texts(self.loaders@),
            available: self.available,
            published: self.published,
        }
    }
}

/// What each candidate of a list says.
pub open spec fn views(candidates: Seq<Candidate>) -> Seq<CandidateView> {
    candidates.map_values(|c: Candidate| c@)
}

/// The game versions that the pack accepts: its own first, then the fallbacks.
pub open spec fn version_filters(modpack: Modpack) -> Seq<String> {
    match modpack.options.acceptable_versions {
        Some(more) => seq![modpack.versions.minecraft] + more@,
        None => seq![modpack.versions.minecraft],
    }
}

/// The loaders that the pack accepts: its own first, then the fallbacks.
pub open spec fn loader_filters(modpack: Modpack) -> Seq<ModLoader> {
    match modpack.options.acceptable_loaders {
        Some(more) => seq![modpack.versions.loader] + more@,
        None => seq![modpack.versions.loader],
    }
}

/// Whether `listed` holds one of the game versions `accepted`.
pub open spec fn has_version_of(listed: Seq<Seq<char>>, accepted: Seq<String>) -> bool {
    exists|i: int| 0 <= i < accepted.len() && listed.contains((#[trigger] accepted[i])@)
}

/// Whether `listed` holds the tag of one of the loaders `accepted`.
pub open spec fn has_loader_of(listed: Seq<Seq<char>>, accepted: Seq<ModLoader>) -> bool {
    exists|i: int| 0 <= i < accepted.len() && listed.contains((#[trigger] accepted[i]).tag_text())
}

impl CandidateView {
    /// Whether the candidate lists the pack's own game version.
    pub open spec fn on_primary_version(self, modpack: Modpack) -> bool {
        self.game_versions.contains(modpack.versions.minecraft@)
    }

    /// Whether the candidate lists the pack's own loader.
    pub open spec fn on_primary_loader(self, modpack: Modpack) -> bool {
        self.loaders.contains(modpack.versions.loader.tag_text())
    }

    /// Whether the pack can use the candidate: it can be downloaded, it
    /// lists an accepted game version and, for a mod, an accepted loader.
    pub open spec fn compatible(self, modpack: Modpack, project_type: ProjectType) -> bool {
        &&& self.available
        &&& has_version_of(self.game_versions, version_filters(modpack))
        &&& (project_type == ProjectType::Mod ==> has_loader_of(self.loaders, loader_filters(modpack)))
    }

    /// Whether `self` is to be preferred to `other`: by the pack's own game
    /// version first, then by the later publication, then by the pack's own loader.
    pub open spec fn outranks(self, other: CandidateView, modpack: Modpack) -> bool {
        let a_version = self.on_primary_version(modpack);
        let b_version = other.on_primary_version(modpack);
        let a_loader = self.on_primary_loader(modpack);
        let b_loader = other.on_primary_loader(modpack);
        if a_version != b_version {
            a_version
        } else if self.published != other.published {
            self.published > other.published
        } else {
            a_loader && !b_loader
        }
    }
}

impl Candidate {
    pub fn is_on_primary_version(&self, modpack: &Modpack) -> (r: bool)
        ensures
            r == self@.on_primary_version(*modpack),
    {
        proof {
            lemma_has_text_texts(self.game_versions@, modpack.versions.minecraft@);
        }
        contains_text(&self.game_versions, &modpack.versions.minecraft)
    }

    pub fn is_on_primary_loader(&self, modpack: &Modpack) -> (r: bool)
        ensures
            r == self@.on_primary_loader(*modpack),
    {
        let tag = modpack.versions.loader.tag();
        proof {
            lemma_has_text_texts(self.loaders@, tag@);
        }
        contains_text(&self.loaders, &tag)
    }

    pub fn is_compatible(&self, modpack: &Modpack, project_type: &ProjectType) -> (r: bool)
        ensures
            r == self@.compatible(*modpack, *project_type),
    {
        if !self.available {
            return false;
        }
        let (versions, loaders) = get_version_filters(modpack);
        let mut found = false;
        let mut v: usize = 0;
        while v < versions.len() && !found
            invariant
                v <= versions.len(),
                versions@ == version_filters(*modpack),
                found ==> has_version_of(self@.game_versions, version_filters(*modpack)),
                !found ==> forall|j: int| 0 <= j < v ==> !self@.game_versions.contains((#[trigger] versions@[j])@),
            decreases versions.len() - v + if found { 0int } else { 1int },
        {
            proof {
                lemma_has_text_texts(self.game_versions@, versions@[v as int]@);
            }
            if contains_text(&self.game_versions, &versions[v]) {
                found = true;
            } else {
                v += 1;
            }
        }
        if !found {
            return false;
        }
        if *project_type != ProjectType::Mod {
            return true;
        }
        let mut i: usize = 0;
        while i < loaders.len()
            invariant
                i <= loaders.len(),
                loaders@ == loader_filters(*modpack),
                self.available,
                has_version_of(self@.game_versions, version_filters(*modpack)),
                *project_type == ProjectType::Mod,
                forall|j: int| 0 <= j < i ==> !self@.loaders.contains((#[trigger] loaders@[j]).tag_text()),
            decreases loaders.len() - i,
        {
            let tag = loaders[i].tag();
            proof {
                lemma_has_text_texts(self.loaders@, tag@);
            }
            if contains_text(&self.loaders, &tag) {
                proof {
                    assert(self@.loaders.contains(loader_filters(*modpack)[i as int].tag_text()));
                }
                return true;
            }
            i += 1;
        }
        false
    }

    pub fn is_better_than(&self, other: &Candidate, modpack: &Modpack) -> (r: bool)
        ensures
            r == self@.outranks(other@, *modpack),
    {
        let a_version = self.is_on_primary_version(modpack);
        let b_version = other.is_on_primary_version(modpack);
        if a_version != b_version {
            return a_version;
        }
        if self.published != other.published {
            return self.published > other.published;
        }
        let a_loader = self.is_on_primary_loader(modpack);
        let b_loader = other.is_on_primary_loader(modpack);
        a_loader && !b_loader
    }
}

pub fn get_version_filters(modpack: &Modpack) -> (r: (Vec<String>, Vec<ModLoader>))
    ensures
        r.0@ == version_filters(*modpack),
        r.1@ == loader_filters(*modpack),
{
    let mut versions: Vec<String> = Vec::new();
    versions.push(modpack.versions.minecraft.clone());
    match &modpack.options.acceptable_versions {
        Some(more) => {
            let mut copy = copy_texts(more);
            versions.append(&mut copy);
        },
        None => {},
    }
    let mut loaders: Vec<ModLoader> = Vec::new();
    loaders.push(modpack.versions.loader);
    match &modpack.options.acceptable_loaders {
        Some(more) => {
            let mut copy = copy_loaders(more);
            loaders.append(&mut copy);
        },
        None => {},
    }
    proof {
        assert(versions@ =~= version_filters(*modpack));
        assert(loaders@ =~= loader_filters(*modpack));
    }
    (versions, loaders)
}

/// The candidates that the pack can use, in their order.
pub open spec fn compatible_ones(
    candidates: Seq<CandidateView>,
    modpack: Modpack,
    project_type: ProjectType,
) -> Seq<CandidateView> {
    candidates.filter(|c: CandidateView| c.compatible(modpack, project_type))
}

/// Whether `i` is the place of the candidate to install: none of the others
/// is preferred to it, and it is preferred to each that stands before it.
pub open spec fn is_best(candidates: Seq<CandidateView>, i: int, modpack: Modpack) -> bool {
    &&& 0 <= i < candidates.len()
    &&& forall|j: int| 0 <= j < candidates.len() ==> !(#[trigger] candidates[j]).outranks(candidates[i], modpack)
    &&& forall|j: int| 0 <= j < i ==> candidates[i].outranks(#[trigger] candidates[j], modpack)
}

/// What the kept candidates say is what a filter on the views keeps.
pub proof fn lemma_views_of_kept(candidates: Seq<Candidate>, modpack: Modpack, project_type: ProjectType)
    ensures
        views(candidates.filter(|c: Candidate| c@.compatible(modpack, project_type)))
            == compatible_ones(views(candidates), modpack, project_type),
    decreases candidates.len(),
{
    let on_values = |c: Candidate| c@.compatible(modpack, project_type);
    let on_views = |c: CandidateView| c.compatible(modpack, project_type);
    reveal(Seq::filter);
    if candidates.len() == 0 {
        assert(views(candidates.filter(on_values)) =~= views(candidates).filter(on_views));
    } else {
        let rest = candidates.drop_last();
        let last = candidates.last();
        lemma_views_of_kept(rest, modpack, project_type);
        assert(views(candidates).drop_last() =~= views(rest));
        assert(views(candidates).last() == last@);
        if on_values(last) {
            assert(views(rest.filter(on_values).push(last)) =~= views(rest.filter(on_values)).push(
                last@,
            ));
        }
    }
}

pub fn filter_compatible(
    candidates: Vec<Candidate>,
    modpack: &Modpack,
    project_type: &ProjectType,
) -> (r: Vec<Candidate>)
    ensures
        r@ == candidates@.filter(|c: Candidate| c@.compatible(*modpack, *project_type)),
        views(r@) == compatible_ones(views(candidates@), *modpack, *project_type),
{
    let ghost pred = |c: Candidate| c@.compatible(*modpack, *project_type);
    let ghost all = candidates@;
    let mut rest = candidates;
    let mut out: Vec<Candidate> = Vec::new();
    let mut i: usize = 0;
    let n: usize = rest.len();
    proof {
        reveal(Seq::filter);
        assert(all.take(0).filter(pred) =~= Seq::<Candidate>::empty());
        assert(all.skip(0) =~= all);
    }
    while i < n
        invariant
            i <= n,
            n == all.len(),
            pred == (|c: Candidate| c@.compatible(*modpack, *project_type)),
            rest@ == all.skip(i as int),
            out@ == all.take(i as int).filter(pred),
        decreases n - i,
    {
        let candidate = rest.remove(0);
        let keep = candidate.is_compatible(modpack, project_type);
        proof {
            assert(candidate == all[i as int]);
            assert(rest@ =~= all.skip(i as int + 1));
            assert(all.take(i as int + 1) =~= all.take(i as int).push(all[i as int]));
            all.take(i as int).lemma_filter_push(all[i as int], pred);
        }
        if keep {
            out.push(candidate);
        }
        i += 1;
    }
    proof {
        assert(all.take(n as int) =~= all);
        lemma_views_of_kept(all, *modpack, *project_type);
    }
    out
}

/// The place in `candidates` of the one to install, if there is any candidate.
pub fn best_match_index(candidates: &Vec<Candidate>, modpack: &Modpack) -> (r: Option<usize>)
    ensures
        r is None <==> candidates@.len() == 0,
        r matches Some(i) ==> is_best(views(candidates@), i as int, *modpack),
{
    if candidates.len() == 0 {
        return None;
    }
    let mut best: usize = 0;
    let mut k: usize = 1;
    while k < candidates.len()
        invariant
            1 <= k <= candidates.len(),
            best < k,
            forall|j: int| 0 <= j < k ==> !(#[trigger] views(candidates@)[j]).outranks(views(candidates@)[best as int], *modpack),
            forall|j: int| 0 <= j < best ==> views(candidates@)[best as int].outranks(#[trigger] views(candidates@)[j], *modpack),
        decreases candidates.len() - k,
    {
        if candidates[k].is_better_than(&candidates[best], modpack) {
            best = k;
        }
        k += 1;
    }
    Some(best)
}

pub fn best_match(candidates: Vec<Candidate>, modpack: &Modpack) -> (r: Option<Candidate>)
    ensures
        r is None <==> candidates@.len() == 0,
        r matches Some(c) ==> exists|i: int| #[trigger] is_best(views(candidates@), i, *modpack) && c == candidates@[i],
{
    let mut rest = candidates;
    match best_match_index(&rest, modpack) {
        Some(i) => {
            proof {
                assert(is_best(views(candidates@), i as int, *modpack));
            }
            Some(rest.remove(i))
        },
        None => None,
    }
}

/// Whether `r` is what picking a version gives: no version for a project
/// type that a pack cannot hold or where none can be used, else the one to
/// install among those that can.
pub open spec fn picks(
    title: String,
    project_type: ProjectType,
    candidates: Seq<CandidateView>,
    modpack: Modpack,
    r: Result<Candidate, Error>,
) -> bool {
    let usable = compatible_ones(candidates, modpack, project_type);
    if project_type == ProjectType::Modpack || project_type == ProjectType::Plugin {
        r == Err::<Candidate, Error>(Error::UnsupportedProjectType(title))
    } else if usable.len() == 0 {
        r == Err::<Candidate, Error>(Error::NoCompatibleVersions(title))
    } else {
        r matches Ok(c) && exists|i: int| #[trigger] is_best(usable, i, modpack) && c@ == usable[i]
    }
}

/// Picks the version of the project `title` to install: filters, then takes the best.
pub fn pick_version(
    title: &String,
    project_type: &ProjectType,
    candidates: Vec<Candidate>,
    modpack: &Modpack,
) -> (r: Result<Candidate, Error>)
    ensures
        picks(*title, *project_type, views(candidates@), *modpack, r),
{
    if *project_type == ProjectType::Modpack || *project_type == ProjectType::Plugin {
        return Err(Error::UnsupportedProjectType(title.clone()));
    }
    let usable = filter_compatible(candidates, modpack, project_type);
    let ghost kept = usable@;
    match best_match(usable, modpack) {
        None => Err(Error::NoCompatibleVersions(title.clone())),
        Some(c) => {
            proof {
                let i = choose|i: int| #[trigger] is_best(views(kept), i, *modpack) && c == kept[i];
                assert(is_best(views(kept), i, *modpack) && c@ == views(kept)[i]);
            }
            Ok(c)
        },
    }
}

/// A version that was picked from candidates is one of them.
pub proof fn lemma_picked_is_listed(
    title: String,
    project_type: ProjectType,
    candidates: Seq<Candidate>,
    modpack: Modpack,
    c: Candidate,
)
    requires
        picks(title, project_type, views(candidates), modpack, Ok(c)),
    ensures
        exists|k: int| 0 <= k < candidates.len() && (#[trigger] candidates[k]).id == c.id,
{
    let usable = compatible_ones(views(candidates), modpack, project_type);
    let i = choose|i: int| #[trigger] is_best(usable, i, modpack) && c@ == usable[i];
    assert(usable.contains(usable[i]));
    views(candidates).lemma_filter_contains_rev(|v: CandidateView| v.compatible(modpack, project_type), usable[i]);
    let k = choose|k: int| 0 <= k < views(candidates).len() && views(candidates)[k] == usable[i];
    assert(candidates[k].id == c.id);
}

/// Lists of versions that can be narrowed to those a pack can use and
/// reduced to the one to install.
pub trait FilterVersions: Sized {
    spec fn listed(self) -> Seq<CandidateView>;

    fn filter_compatible(self, modpack: &Modpack, project_type: &ProjectType) -> (r: Self)
        ensures
            r.listed() == compatible_ones(self.listed(), *modpack, *project_type),
    ;

    fn best_match(self, modpack: &Modpack) -> (r: Option<Candidate>)
        ensures
            r is None <==> self.listed().len() == 0,
            r matches Some(c) ==> exists|i: int| #[trigger] is_best(self.listed(), i, *modpack) && c@ == self.listed()[i],
    ;
}

impl FilterVersions for Vec<Candidate> {
    open spec fn listed(self) -> Seq<CandidateView> {
        views(self@)
    }

    fn filter_compatible(self, modpack: &Modpack, project_type: &ProjectType) -> (r: Self) {
        self::filter_compatible(self, modpack, project_type)
    }

    fn best_match(self, modpack: &Modpack) -> (r: Option<Candidate>) {
        let r = self::best_match(self, modpack);
        proof {
            if r.is_some() {
                let c = r.unwrap();
                let i = choose|i: int| #[trigger] is_best(views(self@), i, *modpack) && c == self@[i];
                assert(is_best(self.listed(), i, *modpack) && c@ == self.listed()[i]);
            }
        }
        r
    }
}

/// At most one place is the best one.
pub proof fn lemma_best_is_unique(candidates: Seq<CandidateView>, i: int, j: int, modpack: Modpack)
    requires
        is_best(candidates, i, modpack),
        is_best(candidates, j, modpack),
    ensures
        i == j,
{
    if i < j {
        assert(candidates[j].outranks(candidates[i], modpack));
    } else if j < i {
        assert(candidates[i].outranks(candidates[j], modpack));
    }
}

/// Where any candidate lists the pack's own game version, the one to install
/// lists it too, wherever in the list the candidates stand.
pub proof fn lemma_best_prefers_primary_version(
    candidates: Seq<CandidateView>,
    best: int,
    other: int,
    modpack: Modpack,
)
    requires
        is_best(candidates, best, modpack),
        0 <= other < candidates.len(),
        candidates[other].on_primary_version(modpack),
    ensures
        candidates[best].on_primary_version(modpack),
{
    assert(!candidates[other].outranks(candidates[best], modpack));
}

/// Of two candidates of which only one lists the pack's own game version,
/// that one is installed, in either order.
pub proof fn lemma_primary_version_wins_in_either_order(
    primary: CandidateView,
    fallback: CandidateView,
    modpack: Modpack,
)
    requires
        primary.on_primary_version(modpack),
        !fallback.on_primary_version(modpack),
    ensures
        is_best(seq![primary, fallback], 0, modpack),
        is_best(seq![fallback, primary], 1, modpack),
{
}

/// Of candidates that stand equal on the pack's own game version, none of
/// an earlier publication is installed.
pub proof fn lemma_best_is_latest(
    candidates: Seq<CandidateView>,
    best: int,
    other: int,
    modpack: Modpack,
)
    requires
        is_best(candidates, best, modpack),
        0 <= other < candidates.len(),
        candidates[other].on_primary_version(modpack) == candidates[best].on_primary_version(
            modpack,
        ),
    ensures
        candidates[other].published <= candidates[best].published,
{
    assert(!candidates[other].outranks(candidates[best], modpack));
}

/// Whether `wide` accepts every game version and loader that `narrow` accepts.
pub open spec fn widens(narrow: Modpack, wide: Modpack) -> bool {
    &&& forall|v: Seq<char>| has_text(version_filters(narrow), v) ==> has_text(version_filters(wide), v)
    &&& forall|l: ModLoader| loader_filters(narrow).contains(l) ==> loader_filters(wide).contains(l)
}

/// A pack that accepts every game version and loader that another accepts
/// can use every candidate that the other can use.
pub proof fn lemma_widening_keeps_compatible(
    c: CandidateView,
    narrow: Modpack,
    wide: Modpack,
    project_type: ProjectType,
)
    requires
        widens(narrow, wide),
        c.compatible(narrow, project_type),
    ensures
        c.compatible(wide, project_type),
{
    let i = choose|i: int| 0 <= i < version_filters(narrow).len() && c.game_versions.contains((#[trigger] version_filters(narrow)[i])@);
    let v = version_filters(narrow)[i]@;
    assert(has_text(version_filters(narrow), v));
    assert(has_text(version_filters(wide), v));
    let k = choose|k: int| 0 <= k < version_filters(wide).len() && (#[trigger] version_filters(wide)[k])@ == v;
    assert(c.game_versions.contains(version_filters(wide)[k]@));
    if project_type == ProjectType::Mod {
        let n = choose|n: int| 0 <= n < loader_filters(narrow).len() && c.loaders.contains((#[trigger] loader_filters(narrow)[n]).tag_text());
        let l = loader_filters(narrow)[n];
        assert(loader_filters(narrow).contains(l));
        assert(loader_filters(wide).contains(l));
        let w = choose|w: int| 0 <= w < loader_filters(wide).len() && loader_filters(wide)[w] == l;
        assert(c.loaders.contains(loader_filters(wide)[w].tag_text()));
    }
}

/// Widening what a pack accepts never shrinks what the filter keeps: each
/// candidate kept before is kept after, and no fewer are kept.
pub proof fn lemma_widening_never_shrinks(
    candidates: Seq<CandidateView>,
    narrow: Modpack,
    wide: Modpack,
    project_type: ProjectType,
)
    requires
        widens(narrow, wide),
    ensures
        compatible_ones(candidates, narrow, project_type).len() <= compatible_ones(
            candidates,
            wide,
            project_type,
        ).len(),
        forall|c: CandidateView| compatible_ones(candidates, narrow, project_type).contains(c)
            ==> compatible_ones(candidates, wide, project_type).contains(c),
    decreases candidates.len(),
{
    let pn = |c: CandidateView| c.compatible(narrow, project_type);
    let pw = |c: CandidateView| c.compatible(wide, project_type);
    reveal(Seq::filter);
    if candidates.len() > 0 {
        let rest = candidates.drop_last();
        let last = candidates.last();
        lemma_widening_never_shrinks(rest, narrow, wide, project_type);
        if pn(last) {
            lemma_widening_keeps_compatible(last, narrow, wide, project_type);
        }
        assert forall|c: CandidateView| candidates.filter(pn).contains(c) implies candidates.filter(
            pw,
        ).contains(c) by {
            let f = candidates.filter(pn);
            let i = choose|i: int| 0 <= i < f.len() && f[i] == c;
            if pn(last) && i == f.len() - 1 {
                assert(candidates.filter(pw).last() == c);
            } else {
                assert(rest.filter(pn)[i] == c);
                assert(rest.filter(pn).contains(c));
                assert(rest.filter(pw).contains(c));
                let k = choose|k: int| 0 <= k < rest.filter(pw).len() && rest.filter(pw)[k] == c;
                assert(candidates.filter(pw)[k] == c);
            }
        }
    }
}

} // verus!
