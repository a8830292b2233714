//! File paths as lists of components, and the search for the install root.
//!
//! A path is an anchor (a root such as `/` or a drive, empty for a relative
//! path) and the names below it. The library never parses a path text: the
//! caller hands the components in and builds its own paths from those it is
//! handed back.

use crate::rewrite::{join, texts};
use crate::text::{ends_with_lowered, joined, lower_text, occurs_at, owned, same_lowered};
use vstd::prelude::*;
use vstd::string::*;

verus! {

/// The system that the caller runs on.
#[derive(Debug, Clone, Copy, PartialEq, Eq, Structural)]
pub enum Platform {
    Windows,
    MacOs,
    Linux,
    Other,
}

/// A path: an anchor and the names below it.
#[derive(Debug)]
pub struct FilePath {
    pub anchor: String,
    pub names: Vec<String>,
}

/// The mathematical value of a `FilePath`.
pub struct PathView {
    pub anchor: Seq<char>,
    pub names: Seq<Seq<char>>,
}

impl View for FilePath {
    type V = PathView;

    open spec fn view(&self) -> PathView {
        PathView { anchor: self.anchor@, names: texts(self.names@) }
    }
}

impl PathView {
    /// The path one name further down.
    pub open spec fn child(self, name: Seq<char>) -> PathView {
        PathView { anchor: self.anchor, names: self.names.push(name) }
    }

    /// The path several names further down.
    pub open spec fn descend(self, names: Seq<Seq<char>>) -> PathView {
        PathView { anchor: self.anchor, names: self.names + names }
    }

    /// The path cut to its first `len` names; the whole path where it has
    /// no more than that.
    pub open spec fn cut(self, len: int) -> PathView {
        if 0 <= len <= self.names.len() {
            PathView { anchor: self.anchor, names: self.names.take(len) }
        } else {
            self
        }
    }

    /// The directory that holds this path; the path itself where it has no
    /// names.
    pub open spec fn above(self) -> PathView {
        if self.names.len() == 0 {
            self
        } else {
            self.cut(self.names.len() - 1)
        }
    }

    /// Whether this path is `dir` or lies below it.
    pub open spec fn within(self, dir: PathView) -> bool {
        self.anchor == dir.anchor && dir.names.len() <= self.names.len() && self.names.take(
            dir.names.len() as int,
        ) == dir.names
    }

    /// The path and each directory above it, nearest first.
    pub open spec fn ancestors(self) -> Seq<PathView> {
        Seq::new(self.names.len() + 1, |i: int| self.cut(self.names.len() - i))
    }

    /// Whether the last name ends with `.app`, in any case.
    pub open spec fn is_bundle(self) -> bool {
        self.names.len() > 0 && occurs_at(
            lower_text(self.names.last()),
            seq!['.', 'a', 'p', 'p'],
            self.names.last().len() - 4,
        )
    }

    /// Whether the last names are `tail`, compared without regard to case.
    pub open spec fn ends_with_ci(self, tail: Seq<Seq<char>>) -> bool {
        tail.len() <= self.names.len() && forall|i: int|
            0 <= i < tail.len() ==> lower_text(
                #[trigger] self.names[self.names.len() - tail.len() + i],
            ) == lower_text(tail[i])
    }

    /// The path without its last `count` names, where it has that many.
    pub open spec fn strip_tail(self, count: int) -> Option<PathView> {
        if self.names.len() < count {
            None
        } else {
            Some(self.cut(self.names.len() - count))
        }
    }

    /// The path with `tail` taken off its end, where it ends with `tail`.
    pub open spec fn strip_tail_ci(self, tail: Seq<Seq<char>>) -> Option<PathView> {
        if self.ends_with_ci(tail) {
            self.strip_tail(tail.len() as int)
        } else {
            None
        }
    }

    /// The text of this path with `sep` between the names.
    pub open spec fn rendered(self, sep: Seq<char>) -> Seq<char> {
        self.anchor + joined(self.names, sep)
    }
}

/// The views of a list of paths.
pub open spec fn path_views(v: Seq<FilePath>) -> Seq<PathView> {
    Seq::new(v.len(), |i: int| v[i]@)
}

/// The names `resources`, `app`.
pub open spec fn resources_app_tail() -> Seq<Seq<char>> {
    seq!["resources"@, "app"@]
}

/// The name `resources`.
pub open spec fn resources_tail() -> Seq<Seq<char>> {
    seq!["resources"@]
}

/// The places from which the search for the root starts: the path itself,
/// the contents of an application bundle, and the path without a trailing
/// `resources/app` or `resources`.
pub open spec fn seeds_of(input: PathView) -> Seq<PathView> {
    let bundle = if input.is_bundle() {
        seq![input.child("Contents"@)]
    } else {
        Seq::<PathView>::empty()
    };
    let deep = match input.strip_tail_ci(resources_app_tail()) {
        Some(base) => seq![base],
        None => Seq::<PathView>::empty(),
    };
    let shallow = match input.strip_tail_ci(resources_tail()) {
        Some(base) => seq![base],
        None => Seq::<PathView>::empty(),
    };
    seq![input] + bundle + deep + shallow
}

/// Every ancestor of every seed, in the order in which they are tried.
pub open spec fn all_ancestors(seeds: Seq<PathView>) -> Seq<PathView>
    decreases seeds.len(),
{
    if seeds.len() == 0 {
        Seq::<PathView>::empty()
    } else {
        all_ancestors(seeds.drop_last()) + seeds.last().ancestors()
    }
}

/// The directories that may be the install root, in the order tried.
pub open spec fn candidates_of(input: PathView) -> Seq<PathView> {
    all_ancestors(seeds_of(input))
}

/// The name of the resources directory on a platform.
pub open spec fn resources_name(platform: Platform) -> Seq<char> {
    if platform == Platform::MacOs {
        "Resources"@
    } else {
        "resources"@
    }
}

/// The resource root below an install root. On macOS the capitalised
/// directory is taken where it exists.
pub open spec fn app_root_of(root: PathView, platform: Platform, capital: bool) -> PathView {
    if platform == Platform::MacOs && capital {
        root.child("Resources"@).child("app"@)
    } else {
        root.child("resources"@).child("app"@)
    }
}

/// The file whose presence marks a resource root as the target's.
pub open spec fn marker_of(app_root: PathView) -> PathView {
    app_root.child("extensions"@).child("antigravity"@).child("cascade-panel.html"@)
}

/// What the disk says of one candidate root.
#[derive(Debug, Clone, Copy, PartialEq, Eq, Structural)]
pub struct RootFacts {
    /// Whether the capitalised resources directory exists below it.
    pub capital_resources: bool,
    /// Whether the marker exists below the capitalised directory.
    pub capital_marker: bool,
    /// Whether the marker exists below the plain directory.
    pub plain_marker: bool,
}

/// Whether a candidate is an install root: the marker exists below the
/// resource root that the platform selects.
pub open spec fn valid_root(platform: Platform, facts: RootFacts) -> bool {
    if platform == Platform::MacOs && facts.capital_resources {
        facts.capital_marker
    } else {
        facts.plain_marker
    }
}

/// The first position from `from` on whose candidate is valid. A candidate
/// without facts counts as invalid.
pub open spec fn first_valid(platform: Platform, facts: Seq<RootFacts>, count: int, from: int)
    -> Option<int>
    decreases count - from,
{
    if from >= count {
        None
    } else if from < facts.len() && valid_root(platform, facts[from]) {
        Some(from)
    } else {
        first_valid(platform, facts, count, from + 1)
    }
}

/// The install root that a path leads to, given the facts of its candidates.
pub open spec fn normalized_root(input: PathView, platform: Platform, facts: Seq<RootFacts>)
    -> Option<PathView> {
    let candidates = candidates_of(input);
    match first_valid(platform, facts, candidates.len() as int, 0) {
        Some(i) => Some(candidates[i]),
        None => None,
    }
}

impl FilePath {
    /// A path of an anchor and names.
    pub fn new(anchor: String, names: Vec<String>) -> (r: Self)
        ensures
            r@ == (PathView { anchor: anchor@, names: texts(names@) }),
    {
        FilePath { anchor, names }
    }

    /// A copy of the first `len` names under the same anchor; of all names
    /// where there are no more than that.
    pub fn prefix(&self, len: usize) -> (r: FilePath)
        ensures
            r@ == self@.cut(len as int),
    {
        let len = if len <= self.names.len() {
            len
        } else {
            self.names.len()
        };
        let mut names: Vec<String> = Vec::new();
        let mut i: usize = 0;
        while i < len
            invariant
                i <= len <= self.names.len(),
                names@.len() == i,
                texts(names@) == texts(self.names@).take(i as int),
            decreases len - i,
        {
            let ghost before = names@;
            names.push(self.names[i].clone());
            i += 1;
            assert forall|j: int| 0 <= j < i implies texts(names@)[j] == texts(self.names@)[j] by {
                if j < i - 1 {
                    assert(texts(before)[j] == texts(self.names@).take(i - 1)[j]);
                }
            }
            assert(texts(names@) =~= texts(self.names@).take(i as int));
        }
        assert(texts(self.names@).take(self.names.len() as int) =~= texts(self.names@));
        FilePath { anchor: self.anchor.clone(), names }
    }

    /// A copy of this path.
    pub fn copy(&self) -> (r: FilePath)
        ensures
            r@ == self@,
    {
        let r = self.prefix(self.names.len());
        assert(texts(self.names@).take(self.names.len() as int) =~= texts(self.names@));
        r
    }

    /// The path one name further down.
    pub fn join(&self, name: &str) -> (r: FilePath)
        ensures
            r@ == self@.child(name@),
    {
        let mut r = self.copy();
        let ghost before = r.names@;
        r.names.push(owned(name));
        assert(texts(r.names@) =~= texts(before).push(name@));
        r
    }

    /// The path several names further down.
    pub fn descend(&self, names: &Vec<String>) -> (r: FilePath)
        ensures
            r@ == self@.descend(texts(names@)),
    {
        let mut r = self.copy();
        let mut i: usize = 0;
        assert(texts(names@).take(0) =~= Seq::<Seq<char>>::empty());
        assert(self@.names + Seq::<Seq<char>>::empty() =~= self@.names);
        while i < names.len()
            invariant
                i <= names.len(),
                r@ == self@.descend(texts(names@).take(i as int)),
            decreases names.len() - i,
        {
            let ghost before = r.names@;
            r.names.push(names[i].clone());
            i += 1;
            assert(texts(r.names@) =~= texts(before).push(names@[i - 1]@));
            assert(texts(names@).take(i as int) =~= texts(names@).take(i - 1).push(
                names@[i - 1]@,
            ));
            assert(texts(r.names@) =~= self@.names + texts(names@).take(i as int));
        }
        assert(texts(names@).take(i as int) =~= texts(names@));
        r
    }

    /// The directory that holds this path; a copy of the path itself where
    /// it has no names.
    pub fn above(&self) -> (r: FilePath)
        ensures
            r@ == self@.above(),
    {
        if self.names.len() == 0 {
            self.copy()
        } else {
            self.prefix(self.names.len() - 1)
        }
    }

    /// The text of this path with `sep` between the names.
    pub fn render(&self, sep: &str) -> (r: String)
        ensures
            r@ == self@.rendered(sep@),
    {
        let mut out = self.anchor.clone();
        let tail = join(&self.names, sep);
        out.append(tail.as_str());
        out
    }
}

/// The name separator of a platform's path texts.
pub fn separator(platform: Platform) -> (r: &'static str)
    ensures
        r@ == separator_of(platform),
{
    proof {
        reveal_strlit("\\");
        reveal_strlit("/");
        assert("\\"@ =~= seq!['\\']);
        assert("/"@ =~= seq!['/']);
    }
    match platform {
        Platform::Windows => "\\",
        _ => "/",
    }
}

/// The name separator of a platform's path texts.
pub open spec fn separator_of(platform: Platform) -> Seq<char> {
    if platform == Platform::Windows {
        seq!['\\']
    } else {
        seq!['/']
    }
}

/// The name of the resources directory on a platform.
pub fn resources_dir_name(platform: Platform) -> (r: &'static str)
    ensures
        r@ == resources_name(platform),
{
    match platform {
        Platform::MacOs => "Resources",
        _ => "resources",
    }
}

/// The resource root below an install root. `capital` says whether the
/// capitalised resources directory exists there; it matters on macOS only.
pub fn resources_app_root(root: &FilePath, platform: Platform, capital: bool) -> (r: FilePath)
    ensures
        r@ == app_root_of(root@, platform, capital),
{
    match platform {
        Platform::MacOs => {
            if capital {
                root.join(resources_dir_name(platform)).join("app")
            } else {
                root.join("resources").join("app")
            }
        },
        _ => root.join("resources").join("app"),
    }
}

/// The capitalised resources directory below an install root.
pub fn capital_resources(root: &FilePath) -> (r: FilePath)
    ensures
        r@ == root@.child("Resources"@),
{
    root.join("Resources")
}

/// The marker file below a resource root.
pub fn marker_path(app_root: &FilePath) -> (r: FilePath)
    ensures
        r@ == marker_of(app_root@),
{
    app_root.join("extensions").join("antigravity").join("cascade-panel.html")
}

/// Whether a candidate is an install root, by what the disk says of it.
pub fn is_valid_antigravity_root(platform: Platform, facts: &RootFacts) -> (r: bool)
    ensures
        r == valid_root(platform, *facts),
{
    match platform {
        Platform::MacOs => if facts.capital_resources {
            facts.capital_marker
        } else {
            facts.plain_marker
        },
        _ => facts.plain_marker,
    }
}

/// Whether the last name of a path ends with `.app`, in any case.
pub fn is_app_bundle(path: &FilePath) -> (r: bool)
    ensures
        r == path@.is_bundle(),
{
    if path.names.len() == 0 {
        return false;
    }
    proof {
        reveal_strlit(".app");
        assert(".app"@ =~= seq!['.', 'a', 'p', 'p']);
    }
    ends_with_lowered(path.names[path.names.len() - 1].as_str(), ".app")
}

/// Whether the last names of a path are `tail`, without regard to case.
pub fn ends_with_components_ci(path: &FilePath, tail: &Vec<String>) -> (r: bool)
    ensures
        r == path@.ends_with_ci(texts(tail@)),
{
    if path.names.len() < tail.len() {
        return false;
    }
    let start: usize = path.names.len() - tail.len();
    let mut i: usize = 0;
    while i < tail.len()
        invariant
            i <= tail.len(),
            start == path.names.len() - tail.len(),
            tail.len() <= path.names.len(),
            forall|j: int|
                0 <= j < i ==> lower_text(#[trigger] path@.names[start + j]) == lower_text(
                    texts(tail@)[j],
                ),
        decreases tail.len() - i,
    {
        if !same_lowered(path.names[start + i].as_str(), tail[i].as_str()) {
            assert(lower_text(path@.names[start + i]) != lower_text(texts(tail@)[i as int]));
            return false;
        }
        i += 1;
    }
    true
}

/// A path without its last `count` names; `None` where it has fewer.
pub fn strip_tail_components(path: &FilePath, count: usize) -> (r: Option<FilePath>)
    ensures
        r is Some <==> path@.strip_tail(count as int) is Some,
        r is Some ==> r->0@ == path@.strip_tail(count as int)->0,
{
    if path.names.len() < count {
        None
    } else {
        Some(path.prefix(path.names.len() - count))
    }
}

/// A path with `tail` taken off its end, where it ends with `tail` in any
/// case.
pub fn strip_tail_components_ci(path: &FilePath, tail: &Vec<String>) -> (r: Option<FilePath>)
    ensures
        r is Some <==> path@.strip_tail_ci(texts(tail@)) is Some,
        r is Some ==> r->0@ == path@.strip_tail_ci(texts(tail@))->0,
{
    if !ends_with_components_ci(path, tail) {
        return None;
    }
    strip_tail_components(path, tail.len())
}

/// The places from which the search for the root starts.
pub fn root_seeds(input: &FilePath) -> (r: Vec<FilePath>)
    ensures
        path_views(r@) == seeds_of(input@),
{
    let mut seeds: Vec<FilePath> = Vec::new();
    seeds.push(input.copy());
    assert(path_views(seeds@) =~= seq![input@]);
    if is_app_bundle(input) {
        let ghost before = seeds@;
        seeds.push(input.join("Contents"));
        assert(path_views(seeds@) =~= path_views(before).push(input@.child("Contents"@)));
    }
    let ghost with_bundle = path_views(seeds@);
    let mut deep_tail: Vec<String> = Vec::new();
    deep_tail.push(owned("resources"));
    deep_tail.push(owned("app"));
    assert(texts(deep_tail@) =~= resources_app_tail());
    match strip_tail_components_ci(input, &deep_tail) {
        Some(base) => {
            let ghost before = seeds@;
            seeds.push(base);
            assert(path_views(seeds@) =~= path_views(before).push(base@));
        },
        None => {},
    }
    let ghost with_deep = path_views(seeds@);
    let mut shallow_tail: Vec<String> = Vec::new();
    shallow_tail.push(owned("resources"));
    assert(texts(shallow_tail@) =~= resources_tail());
    match strip_tail_components_ci(input, &shallow_tail) {
        Some(base) => {
            let ghost before = seeds@;
            seeds.push(base);
            assert(path_views(seeds@) =~= path_views(before).push(base@));
        },
        None => {},
    }
    assert(path_views(seeds@) =~= seeds_of(input@));
    seeds
}

/// The directories that may be the install root, in the order tried: every
/// ancestor of every seed, nearest first.
pub fn root_candidates(input: &FilePath) -> (r: Vec<FilePath>)
    ensures
        path_views(r@) == candidates_of(input@),
{
    let seeds = root_seeds(input);
    let mut out: Vec<FilePath> = Vec::new();
    let mut s: usize = 0;
    assert(path_views(seeds@).take(0) =~= Seq::<PathView>::empty());
    assert(path_views(out@) =~= Seq::<PathView>::empty());
    while s < seeds.len()
        invariant
            s <= seeds.len(),
            path_views(out@) == all_ancestors(path_views(seeds@).take(s as int)),
        decreases seeds.len() - s,
    {
        let seed = &seeds[s];
        let ghost done = path_views(out@);
        let n: usize = seed.names.len();
        let mut k: usize = 0;
        assert(seed@.ancestors().take(0) =~= Seq::<PathView>::empty());
        assert(done + Seq::<PathView>::empty() =~= done);
        loop
            invariant_except_break
                path_views(out@) == done + seed@.ancestors().take(k as int),
            invariant
                k <= n,
                n == seed.names.len(),
                n == seed@.names.len(),
            ensures
                path_views(out@) == done + seed@.ancestors(),
            decreases n - k,
        {
            let ghost before = path_views(out@);
            let next = seed.prefix(n - k);
            out.push(next);
            assert(path_views(out@) =~= before.push(seed@.cut(n - k)));
            assert(seed@.ancestors().take(k + 1) =~= seed@.ancestors().take(k as int).push(
                seed@.ancestors()[k as int],
            ));
            assert(path_views(out@) =~= done + seed@.ancestors().take(k + 1));
            if k == n {
                assert(seed@.ancestors().take(k + 1) =~= seed@.ancestors());
                break;
            }
            k += 1;
        }
        s += 1;
        assert(path_views(seeds@).take(s as int).drop_last() =~= path_views(seeds@).take(s - 1));
        assert(path_views(seeds@).take(s as int).last() == seed@);
    }
    assert(path_views(seeds@).take(s as int) =~= path_views(seeds@));
    out
}

/// The install root that a path leads to: the first candidate that the facts
/// show to be valid. `facts` holds one entry per candidate, in the order of
/// `root_candidates`.
pub fn normalize_antigravity_root(input: &FilePath, platform: Platform, facts: &Vec<RootFacts>)
    -> (r: Option<FilePath>)
    ensures
        r is Some <==> normalized_root(input@, platform, facts@) is Some,
        r is Some ==> r->0@ == normalized_root(input@, platform, facts@)->0,
{
    let candidates = root_candidates(input);
    let ghost count = candidates@.len() as int;
    let mut i: usize = 0;
    while i < candidates.len()
        invariant
            i <= candidates.len(),
            count == candidates@.len(),
            path_views(candidates@) == candidates_of(input@),
            first_valid(platform, facts@, count, 0) == first_valid(
                platform,
                facts@,
                count,
                i as int,
            ),
        decreases candidates.len() - i,
    {
        if i < facts.len() && is_valid_antigravity_root(platform, &facts[i]) {
            assert(path_views(candidates@)[i as int] == candidates@[i as int]@);
            return Some(candidates[i].copy());
        }
        i += 1;
    }
    None
}

} // verus!
