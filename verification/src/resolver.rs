//! Target resolution: classify each user-supplied target string into a
//! package reference, a URL, or an existing local file, in that fixed
//! priority order, and produce the queues a run works through.
//!
//! The package database and the filesystem are consulted by the caller,
//! which records for each target whether the database resolved it and
//! whether a file exists at that path; the classification and filtering
//! rules themselves are decided here.

use vstd::prelude::*;

use crate::matcher::Match;
use crate::matcher::match_spec;

verus! {

/// A resolved package record, as far as the run reads it: its name and its
/// file manifest.
pub struct PkgInfo {
    pub name: String,
    pub manifest: Vec<String>,
}

/// The mathematical value of a package record.
pub struct PkgModel {
    pub name: Seq<char>,
    pub manifest: Seq<Seq<char>>,
}

impl View for PkgInfo {
    type V = PkgModel;

    open spec fn view(&self) -> PkgModel {
        PkgModel { name: self.name@, manifest: self.manifest.deep_view() }
    }
}

impl DeepView for PkgInfo {
    type V = PkgModel;

    open spec fn deep_view(&self) -> PkgModel {
        self.view()
    }
}

/// One user-supplied target together with what the collaborators answered
/// about it: the package record the database resolved it to, if any, and
/// whether a filesystem entry exists at that path.
pub struct TargetInfo {
    pub target: String,
    pub package: Option<PkgInfo>,
    pub file_exists: bool,
}

/// The mathematical value of a target and its collaborator answers.
pub struct TargetModel {
    pub target: Seq<char>,
    pub package: Option<PkgModel>,
    pub file_exists: bool,
}

impl View for TargetInfo {
    type V = TargetModel;

    open spec fn view(&self) -> TargetModel {
        TargetModel {
            target: self.target@,
            package: match self.package {
                Option::Some(p) => Option::Some(p@),
                Option::None => Option::None,
            },
            file_exists: self.file_exists,
        }
    }
}

impl DeepView for TargetInfo {
    type V = TargetModel;

    open spec fn deep_view(&self) -> TargetModel {
        self.view()
    }
}

/// The four kinds a target classifies into.
pub enum TargetClass {
    Package,
    Url,
    LocalFile,
    Unresolvable,
}

/// Whether the string holds the URL marker `://` anywhere.
pub open spec fn contains_url_marker(s: Seq<char>) -> bool {
    exists|i: int| 0 <= i && i + 2 < s.len() && #[trigger] s[i] == ':' && s[i + 1] == '/' && s[i + 2] == '/'
}

/// The classification of one target, in priority order: a resolvable
/// package wins over a URL, a URL over an existing file; a target that is
/// none of the three is unresolvable.
pub open spec fn classify(t: TargetModel) -> TargetClass {
    if t.package is Some {
        TargetClass::Package
    } else if contains_url_marker(t.target) {
        TargetClass::Url
    } else if t.file_exists {
        TargetClass::LocalFile
    } else {
        TargetClass::Unresolvable
    }
}

/// Classification priority: a target the package database resolves is a
/// package, whatever else the string would be — even an existing local
/// file path or a URL-shaped string.
pub proof fn lemma_package_priority(t: TargetModel)
    requires
        t.package is Some,
    ensures
        classify(t) is Package,
{
}

/// Tells whether `s` holds the URL marker `://` anywhere.
pub fn contains_url_marker_in(s: &str) -> (r: bool)
    ensures
        r == contains_url_marker(s@),
{
    let n = s.unicode_len();
    if n < 3 {
        assert(!contains_url_marker(s@));
        return false;
    }
    let mut i: usize = 0;
    while i < n - 2
        invariant
            0 <= i <= n - 2,
            n >= 3,
            n == s@.len(),
            forall|j: int|
                0 <= j < i ==> !(#[trigger] s@[j] == ':' && s@[j + 1] == '/' && s@[j + 2] == '/'),
        decreases n - i,
    {
        if s.get_char(i) == ':' && s.get_char(i + 1) == '/' && s.get_char(i + 2) == '/' {
            assert(s@[i as int] == ':' && s@[i as int + 1] == '/' && s@[i as int + 2] == '/');
            return true;
        }
        i += 1;
    }
    assert(!contains_url_marker(s@));
    false
}

/// Whether a package's file manifest holds at least one name the matcher
/// accepts.
pub open spec fn manifest_matches(
    regex: bool,
    patterns: Seq<Seq<char>>,
    exact_path: bool,
    manifest: Seq<Seq<char>>,
) -> bool {
    exists|i: int| 0 <= i < manifest.len() && match_spec(regex, patterns, exact_path, manifest[i])
}

/// Tells whether the manifest holds at least one name the matcher accepts:
/// the filter that keeps a package worth downloading.
pub fn want_pkg(matcher: &Match, manifest: &Vec<String>) -> (r: bool)
    ensures
        r == manifest_matches(
            matcher.is_regex(),
            matcher.patterns(),
            matcher.exact_file,
            manifest.deep_view(),
        ),
{
    let mut i: usize = 0;
    while i < manifest.len()
        invariant
            0 <= i <= manifest.len(),
            forall|j: int|
                0 <= j < i ==> !match_spec(
                    matcher.is_regex(),
                    matcher.patterns(),
                    matcher.exact_file,
                    manifest.deep_view()[j],
                ),
        decreases manifest.len() - i,
    {
        if matcher.is_match(manifest[i].as_str()) {
            assert(match_spec(
                matcher.is_regex(),
                matcher.patterns(),
                matcher.exact_file,
                manifest.deep_view()[i as int],
            ));
            return true;
        }
        i += 1;
    }
    false
}

/// Whether this target is a package whose manifest passes the filter.
pub open spec fn wanted_package(
    regex: bool,
    patterns: Seq<Seq<char>>,
    exact_path: bool,
    t: TargetModel,
) -> bool {
    t.package matches Some(p) && manifest_matches(regex, patterns, exact_path, p.manifest)
}

/// The targets classified as existing local files, in order.
pub open spec fn spec_local_files(infos: Seq<TargetModel>) -> Seq<Seq<char>>
    decreases infos.len(),
{
    if infos.len() == 0 {
        Seq::<Seq<char>>::empty()
    } else {
        spec_local_files(infos.drop_last()) + if classify(infos.last()) is LocalFile {
            seq![infos.last().target]
        } else {
            Seq::<Seq<char>>::empty()
        }
    }
}

/// The targets classified as literal URLs, in order.
pub open spec fn spec_literal_urls(infos: Seq<TargetModel>) -> Seq<Seq<char>>
    decreases infos.len(),
{
    if infos.len() == 0 {
        Seq::<Seq<char>>::empty()
    } else {
        spec_literal_urls(infos.drop_last()) + if classify(infos.last()) is Url {
            seq![infos.last().target]
        } else {
            Seq::<Seq<char>>::empty()
        }
    }
}

/// The names of the targets that resolved to packages passing the manifest
/// filter, in order. A resolved package that fails the filter is dropped
/// silently: the target is classified, just not scanned.
pub open spec fn spec_wanted_packages(
    regex: bool,
    patterns: Seq<Seq<char>>,
    exact_path: bool,
    infos: Seq<TargetModel>,
) -> Seq<Seq<char>>
    decreases infos.len(),
{
    if infos.len() == 0 {
        Seq::<Seq<char>>::empty()
    } else {
        spec_wanted_packages(regex, patterns, exact_path, infos.drop_last()) + if wanted_package(
            regex,
            patterns,
            exact_path,
            infos.last(),
        ) {
            seq![infos.last().package->Some_0.name]
        } else {
            Seq::<Seq<char>>::empty()
        }
    }
}

/// `infos[i]` is the first unresolvable target.
pub open spec fn first_unresolvable_at(infos: Seq<TargetModel>, i: int) -> bool {
    &&& 0 <= i < infos.len()
    &&& classify(infos[i]) is Unresolvable
    &&& forall|j: int| 0 <= j < i ==> !(classify(infos[j]) is Unresolvable)
}

/// What target resolution queues for a run: existing local files to scan
/// directly, literal URLs, and the names of wanted packages still to be
/// turned into download URLs.
pub struct ResolvePlan {
    pub local_files: Vec<String>,
    pub literal_urls: Vec<String>,
    pub packages: Vec<String>,
}

/// A target resolution failure: the offending string was neither a known
/// package, a URL, nor an existing file.
#[derive(Debug)]
pub enum ResolveError {
    UnresolvableTarget(String),
}

/// Classifies every target in order and builds the run's queues.
/// All-or-nothing: the first unresolvable target aborts resolution, before
/// any download is considered.
pub fn resolve_targets(infos: &Vec<TargetInfo>, matcher: &Match) -> (r: Result<
    ResolvePlan,
    ResolveError,
>)
    ensures
        ({
            let dv = infos.deep_view();
            let regex = matcher.is_regex();
            let patterns = matcher.patterns();
            let exact_path = matcher.exact_file;
            &&& (r is Ok <==> forall|i: int|
                0 <= i < dv.len() ==> !(classify(dv[i]) is Unresolvable))
            &&& (r matches Err(ResolveError::UnresolvableTarget(t)) ==> exists|i: int|
                first_unresolvable_at(dv, i) && t@ == dv[i].target)
            &&& (r matches Ok(plan) ==> {
                &&& plan.local_files.deep_view() == spec_local_files(dv)
                &&& plan.literal_urls.deep_view() == spec_literal_urls(dv)
                &&& plan.packages.deep_view() == spec_wanted_packages(
                    regex,
                    patterns,
                    exact_path,
                    dv,
                )
            })
        }),
{
    let ghost dv = infos.deep_view();
    let ghost regex = matcher.is_regex();
    let ghost patterns = matcher.patterns();
    let ghost exact_path = matcher.exact_file;
    let mut local_files: Vec<String> = Vec::new();
    let mut literal_urls: Vec<String> = Vec::new();
    let mut packages: Vec<String> = Vec::new();
    let mut i: usize = 0;
    proof {
        assert(dv.take(0) =~= Seq::<TargetModel>::empty());
        assert(local_files.deep_view() =~= Seq::<Seq<char>>::empty());
        assert(literal_urls.deep_view() =~= Seq::<Seq<char>>::empty());
        assert(packages.deep_view() =~= Seq::<Seq<char>>::empty());
    }
    while i < infos.len()
        invariant
            0 <= i <= infos.len(),
            dv == infos.deep_view(),
            dv.len() == infos.len(),
            regex == matcher.is_regex(),
            patterns == matcher.patterns(),
            exact_path == matcher.exact_file,
            forall|j: int| 0 <= j < i ==> !(classify(dv[j]) is Unresolvable),
            local_files.deep_view() == spec_local_files(dv.take(i as int)),
            literal_urls.deep_view() == spec_literal_urls(dv.take(i as int)),
            packages.deep_view() == spec_wanted_packages(
                regex,
                patterns,
                exact_path,
                dv.take(i as int),
            ),
        decreases infos.len() - i,
    {
        proof {
            assert(dv.take(i + 1).drop_last() =~= dv.take(i as int));
            assert(dv.take(i + 1).last() == dv[i as int]);
        }
        let info: &TargetInfo = &infos[i];
        match &info.package {
            Option::Some(p) => {
                if want_pkg(matcher, &p.manifest) {
                    let ghost prev = packages.deep_view();
                    let ghost nv = p.name@;
                    packages.push(p.name.clone());
                    proof {
                        assert(packages.deep_view() =~= prev.push(nv));
                        assert(prev.push(nv) =~= prev + seq![nv]);
                    }
                } else {
                    proof {
                        assert(spec_wanted_packages(regex, patterns, exact_path, dv.take(i + 1))
                            =~= packages.deep_view());
                    }
                }
                proof {
                    assert(spec_local_files(dv.take(i + 1)) =~= local_files.deep_view());
                    assert(spec_literal_urls(dv.take(i + 1)) =~= literal_urls.deep_view());
                }
            },
            Option::None => {
                if contains_url_marker_in(info.target.as_str()) {
                    let ghost prev = literal_urls.deep_view();
                    let ghost nv = info.target@;
                    literal_urls.push(info.target.clone());
                    proof {
                        assert(literal_urls.deep_view() =~= prev.push(nv));
                        assert(prev.push(nv) =~= prev + seq![nv]);
                        assert(spec_local_files(dv.take(i + 1)) =~= local_files.deep_view());
                        assert(spec_wanted_packages(regex, patterns, exact_path, dv.take(i + 1))
                            =~= packages.deep_view());
                    }
                } else if info.file_exists {
                    let ghost prev = local_files.deep_view();
                    let ghost nv = info.target@;
                    local_files.push(info.target.clone());
                    proof {
                        assert(local_files.deep_view() =~= prev.push(nv));
                        assert(prev.push(nv) =~= prev + seq![nv]);
                        assert(spec_literal_urls(dv.take(i + 1)) =~= literal_urls.deep_view());
                        assert(spec_wanted_packages(regex, patterns, exact_path, dv.take(i + 1))
                            =~= packages.deep_view());
                    }
                } else {
                    proof {
                        assert(first_unresolvable_at(dv, i as int));
                    }
                    return Err(ResolveError::UnresolvableTarget(info.target.clone()));
                }
            },
        }
        i += 1;
    }
    proof {
        assert(dv.take(infos.len() as int) =~= dv);
    }
    Ok(ResolvePlan { local_files, literal_urls, packages })
}

/// The names of the packages, among all enumerated package records, whose
/// manifest holds a matching name: the whole-database filter that avoids
/// needless downloads.
pub open spec fn spec_wanted_names(
    regex: bool,
    patterns: Seq<Seq<char>>,
    exact_path: bool,
    pkgs: Seq<PkgModel>,
) -> Seq<Seq<char>>
    decreases pkgs.len(),
{
    if pkgs.len() == 0 {
        Seq::<Seq<char>>::empty()
    } else {
        spec_wanted_names(regex, patterns, exact_path, pkgs.drop_last()) + if manifest_matches(
            regex,
            patterns,
            exact_path,
            pkgs.last().manifest,
        ) {
            seq![pkgs.last().name]
        } else {
            Seq::<Seq<char>>::empty()
        }
    }
}

/// Filters enumerated package records down to those whose manifest already
/// shows a matching filename, returning their names in order.
pub fn filter_packages(pkgs: &Vec<PkgInfo>, matcher: &Match) -> (r: Vec<String>)
    ensures
        r.deep_view() == spec_wanted_names(
            matcher.is_regex(),
            matcher.patterns(),
            matcher.exact_file,
            pkgs.deep_view(),
        ),
{
    let ghost dv = pkgs.deep_view();
    let ghost regex = matcher.is_regex();
    let ghost patterns = matcher.patterns();
    let ghost exact_path = matcher.exact_file;
    let mut r: Vec<String> = Vec::new();
    let mut i: usize = 0;
    proof {
        assert(dv.take(0) =~= Seq::<PkgModel>::empty());
        assert(r.deep_view() =~= Seq::<Seq<char>>::empty());
    }
    while i < pkgs.len()
        invariant
            0 <= i <= pkgs.len(),
            dv == pkgs.deep_view(),
            dv.len() == pkgs.len(),
            regex == matcher.is_regex(),
            patterns == matcher.patterns(),
            exact_path == matcher.exact_file,
            r.deep_view() == spec_wanted_names(regex, patterns, exact_path, dv.take(i as int)),
        decreases pkgs.len() - i,
    {
        proof {
            assert(dv.take(i + 1).drop_last() =~= dv.take(i as int));
            assert(dv.take(i + 1).last() == dv[i as int]);
        }
        if want_pkg(matcher, &pkgs[i].manifest) {
            let ghost prev = r.deep_view();
            let ghost nv = pkgs[i as int].name@;
            let name = pkgs[i].name.clone();
            r.push(name);
            proof {
                assert(r.deep_view() =~= prev.push(nv));
                assert(prev.push(nv) =~= prev + seq![nv]);
            }
        } else {
            proof {
                assert(spec_wanted_names(regex, patterns, exact_path, dv.take(i + 1)) =~= r.deep_view());
            }
        }
        i += 1;
    }
    proof {
        assert(dv.take(pkgs.len() as int) =~= dv);
    }
    r
}

fn clone_strings(v: &Vec<String>) -> (r: Vec<String>)
    ensures
        r.deep_view() == v.deep_view(),
{
    let mut r: Vec<String> = Vec::new();
    let mut i: usize = 0;
    proof {
        assert(r.deep_view() =~= v.deep_view().take(0));
    }
    while i < v.len()
        invariant
            0 <= i <= v.len(),
            v.deep_view().len() == v.len(),
            r.deep_view() == v.deep_view().take(i as int),
        decreases v.len() - i,
    {
        let ghost prev = r.deep_view();
        let s = v[i].clone();
        let ghost sv = s@;
        r.push(s);
        proof {
            assert(r.deep_view() =~= prev.push(sv));
            assert(v.deep_view().take(i + 1) =~= prev.push(v.deep_view()[i as int]));
        }
        i += 1;
    }
    proof {
        assert(v.deep_view().take(v.len() as int) =~= v.deep_view());
    }
    r
}

impl ResolvePlan {
    /// The one batch of URLs handed to the fetch collaborator: the literal
    /// URL targets first, then the package download URLs, in order.
    pub fn fetch_urls(&self, package_urls: &Vec<String>) -> (r: Vec<String>)
        ensures
            r.deep_view() == self.literal_urls.deep_view() + package_urls.deep_view(),
    {
        append_strings(&self.literal_urls, package_urls)
    }

    /// The final ordered list of archives to scan: the literal local files
    /// first, then the paths the fetch collaborator returned.
    pub fn final_paths(&self, fetched: &Vec<String>) -> (r: Vec<String>)
        ensures
            r.deep_view() == self.local_files.deep_view() + fetched.deep_view(),
    {
        append_strings(&self.local_files, fetched)
    }
}

/// `a` followed by `b`, both copied.
pub fn append_strings(a: &Vec<String>, b: &Vec<String>) -> (r: Vec<String>)
    ensures
        r.deep_view() == a.deep_view() + b.deep_view(),
{
    let mut r = clone_strings(a);
    let mut i: usize = 0;
    proof {
        assert(r.deep_view() =~= a.deep_view() + b.deep_view().take(0));
    }
    while i < b.len()
        invariant
            0 <= i <= b.len(),
            b.deep_view().len() == b.len(),
            r.deep_view() == a.deep_view() + b.deep_view().take(i as int),
        decreases b.len() - i,
    {
        let ghost prev = r.deep_view();
        let s = b[i].clone();
        let ghost sv = s@;
        r.push(s);
        proof {
            assert(r.deep_view() =~= prev.push(sv));
            assert(prev.push(b.deep_view()[i as int]) =~= a.deep_view() + b.deep_view().take(i + 1));
        }
        i += 1;
    }
    proof {
        assert(b.deep_view().take(b.len() as int) =~= b.deep_view());
    }
    r
}

} // verus!
