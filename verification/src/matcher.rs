//! The filename matcher: a set of user-supplied patterns, either literal
//! names or regular expressions, tested against archive entry names.
//!
//! When no pattern contains a path separator, a candidate is reduced to its
//! basename (the text after the last `/`) before the test; an empty reduced
//! candidate never matches.

use vstd::prelude::*;

verus! {

/// The final path component of `s`: the text after the last `/`, or all of
/// `s` when it holds no `/`. The basename of a string ending in `/` is empty.
pub open spec fn basename(s: Seq<char>) -> Seq<char>
    decreases s.len(),
{
    if s.len() == 0 {
        s
    } else if s.last() == '/' {
        Seq::<char>::empty()
    } else {
        basename(s.drop_last()).push(s.last())
    }
}

/// `s` with every leading `/` removed.
pub open spec fn strip_leading(s: Seq<char>) -> Seq<char>
    decreases s.len(),
{
    if s.len() > 0 && s[0] == '/' {
        strip_leading(s.drop_first())
    } else {
        s
    }
}

pub proof fn lemma_basename_after_last_slash(s: Seq<char>, k: int)
    requires
        0 <= k < s.len(),
        s[k] == '/',
        forall|j: int| k < j < s.len() ==> s[j] != '/',
    ensures
        basename(s) == s.subrange(k + 1, s.len() as int),
    decreases s.len(),
{
    if k == s.len() - 1 {
        assert(basename(s) =~= s.subrange(k + 1, s.len() as int));
    } else {
        let t = s.drop_last();
        assert(s[s.len() - 1] != '/');
        lemma_basename_after_last_slash(t, k);
        assert(t.subrange(k + 1, t.len() as int).push(s.last()) =~= s.subrange(
            k + 1,
            s.len() as int,
        ));
    }
}

pub proof fn lemma_basename_no_slash(s: Seq<char>)
    requires
        forall|j: int| 0 <= j < s.len() ==> s[j] != '/',
    ensures
        basename(s) == s,
    decreases s.len(),
{
    if s.len() == 0 {
    } else {
        lemma_basename_no_slash(s.drop_last());
        assert(basename(s.drop_last()).push(s.last()) =~= s);
    }
}

pub proof fn lemma_strip_leading_at(s: Seq<char>, i: int)
    requires
        0 <= i <= s.len(),
        forall|j: int| 0 <= j < i ==> s[j] == '/',
        i < s.len() ==> s[i] != '/',
    ensures
        strip_leading(s) == s.subrange(i, s.len() as int),
    decreases i,
{
    if i == 0 {
        assert(strip_leading(s) =~= s.subrange(0, s.len() as int));
    } else {
        let t = s.drop_first();
        assert(forall|j: int| 0 <= j < i - 1 ==> t[j] == '/');
        lemma_strip_leading_at(t, i - 1);
        assert(t.subrange(i - 1, t.len() as int) =~= s.subrange(i, s.len() as int));
    }
}

/// The final path component of `s`, computed by scanning for the last `/`.
pub fn basename_of<'a>(s: &'a str) -> (r: &'a str)
    ensures
        r@ == basename(s@),
{
    let n = s.unicode_len();
    let mut i: usize = n;
    while i > 0
        invariant
            0 <= i <= n,
            n == s@.len(),
            forall|j: int| i <= j < n ==> s@[j] != '/',
        decreases i,
    {
        if s.get_char(i - 1) == '/' {
            proof {
                lemma_basename_after_last_slash(s@, i - 1);
            }
            return s.substring_char(i, n);
        }
        i -= 1;
    }
    proof {
        lemma_basename_no_slash(s@);
    }
    s
}

/// A copy of `s` with every leading path separator removed, as applied to
/// each user-supplied pattern before matching.
pub fn strip_leading_separators(s: &str) -> (r: String)
    ensures
        r@ == strip_leading(s@),
{
    let n = s.unicode_len();
    let mut i: usize = 0;
    while i < n && s.get_char(i) == '/'
        invariant
            0 <= i <= n,
            n == s@.len(),
            forall|j: int| 0 <= j < i ==> s@[j] == '/',
        decreases n - i,
    {
        i += 1;
    }
    proof {
        lemma_strip_leading_at(s@, i as int);
    }
    s.substring_char(i, n).to_owned()
}

/// Every pattern with its leading separators removed, in order.
pub fn normalize_patterns(files: &Vec<String>) -> (r: Vec<String>)
    ensures
        r.deep_view().len() == files.deep_view().len(),
        forall|i: int|
            0 <= i < files.deep_view().len() ==> r.deep_view()[i] == strip_leading(
                files.deep_view()[i],
            ),
{
    let mut r: Vec<String> = Vec::new();
    let mut i: usize = 0;
    while i < files.len()
        invariant
            0 <= i <= files.len(),
            r.deep_view().len() == i,
            forall|j: int|
                0 <= j < i ==> r.deep_view()[j] == strip_leading(files.deep_view()[j]),
        decreases files.len() - i,
    {
        let stripped = strip_leading_separators(files[i].as_str());
        let ghost prev = r.deep_view();
        let ghost sv = stripped@;
        r.push(stripped);
        proof {
            assert(r.deep_view() =~= prev.push(sv));
        }
        i += 1;
    }
    r
}

/// Tells whether `s` holds a path separator anywhere.
pub fn has_path_separator(s: &str) -> (r: bool)
    ensures
        r == s@.contains('/'),
{
    let n = s.unicode_len();
    let mut i: usize = 0;
    while i < n
        invariant
            0 <= i <= n,
            n == s@.len(),
            forall|j: int| 0 <= j < i ==> s@[j] != '/',
        decreases n - i,
    {
        if s.get_char(i) == '/' {
            assert(s@[i as int] == '/');
            return true;
        }
        i += 1;
    }
    assert(!s@.contains('/'));
    false
}

#[verifier::external_type_specification]
#[verifier::external_body]
pub struct ExRegexSet(regex::RegexSet);

#[verifier::external_type_specification]
#[verifier::external_body]
pub struct ExRegexError(regex::Error);

/// The pattern strings a compiled regular-expression set was built from.
pub uninterp spec fn regex_patterns(rs: regex::RegexSet) -> Seq<Seq<char>>;

/// Whether this sequence of pattern strings compiles as a set of regular
/// expressions.
pub uninterp spec fn regex_set_ok(patterns: Seq<Seq<char>>) -> bool;

/// Whether any member of a set of regular expressions matches somewhere in
/// the candidate.
pub uninterp spec fn regex_set_matches(patterns: Seq<Seq<char>>, candidate: Seq<char>) -> bool;

/// Relies on regex::RegexSet::new: compiling the same pattern strings
/// either always fails or always yields a set holding those patterns.
#[verifier::external_body]
fn compile_regex_set(patterns: &Vec<String>) -> (r: Result<regex::RegexSet, regex::Error>)
    ensures
        r is Ok <==> regex_set_ok(patterns.deep_view()),
        r matches Ok(rs) ==> regex_patterns(rs) == patterns.deep_view(),
{
    regex::RegexSet::new(patterns)
}

/// Relies on regex::RegexSet::is_match: the answer is a function of the
/// compiled patterns and the candidate alone.
#[verifier::external_body]
fn regex_set_is_match(rs: &regex::RegexSet, candidate: &str) -> (r: bool)
    ensures
        r == regex_set_matches(regex_patterns(*rs), candidate@),
{
    rs.is_match(candidate)
}

/// A matcher failure: the user asked for regular expressions and one of the
/// patterns does not compile.
#[derive(Debug)]
pub enum MatchError {
    InvalidRegex(regex::Error),
}

/// The matching strategy: a compiled regular-expression set, or the literal
/// pattern strings kept verbatim.
pub enum MatchWith {
    Regex(regex::RegexSet),
    Files(Vec<String>),
}

/// The matcher: a strategy plus the path discipline. `exact_file` is true
/// iff some pattern holds a path separator; then candidates are compared as
/// full paths, else by basename.
pub struct Match {
    pub with: MatchWith,
    pub exact_file: bool,
}

/// What a matcher answers for a candidate: reduce to the basename unless
/// `exact_path`, reject an empty reduced candidate, then test against the
/// pattern set.
pub open spec fn match_spec(
    regex: bool,
    patterns: Seq<Seq<char>>,
    exact_path: bool,
    candidate: Seq<char>,
) -> bool {
    let reduced = if exact_path {
        candidate
    } else {
        basename(candidate)
    };
    if reduced.len() == 0 {
        false
    } else if regex {
        regex_set_matches(patterns, reduced)
    } else {
        exists|i: int| 0 <= i < patterns.len() && patterns[i] == reduced
    }
}

impl MatchWith {
    /// The pattern strings of the strategy.
    pub open spec fn patterns(&self) -> Seq<Seq<char>> {
        match self {
            MatchWith::Regex(rs) => regex_patterns(*rs),
            MatchWith::Files(v) => v.deep_view(),
        }
    }

    pub open spec fn is_regex(&self) -> bool {
        self matches MatchWith::Regex(_)
    }

    /// Builds the strategy: compile the patterns as a regular-expression
    /// set when asked, else keep them verbatim.
    pub fn new(regex: bool, files: Vec<String>) -> (r: Result<MatchWith, MatchError>)
        ensures
            r is Ok <==> (!regex || regex_set_ok(files.deep_view())),
            r matches Ok(w) ==> w.is_regex() == regex && w.patterns() == files.deep_view(),
    {
        if regex {
            match compile_regex_set(&files) {
                Ok(rs) => Ok(MatchWith::Regex(rs)),
                Err(e) => Err(MatchError::InvalidRegex(e)),
            }
        } else {
            Ok(MatchWith::Files(files))
        }
    }
}

impl Match {
    pub open spec fn patterns(&self) -> Seq<Seq<char>> {
        self.with.patterns()
    }

    pub open spec fn is_regex(&self) -> bool {
        self.with.is_regex()
    }

    /// What `is_match` answers for this candidate.
    pub open spec fn spec_is_match(&self, candidate: Seq<char>) -> bool {
        match_spec(self.is_regex(), self.patterns(), self.exact_file, candidate)
    }

    /// Builds a matcher over the given pattern strings. Fails exactly when
    /// regular expressions were asked for and the set does not compile.
    pub fn new(regex: bool, files: Vec<String>) -> (r: Result<Match, MatchError>)
        ensures
            r is Ok <==> (!regex || regex_set_ok(files.deep_view())),
            r matches Ok(m) ==> m.is_regex() == regex && m.patterns() == files.deep_view()
                && m.exact_file == (exists|i: int|
                0 <= i < files.deep_view().len() && files.deep_view()[i].contains('/')),
    {
        let mut exact_file = false;
        let mut i: usize = 0;
        while i < files.len()
            invariant
                0 <= i <= files.len(),
                exact_file == (exists|j: int| 0 <= j < i && files.deep_view()[j].contains('/')),
            decreases files.len() - i,
        {
            if has_path_separator(files[i].as_str()) {
                exact_file = true;
                assert(files.deep_view()[i as int].contains('/'));
            }
            i += 1;
        }
        let with = match MatchWith::new(regex, files) {
            Ok(w) => w,
            Err(e) => {
                return Err(e);
            },
        };
        Ok(Match { with, exact_file })
    }

    /// Tests one candidate path against the pattern set.
    pub fn is_match(&self, file: &str) -> (r: bool)
        ensures
            r == self.spec_is_match(file@),
    {
        let reduced: &str = if !self.exact_file {
            basename_of(file)
        } else {
            file
        };
        if reduced.unicode_len() == 0 {
            return false;
        }
        match &self.with {
            MatchWith::Regex(rs) => regex_set_is_match(rs, reduced),
            MatchWith::Files(pats) => contains_string(pats, reduced),
        }
    }
}

/// Tells whether any member of `pats` equals `s`, character for character.
pub fn contains_string(pats: &Vec<String>, s: &str) -> (r: bool)
    ensures
        r == (exists|i: int| 0 <= i < pats.deep_view().len() && pats.deep_view()[i] == s@),
{
    let owned = s.to_owned();
    let mut i: usize = 0;
    while i < pats.len()
        invariant
            0 <= i <= pats.len(),
            owned@ == s@,
            forall|j: int| 0 <= j < i ==> pats.deep_view()[j] != s@,
        decreases pats.len() - i,
    {
        let p: &String = &pats[i];
        if p.eq(&owned) {
            assert(pats.deep_view()[i as int] == s@);
            return true;
        }
        i += 1;
    }
    false
}

/// Reducing a candidate to its basename ignores any path prefix: prepending
/// `prefix` and a separator to a candidate leaves the basename unchanged.
pub proof fn lemma_basename_ignores_prefix(prefix: Seq<char>, candidate: Seq<char>)
    ensures
        basename(prefix.push('/') + candidate) == basename(candidate),
    decreases candidate.len(),
{
    let s = prefix.push('/') + candidate;
    if candidate.len() == 0 {
        assert(s =~= prefix.push('/'));
        assert(s.last() == '/');
        assert(basename(candidate) =~= Seq::<char>::empty());
    } else if candidate.last() == '/' {
        assert(s.last() == '/');
    } else {
        assert(s.last() == candidate.last());
        assert(s.drop_last() =~= prefix.push('/') + candidate.drop_last());
        lemma_basename_ignores_prefix(prefix, candidate.drop_last());
    }
}

/// When no pattern holds a path separator, matching is invariant to any
/// path prefix on the candidate.
pub proof fn lemma_match_prefix_invariant(
    regex: bool,
    patterns: Seq<Seq<char>>,
    prefix: Seq<char>,
    candidate: Seq<char>,
)
    ensures
        match_spec(regex, patterns, false, prefix.push('/') + candidate) == match_spec(
            regex,
            patterns,
            false,
            candidate,
        ),
{
    lemma_basename_ignores_prefix(prefix, candidate);
}

/// An empty candidate never matches, and without the full-path discipline
/// neither does one ending in a separator (its basename is empty).
pub proof fn lemma_no_empty_match(
    regex: bool,
    patterns: Seq<Seq<char>>,
    exact_path: bool,
    candidate: Seq<char>,
)
    requires
        candidate.len() == 0 || (!exact_path && candidate.last() == '/'),
    ensures
        !match_spec(regex, patterns, exact_path, candidate),
{
}

} // verus!
