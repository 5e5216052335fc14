//! Exclusion rules: glob patterns compiled by `globset`, tested as one
//! combined set and attributed to the first pattern that matches.

use globset::{Error, Glob, GlobBuilder, GlobSet, GlobSetBuilder};
use crate::text::to_chars;
use vstd::prelude::*;
use vstd::utf8::encode_utf8;

verus! {

/// `globset::Glob`, a parsed pattern.
#[verifier::external_type_specification]
#[verifier::external_body]
pub struct ExGlob(Glob);

/// `globset::GlobSet`, globs compiled to be matched together.
#[verifier::external_type_specification]
#[verifier::external_body]
pub struct ExGlobSet(GlobSet);

/// `globset::GlobSetBuilder`, which collects globs for a set.
#[verifier::external_type_specification]
#[verifier::external_body]
pub struct ExGlobSetBuilder(GlobSetBuilder);

/// `globset::Error`, the reason why a pattern or a set was refused.
#[verifier::external_type_specification]
#[verifier::external_body]
pub struct ExGlobError(Error);

/// Whether `globset` accepts `pattern` as a glob, with the given case
/// sensitivity and its other options at their defaults.
pub uninterp spec fn glob_parses(pattern: Seq<char>, case_insensitive: bool) -> bool;

/// Whether the glob written as `pattern`, with the given case sensitivity,
/// matches `path` according to `globset`. The value is fixed for a build
/// target: `globset` reads `\` as a separator on Windows and as an escape
/// elsewhere.
pub uninterp spec fn glob_matches(pattern: Seq<char>, case_insensitive: bool, path: Seq<char>) -> bool;

/// Whether `globset` can compile the given globs, each a pattern with its
/// case sensitivity, into one set.
pub uninterp spec fn set_compiles(globs: Seq<(Seq<char>, bool)>) -> bool;

/// The pattern text and the case sensitivity that a parsed glob was made from.
pub uninterp spec fn glob_source(glob: Glob) -> (Seq<char>, bool);

/// The globs added to a builder so far, in the order of their addition.
pub uninterp spec fn builder_globs(builder: GlobSetBuilder) -> Seq<(Seq<char>, bool)>;

/// The globs that a compiled set holds, in the order of their addition.
pub uninterp spec fn set_globs(set: GlobSet) -> Seq<(Seq<char>, bool)>;

/// How deep the alternates of one pattern may be nested. `globset` walks
/// nested alternates by recursion, and the regular expressions it compiles
/// them to are refused beyond this depth anyway.
pub const MAX_BRACE_DEPTH: usize = 250;

/// The largest weight that the patterns of one matcher may have together,
/// the weight of a pattern being one more than the bytes of its UTF-8 text.
/// The tables that `globset` builds for literal prefixes and suffixes grow
/// with the square of this weight and are indexed with 31 bits.
pub const MAX_PATTERN_WEIGHT: usize = 32768;

/// `s` holds a `[` or a `\`: from there on a brace may stand for itself.
pub open spec fn has_special(s: Seq<char>) -> bool
    decreases s.len(),
{
    s.len() > 0 && (s.last() == '[' || s.last() == '\\' || has_special(s.drop_last()))
}

/// An upper bound on the alternates that are open at the end of `s`. Every
/// `{` counts as opening one. A `}` counts as closing one only while no `[`
/// or `\` came before it, since after those it may stand for itself.
pub open spec fn open_braces(s: Seq<char>) -> nat
    decreases s.len(),
{
    if s.len() == 0 {
        0
    } else {
        let before = open_braces(s.drop_last());
        if s.last() == '{' {
            before + 1
        } else if s.last() == '}' && before > 0 && !has_special(s.drop_last()) {
            (before - 1) as nat
        } else {
            before
        }
    }
}

/// An upper bound on how deep the alternates of the pattern `s` are nested:
/// the most that are open at any place in it.
pub open spec fn brace_depth(s: Seq<char>) -> nat
    decreases s.len(),
{
    if s.len() == 0 {
        0
    } else if open_braces(s) > brace_depth(s.drop_last()) {
        open_braces(s)
    } else {
        brace_depth(s.drop_last())
    }
}

/// The weight of a pattern: one more than the bytes of its UTF-8 text.
pub open spec fn pattern_weight(pattern: Seq<char>) -> nat {
    encode_utf8(pattern).len() + 1
}

/// The weights of the patterns of `globs`, added up.
pub open spec fn total_weight(globs: Seq<(Seq<char>, bool)>) -> nat
    decreases globs.len(),
{
    if globs.len() == 0 {
        0
    } else {
        total_weight(globs.drop_last()) + pattern_weight(globs.last().0)
    }
}

/// `GlobBuilder::new(pattern).case_insensitive(..).build()`: parses a glob.
/// It succeeds exactly on the patterns that `globset` accepts, and the glob
/// keeps the pattern and the flag it was built from. Patterns whose
/// alternates are nested too deep for the recursion of `globset` are kept out.
#[verifier::external_body]
fn parse_glob(pattern: &str, case_insensitive: bool) -> (r: Result<Glob, Error>)
    requires
        brace_depth(pattern@) <= MAX_BRACE_DEPTH,
    ensures
        r is Ok <==> glob_parses(pattern@, case_insensitive),
        r matches Ok(g) ==> glob_source(g) == (pattern@, case_insensitive),
{
    GlobBuilder::new(pattern).case_insensitive(case_insensitive).build()
}

/// `Glob::clone`: the copy is built from the same pattern and flag. The
/// copy is made by recursion over nested alternates, so globs of patterns
/// nested too deep are kept out.
#[verifier::external_body]
fn clone_glob(glob: &Glob) -> (r: Glob)
    requires
        brace_depth(glob_source(*glob).0) <= MAX_BRACE_DEPTH,
    ensures
        glob_source(r) == glob_source(*glob),
{
    glob.clone()
}

/// `GlobSet::clone`: the copy holds the same globs.
pub assume_specification[ <GlobSet as Clone>::clone ](set: &GlobSet) -> (r: GlobSet)
    ensures
        set_globs(r) == set_globs(*set),
;

/// `GlobSetBuilder::new`: a builder without globs.
#[verifier::external_body]
fn new_builder() -> (r: GlobSetBuilder)
    ensures
        builder_globs(r) == Seq::<(Seq<char>, bool)>::empty(),
{
    GlobSetBuilder::new()
}

/// `GlobSetBuilder::add`: appends one glob to the builder.
#[verifier::external_body]
fn builder_add(builder: &mut GlobSetBuilder, glob: Glob)
    ensures
        builder_globs(*final(builder)) == builder_globs(*old(builder)).push(glob_source(glob)),
{
    builder.add(glob);
}

/// `GlobSetBuilder::build`: compiles the globs added so far. Whether that
/// succeeds depends on those globs alone; the set holds them in order.
/// Patterns beyond the weight that the tables of `globset` can index are
/// kept out.
#[verifier::external_body]
fn builder_build(builder: &GlobSetBuilder) -> (r: Result<GlobSet, Error>)
    requires
        total_weight(builder_globs(*builder)) <= MAX_PATTERN_WEIGHT,
    ensures
        r is Ok <==> set_compiles(builder_globs(*builder)),
        r matches Ok(s) ==> set_globs(s) == builder_globs(*builder),
{
    builder.build()
}

/// `GlobSet::is_match`: true if any glob in the set matches the path. A set
/// answers for each of its globs as a set of that glob alone does.
#[verifier::external_body]
fn set_is_match(set: &GlobSet, path: &str) -> (r: bool)
    ensures
        r == (exists|i: int|
            0 <= i < set_globs(*set).len() && glob_matches(
                #[trigger] set_globs(*set)[i].0,
                set_globs(*set)[i].1,
                path@,
            )),
{
    set.is_match(path)
}

/// Why a list of patterns could not be turned into a matcher.
#[derive(Debug)]
pub enum PatternError {
    /// The patterns weigh more than `MAX_PATTERN_WEIGHT` together.
    TooLong,
    /// The alternates of the pattern at `index` may be nested deeper than
    /// `MAX_BRACE_DEPTH`.
    TooNested { index: usize, pattern: String },
    /// The pattern at `index` is not a glob that `globset` accepts or compiles.
    InvalidGlob { index: usize, pattern: String, cause: Error },
    /// Each pattern is acceptable by itself, but their union does not compile.
    InvalidSet { cause: Error },
}

/// The rules that a matcher was built from.
pub struct ExcludeRules {
    pub patterns: Seq<Seq<char>>,
    pub case_insensitive: bool,
}

impl ExcludeRules {
    /// The pattern at `i` matches `path`.
    pub open spec fn matches_at(self, i: int, path: Seq<char>) -> bool {
        glob_matches(self.patterns[i], self.case_insensitive, path)
    }

    /// Some pattern matches `path`.
    pub open spec fn matches(self, path: Seq<char>) -> bool {
        exists|i: int| 0 <= i < self.patterns.len() && self.matches_at(i, path)
    }

    /// `i` is the first pattern, in the configured order, that matches `path`.
    pub open spec fn first_match(self, i: int, path: Seq<char>) -> bool {
        &&& 0 <= i < self.patterns.len()
        &&& self.matches_at(i, path)
        &&& forall|j: int| 0 <= j < i ==> !self.matches_at(j, path)
    }

    /// The globs of the rules, as `globset` sees them.
    pub open spec fn globs(self) -> Seq<(Seq<char>, bool)> {
        Seq::new(self.patterns.len(), |i: int| (self.patterns[i], self.case_insensitive))
    }

    /// The alternates of the pattern at `i` are nested no deeper than
    /// `MAX_BRACE_DEPTH`.
    pub open spec fn nesting_ok(self, i: int) -> bool {
        brace_depth(self.patterns[i]) <= MAX_BRACE_DEPTH
    }

    /// The pattern at `i` parses and compiles as a set of its own.
    pub open spec fn compiles_at(self, i: int) -> bool {
        &&& glob_parses(self.patterns[i], self.case_insensitive)
        &&& set_compiles(seq![(self.patterns[i], self.case_insensitive)])
    }

    /// The pattern at `i` is acceptable by itself: not nested too deep, and
    /// it parses and compiles as a set of its own.
    pub open spec fn pattern_ok(self, i: int) -> bool {
        self.nesting_ok(i) && self.compiles_at(i)
    }

    /// Every pattern is acceptable by itself.
    pub open spec fn all_patterns_ok(self) -> bool {
        forall|i: int| 0 <= i < self.patterns.len() ==> self.pattern_ok(i)
    }

    /// The patterns are together of a weight that can be compiled.
    pub open spec fn fits(self) -> bool {
        total_weight(self.globs()) <= MAX_PATTERN_WEIGHT
    }
}

/// The weight of the first globs is part of the weight of all, and so is
/// that of each single glob.
pub proof fn lemma_total_weight(globs: Seq<(Seq<char>, bool)>, n: int)
    requires
        0 <= n <= globs.len(),
    ensures
        total_weight(globs.take(n)) <= total_weight(globs),
        n < globs.len() ==> total_weight(globs.take(n)) + pattern_weight(globs[n].0)
            <= total_weight(globs),
        n < globs.len() ==> total_weight(globs.take(n + 1)) == total_weight(globs.take(n))
            + pattern_weight(globs[n].0),
    decreases globs.len() - n,
{
    if n == globs.len() {
        assert(globs.take(n) =~= globs);
    } else {
        assert(globs.take(n + 1).drop_last() =~= globs.take(n));
        lemma_total_weight(globs, n + 1);
    }
}

/// The rules that a list of patterns and a case flag stand for.
pub open spec fn rules_of(patterns: Seq<String>, case_insensitive: bool) -> ExcludeRules {
    ExcludeRules {
        patterns: Seq::new(patterns.len(), |i: int| patterns[i]@),
        case_insensitive,
    }
}

/// Pattern matcher for exclude lists: one combined set for the fast test and
/// one single-pattern set per rule to name the pattern that matched.
#[derive(Debug)]
pub struct ExcludeMatcher {
    combined: GlobSet,
    singles: Vec<(String, GlobSet)>,
    case_insensitive: bool,
}

impl View for ExcludeMatcher {
    type V = ExcludeRules;

    closed spec fn view(&self) -> ExcludeRules {
        ExcludeRules {
            patterns: Seq::new(self.singles@.len(), |i: int| self.singles@[i].0@),
            case_insensitive: self.case_insensitive,
        }
    }
}

impl Clone for ExcludeMatcher {
    /// A matcher for the same rules.
    fn clone(&self) -> (r: Self)
        ensures
            r@ == self@,
    {
        proof {
            use_type_invariant(self);
        }
        let mut singles: Vec<(String, GlobSet)> = Vec::new();
        let mut i: usize = 0;
        while i < self.singles.len()
            invariant
                i <= self.singles@.len(),
                singles@.len() == i,
                forall|j: int| 0 <= j < i ==> (#[trigger] singles@[j]).0@ == self.singles@[j].0@,
                forall|j: int|
                    0 <= j < i ==> set_globs(#[trigger] singles@[j].1) == seq![
                        (singles@[j].0@, self.case_insensitive),
                    ],
                forall|j: int|
                    0 <= j < self.singles@.len() ==> set_globs(#[trigger] self.singles@[j].1)
                        == seq![(self.singles@[j].0@, self.case_insensitive)],
            decreases self.singles@.len() - i,
        {
            let single = &self.singles[i];
            singles.push((single.0.clone(), single.1.clone()));
            i = i + 1;
        }
        let combined = self.combined.clone();
        proof {
            let built = ExcludeRules {
                patterns: Seq::new(singles@.len(), |i: int| singles@[i].0@),
                case_insensitive: self.case_insensitive,
            };
            assert(built.patterns =~= self@.patterns);
            assert(built.globs() =~= self@.globs());
        }
        ExcludeMatcher { combined, singles, case_insensitive: self.case_insensitive }
    }
}

impl ExcludeMatcher {
    #[verifier::type_invariant]
    spec fn inv(self) -> bool {
        &&& set_globs(self.combined) == self@.globs()
        &&& forall|i: int|
            0 <= i < self.singles@.len() ==> set_globs(#[trigger] self.singles@[i].1) == seq![
                (self.singles@[i].0@, self.case_insensitive),
            ]
    }

    /// Return the pattern that matched `path`, or `None` if no pattern
    /// matched. With several matching patterns the first configured one wins.
    pub fn is_match(&self, path: &str) -> (r: Option<&str>)
        ensures
            r is Some <==> self@.matches(path@),
            r matches Some(p) ==> exists|i: int|
                #[trigger] self@.first_match(i, path@) && p@ == self@.patterns[i],
    {
        proof {
            use_type_invariant(self);
        }
        if set_is_match(&self.combined, path) {
            proof {
                let g = self@.globs();
                let k: int = choose|k: int|
                    0 <= k < g.len() && glob_matches(#[trigger] g[k].0, g[k].1, path@);
                assert(self@.matches_at(k, path@));
            }
            let mut i: usize = 0;
            while i < self.singles.len()
                invariant
                    i <= self.singles@.len(),
                    self@.patterns.len() == self.singles@.len(),
                    forall|j: int| 0 <= j < i ==> !self@.matches_at(j, path@),
                    forall|j: int|
                        0 <= j < self.singles@.len() ==> set_globs(#[trigger] self.singles@[j].1)
                            == seq![(self.singles@[j].0@, self.case_insensitive)],
                    self@.case_insensitive == self.case_insensitive,
                    forall|j: int| 0 <= j < self.singles@.len() ==> self@.patterns[j] == self.singles@[j].0@,
                decreases self.singles@.len() - i,
            {
                let single = &self.singles[i];
                if set_is_match(&single.1, path) {
                    proof {
                        let g = set_globs(single.1);
                        assert(g.len() == 1);
                        let k: int = choose|k: int|
                            0 <= k < g.len() && glob_matches(#[trigger] g[k].0, g[k].1, path@);
                        assert(k == 0);
                        assert(self@.matches_at(i as int, path@));
                        assert(self@.first_match(i as int, path@));
                    }
                    return Some(single.0.as_str());
                }
                proof {
                    let g = set_globs(single.1);
                    assert(g[0] == (self.singles@[i as int].0@, self.case_insensitive));
                    assert(!glob_matches(g[0].0, g[0].1, path@));
                }
                i = i + 1;
            }
            // The combined set answers as its members do, so some single set
            // has matched above; the first pattern is the answer of last resort.
            if self.singles.len() > 0 {
                Some(self.singles[0].0.as_str())
            } else {
                None
            }
        } else {
            proof {
                let g = self@.globs();
                assert forall|k: int| 0 <= k < self@.patterns.len() implies !self@.matches_at(
                    k,
                    path@,
                ) by {
                    assert(g[k] == (self@.patterns[k], self@.case_insensitive));
                    assert(!glob_matches(g[k].0, g[k].1, path@));
                }
            }
            None
        }
    }
}

/// `r` is what building a matcher from `patterns` comes to: a matcher for
/// exactly these rules where the patterns are not too heavy together and
/// every pattern and their union are accepted; otherwise the first pattern
/// that is not, with the reason, or the union.
pub open spec fn build_outcome(
    r: Result<ExcludeMatcher, PatternError>,
    patterns: Seq<String>,
    case_insensitive: bool,
) -> bool {
    let rules = rules_of(patterns, case_insensitive);
    match r {
        Ok(m) => {
            &&& m@ == rules
            &&& rules.fits()
            &&& rules.all_patterns_ok()
            &&& set_compiles(rules.globs())
        },
        Err(PatternError::TooLong) => !rules.fits(),
        Err(PatternError::TooNested { index, pattern }) => {
            &&& rules.fits()
            &&& index < patterns.len()
            &&& pattern@ == patterns[index as int]@
            &&& !rules.nesting_ok(index as int)
            &&& forall|j: int| 0 <= j < index ==> rules.pattern_ok(j)
        },
        Err(PatternError::InvalidGlob { index, pattern, .. }) => {
            &&& rules.fits()
            &&& index < patterns.len()
            &&& pattern@ == patterns[index as int]@
            &&& rules.nesting_ok(index as int)
            &&& !rules.compiles_at(index as int)
            &&& forall|j: int| 0 <= j < index ==> rules.pattern_ok(j)
        },
        Err(PatternError::InvalidSet { .. }) => {
            &&& rules.fits()
            &&& rules.all_patterns_ok()
            &&& !set_compiles(rules.globs())
        },
    }
}

/// Whether the patterns are together of a weight that can be compiled.
fn patterns_fit(patterns: &[String], case_insensitive: bool) -> (r: bool)
    ensures
        r == rules_of(patterns@, case_insensitive).fits(),
{
    let ghost globs = rules_of(patterns@, case_insensitive).globs();
    let mut total: usize = 0;
    let mut i: usize = 0;
    proof {
        assert(globs.take(0) =~= Seq::<(Seq<char>, bool)>::empty());
    }
    while i < patterns.len()
        invariant
            i <= patterns@.len(),
            globs == rules_of(patterns@, case_insensitive).globs(),
            total == total_weight(globs.take(i as int)),
            total <= MAX_PATTERN_WEIGHT,
        decreases patterns@.len() - i,
    {
        let bytes: usize = patterns[i].as_str().as_bytes().len();
        proof {
            lemma_total_weight(globs, i as int);
            assert(globs[i as int].0 == patterns@[i as int]@);
            assert(pattern_weight(globs[i as int].0) == bytes + 1);
        }
        if bytes >= MAX_PATTERN_WEIGHT - total {
            return false;
        }
        total = total + bytes + 1;
        i = i + 1;
    }
    proof {
        assert(globs.take(i as int) =~= globs);
    }
    true
}

/// Whether the alternates of `pattern` are nested no deeper than
/// `MAX_BRACE_DEPTH`, by the upper bound of `brace_depth`.
fn nesting_fits(pattern: &str) -> (r: bool)
    ensures
        r == (brace_depth(pattern@) <= MAX_BRACE_DEPTH),
{
    let v = to_chars(pattern);
    let mut open: usize = 0;
    let mut deepest: usize = 0;
    let mut special = false;
    let mut i: usize = 0;
    proof {
        assert(v@.take(0) =~= Seq::<char>::empty());
    }
    while i < v.len()
        invariant
            i <= v.len(),
            open <= i,
            deepest <= i,
            open == open_braces(v@.take(i as int)),
            deepest == brace_depth(v@.take(i as int)),
            special == has_special(v@.take(i as int)),
        decreases v.len() - i,
    {
        proof {
            assert(v@.take(i + 1).drop_last() =~= v@.take(i as int));
            assert(v@.take(i + 1).last() == v@[i as int]);
        }
        let c = v[i];
        if c == '{' {
            open = open + 1;
        } else if c == '}' && open > 0 && !special {
            open = open - 1;
        }
        if open > deepest {
            deepest = open;
        }
        if c == '[' || c == '\\' {
            special = true;
        }
        i = i + 1;
    }
    proof {
        assert(v@.take(i as int) =~= v@);
    }
    deepest <= MAX_BRACE_DEPTH
}

/// Build an `ExcludeMatcher` from a list of glob patterns.
///
/// The `case_insensitive` flag controls whether the globs match without
/// regard to case. The first pattern that is nested too deep or that
/// `globset` refuses stops the build, and so do patterns that are too heavy
/// together.
pub fn build_exclude_matcher(patterns: &[String], case_insensitive: bool) -> (r: Result<
    ExcludeMatcher,
    PatternError,
>)
    ensures
        build_outcome(r, patterns@, case_insensitive),
{
    let ghost rules = rules_of(patterns@, case_insensitive);
    if !patterns_fit(patterns, case_insensitive) {
        return Err(PatternError::TooLong);
    }
    let mut combined_builder = new_builder();
    let mut singles: Vec<(String, GlobSet)> = Vec::new();
    let mut i: usize = 0;
    while i < patterns.len()
        invariant
            i <= patterns@.len(),
            rules == rules_of(patterns@, case_insensitive),
            rules.fits(),
            singles@.len() == i,
            builder_globs(combined_builder) == rules.globs().take(i as int),
            forall|j: int| 0 <= j < i ==> rules.pattern_ok(j),
            forall|j: int| 0 <= j < i ==> (#[trigger] singles@[j]).0@ == patterns@[j]@,
            forall|j: int|
                0 <= j < i ==> set_globs(#[trigger] singles@[j].1) == seq![
                    (singles@[j].0@, case_insensitive),
                ],
        decreases patterns@.len() - i,
    {
        let pattern = &patterns[i];
        if !nesting_fits(pattern.as_str()) {
            return Err(PatternError::TooNested { index: i, pattern: pattern.clone() });
        }
        let glob = match parse_glob(pattern.as_str(), case_insensitive) {
            Ok(glob) => glob,
            Err(cause) => {
                return Err(PatternError::InvalidGlob { index: i, pattern: pattern.clone(), cause });
            },
        };
        builder_add(&mut combined_builder, clone_glob(&glob));
        let mut single_builder = new_builder();
        builder_add(&mut single_builder, glob);
        proof {
            assert(builder_globs(single_builder) =~= seq![(pattern@, case_insensitive)]);
            lemma_total_weight(rules.globs(), i as int);
            let single = seq![(pattern@, case_insensitive)];
            assert(single.drop_last() =~= Seq::<(Seq<char>, bool)>::empty());
            assert(total_weight(Seq::<(Seq<char>, bool)>::empty()) == 0);
            assert(total_weight(single) == pattern_weight(pattern@));
            assert(rules.globs()[i as int].0 == pattern@);
            assert(rules.globs().take(i + 1) =~= rules.globs().take(i as int).push(
                (pattern@, case_insensitive),
            ));
        }
        match builder_build(&single_builder) {
            Ok(set) => {
                singles.push((pattern.clone(), set));
            },
            Err(cause) => {
                return Err(PatternError::InvalidGlob { index: i, pattern: pattern.clone(), cause });
            },
        }
        i = i + 1;
    }
    proof {
        assert(rules.globs().take(i as int) =~= rules.globs());
    }
    match builder_build(&combined_builder) {
        Ok(combined) => {
            proof {
                let built = ExcludeRules {
                    patterns: Seq::new(singles@.len(), |i: int| singles@[i].0@),
                    case_insensitive,
                };
                assert(built.patterns =~= rules.patterns);
                assert(built.globs() =~= rules.globs());
            }
            Ok(ExcludeMatcher { combined, singles, case_insensitive })
        },
        Err(cause) => Err(PatternError::InvalidSet { cause }),
    }
}

} // verus!
