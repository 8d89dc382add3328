//! Ignore patterns: compiled glob patterns, their regex fall-back and the pattern cache.

use vstd::prelude::*;
use crate::text::{chars_of, string_from_chars, views};
use fuzzy_matcher::FuzzyMatcher;

verus! {

#[verifier::external_type_specification]
#[verifier::external_body]
pub struct ExGlobPattern(glob::Pattern);

#[verifier::external_type_specification]
#[verifier::external_body]
pub struct ExRegex(regex::Regex);

/// Whether `glob::Pattern::new` accepts the pattern text.
pub uninterp spec fn glob_compiles(pattern: Seq<char>) -> bool;

/// Whether the glob compiled from `pattern` matches `candidate` with the default match options.
pub uninterp spec fn glob_accepts(pattern: Seq<char>, candidate: Seq<char>) -> bool;

/// Whether `regex::Regex::new` accepts the expression.
pub uninterp spec fn regex_compiles(expr: Seq<char>) -> bool;

/// Whether the regex compiled from `expr` finds a match in `haystack`.
pub uninterp spec fn regex_accepts(expr: Seq<char>, haystack: Seq<char>) -> bool;

/// A compiled glob pattern together with its source text.
#[derive(Debug)]
pub struct GlobPattern {
    source: String,
    compiled: glob::Pattern,
}

impl GlobPattern {
    /// The text the pattern was compiled from.
    pub closed spec fn source(&self) -> Seq<char> {
        self.source@
    }

    /// The text the pattern was compiled from.
    pub fn as_str(&self) -> (r: &str)
        ensures
            r@ == self.source(),
    {
        self.source.as_str()
    }
}

/// A compiled regular expression together with its source text.
#[derive(Debug)]
pub struct RegexPattern {
    source: String,
    compiled: regex::Regex,
}

impl RegexPattern {
    /// The text the expression was compiled from.
    pub closed spec fn source(&self) -> Seq<char> {
        self.source@
    }
}

/// `glob::Pattern::new`: compiles a glob pattern; `None` where the crate reports a pattern error.
/// The contract names which texts compile and keeps the source text beside the compiled pattern.
#[verifier::external_body]
pub(crate) fn compile_glob(pattern: &str) -> (r: Option<GlobPattern>)
    ensures
        r is Some == glob_compiles(pattern@),
        r matches Some(g) ==> g.source() == pattern@,
{
    match glob::Pattern::new(pattern) {
        Ok(compiled) => Some(GlobPattern { source: pattern.to_string(), compiled }),
        Err(_) => None,
    }
}

/// `glob::Pattern::matches`: whether the candidate matches, with the default options.
/// The contract names the result as a function of the pattern text and the candidate.
#[verifier::external_body]
pub(crate) fn glob_matches(pattern: &GlobPattern, candidate: &str) -> (r: bool)
    ensures
        r == glob_accepts(pattern.source(), candidate@),
{
    pattern.compiled.matches(candidate)
}

/// `regex::Regex::new`: compiles a regular expression; `None` where the crate reports an error.
/// The contract names which expressions compile and keeps the source beside the compiled form.
#[verifier::external_body]
pub(crate) fn compile_regex(expr: &str) -> (r: Option<RegexPattern>)
    ensures
        r is Some == regex_compiles(expr@),
        r matches Some(g) ==> g.source() == expr@,
{
    match regex::Regex::new(expr) {
        Ok(compiled) => Some(RegexPattern { source: expr.to_string(), compiled }),
        Err(_) => None,
    }
}

/// `regex::Regex::is_match`: whether the expression matches somewhere in the haystack.
/// The contract names the result as a function of the expression text and the haystack.
#[verifier::external_body]
pub(crate) fn regex_matches(expr: &RegexPattern, haystack: &str) -> (r: bool)
    ensures
        r == regex_accepts(expr.source(), haystack@),
{
    expr.compiled.is_match(haystack)
}

/// The sources of a list of compiled globs.
pub open spec fn glob_sources(v: Seq<GlobPattern>) -> Seq<Seq<char>> {
    v.map_values(|g: GlobPattern| g.source())
}

/// The texts among `pats` that compile as globs, in order.
pub open spec fn compiling_globs(pats: Seq<Seq<char>>) -> Seq<Seq<char>>
    decreases pats.len(),
{
    if pats.len() == 0 {
        Seq::empty()
    } else if glob_compiles(pats.last()) {
        compiling_globs(pats.drop_last()).push(pats.last())
    } else {
        compiling_globs(pats.drop_last())
    }
}

/// Whether some pattern of the list matches the candidate.
pub open spec fn any_glob_accepts(pats: Seq<Seq<char>>, candidate: Seq<char>) -> bool {
    exists|i: int| 0 <= i < pats.len() && glob_accepts(#[trigger] pats[i], candidate)
}

/// Compiles each pattern that is a valid glob, skipping the others.
pub fn compile_globs(patterns: &[String]) -> (r: Vec<GlobPattern>)
    ensures
        glob_sources(r@) == compiling_globs(views(patterns@)),
{
    let mut r: Vec<GlobPattern> = Vec::new();
    for i in 0..patterns.len()
        invariant
            glob_sources(r@) == compiling_globs(views(patterns@.take(i as int))),
    {
        assert(views(patterns@.take(i + 1)).drop_last() =~= views(patterns@.take(i as int)));
        assert(views(patterns@.take(i + 1)).last() == patterns@[i as int]@);
        match compile_glob(patterns[i].as_str()) {
            Some(g) => {
                r.push(g);
                assert(glob_sources(r@) =~= compiling_globs(views(patterns@.take(i as int))).push(
                    patterns@[i as int]@,
                ));
            },
            None => {},
        }
    }
    assert(patterns@.take(patterns@.len() as int) =~= patterns@);
    r
}

/// Whether any of the compiled globs matches the candidate.
pub fn any_glob_matches(patterns: &[GlobPattern], candidate: &str) -> (r: bool)
    ensures
        r == any_glob_accepts(glob_sources(patterns@), candidate@),
{
    for i in 0..patterns.len()
        invariant
            forall|j: int|
                0 <= j < i ==> !glob_accepts(#[trigger] glob_sources(patterns@)[j], candidate@),
    {
        if glob_matches(&patterns[i], candidate) {
            assert(glob_sources(patterns@)[i as int] == patterns@[i as int].source());
            return true;
        }
    }
    false
}

/// `s` with every occurrence of `from`, found left to right without overlap, replaced by `to`,
/// as `str::replace` computes it.
pub open spec fn replace_all(s: Seq<char>, from: Seq<char>, to: Seq<char>) -> Seq<char>
    recommends
        from.len() > 0,
    decreases s.len(),
{
    if s.len() == 0 || from.len() == 0 {
        s
    } else if from.len() <= s.len() && s.take(from.len() as int) == from {
        to + replace_all(s.skip(from.len() as int), from, to)
    } else {
        seq![s[0]] + replace_all(s.drop_first(), from, to)
    }
}

fn replace_chars(s: &Vec<char>, from: &Vec<char>, to: &Vec<char>) -> (r: Vec<char>)
    requires
        from@.len() > 0,
    ensures
        r@ == replace_all(s@, from@, to@),
{
    let mut r: Vec<char> = Vec::new();
    let mut i: usize = 0;
    assert(s@.skip(0) =~= s@);
    while i < s.len()
        invariant
            i <= s@.len(),
            from@.len() > 0,
            r@ + replace_all(s@.skip(i as int), from@, to@) == replace_all(s@, from@, to@),
        decreases s@.len() - i,
    {
        let ghost rest = s@.skip(i as int);
        let mut hit = from.len() <= s.len() - i;
        let mut k: usize = 0;
        while hit && k < from.len()
            invariant
                i < s@.len(),
                rest == s@.skip(i as int),
                rest.len() == s@.len() - i,
                k <= from@.len(),
                hit ==> from@.len() <= rest.len(),
                hit ==> forall|j: int| 0 <= j < k ==> rest[j] == from@[j],
                !hit ==> !(from@.len() <= rest.len() && rest.take(from@.len() as int) == from@),
            decreases from@.len() - k,
        {
            assert(k < from@.len() && from@.len() <= rest.len());
            assert(s@.len() == s.len());
            if s[i + k] != from[k] {
                hit = false;
                assert(rest.take(from@.len() as int)[k as int] != from@[k as int]);
            }
            k += 1;
        }
        if hit {
            assert(rest.take(from@.len() as int) =~= from@);
            let ghost before = r@;
            for t in 0..to.len()
                invariant
                    r@ == before + to@.take(t as int),
            {
                r.push(to[t]);
                assert(r@ =~= before + to@.take(t + 1));
            }
            assert(to@.take(to@.len() as int) =~= to@);
            assert(rest.skip(from@.len() as int) =~= s@.skip(i + from@.len()));
            assert(before + to@ + replace_all(rest.skip(from@.len() as int), from@, to@)
                =~= before + (to@ + replace_all(rest.skip(from@.len() as int), from@, to@)));
            i = i + from.len();
        } else {
            let ghost before = r@;
            r.push(s[i]);
            assert(rest.drop_first() =~= s@.skip(i + 1));
            assert(rest[0] == s@[i as int]);
            assert(before.push(s@[i as int]) + replace_all(rest.drop_first(), from@, to@)
                =~= before + (seq![rest[0]] + replace_all(rest.drop_first(), from@, to@)));
            i = i + 1;
        }
    }
    assert(s@.skip(s@.len() as int) =~= Seq::<char>::empty());
    assert(r@ + Seq::<char>::empty() =~= r@);
    r
}

/// The regex body that stands for a glob pattern: `.` escaped, `*` as `[^/]*`, `**` as `.*`,
/// braces as a group and commas as alternatives, each replacement applied in that order.
pub open spec fn glob_regex_body(p: Seq<char>) -> Seq<char> {
    let s1 = replace_all(p, seq!['.'], seq!['\\', '.']);
    let s2 = replace_all(s1, seq!['*'], seq!['[', '^', '/', ']', '*']);
    let s3 = replace_all(s2, seq!['*', '*'], seq!['.', '*']);
    let s4 = replace_all(s3, seq!['{'], seq!['(']);
    let s5 = replace_all(s4, seq!['}'], seq![')']);
    replace_all(s5, seq![','], seq!['|'])
}

/// The anchored regex that stands for a glob pattern.
pub open spec fn glob_regex(p: Seq<char>) -> Seq<char> {
    seq!['^'] + glob_regex_body(p) + seq!['$']
}

/// The anchored regular expression that stands for a glob pattern.
pub fn glob_to_regex(pattern: &str) -> (r: String)
    ensures
        r@ == glob_regex(pattern@),
{
    let p = chars_of(pattern);
    let dot = vec!['.'];
    let dot_esc = vec!['\\', '.'];
    let star = vec!['*'];
    let star_re = vec!['[', '^', '/', ']', '*'];
    let stars = vec!['*', '*'];
    let stars_re = vec!['.', '*'];
    let lbrace = vec!['{'];
    let lparen = vec!['('];
    let rbrace = vec!['}'];
    let rparen = vec![')'];
    let comma = vec![','];
    let bar = vec!['|'];
    assert(dot@ =~= seq!['.']);
    assert(dot_esc@ =~= seq!['\\', '.']);
    assert(star@ =~= seq!['*']);
    assert(star_re@ =~= seq!['[', '^', '/', ']', '*']);
    assert(stars@ =~= seq!['*', '*']);
    assert(stars_re@ =~= seq!['.', '*']);
    assert(lbrace@ =~= seq!['{']);
    assert(lparen@ =~= seq!['(']);
    assert(rbrace@ =~= seq!['}']);
    assert(rparen@ =~= seq![')']);
    assert(comma@ =~= seq![',']);
    assert(bar@ =~= seq!['|']);
    let s1 = replace_chars(&p, &dot, &dot_esc);
    let s2 = replace_chars(&s1, &star, &star_re);
    let s3 = replace_chars(&s2, &stars, &stars_re);
    let s4 = replace_chars(&s3, &lbrace, &lparen);
    let s5 = replace_chars(&s4, &rbrace, &rparen);
    let s6 = replace_chars(&s5, &comma, &bar);
    let mut out: Vec<char> = vec!['^'];
    assert(out@ =~= seq!['^'] + s6@.take(0));
    for i in 0..s6.len()
        invariant
            out@ == seq!['^'] + s6@.take(i as int),
    {
        out.push(s6[i]);
        assert(out@ =~= seq!['^'] + s6@.take(i + 1));
    }
    out.push('$');
    assert(s6@.take(s6@.len() as int) =~= s6@);
    assert(out@ =~= glob_regex(pattern@));
    string_from_chars(out.as_slice())
}

/// The sources of a list of compiled regular expressions.
pub open spec fn regex_sources(v: Seq<RegexPattern>) -> Seq<Seq<char>> {
    v.map_values(|g: RegexPattern| g.source())
}

/// The regexes standing for the patterns of `pats` that compile, in order.
pub open spec fn compiling_regexes(pats: Seq<Seq<char>>) -> Seq<Seq<char>>
    decreases pats.len(),
{
    if pats.len() == 0 {
        Seq::empty()
    } else if regex_compiles(glob_regex(pats.last())) {
        compiling_regexes(pats.drop_last()).push(glob_regex(pats.last()))
    } else {
        compiling_regexes(pats.drop_last())
    }
}

/// Whether some expression of the list matches the haystack.
pub open spec fn any_regex_accepts(exprs: Seq<Seq<char>>, haystack: Seq<char>) -> bool {
    exists|i: int| 0 <= i < exprs.len() && regex_accepts(#[trigger] exprs[i], haystack)
}

/// Pattern cache: each pattern as a glob and, as a fall-back, as the regex that stands for it.
#[derive(Debug)]
pub struct PatternCache {
    /// Compiled glob patterns
    globs: Vec<GlobPattern>,
    /// Compiled regex patterns (as alternative)
    regexes: Vec<RegexPattern>,
}

impl PatternCache {
    /// The sources of the compiled globs.
    pub closed spec fn glob_list(&self) -> Seq<Seq<char>> {
        glob_sources(self.globs@)
    }

    /// The sources of the compiled regular expressions.
    pub closed spec fn regex_list(&self) -> Seq<Seq<char>> {
        regex_sources(self.regexes@)
    }

    /// Compiles every pattern that is a valid glob, and every regex standing for a pattern
    /// that is a valid regex; the others are skipped.
    pub fn new(patterns: &[String]) -> (r: Self)
        ensures
            r.glob_list() == compiling_globs(views(patterns@)),
            r.regex_list() == compiling_regexes(views(patterns@)),
    {
        let globs = compile_globs(patterns);
        let mut regexes: Vec<RegexPattern> = Vec::new();
        for i in 0..patterns.len()
            invariant
                regex_sources(regexes@) == compiling_regexes(views(patterns@.take(i as int))),
        {
            assert(views(patterns@.take(i + 1)).drop_last() =~= views(patterns@.take(i as int)));
            assert(views(patterns@.take(i + 1)).last() == patterns@[i as int]@);
            let expr = glob_to_regex(patterns[i].as_str());
            match compile_regex(expr.as_str()) {
                Some(re) => {
                    regexes.push(re);
                    assert(regex_sources(regexes@) =~= compiling_regexes(
                        views(patterns@.take(i as int)),
                    ).push(glob_regex(patterns@[i as int]@)));
                },
                None => {},
            }
        }
        assert(patterns@.take(patterns@.len() as int) =~= patterns@);
        PatternCache { globs, regexes }
    }

    /// Whether the path matches any glob, or else any of the fall-back regexes.
    pub fn matches(&self, path: &str) -> (r: bool)
        ensures
            r == (any_glob_accepts(self.glob_list(), path@) || any_regex_accepts(
                self.regex_list(),
                path@,
            )),
    {
        if any_glob_matches(self.globs.as_slice(), path) {
            return true;
        }
        for i in 0..self.regexes.len()
            invariant
                !any_glob_accepts(self.glob_list(), path@),
                forall|j: int|
                    0 <= j < i ==> !regex_accepts(#[trigger] regex_sources(self.regexes@)[j], path@),
        {
            if regex_matches(&self.regexes[i], path) {
                assert(regex_sources(self.regexes@)[i as int] == self.regexes@[i as int].source());
                return true;
            }
        }
        false
    }
}

/// A character's code with ASCII capitals taken to lowercase.
pub open spec fn ascii_folded(c: char) -> int {
    let n = c as int;
    if 65 <= n <= 90 {
        n + 32
    } else {
        n
    }
}

/// Two characters match: exactly when the match respects case, else ignoring ASCII case.
pub open spec fn chars_match(a: char, b: char, case_sensitive: bool) -> bool {
    if case_sensitive {
        a == b
    } else {
        ascii_folded(a) == ascii_folded(b)
    }
}

/// Whether the text holds an ASCII capital letter.
pub open spec fn has_ascii_upper(s: Seq<char>) -> bool {
    exists|i: int| 0 <= i < s.len() && 65 <= #[trigger] (s[i] as int) <= 90
}

/// Whether `pattern` occurs in `choice` as a subsequence, characters compared by `chars_match`.
pub open spec fn subsequence_in(pattern: Seq<char>, choice: Seq<char>, case_sensitive: bool) -> bool
    decreases choice.len(),
{
    if pattern.len() == 0 {
        true
    } else if choice.len() == 0 {
        false
    } else if chars_match(choice[0], pattern[0], case_sensitive) {
        subsequence_in(pattern.drop_first(), choice.drop_first(), case_sensitive)
    } else {
        subsequence_in(pattern, choice.drop_first(), case_sensitive)
    }
}

/// Whether the skim fuzzy matcher in its default (smart case) configuration finds `pattern` in
/// `choice`: an empty pattern always matches; otherwise the pattern must occur in the choice as
/// a subsequence, compared exactly when the pattern holds an ASCII capital, else ignoring ASCII
/// case.
pub open spec fn fuzzy_accepts(choice: Seq<char>, pattern: Seq<char>) -> bool {
    pattern.len() == 0 || subsequence_in(pattern, choice, has_ascii_upper(pattern))
}

/// `SkimMatcherV2::default().fuzzy_match(choice, pattern)` has a score exactly when
/// `fuzzy_accepts` holds: the matcher returns a score for an empty pattern, and otherwise
/// exactly when its greedy first pass (`cheap_matches`, smart case) finds every pattern
/// character in order; the score itself is not used.
#[verifier::external_body]
pub(crate) fn fuzzy_matches(choice: &str, pattern: &str) -> (r: bool)
    ensures
        r == fuzzy_accepts(choice@, pattern@),
{
    fuzzy_matcher::skim::SkimMatcherV2::default().fuzzy_match(choice, pattern).is_some()
}

} // verus!
