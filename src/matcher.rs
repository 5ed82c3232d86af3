use vstd::prelude::*;
use crate::text::has_sub;

verus! {

#[verifier::external_type_specification]
#[verifier::external_body]
pub struct ExRegex(regex::Regex);

#[verifier::external_type_specification]
#[verifier::external_body]
pub struct ExRegexError(regex::Error);

/// Whether the regular expression `pattern` finds a match anywhere in `haystack`.
pub uninterp spec fn regex_finds(pattern: Seq<char>, haystack: Seq<char>) -> bool;

/// A pattern of ASCII letters and digits only: in regular-expression syntax each such
/// character stands for itself, so the pattern matches exactly where its text occurs.
pub open spec fn is_plain(p: Seq<char>) -> bool {
    forall|i: int|
        0 <= i < p.len() ==> {
            let c = #[trigger] p[i];
            ('A' <= c <= 'Z') || ('a' <= c <= 'z') || ('0' <= c <= '9')
        }
}

/// A pattern that could not be compiled into a matcher.
#[derive(Debug)]
pub struct PatternError {
    pub pattern: String,
}

/// Whether `regex::Regex::new` accepts `pattern`.
pub uninterp spec fn regex_compiles(pattern: Seq<char>) -> bool;

/// Relies on `regex::Regex::new`, which compiles a pattern or reports why it cannot; which
/// of the two depends on the pattern alone.
#[verifier::external_body]
fn compile(pattern: &str) -> (r: Result<regex::Regex, regex::Error>)
    ensures
        r is Ok <==> regex_compiles(pattern@),
{
    regex::Regex::new(pattern)
}

/// One forbidden pattern, compiled. Its view is the pattern's text; the compiled form is
/// only ever made from that text, by `Matcher::new`.
pub struct Matcher {
    text: String,
    re: regex::Regex,
}

impl View for Matcher {
    type V = Seq<char>;

    closed spec fn view(&self) -> Seq<char> {
        self.text@
    }
}

impl Matcher {
    /// Compiles `pattern`; an invalid one is reported with its text.
    pub fn new(pattern: &str) -> (r: Result<Matcher, PatternError>)
        ensures
            r is Ok <==> regex_compiles(pattern@),
            r matches Ok(m) ==> m@ == pattern@,
            r matches Err(e) ==> e.pattern@ == pattern@,
    {
        match compile(pattern) {
            Ok(re) => Ok(Matcher { text: String::from_str(pattern), re }),
            Err(_) => Err(PatternError { pattern: String::from_str(pattern) }),
        }
    }

    /// The pattern's text.
    pub fn as_str(&self) -> (r: &str)
        ensures
            r@ == self@,
    {
        self.text.as_str()
    }

    /// Relies on `regex::Regex::is_match` on the expression compiled from `self@`: whether
    /// it matches anywhere in `haystack`. A pattern of letters and digits is a literal.
    #[verifier::external_body]
    fn is_match(&self, haystack: &str) -> (r: bool)
        ensures
            r == regex_finds(self@, haystack@),
            is_plain(self@) ==> (r == has_sub(haystack@, self@)),
    {
        self.re.is_match(haystack)
    }
}

/// Some pattern of `pats` finds a match in `s`.
pub open spec fn any_finds(pats: Seq<Seq<char>>, s: Seq<char>) -> bool {
    exists|i: int| 0 <= i < pats.len() && regex_finds(#[trigger] pats[i], s)
}

/// Some pattern of `pats` occurs in `s` as a substring.
pub open spec fn any_occurs(pats: Seq<Seq<char>>, s: Seq<char>) -> bool {
    exists|i: int| 0 <= i < pats.len() && has_sub(s, #[trigger] pats[i])
}

/// Every pattern of `pats` is plain.
pub open spec fn all_plain(pats: Seq<Seq<char>>) -> bool {
    forall|i: int| 0 <= i < pats.len() ==> is_plain(#[trigger] pats[i])
}

/// The forbidden patterns of a run, compiled. Its view is the list of pattern texts.
pub struct ForbiddenSet {
    matchers: Vec<Matcher>,
}

impl View for ForbiddenSet {
    type V = Seq<Seq<char>>;

    closed spec fn view(&self) -> Seq<Seq<char>> {
        self.matchers@.map_values(|m: Matcher| m@)
    }
}

impl ForbiddenSet {
    /// The empty set: nothing is forbidden.
    pub fn empty() -> (r: ForbiddenSet)
        ensures
            r@ == Seq::<Seq<char>>::empty(),
    {
        let r = ForbiddenSet { matchers: Vec::new() };
        assert(r@ =~= Seq::<Seq<char>>::empty());
        r
    }

    /// Compiles each pattern in order; the first that does not compile is reported.
    pub fn from_patterns(patterns: &Vec<String>) -> (r: Result<ForbiddenSet, PatternError>)
        ensures
            r is Ok <==> forall|i: int| 0 <= i < patterns.len() ==> regex_compiles(#[trigger] patterns@[i]@),
            r matches Ok(f) ==> f@ == patterns@.map_values(|p: String| p@),
            r matches Err(e) ==> exists|i: int|
                0 <= i < patterns.len() && e.pattern@ == #[trigger] patterns@[i]@ && !regex_compiles(
                    patterns@[i]@,
                ) && forall|j: int| 0 <= j < i ==> regex_compiles(#[trigger] patterns@[j]@),
    {
        let mut matchers: Vec<Matcher> = Vec::new();
        let mut i: usize = 0;
        while i < patterns.len()
            invariant
                i <= patterns.len(),
                forall|j: int| 0 <= j < i ==> regex_compiles(#[trigger] patterns@[j]@),
                matchers@.map_values(|m: Matcher| m@) == patterns@.take(i as int).map_values(
                    |p: String| p@,
                ),
            decreases patterns.len() - i,
        {
            match Matcher::new(patterns[i].as_str()) {
                Ok(m) => {
                    let ghost prev = matchers@;
                    matchers.push(m);
                    proof {
                        assert(matchers@.map_values(|m: Matcher| m@) =~= prev.map_values(
                            |m: Matcher| m@,
                        ).push(patterns@[i as int]@));
                        assert(patterns@.take(i + 1) =~= patterns@.take(i as int).push(
                            patterns@[i as int],
                        ));
                        assert(patterns@.take(i + 1).map_values(|p: String| p@) =~= patterns@.take(
                            i as int,
                        ).map_values(|p: String| p@).push(patterns@[i as int]@));
                    }
                },
                Err(e) => {
                    return Err(e);
                },
            }
            i += 1;
        }
        assert(patterns@.take(i as int) =~= patterns@);
        Ok(ForbiddenSet { matchers })
    }

    /// The number of patterns.
    pub fn len(&self) -> (r: usize)
        ensures
            r == self@.len(),
    {
        self.matchers.len()
    }

    /// The text of the pattern at `i`.
    pub fn pattern(&self, i: usize) -> (r: &str)
        requires
            i < self@.len(),
        ensures
            r@ == self@[i as int],
    {
        self.matchers[i].as_str()
    }

    /// Whether any pattern of the set matches somewhere in `candidate`.
    pub fn matches_any(&self, candidate: &str) -> (r: bool)
        ensures
            r == any_finds(self@, candidate@),
            all_plain(self@) ==> (r == any_occurs(self@, candidate@)),
    {
        let mut i: usize = 0;
        while i < self.matchers.len()
            invariant
                i <= self.matchers@.len(),
                forall|j: int| 0 <= j < i ==> !regex_finds(#[trigger] self@[j], candidate@),
                forall|j: int| 0 <= j < i && is_plain(self@[j]) ==> !has_sub(candidate@, #[trigger] self@[j]),
            decreases self.matchers.len() - i,
        {
            if self.matchers[i].is_match(candidate) {
                assert(self@[i as int] == self.matchers@[i as int]@);
                return true;
            }
            assert(self@[i as int] == self.matchers@[i as int]@);
            i += 1;
        }
        false
    }
}

} // verus!
