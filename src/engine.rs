//! The regular expression engine behind route matching.
//!
//! Every call into the `regex` crate stands in this module. The structs here
//! keep a compiled expression next to the source text it was built from; their
//! fields are private, and only the constructors below create them, so the
//! source recorded beside an expression is always the one it was compiled from.
use vstd::prelude::*;

verus! {

#[verifier::external_type_specification]
#[verifier::external_body]
pub struct ExRegex(regex::Regex);

#[verifier::external_type_specification]
#[verifier::external_body]
pub struct ExRegexSet(regex::RegexSet);

#[verifier::external_type_specification]
#[verifier::external_body]
pub struct ExRegexError(regex::Error);

/// Whether `regex::Regex::new` accepts `source`.
pub uninterp spec fn regex_compiles(source: Seq<char>) -> bool;

/// Whether `regex::RegexSet::new` accepts the list of sources.
pub uninterp spec fn set_compiles(sources: Seq<Seq<char>>) -> bool;

/// Whether the expression written as `source` matches somewhere in
/// `haystack`, as `regex::Regex::is_match` and `regex::RegexSet::matches`
/// both report it.
pub uninterp spec fn regex_matches(source: Seq<char>, haystack: Seq<char>) -> bool;

/// The capture groups, by position, of the first match of the expression
/// written as `source` in `haystack`; a group that took no part is `None`.
pub uninterp spec fn regex_captures(source: Seq<char>, haystack: Seq<char>) -> Option<
    Seq<Option<Seq<char>>>,
>;

/// The characters that have a meaning of their own in a regular expression.
pub open spec fn is_meta_character(c: char) -> bool {
    c == '\\' || c == '.' || c == '+' || c == '*' || c == '?' || c == '(' || c == ')' || c
        == '|' || c == '[' || c == ']' || c == '{' || c == '}' || c == '^' || c == '$' || c
        == '#' || c == '&' || c == '-' || c == '~'
}

/// `s` with a backslash put in front of every meta character.
pub open spec fn escaped(s: Seq<char>) -> Seq<char>
    decreases s.len(),
{
    if s.len() == 0 {
        Seq::empty()
    } else if is_meta_character(s.last()) {
        escaped(s.drop_last()) + seq!['\\', s.last()]
    } else {
        escaped(s.drop_last()) + seq![s.last()]
    }
}

/// The views of a list of strings.
pub open spec fn texts_view(v: Seq<String>) -> Seq<Seq<char>> {
    v.map_values(|s: String| s@)
}

/// The views of a list of optional strings.
pub open spec fn optional_texts_view(v: Seq<Option<String>>) -> Seq<Option<Seq<char>>> {
    v.map_values(
        |o: Option<String>|
            match o {
                Some(s) => Some(s@),
                None => None,
            },
    )
}

/// Relies on `regex::escape`, which puts a backslash before each character
/// for which `regex_syntax::is_meta_character` holds and copies the others.
#[verifier::external_body]
pub(crate) fn escape(text: &str) -> (r: String)
    ensures
        r@ == escaped(text@),
{
    regex::escape(text)
}

/// A compiled regular expression together with its source text.
#[derive(Debug)]
pub struct CompiledRegex {
    inner: regex::Regex,
    source: String,
}

impl CompiledRegex {
    /// The source text the expression was compiled from.
    pub closed spec fn source(&self) -> Seq<char> {
        self.source@
    }

    /// Relies on `regex::Regex::new`, which compiles `source` or reports why
    /// it cannot.
    #[verifier::external_body]
    pub(crate) fn new(source: &str) -> (r: Result<CompiledRegex, regex::Error>)
        ensures
            r is Ok <==> regex_compiles(source@),
            r is Ok ==> r->Ok_0.source() == source@,
    {
        regex::Regex::new(source).map(|inner| CompiledRegex { inner, source: source.to_string() })
    }

    /// Relies on `Clone` for `regex::Regex`, which yields the same expression.
    #[verifier::external_body]
    pub(crate) fn duplicate(&self) -> (r: CompiledRegex)
        ensures
            r.source() == self.source(),
    {
        CompiledRegex { inner: self.inner.clone(), source: self.source.clone() }
    }

    /// The source text the expression was compiled from.
    pub fn as_str(&self) -> (r: &str)
        ensures
            r@ == self.source(),
    {
        self.source.as_str()
    }

    /// Relies on `regex::Regex::is_match`, which reports whether the
    /// expression matches somewhere in the haystack.
    #[verifier::external_body]
    pub(crate) fn is_match(&self, haystack: &str) -> (r: bool)
        ensures
            r == regex_matches(self.source(), haystack@),
    {
        self.inner.is_match(haystack)
    }

    /// Relies on `regex::Regex::captures`, which returns the capture groups of
    /// the first match (group 0 being the whole match), and `None` exactly
    /// when the expression does not match the haystack.
    #[verifier::external_body]
    pub(crate) fn captures(&self, haystack: &str) -> (r: Option<Vec<Option<String>>>)
        ensures
            match r {
                Some(groups) => regex_matches(self.source(), haystack@) && regex_captures(
                    self.source(),
                    haystack@,
                ) == Some(optional_texts_view(groups@)),
                None => !regex_matches(self.source(), haystack@) && regex_captures(
                    self.source(),
                    haystack@,
                ) is None,
            },
    {
        self.inner.captures(haystack).map(
            |caps| caps.iter().map(|g| g.map(|m| m.as_str().to_string())).collect(),
        )
    }
}

/// A set of regular expressions that are matched against a haystack at once.
#[derive(Debug)]
pub struct RegexGroup {
    inner: regex::RegexSet,
    sources: Vec<String>,
}

impl RegexGroup {
    /// The sources of the expressions, in the order they were given.
    pub closed spec fn sources(&self) -> Seq<Seq<char>> {
        texts_view(self.sources@)
    }

    /// Relies on `regex::RegexSet::empty`, a set of no expressions.
    #[verifier::external_body]
    pub(crate) fn empty() -> (r: RegexGroup)
        ensures
            r.sources() == Seq::<Seq<char>>::empty(),
    {
        RegexGroup { inner: regex::RegexSet::empty(), sources: Vec::new() }
    }

    /// Relies on `regex::RegexSet::new`, which compiles the expressions into
    /// one set, numbered in the order given, or reports why it cannot.
    #[verifier::external_body]
    pub(crate) fn new(sources: Vec<String>) -> (r: Result<RegexGroup, regex::Error>)
        ensures
            r is Ok <==> set_compiles(texts_view(sources@)),
            r is Ok ==> r->Ok_0.sources() == texts_view(sources@),
    {
        regex::RegexSet::new(&sources).map(|inner| RegexGroup { inner, sources })
    }

    /// Relies on `regex::RegexSet::matches`, which reports the index of every
    /// expression of the set that matches the haystack, in ascending order.
    #[verifier::external_body]
    pub(crate) fn matches(&self, haystack: &str) -> (r: Vec<usize>)
        ensures
            forall|a: int, b: int| 0 <= a < b < r.len() ==> r[a] < r[b],
            forall|a: int| 0 <= a < r.len() ==> r[a] < self.sources().len(),
            forall|k: int|
                0 <= k < self.sources().len() ==> (regex_matches(self.sources()[k], haystack@)
                    <==> r@.contains(k as usize)),
    {
        self.inner.matches(haystack).into_iter().collect()
    }
}

} // verus!
