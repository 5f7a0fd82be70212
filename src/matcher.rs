//! Compiled regular expressions, through the `regex` crate.
use vstd::prelude::*;

verus! {

#[verifier::external_type_specification]
#[verifier::external_body]
pub struct ExRegex(regex::Regex);

/// What the regular expression written `pattern` captures in `hay` at its leftmost match: for
/// each group, in the order of its opening parenthesis (group 0 being the whole match), the byte
/// offset in `hay` where it starts and its text, or `None` where the group took no part in the
/// match. `None` where `pattern` matches nowhere in `hay`.
pub uninterp spec fn regex_captures(pattern: Seq<char>, hay: Seq<char>) -> Option<
    Seq<Option<(nat, Seq<char>)>>,
>;

/// Whether `pattern` compiles as a regular expression (valid, and within the default size
/// limit).
pub uninterp spec fn regex_compiles(pattern: Seq<char>) -> bool;

/// The model of what `Matcher::captures` hands back.
pub open spec fn captures_view(c: Option<Vec<Option<(usize, String)>>>) -> Option<
    Seq<Option<(nat, Seq<char>)>>,
> {
    match c {
        Some(groups) => Some(
            groups@.map_values(
                |g: Option<(usize, String)>|
                    match g {
                        Some(m) => Some((m.0 as nat, m.1@)),
                        None => None,
                    },
            ),
        ),
        None => None,
    }
}

/// A regular expression together with the text it was compiled from. Only `compile` builds one,
/// so `re` is always `source` compiled.
pub struct Matcher {
    source: String,
    re: regex::Regex,
}

impl Matcher {
    /// The text this expression was compiled from.
    pub closed spec fn pattern(&self) -> Seq<char> {
        self.source@
    }

    /// Relies on `regex::Regex::new`: it compiles `source`, or fails on an invalid or oversized
    /// pattern.
    #[verifier::external_body]
    pub(crate) fn compile(source: &str) -> (r: Option<Matcher>)
        ensures
            r is Some == regex_compiles(source@),
            r matches Some(m) ==> m.pattern() == source@,
    {
        regex::Regex::new(source).ok().map(|re| Matcher { source: source.to_string(), re })
    }

    /// The text this expression was compiled from.
    pub fn as_str(&self) -> (r: &str)
        ensures
            r@ == self.pattern(),
    {
        self.source.as_str()
    }

    /// Relies on `regex::Regex::captures`, and `Captures::iter`: the groups of the leftmost match
    /// of this expression in `hay`, with their start offsets and texts.
    #[verifier::external_body]
    pub(crate) fn captures(&self, hay: &str) -> (r: Option<Vec<Option<(usize, String)>>>)
        ensures
            captures_view(r) == regex_captures(self.pattern(), hay@),
    {
        self.re.captures(hay).map(
            |c| c.iter().map(|g| g.map(|m| (m.start(), m.as_str().to_string()))).collect(),
        )
    }
}

} // verus!
