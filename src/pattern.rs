use vstd::prelude::*;

verus! {

/// Whether `regex::Regex::new` accepts `src`.
pub uninterp spec fn regex_compiles(src: Seq<char>) -> bool;

/// The names of the capture groups of `src`, by group index (`None` for an
/// unnamed group), as `regex::Regex::capture_names` lists them.
pub uninterp spec fn regex_group_names(src: Seq<char>) -> Seq<Option<Seq<char>>>;

/// The text of each capture group of the leftmost match of `src` in `text`,
/// by group index, or `None` when `src` does not match `text`.
pub uninterp spec fn regex_captures(src: Seq<char>, text: Seq<char>) -> Option<Seq<Option<Seq<char>>>>;

/// Whether `src` matches somewhere in `text`.
pub uninterp spec fn regex_is_match(src: Seq<char>, text: Seq<char>) -> bool;

#[verifier::external_type_specification]
#[verifier::external_body]
pub struct ExRegex(regex::Regex);

/// A compiled regular expression together with its source text.
#[derive(Debug)]
pub struct Pattern {
    source: String,
    compiled: regex::Regex,
}

/// The views of optional strings.
pub open spec fn opt_views(v: Seq<Option<String>>) -> Seq<Option<Seq<char>>> {
    v.map_values(|o: Option<String>| match o {
        Some(s) => Some(s@),
        None => None,
    })
}

impl Pattern {
    /// The source text the pattern was compiled from.
    pub closed spec fn source(&self) -> Seq<char> {
        self.source@
    }

    /// Relies on `regex::Regex::new`: compiles `src`, or gives the error's text.
    #[verifier::external_body]
    pub(crate) fn compile(src: &String) -> (r: Result<Pattern, String>)
        ensures
            r is Ok <==> regex_compiles(src@),
            r is Ok ==> r->Ok_0.source() == src@,
    {
        match regex::Regex::new(src) {
            Ok(compiled) => Ok(Pattern { source: src.clone(), compiled }),
            Err(err) => Err(err.to_string()),
        }
    }

    /// Relies on `regex::Regex::capture_names`: the name of each group, by index.
    #[verifier::external_body]
    pub(crate) fn group_names(&self) -> (r: Vec<Option<String>>)
        ensures
            opt_views(r@) == regex_group_names(self.source()),
    {
        self.compiled.capture_names().map(|n| n.map(|s| s.to_string())).collect()
    }

    /// Relies on `regex::Regex::captures`: the text of each group of the
    /// leftmost match, by index.
    #[verifier::external_body]
    pub(crate) fn captures(&self, text: &String) -> (r: Option<Vec<Option<String>>>)
        ensures
            match r {
                Some(g) => regex_captures(self.source(), text@) == Some(opt_views(g@)),
                None => regex_captures(self.source(), text@) is None,
            },
    {
        self.compiled.captures(text).map(
            |c| c.iter().map(|m| m.map(|m| m.as_str().to_string())).collect(),
        )
    }

    /// Relies on `regex::Regex::is_match`.
    #[verifier::external_body]
    pub(crate) fn is_match(&self, text: &String) -> (r: bool)
        ensures
            r == regex_is_match(self.source(), text@),
    {
        self.compiled.is_match(text)
    }
}

} // verus!
