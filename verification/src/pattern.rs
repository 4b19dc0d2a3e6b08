//! Compiled regular expressions (the `regex` crate), seen by the rest of the
//! library only through the pattern text they were built from.

use vstd::prelude::*;

verus! {

#[verifier::external_type_specification]
#[verifier::external_body]
pub struct ExRegex(regex::Regex);

/// Whether `regex::Regex::new` accepts `pattern`.
pub uninterp spec fn regex_compiles(pattern: Seq<char>) -> bool;

/// What `regex::Regex::find` reports for `pattern` on `text`: the text before
/// the leftmost-first match, and the matched text itself.
pub uninterp spec fn regex_first_match(pattern: Seq<char>, text: Seq<char>) -> Option<(Seq<char>, Seq<char>)>;

/// The message `regex::Error` displays for a source the crate rejects.
pub uninterp spec fn regex_error_text(pattern: Seq<char>) -> Seq<char>;

/// The matches `regex::Regex::find_iter` reports for `pattern` on `text`,
/// in order, each as the text before it and the matched text.
pub uninterp spec fn regex_matches(pattern: Seq<char>, text: Seq<char>) -> Seq<(Seq<char>, Seq<char>)>;

/// The groups `regex::Regex::captures` reports for `pattern` on `text`
/// (group 0 is the whole match; a group that took no part is `None`), or
/// `None` when nothing matches.
pub uninterp spec fn regex_captures(pattern: Seq<char>, text: Seq<char>) -> Option<Seq<Option<Seq<char>>>>;

pub open spec fn pairs_text(v: Seq<(String, String)>) -> Seq<(Seq<char>, Seq<char>)> {
    v.map_values(|p: (String, String)| (p.0@, p.1@))
}

pub open spec fn groups_text(v: Seq<Option<String>>) -> Seq<Option<Seq<char>>> {
    v.map_values(|g: Option<String>| match g {
        Some(t) => Some(t@),
        None => None,
    })
}

/// A regular expression, compiled once from its source text.
pub struct Pattern {
    source: String,
    compiled: regex::Regex,
}

impl View for Pattern {
    type V = Seq<char>;

    closed spec fn view(&self) -> Seq<char> {
        self.source@
    }
}

impl Pattern {
    /// Compile `source` with `regex::Regex::new`; the error's message
    /// (`regex::Error`'s `Display`) when the crate rejects it. The contract
    /// claims only that success is what the crate decides, that the message
    /// is the one the crate gives for that source, and that the pattern
    /// remembers its source.
    #[verifier::external_body]
    pub fn compile(source: &str) -> (r: Result<Pattern, String>)
        ensures
            r is Ok <==> regex_compiles(source@),
            r matches Ok(p) ==> p@ == source@,
            r matches Err(e) ==> e@ == regex_error_text(source@),
    {
        match regex::Regex::new(source) {
            Ok(compiled) => Ok(Pattern { source: source.to_string(), compiled }),
            Err(e) => Err(e.to_string()),
        }
    }

    /// Compile `source`; `None` when the regex crate rejects it.
    pub fn new(source: &str) -> (r: Option<Pattern>)
        ensures
            r is Some <==> regex_compiles(source@),
            r matches Some(p) ==> p@ == source@,
    {
        match Pattern::compile(source) {
            Ok(p) => Some(p),
            Err(_) => None,
        }
    }

    /// `regex::Regex::find` on `text`: the text before the first match and the
    /// match itself. The contract claims the result is the named outcome for
    /// this pattern and text, and (as the crate documents `Match::as_str` to be
    /// `&text[start..end]`) that the two pieces are consecutive text from the
    /// start of `text`.
    #[verifier::external_body]
    pub fn first_match(&self, text: &str) -> (r: Option<(String, String)>)
        ensures
            r matches Some((b, m)) ==> regex_first_match(self@, text@) == Some((b@, m@)),
            r is None ==> regex_first_match(self@, text@) is None,
            r matches Some((b, m)) ==> b@.len() + m@.len() <= text@.len() && text@.take(
                (b@.len() + m@.len()) as int,
            ) == b@ + m@,
    {
        match self.compiled.find(text) {
            Some(m) => Some((text[..m.start()].to_string(), m.as_str().to_string())),
            None => None,
        }
    }

    /// `regex::Regex::find_iter` on `text`: each match as the text before it
    /// and the matched text. The contract claims the list is the named
    /// outcome for this pattern and text, and (as the crate documents
    /// `Match::as_str` to be `&text[start..end]`) that each match's two
    /// pieces are consecutive text from the start of `text`.
    #[verifier::external_body]
    pub fn all_matches(&self, text: &str) -> (r: Vec<(String, String)>)
        ensures
            pairs_text(r@) == regex_matches(self@, text@),
            forall|i: int|
                0 <= i < r@.len() ==> (#[trigger] r@[i]).0@.len() + r@[i].1@.len() <= text@.len() && text@.take(
                    (r@[i].0@.len() + r@[i].1@.len()) as int,
                ) == r@[i].0@ + r@[i].1@,
    {
        self.compiled.find_iter(text).map(|m| (text[..m.start()].to_string(), m.as_str().to_string())).collect()
    }

    /// `regex::Regex::captures` on `text`: the text of each group (`None` for
    /// a group that took no part). The contract claims the groups are the
    /// named outcome for this pattern and text, and (as the crate documents
    /// `Captures::len` to count the whole match as group 0) that there is at
    /// least one.
    #[verifier::external_body]
    pub fn captures(&self, text: &str) -> (r: Option<Vec<Option<String>>>)
        ensures
            match r {
                Some(g) => regex_captures(self@, text@) == Some(groups_text(g@)) && g@.len() >= 1,
                None => regex_captures(self@, text@) is None,
            },
    {
        self.compiled.captures(text).map(|c| c.iter().map(|g| g.map(|m| m.as_str().to_string())).collect())
    }
}

} // verus!
