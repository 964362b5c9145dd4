//! The builder of a search: a root directory and an ordered chain of
//! predicates, assembled by chained calls and consumed by a terminal
//! operation.

use vstd::prelude::*;
use crate::pattern::{regex_ok, regex_pattern_ok};
use crate::predicate::{
    chain_matches, eval_chain, models_of, Classify, Predicate, PredicateModel,
};

verus! {

/// What a search can fail with.
#[derive(Clone, Copy, PartialEq, Eq, Structural, Debug)]
pub enum FindError {
    /// The configured root does not exist when the search starts.
    RootNotFound,
    /// Enumerating a directory's children failed; the search is abandoned.
    TraversalIo,
    /// A pattern handed to the regex predicate does not compile.
    InvalidPattern,
}

/// A search configuration: the root to start from and the predicate chain,
/// grown by the chained calls below and consumed by a terminal operation.
pub struct Finder {
    directory: String,
    filters: Vec<Predicate>,
}

impl Finder {
    /// The configured root, as characters.
    pub closed spec fn dir(&self) -> Seq<char> {
        self.directory@
    }

    /// The models of the configured predicates, in registration order.
    pub closed spec fn preds(&self) -> Seq<PredicateModel> {
        models_of(self.filters@)
    }

    /// A fresh configuration rooted at `dir`, with no predicates.
    pub fn new(dir: String) -> (r: Finder)
        ensures
            r.dir() == dir@,
            r.preds() == Seq::<PredicateModel>::empty(),
    {
        let r = Finder { directory: dir, filters: Vec::new() };
        proof {
            assert(r.preds() =~= Seq::<PredicateModel>::empty());
        }
        r
    }

    /// Appends one predicate to the chain.
    fn push_pred(self, p: Predicate) -> (r: Finder)
        ensures
            r.dir() == self.dir(),
            r.preds() == self.preds().push(p@),
            r.preds().len() == self.preds().len() + 1,
            forall|j: int| 0 <= j < self.preds().len() ==> r.preds()[j] == self.preds()[j],
    {
        let mut f = self;
        let ghost before = f.filters@;
        f.filters.push(p);
        proof {
            assert(models_of(f.filters@) =~= models_of(before).push(p@));
        }
        f
    }

    /// Appends a caller's own classifier to the chain, leaving every earlier
    /// predicate in place. It is not evaluated here: like every predicate it
    /// is applied, through `classify`, when a terminal operation runs the
    /// search.
    pub fn filter(self, predicate: Box<dyn Classify>) -> (r: Finder)
        ensures
            r.dir() == self.dir(),
            r.preds().len() == self.preds().len() + 1,
            forall|j: int| 0 <= j < self.preds().len() ==> r.preds()[j] == self.preds()[j],
    {
        self.push_pred(Predicate::Custom(predicate))
    }

    /// Appends a predicate that keeps files whose path ends with `ext`,
    /// compared exactly (case-sensitive).
    pub fn has_extension(self, ext: String) -> (r: Finder)
        ensures
            r.dir() == self.dir(),
            r.preds() == self.preds().push(PredicateModel::HasExtension(ext@)),
    {
        self.push_pred(Predicate::HasExtension(ext))
    }

    /// Appends a predicate that keeps files whose path ends with `ext` once
    /// both are lowercased.
    pub fn has_extension_case_insensitive(self, ext: String) -> (r: Finder)
        ensures
            r.dir() == self.dir(),
            r.preds() == self.preds().push(PredicateModel::HasExtensionCaseInsensitive(ext@)),
    {
        self.push_pred(Predicate::HasExtensionCaseInsensitive(ext))
    }

    /// Appends a predicate that keeps files whose reported size is at most
    /// `bytes`; a file whose size could not be read is dropped.
    pub fn size_less_than_or_eq(self, bytes: u32) -> (r: Finder)
        ensures
            r.dir() == self.dir(),
            r.preds() == self.preds().push(PredicateModel::SizeLessThanOrEq(bytes)),
    {
        self.push_pred(Predicate::SizeLessThanOrEq(bytes))
    }

    /// Appends a predicate that keeps files whose reported size is at least
    /// `bytes`; a file whose size could not be read is dropped.
    pub fn size_greater_than_or_eq(self, bytes: u32) -> (r: Finder)
        ensures
            r.dir() == self.dir(),
            r.preds() == self.preds().push(PredicateModel::SizeGreaterThanOrEq(bytes)),
    {
        self.push_pred(Predicate::SizeGreaterThanOrEq(bytes))
    }

    /// Appends a predicate that keeps files whose base name contains a match
    /// of the pattern. The pattern must be known valid; `try_matches_regex`
    /// checks one first.
    pub fn matches_regex(self, pattern: &str) -> (r: Finder)
        requires
            regex_ok(pattern@),
        ensures
            r.dir() == self.dir(),
            r.preds() == self.preds().push(PredicateModel::MatchesRegex(pattern@)),
    {
        self.push_pred(Predicate::MatchesRegex(pattern.to_owned()))
    }

    /// Compiles `pattern` once, eagerly: a configuration mistake is caught
    /// here, before any traversal. On success the predicate is appended as
    /// `matches_regex` does; an invalid pattern is the only failure.
    pub fn try_matches_regex(self, pattern: &str) -> (r: Result<Finder, FindError>)
        ensures
            regex_ok(pattern@) ==> (r matches Ok(f) && f.dir() == self.dir() && f.preds()
                == self.preds().push(PredicateModel::MatchesRegex(pattern@))),
            !regex_ok(pattern@) ==> r == Result::<Finder, FindError>::Err(
                FindError::InvalidPattern,
            ),
    {
        if regex_pattern_ok(pattern) {
            Ok(self.matches_regex(pattern))
        } else {
            Err(FindError::InvalidPattern)
        }
    }

    /// The configured root, so that a terminal operation's driver can test
    /// whether it exists before starting.
    pub fn root(&self) -> (r: &String)
        ensures
            r@ == self.dir(),
    {
        &self.directory
    }

    /// Whether the file at `file_str`, with the reported `size`, passes
    /// every predicate of the chain.
    pub fn meets_filter_criteria(&self, file_str: &String, size: Option<u64>) -> (r: bool)
        ensures
            r == chain_matches(self.preds(), file_str@, size),
    {
        eval_chain(&self.filters, file_str.as_str(), size)
    }

    /// Hands the configuration over to a terminal operation.
    pub(crate) fn into_parts(self) -> (r: (String, Vec<Predicate>))
        ensures
            r.0@ == self.dir(),
            models_of(r.1@) == self.preds(),
    {
        (self.directory, self.filters)
    }
}

} // verus!
