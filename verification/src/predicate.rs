//! The predicate chain: boolean classifiers over a candidate file, composed
//! by conjunction.
//!
//! A candidate is judged from its path string and from its size as reported
//! by the caller, `None` standing for a metadata lookup that failed. A failed
//! lookup makes a size predicate false; it never aborts an evaluation.

use vstd::prelude::*;
use crate::paths::{base_name, base_name_of, str_ends_with, suffix_of};
use crate::pattern::{lower_of, regex_find, regex_match, regex_ok, to_lower};

verus! {

/// A user-supplied classifier of file paths. `spec_classify` states what the
/// classifier holds of a path; `classify` must answer accordingly.
pub trait Classify {
    spec fn spec_classify(&self, path: Seq<char>) -> bool;

    fn classify(&self, path: &str) -> (r: bool)
        ensures
            r == self.spec_classify(path@),
    ;
}

/// One link of the chain.
pub enum Predicate {
    /// The path ends with the given suffix, compared exactly.
    HasExtension(String),
    /// The lowercased path ends with the lowercased suffix.
    HasExtensionCaseInsensitive(String),
    /// The reported size is known and at most the bound.
    SizeLessThanOrEq(u32),
    /// The reported size is known and at least the bound.
    SizeGreaterThanOrEq(u32),
    /// The pattern is found within the path's base name.
    MatchesRegex(String),
    /// A caller's own classifier.
    Custom(Box<dyn Classify>),
}

/// The mathematical form of a predicate.
#[verifier::ext_equal]
pub enum PredicateModel {
    HasExtension(Seq<char>),
    HasExtensionCaseInsensitive(Seq<char>),
    SizeLessThanOrEq(u32),
    SizeGreaterThanOrEq(u32),
    MatchesRegex(Seq<char>),
    Custom(spec_fn(Seq<char>) -> bool),
}

/// The model of a caller's classifier: what `spec_classify` holds of each path.
pub open spec fn custom_model(c: &Box<dyn Classify>) -> spec_fn(Seq<char>) -> bool {
    |path: Seq<char>| c.spec_classify(path)
}

impl View for Predicate {
    type V = PredicateModel;

    open spec fn view(&self) -> PredicateModel {
        match self {
            Predicate::HasExtension(ext) => PredicateModel::HasExtension(ext@),
            Predicate::HasExtensionCaseInsensitive(ext) => PredicateModel::HasExtensionCaseInsensitive(
                ext@,
            ),
            Predicate::SizeLessThanOrEq(bytes) => PredicateModel::SizeLessThanOrEq(*bytes),
            Predicate::SizeGreaterThanOrEq(bytes) => PredicateModel::SizeGreaterThanOrEq(*bytes),
            Predicate::MatchesRegex(pattern) => PredicateModel::MatchesRegex(pattern@),
            Predicate::Custom(c) => PredicateModel::Custom(custom_model(c)),
        }
    }
}

/// The models of a sequence of predicates, in order.
pub open spec fn models_of(preds: Seq<Predicate>) -> Seq<PredicateModel> {
    Seq::new(preds.len(), |i: int| preds[i]@)
}

/// Whether one predicate accepts a file, given its path and its reported
/// size (`None` when the lookup failed).
pub open spec fn pred_matches(p: PredicateModel, path: Seq<char>, size: Option<u64>) -> bool {
    match p {
        PredicateModel::HasExtension(ext) => suffix_of(path, ext),
        PredicateModel::HasExtensionCaseInsensitive(ext) => suffix_of(
            lower_of(path),
            lower_of(ext),
        ),
        PredicateModel::SizeLessThanOrEq(bytes) => size matches Some(n) && n <= bytes as u64,
        PredicateModel::SizeGreaterThanOrEq(bytes) => size matches Some(n) && n >= bytes as u64,
        PredicateModel::MatchesRegex(pattern) => regex_ok(pattern) && regex_match(
            pattern,
            base_name_of(path),
        ),
        PredicateModel::Custom(f) => f(path),
    }
}

/// Whether every predicate of the chain accepts the file: the conjunction,
/// in registration order.
pub open spec fn chain_matches(ps: Seq<PredicateModel>, path: Seq<char>, size: Option<u64>) -> bool {
    forall|i: int| 0 <= i < ps.len() ==> pred_matches(ps[i], path, size)
}

/// Evaluates one predicate on a candidate file.
pub fn pred_eval(p: &Predicate, path: &str, size: Option<u64>) -> (r: bool)
    ensures
        r == pred_matches(p@, path@, size),
{
    match p {
        Predicate::HasExtension(ext) => str_ends_with(path, ext.as_str()),
        Predicate::HasExtensionCaseInsensitive(ext) => {
            let lower_path = to_lower(path);
            let lower_ext = to_lower(ext.as_str());
            str_ends_with(lower_path.as_str(), lower_ext.as_str())
        },
        Predicate::SizeLessThanOrEq(bytes) => match size {
            Some(n) => n <= *bytes as u64,
            None => false,
        },
        Predicate::SizeGreaterThanOrEq(bytes) => match size {
            Some(n) => n >= *bytes as u64,
            None => false,
        },
        Predicate::MatchesRegex(pattern) => regex_find(pattern.as_str(), base_name(path)),
        Predicate::Custom(c) => c.classify(path),
    }
}

/// Evaluates the whole chain on a candidate file, in registration order.
pub fn eval_chain(preds: &Vec<Predicate>, path: &str, size: Option<u64>) -> (r: bool)
    ensures
        r == chain_matches(models_of(preds@), path@, size),
{
    let mut i: usize = 0;
    while i < preds.len()
        invariant
            i <= preds@.len(),
            forall|j: int| 0 <= j < i ==> pred_matches(models_of(preds@)[j], path@, size),
        decreases preds@.len() - i,
    {
        if !pred_eval(&preds[i], path, size) {
            proof {
                assert(!pred_matches(models_of(preds@)[i as int], path@, size));
            }
            return false;
        }
        i += 1;
    }
    true
}

/// Law: a chain split in two parts passes a file exactly when each part
/// passes it on its own — the conjunction of predicates yields the
/// intersection of what each accepts.
pub proof fn lemma_chain_split(
    ps: Seq<PredicateModel>,
    qs: Seq<PredicateModel>,
    path: Seq<char>,
    size: Option<u64>,
)
    ensures
        chain_matches(ps + qs, path, size) == (chain_matches(ps, path, size) && chain_matches(
            qs,
            path,
            size,
        )),
{
    if chain_matches(ps + qs, path, size) {
        assert forall|i: int| 0 <= i < ps.len() implies pred_matches(ps[i], path, size) by {
            assert((ps + qs)[i] == ps[i]);
        }
        assert forall|i: int| 0 <= i < qs.len() implies pred_matches(qs[i], path, size) by {
            assert((ps + qs)[ps.len() + i] == qs[i]);
        }
    }
    if chain_matches(ps, path, size) && chain_matches(qs, path, size) {
        assert forall|i: int| 0 <= i < (ps + qs).len() implies pred_matches(
            (ps + qs)[i],
            path,
            size,
        ) by {
            if i < ps.len() {
                assert((ps + qs)[i] == ps[i]);
            } else {
                assert((ps + qs)[i] == qs[i - ps.len()]);
            }
        }
    }
}

/// Law: appending one predicate to a chain conjoins its test.
pub proof fn lemma_chain_push(
    ps: Seq<PredicateModel>,
    p: PredicateModel,
    path: Seq<char>,
    size: Option<u64>,
)
    ensures
        chain_matches(ps.push(p), path, size) == (chain_matches(ps, path, size) && pred_matches(
            p,
            path,
            size,
        )),
{
    assert(ps.push(p) =~= ps + seq![p]);
    lemma_chain_split(ps, seq![p], path, size);
    assert(seq![p][0] == p);
    if pred_matches(p, path, size) {
        assert forall|i: int| 0 <= i < seq![p].len() implies pred_matches(
            seq![p][i],
            path,
            size,
        ) by {
            assert(seq![p][i] == p);
        }
    }
}

/// Law: the registration order of two predicates does not change which
/// files pass the chain.
pub proof fn lemma_chain_order(
    ps: Seq<PredicateModel>,
    p: PredicateModel,
    q: PredicateModel,
    path: Seq<char>,
    size: Option<u64>,
)
    ensures
        chain_matches(ps.push(p).push(q), path, size) == chain_matches(
            ps.push(q).push(p),
            path,
            size,
        ),
{
    lemma_chain_push(ps, p, path, size);
    lemma_chain_push(ps.push(p), q, path, size);
    lemma_chain_push(ps, q, path, size);
    lemma_chain_push(ps.push(q), p, path, size);
}

/// Law: the empty chain passes every file.
pub proof fn lemma_empty_chain(path: Seq<char>, size: Option<u64>)
    ensures
        chain_matches(Seq::<PredicateModel>::empty(), path, size),
{
}

/// Law: a file whose size is exactly the bound passes both size predicates
/// with that bound.
pub proof fn lemma_size_boundary(bytes: u32, path: Seq<char>)
    ensures
        pred_matches(PredicateModel::SizeLessThanOrEq(bytes), path, Some(bytes as u64)),
        pred_matches(PredicateModel::SizeGreaterThanOrEq(bytes), path, Some(bytes as u64)),
{
}

} // verus!
