//! The traversal engine: a breadth-first walk over the directory tree,
//! bounded by a depth, one queue level at a time.
//!
//! The engine owns every decision of the walk — what to examine next,
//! whether a directory may be expanded, which files are kept — while the
//! caller performs the filesystem work and reports what it saw: the walk is
//! driven by calling `next_path`, examining that entry, and handing the
//! observation to `process`.

use vstd::prelude::*;
use std::collections::VecDeque;
use crate::finder::{FindError, Finder};
use crate::predicate::{chain_matches, eval_chain, models_of, Predicate, PredicateModel};

verus! {

/// The views of a sequence of strings, in order.
pub open spec fn views_of_strings(s: Seq<String>) -> Seq<Seq<char>> {
    Seq::new(s.len(), |i: int| s[i]@)
}

/// What the caller observed the front entry of the queue to be.
pub enum EntryInfo {
    /// A directory, with the children the caller enumerated. They are
    /// enqueued only while the depth bound allows it; `expand_allowed` says
    /// whether enumerating them is called for at all.
    Directory(Vec<String>),
    /// A file, with its size where the metadata lookup succeeded and `None`
    /// where it failed.
    File(Option<u64>),
    /// Neither a directory nor a file (a broken link, say): dropped.
    Other,
}

/// A running breadth-first search. The queue holds the paths still to be
/// examined; all entries of the current level stand before all entries of
/// the next, and `level` counts how many of the former are left.
pub struct Traversal {
    queue: VecDeque<String>,
    level_remaining: usize,
    curr_depth: u32,
    max_depth: u32,
    filters: Vec<Predicate>,
    results: Vec<String>,
}

impl Finder {
    /// Begins a search bounded by `depth`. The caller reports whether the
    /// root exists; a missing root is refused here, with `RootNotFound`,
    /// and nothing is traversed.
    pub fn start_find(self, depth: u32, root_exists: bool) -> (r: Result<Traversal, FindError>)
        ensures
            !root_exists ==> r == Result::<Traversal, FindError>::Err(FindError::RootNotFound),
            root_exists ==> (r matches Ok(t) && t.inv() && t.queue_model() == seq![self.dir()]
                && t.depth() == 0 && t.bound() == depth && t.preds() == self.preds()
                && t.results_model() == Seq::<Seq<char>>::empty() && t.level() == 1),
    {
        if !root_exists {
            return Err(FindError::RootNotFound);
        }
        let ghost dir_view = self.dir();
        let (directory, filters) = self.into_parts();
        let mut queue: VecDeque<String> = VecDeque::new();
        queue.push_back(directory);
        let t = Traversal {
            queue,
            level_remaining: 1,
            curr_depth: 0,
            max_depth: depth,
            filters,
            results: Vec::new(),
        };
        proof {
            assert(t.queue_model() =~= seq![dir_view]);
            assert(t.results_model() =~= Seq::<Seq<char>>::empty());
        }
        Ok(t)
    }
}

impl Traversal {
    /// The paths still to be examined, front first.
    pub closed spec fn queue_model(&self) -> Seq<Seq<char>> {
        views_of_strings(self.queue@)
    }

    /// The matching files found so far, in discovery order.
    pub closed spec fn results_model(&self) -> Seq<Seq<char>> {
        views_of_strings(self.results@)
    }

    /// The level counter: how many directory-enumeration steps separate the
    /// entries now at the front of the queue from the root.
    pub closed spec fn depth(&self) -> u32 {
        self.curr_depth
    }

    /// The configured depth bound.
    pub closed spec fn bound(&self) -> u32 {
        self.max_depth
    }

    /// The models of the predicates the search was configured with.
    pub closed spec fn preds(&self) -> Seq<PredicateModel> {
        models_of(self.filters@)
    }

    /// How many entries of the current level are still queued.
    pub closed spec fn level(&self) -> int {
        self.level_remaining as int
    }

    /// The queue never holds fewer entries than the current level still
    /// owes, and owes at least one entry while it is non-empty.
    pub closed spec fn inv(&self) -> bool {
        self.level_remaining <= self.queue@.len() && (self.queue@.len() > 0
            ==> self.level_remaining > 0)
    }

    /// True when the queue is exhausted and the search is over.
    pub fn done(&self) -> (r: bool)
        ensures
            r == (self.queue_model().len() == 0),
    {
        self.queue.len() == 0
    }

    /// The path the caller must examine next: the front of the queue, or
    /// `None` when the search is over.
    pub fn next_path(&self) -> (r: Option<String>)
        ensures
            self.queue_model().len() == 0 ==> r is None,
            self.queue_model().len() > 0 ==> (r matches Some(p) && p@ == self.queue_model()[0]),
    {
        if self.queue.len() == 0 {
            None
        } else {
            Some(self.queue[0].clone())
        }
    }

    /// Whether a directory at the front would have its children enumerated:
    /// only while the level counter has not passed the bound. Beyond it the
    /// caller must not enumerate anything, so that no filesystem work — and
    /// no enumeration failure — happens past the bound.
    pub fn expand_allowed(&self) -> (r: bool)
        ensures
            r == (self.depth() <= self.bound()),
    {
        self.curr_depth <= self.max_depth
    }

    /// Consumes the front entry of the queue, as the caller observed it.
    ///
    /// A directory's children join the back of the queue exactly when the
    /// level counter is within the bound. A file is kept exactly when the
    /// whole predicate chain passes it; the return value reports that, so a
    /// caller that prints matches as they are found can do so. Anything
    /// else is dropped. When the entry was the last of its level, the level
    /// counter moves one step deeper and the next level is measured.
    pub fn process(&mut self, info: EntryInfo) -> (matched: bool)
        requires
            old(self).inv(),
            old(self).queue_model().len() > 0,
        ensures
            final(self).inv(),
            final(self).bound() == old(self).bound(),
            final(self).preds() == old(self).preds(),
            (match info {
                EntryInfo::Directory(children) => if old(self).depth() <= old(self).bound() {
                    final(self).queue_model() == old(self).queue_model().drop_first()
                        + views_of_strings(children@)
                } else {
                    final(self).queue_model() == old(self).queue_model().drop_first()
                },
                _ => final(self).queue_model() == old(self).queue_model().drop_first(),
            }),
            (match info {
                EntryInfo::File(size) => {
                    &&& matched == chain_matches(
                        old(self).preds(),
                        old(self).queue_model()[0],
                        size,
                    )
                    &&& final(self).results_model() == (if matched {
                        old(self).results_model().push(old(self).queue_model()[0])
                    } else {
                        old(self).results_model()
                    })
                },
                _ => !matched && final(self).results_model() == old(self).results_model(),
            }),
            old(self).level() > 1 ==> final(self).depth() == old(self).depth()
                && final(self).level() == old(self).level() - 1,
            old(self).level() == 1 ==> final(self).level() == final(self).queue_model().len()
                && (old(self).depth() < u32::MAX ==> final(self).depth() == old(self).depth() + 1)
                && (old(self).depth() == u32::MAX ==> final(self).depth() == u32::MAX),
    {
        let path = self.queue.pop_front().unwrap();
        self.level_remaining = self.level_remaining - 1;
        let ghost popped = self.queue@;
        let mut matched = false;
        match info {
            EntryInfo::Directory(children) => {
                if self.curr_depth <= self.max_depth {
                    let mut k: usize = 0;
                    while k < children.len()
                        invariant
                            k <= children@.len(),
                            self.queue@ == popped + children@.subrange(0, k as int),
                            self.level_remaining == old(self).level_remaining - 1,
                            self.curr_depth == old(self).curr_depth,
                            self.max_depth == old(self).max_depth,
                            self.filters == old(self).filters,
                            self.results == old(self).results,
                        decreases children@.len() - k,
                    {
                        self.queue.push_back(children[k].clone());
                        proof {
                            assert(self.queue@ =~= popped + children@.subrange(0, k + 1));
                        }
                        k += 1;
                    }
                    proof {
                        assert(children@.subrange(0, children@.len() as int) =~= children@);
                        assert(self.queue_model() =~= old(self).queue_model().drop_first()
                            + views_of_strings(children@));
                    }
                } else {
                    proof {
                        assert(self.queue_model() =~= old(self).queue_model().drop_first());
                    }
                }
            },
            EntryInfo::File(size) => {
                proof {
                    assert(self.queue_model() =~= old(self).queue_model().drop_first());
                }
                if eval_chain(&self.filters, path.as_str(), size) {
                    matched = true;
                    let ghost results_before = self.results@;
                    self.results.push(path);
                    proof {
                        assert(self.results_model() =~= views_of_strings(results_before).push(
                            old(self).queue_model()[0],
                        ));
                    }
                }
            },
            EntryInfo::Other => {
                proof {
                    assert(self.queue_model() =~= old(self).queue_model().drop_first());
                }
            },
        }
        if self.level_remaining == 0 {
            if self.curr_depth < u32::MAX {
                self.curr_depth = self.curr_depth + 1;
            }
            self.level_remaining = self.queue.len();
        }
        matched
    }

    /// Ends the search and hands back the matching files, in the order they
    /// were found.
    pub fn into_results(self) -> (r: Vec<String>)
        ensures
            views_of_strings(r@) == self.results_model(),
    {
        self.results
    }
}

} // verus!
