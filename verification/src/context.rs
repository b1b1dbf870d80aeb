//! Recursion depth and the visited set of one traversal.
//!
//! A [`NavigationContext`] counts how deep a traversal has descended and
//! remembers every canonical path it has met. [`NavigationContext::descend`]
//! goes one level down, or refuses at the maximum depth; the [`DepthGuard`]
//! it hands out gives the level back when it is dropped, however the scope
//! that holds it is left.
//!
//! A mark is never taken back: the visited set holds every file that the
//! traversal has met, not only the files on the way down to the current
//! one. A file that two references lead to therefore counts as a cycle when
//! the second reference is followed, although none goes round. This is the
//! simpler and the stricter of the two readings; a caller that wants the
//! other clears the set, or keeps a set of its own.

use vstd::prelude::*;
use vstd::hash_set::StringHashSet;
use crate::error::{TraversalError, TraversalErrorView};

verus! {

/// The maximum depth of a context made by [`NavigationContext::new`].
pub const DEFAULT_MAX_DEPTH: usize = 50;

/// A set of canonical paths.
pub struct VisitedSet {
    paths: StringHashSet,
}

impl View for VisitedSet {
    type V = Set<Seq<char>>;

    closed spec fn view(&self) -> Set<Seq<char>> {
        self.paths@
    }
}

impl VisitedSet {
    /// The empty set.
    pub fn new() -> (s: VisitedSet)
        ensures
            s@ == Set::<Seq<char>>::empty(),
    {
        VisitedSet { paths: StringHashSet::new() }
    }

    /// Whether `path` is in the set.
    pub fn contains(&self, path: &str) -> (b: bool)
        ensures
            b == self@.contains(path@),
    {
        self.paths.contains(path)
    }

    /// Adds `path`; returns whether it was new.
    pub fn insert(&mut self, path: String) -> (fresh: bool)
        ensures
            final(self)@ == old(self)@.insert(path@),
            fresh == !old(self)@.contains(path@),
    {
        self.paths.insert(path)
    }

    /// Removes every path.
    pub fn clear(&mut self)
        ensures
            final(self)@ == Set::<Seq<char>>::empty(),
    {
        self.paths.clear()
    }

    /// The number of paths in the set.
    pub fn len(&self) -> (n: usize)
        ensures
            n == self@.len(),
    {
        self.paths.len()
    }
}

/// The state of a traversal as the contracts see it.
pub struct NavState {
    /// How many levels the traversal is below its start.
    pub depth: nat,
    /// The deepest level that may be entered.
    pub max_depth: nat,
    /// The canonical paths met so far.
    pub visited: Set<Seq<char>>,
}

impl NavState {
    /// The state of a fresh context with the given limit.
    pub open spec fn initial(max_depth: nat) -> NavState {
        NavState { depth: 0, max_depth, visited: Set::empty() }
    }

    /// The invariant of a traversal: it is never deeper than its limit.
    pub open spec fn within_limit(self) -> bool {
        self.depth <= self.max_depth
    }

    /// Whether one more level may be entered.
    pub open spec fn can_descend(self) -> bool {
        self.depth < self.max_depth
    }

    /// The state one level further down.
    pub open spec fn descended(self) -> NavState {
        NavState { depth: self.depth + 1, ..self }
    }

    /// The state after a guard has given its level back: one level up, and
    /// never above the start.
    pub open spec fn released(self) -> NavState {
        NavState { depth: if self.depth > 0 { (self.depth - 1) as nat } else { 0 }, ..self }
    }

    /// The state after `path` was marked.
    pub open spec fn marked(self, path: Seq<char>) -> NavState {
        NavState { visited: self.visited.insert(path), ..self }
    }

    /// The state after `n` levels were entered one after the other.
    pub open spec fn descended_by(self, n: nat) -> NavState
        decreases n,
    {
        if n == 0 {
            self
        } else {
            self.descended_by((n - 1) as nat).descended()
        }
    }

    /// The state after `n` guards were released one after the other.
    pub open spec fn released_by(self, n: nat) -> NavState
        decreases n,
    {
        if n == 0 {
            self
        } else {
            self.released().released_by((n - 1) as nat)
        }
    }
}

/// Tracks the recursion depth and the visited paths of one traversal.
pub struct NavigationContext {
    depth: usize,
    max_depth: usize,
    visited: VisitedSet,
}

impl View for NavigationContext {
    type V = NavState;

    closed spec fn view(&self) -> NavState {
        NavState {
            depth: self.depth as nat,
            max_depth: self.max_depth as nat,
            visited: self.visited@,
        }
    }
}

/// Holds one level of recursion depth. While it lives, the context is
/// reached through [`DepthGuard::ctx`]; when it is dropped, the level is
/// given back.
pub struct DepthGuard<'a> {
    /// The context that this guard was taken from, one level down.
    pub ctx: &'a mut NavigationContext,
}

impl NavigationContext {
    /// A context at depth 0 with nothing visited and the default limit of 50 levels.
    pub fn new() -> (ctx: NavigationContext)
        ensures
            ctx@ == NavState::initial(DEFAULT_MAX_DEPTH as nat),
    {
        NavigationContext { depth: 0, max_depth: DEFAULT_MAX_DEPTH, visited: VisitedSet::new() }
    }

    /// A context at depth 0 with nothing visited and the given limit.
    pub fn with_max_depth(max_depth: usize) -> (ctx: NavigationContext)
        ensures
            ctx@ == NavState::initial(max_depth as nat),
    {
        NavigationContext { depth: 0, max_depth, visited: VisitedSet::new() }
    }

    /// The current recursion depth.
    pub fn depth(&self) -> (d: usize)
        ensures
            d == self@.depth,
    {
        self.depth
    }

    /// The deepest level that may be entered.
    pub fn max_depth(&self) -> (d: usize)
        ensures
            d == self@.max_depth,
    {
        self.max_depth
    }

    /// Whether the limit is reached, so that the next `descend` fails.
    pub fn at_max_depth(&self) -> (b: bool)
        ensures
            b == !self@.can_descend(),
    {
        self.depth >= self.max_depth
    }

    /// Goes one level down. Fails at the limit, and then leaves the context
    /// as it was. On success the guard holds the context, one level down,
    /// until it is dropped.
    pub fn descend(&mut self) -> (r: Result<DepthGuard<'_>, TraversalError>)
        ensures
            old(self)@.can_descend() <==> r is Ok,
            match r {
                Ok(guard) => {
                    &&& guard.ctx@ == old(self)@.descended()
                    &&& *final(self) == *final(guard.ctx)
                },
                Err(e) => {
                    &&& e@ is RecursionDepthExceeded
                    &&& e@->max_depth == old(self)@.max_depth
                    &&& *final(self) == *old(self)
                },
            },
    {
        if self.depth >= self.max_depth {
            return Err(TraversalError::RecursionDepthExceeded { max_depth: self.max_depth });
        }
        self.depth = self.depth + 1;
        Ok(DepthGuard { ctx: self })
    }

    /// Whether `path` was marked as visited.
    pub fn is_visited(&self, path: &str) -> (b: bool)
        ensures
            b == self@.visited.contains(path@),
    {
        self.visited.contains(path)
    }

    /// Marks `path` as visited; marking it again changes nothing.
    pub fn mark_visited(&mut self, path: String)
        ensures
            final(self)@ == old(self)@.marked(path@),
    {
        self.visited.insert(path);
    }

    /// Forgets every visited path; depth and limit stay.
    pub fn clear_visited(&mut self)
        ensures
            final(self)@ == (NavState { visited: Set::empty(), ..old(self)@ }),
    {
        self.visited.clear();
    }

    /// The number of visited paths.
    pub fn num_visited(&self) -> (n: usize)
        ensures
            n == self@.visited.len(),
    {
        self.visited.len()
    }

    /// The visited paths, as the cache takes them for its cycle check.
    pub fn visited(&self) -> (v: &VisitedSet)
        ensures
            v@ == self@.visited,
    {
        &self.visited
    }

    /// Replaces the limit; depth and visited paths stay.
    pub fn set_max_depth(&mut self, max_depth: usize)
        ensures
            final(self)@ == (NavState { max_depth: max_depth as nat, ..old(self)@ }),
    {
        self.max_depth = max_depth;
    }

    fn release(&mut self)
        ensures
            final(self)@ == old(self)@.released(),
        opens_invariants none
        no_unwind
    {
        if self.depth > 0 {
            self.depth = self.depth - 1;
        }
    }
}

impl Default for NavigationContext {
    fn default() -> (ctx: NavigationContext)
        ensures
            ctx@ == NavState::initial(DEFAULT_MAX_DEPTH as nat),
    {
        NavigationContext::new()
    }
}

impl<'a> Drop for DepthGuard<'a> {
    /// Gives the level back: the depth goes down by one and stops at 0.
    fn drop(&mut self)
        ensures
            final(self).ctx@ == old(self).ctx@.released(),
        opens_invariants none
        no_unwind
    {
        self.ctx.release();
    }
}

/// Entering `n` levels adds `n` to the depth and changes nothing else.
pub proof fn lemma_descended_by(s: NavState, n: nat)
    ensures
        s.descended_by(n) == (NavState { depth: s.depth + n, ..s }),
    decreases n,
{
    if n > 0 {
        lemma_descended_by(s, (n - 1) as nat);
    }
}

/// Releasing `n` guards takes `n` from the depth, stops at 0, and changes nothing else.
pub proof fn lemma_released_by(s: NavState, n: nat)
    ensures
        s.released_by(n) == (NavState {
            depth: if s.depth >= n { (s.depth - n) as nat } else { 0 },
            ..s
        }),
    decreases n,
{
    if n > 0 {
        lemma_released_by(s.released(), (n - 1) as nat);
    }
}

/// From a fresh context, every one of the first `max_depth` descents is
/// admitted, each from the depth that the ones before it reached; after
/// them the limit is reached and the next descent is refused.
pub proof fn lemma_limit_is_reached_after_max_descents(max_depth: nat, k: nat)
    requires
        k <= max_depth,
    ensures
        NavState::initial(max_depth).descended_by(k).depth == k,
        NavState::initial(max_depth).descended_by(k).within_limit(),
        k < max_depth ==> NavState::initial(max_depth).descended_by(k).can_descend(),
        !NavState::initial(max_depth).descended_by(max_depth).can_descend(),
{
    lemma_descended_by(NavState::initial(max_depth), k);
    lemma_descended_by(NavState::initial(max_depth), max_depth);
}

/// Releasing the guard of a descent undoes the descent: the depth goes down
/// by exactly one, and the state is the one before the descent.
pub proof fn lemma_release_undoes_descend(s: NavState)
    ensures
        s.descended().released() == s,
        s.descended().released().depth == s.descended().depth - 1,
{
}

/// Releasing as many guards as levels were entered restores the state from
/// before the first descent; a traversal that started at depth 0 ends there.
pub proof fn lemma_nested_guards_restore_depth(s: NavState, n: nat)
    ensures
        s.descended_by(n).released_by(n) == s,
        s.depth == 0 ==> s.descended_by(n).released_by(n).depth == 0,
{
    lemma_descended_by(s, n);
    lemma_released_by(s.descended_by(n), n);
}

/// The depth never passes the limit and never falls below 0: an admitted
/// descent, a release and a mark all keep a state within its limit.
pub proof fn lemma_transitions_keep_limit(s: NavState, path: Seq<char>)
    requires
        s.within_limit(),
    ensures
        s.can_descend() ==> s.descended().within_limit(),
        s.released().within_limit(),
        s.released().depth >= 0,
        s.marked(path).within_limit(),
{
}

/// Marking a path twice is the same as marking it once.
pub proof fn lemma_mark_is_idempotent(s: NavState, path: Seq<char>)
    ensures
        s.marked(path).marked(path) == s.marked(path),
        s.marked(path).visited.contains(path),
{
    assert(s.visited.insert(path).insert(path) =~= s.visited.insert(path));
}

} // verus!
