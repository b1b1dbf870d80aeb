//! Loading and caching mindmap files that references lead to.
//!
//! A [`MindmapCache`] keeps every file it has read, by canonical path, and
//! reads none twice. Before it touches a file it resolves the reference that
//! leads there: an absolute reference is refused, the target is made
//! canonical, and a canonical target outside the workspace root is refused.
//!
//! The cache does no file access of its own. The caller hands in the three
//! things that need the file system, as functions: one that makes a path
//! canonical, one that tells a file's size, one that reads a file. The
//! contracts say what the cache asks of them and what it does with each
//! answer, whatever the answer is.

use vstd::prelude::*;
use vstd::string::*;
use crate::context::VisitedSet;
use crate::error::{TraversalError, TraversalErrorView};
use crate::mindmap::{Mindmap, MindmapView};
use crate::path::{
    base_directory, base_directory_of, is_absolute, is_absolute_reference, is_within, join,
    joined, within,
};
use crate::text::option_text;

verus! {

/// The size limit of a cache made by [`MindmapCache::new`]: 10 MiB.
pub const DEFAULT_MAX_FILE_SIZE: u64 = 10 * 1024 * 1024;

/// The depth limit that a cache made by [`MindmapCache::new`] carries.
pub const DEFAULT_CACHE_MAX_DEPTH: usize = 50;

/// Loads mindmap files on demand and keeps them, each under its canonical path.
pub struct MindmapCache {
    cache: Vec<Mindmap>,
    workspace_root: String,
    max_file_size: u64,
    max_depth: usize,
}

/// How much a cache holds.
#[derive(Debug, Clone)]
pub struct CacheStats {
    /// The number of cached files.
    pub num_cached: usize,
    /// The number of nodes in all cached files together.
    pub total_nodes: usize,
}

/// The state of a cache as the contracts see it.
pub struct CacheView {
    /// The canonical workspace root: no file outside it is read.
    pub root: Seq<char>,
    /// The cached files, each with its canonical path, in the order of loading.
    pub files: Seq<MindmapView>,
    /// The size in bytes above which a file is refused.
    pub max_file_size: u64,
    /// A depth limit that the cache carries and does not itself enforce.
    pub max_depth: usize,
}

/// The number of nodes in `files` together.
pub open spec fn total_nodes(files: Seq<MindmapView>) -> nat
    decreases files.len(),
{
    if files.len() == 0 {
        0
    } else {
        total_nodes(files.drop_last()) + files.last().nodes.len()
    }
}

impl CacheView {
    /// Whether a file with the canonical path `path` is cached.
    pub open spec fn contains(self, path: Seq<char>) -> bool {
        exists|i: int| 0 <= i < self.files.len() && (#[trigger] self.files[i]).path == path
    }

    /// The position of the cached file with the canonical path `path`.
    pub open spec fn position(self, path: Seq<char>) -> int {
        choose|i: int| 0 <= i < self.files.len() && (#[trigger] self.files[i]).path == path
    }

    /// The cached file with the canonical path `path`.
    pub open spec fn file(self, path: Seq<char>) -> MindmapView {
        self.files[self.position(path)]
    }

    /// The invariant of a cache: no path is cached twice, every cached path
    /// lies within the workspace root, and every cached file is well formed.
    pub open spec fn wf(self) -> bool {
        &&& forall|i: int, j: int|
            0 <= i < j < self.files.len() ==> (#[trigger] self.files[i]).path != (
            #[trigger] self.files[j]).path
        &&& forall|i: int|
            0 <= i < self.files.len() ==> within((#[trigger] self.files[i]).path, self.root)
        &&& forall|i: int| 0 <= i < self.files.len() ==> (#[trigger] self.files[i]).wf()
    }

    /// The state with one more file.
    pub open spec fn with_file(self, file: MindmapView) -> CacheView {
        CacheView { files: self.files.push(file), ..self }
    }
}

/// The content of the result of resolving a path.
pub open spec fn resolved_view(r: Result<String, TraversalError>) -> Result<
    Seq<char>,
    TraversalErrorView,
> {
    match r {
        Ok(path) => Ok(path@),
        Err(e) => Err(e@),
    }
}

/// `answer` is what `canonicalize` gave when it was asked for `path`.
pub open spec fn canonical_answer<C: Fn(&str) -> Option<String>>(
    canonicalize: C,
    path: Seq<char>,
    answer: Option<Seq<char>>,
) -> bool {
    exists|asked: &str, given: Option<String>|
        asked@ == path && option_text(given) == answer && #[trigger] call_ensures(
            canonicalize,
            (asked,),
            given,
        )
}

/// `answer` is what `file_size` gave when it was asked for `path`.
pub open spec fn size_answer<S: Fn(&str) -> Option<u64>>(
    file_size: S,
    path: Seq<char>,
    answer: Option<u64>,
) -> bool {
    exists|asked: &str| asked@ == path && #[trigger] call_ensures(file_size, (asked,), answer)
}

/// `answer` is what `read` gave when it was asked for `path`.
pub open spec fn read_answer<R: Fn(&str) -> Option<String>>(
    read: R,
    path: Seq<char>,
    answer: Option<Seq<char>>,
) -> bool {
    exists|asked: &str, given: Option<String>|
        asked@ == path && option_text(given) == answer && #[trigger] call_ensures(
            read,
            (asked,),
            given,
        )
}

/// The canonical form of a path where there is one, else the path as given.
pub open spec fn or_as_given(canonical: Option<Seq<char>>, given: Seq<char>) -> Seq<char> {
    match canonical {
        Some(path) => path,
        None => given,
    }
}

/// What becomes of a reference once its target was, or could not be, made
/// canonical: without a canonical target it fails; with one outside the
/// root it is an escape; otherwise it resolves to the canonical target.
pub open spec fn resolution(
    root: Seq<char>,
    reference: Seq<char>,
    base_dir: Seq<char>,
    target: Option<Seq<char>>,
) -> Result<Seq<char>, TraversalErrorView> {
    match target {
        None => Err(TraversalErrorView::PathResolutionFailed { reference, base_dir }),
        Some(path) => if within(path, root) {
            Ok(path)
        } else {
            Err(TraversalErrorView::PathEscape { reference })
        },
    }
}

/// `outcome` is the result of resolving `reference`, found in `base_file`,
/// against `root`, with `canonicalize` for the file system.
///
/// An absolute reference is refused before anything is asked. Otherwise the
/// base directory is made canonical (and stands as it is where that fails),
/// the reference is joined to it, the joined path is made canonical, and
/// [`resolution`] decides.
pub open spec fn resolves_to<C: Fn(&str) -> Option<String>>(
    canonicalize: C,
    root: Seq<char>,
    base_file: Seq<char>,
    reference: Seq<char>,
    outcome: Result<Seq<char>, TraversalErrorView>,
) -> bool {
    if is_absolute_reference(reference) {
        outcome == Err::<Seq<char>, TraversalErrorView>(
            TraversalErrorView::AbsolutePathRejected { reference },
        )
    } else {
        let dir = base_directory(base_file, root);
        exists|canonical_dir: Option<Seq<char>>, target: Option<Seq<char>>|
            {
                &&& #[trigger] canonical_answer(canonicalize, dir, canonical_dir)
                &&& #[trigger] canonical_answer(
                    canonicalize,
                    joined(or_as_given(canonical_dir, dir), reference),
                    target,
                )
                &&& outcome == resolution(root, reference, dir, target)
            }
    }
}

/// The path whose size a load asks for: the resolved target, unless it is
/// visited or cached.
pub open spec fn stat_target(
    state: CacheView,
    visited: Set<Seq<char>>,
    resolved: Result<Seq<char>, TraversalErrorView>,
) -> Option<Seq<char>> {
    match resolved {
        Ok(path) => if !visited.contains(path) && !state.contains(path) {
            Some(path)
        } else {
            None
        },
        Err(_) => None,
    }
}

/// The path that a load reads: the one whose size it asked for, if the
/// answer was a size within the limit.
pub open spec fn read_target(
    state: CacheView,
    visited: Set<Seq<char>>,
    resolved: Result<Seq<char>, TraversalErrorView>,
    size: Option<u64>,
) -> Option<Seq<char>> {
    match size {
        Some(n) => if n <= state.max_file_size {
            stat_target(state, visited, resolved)
        } else {
            None
        },
        None => None,
    }
}

/// What a load does, given the answers it got: the result, and the cache afterwards.
///
/// A reference that does not resolve fails as resolving failed. A target in
/// the visited set is a cycle. A cached target is handed out, whatever
/// `size` and `content` are. Otherwise the size decides: unknown or above
/// the limit fails, whatever `content` is. Otherwise the content, where
/// there is one, is parsed and cached. Only that last case changes the cache.
pub open spec fn load_step(
    state: CacheView,
    base_file: Seq<char>,
    reference: Seq<char>,
    visited: Set<Seq<char>>,
    resolved: Result<Seq<char>, TraversalErrorView>,
    size: Option<u64>,
    content: Option<Seq<char>>,
) -> (Result<MindmapView, TraversalErrorView>, CacheView) {
    match resolved {
        Err(e) => (Err(e), state),
        Ok(path) => if visited.contains(path) {
            (Err(TraversalErrorView::CircularReference { base_file, reference }), state)
        } else if state.contains(path) {
            (Ok(state.file(path)), state)
        } else {
            match size {
                None => (Err(TraversalErrorView::StatFailed { path }), state),
                Some(n) => if n > state.max_file_size {
                    (
                        Err(
                            TraversalErrorView::FileTooLarge {
                                size: n,
                                limit: state.max_file_size,
                            },
                        ),
                        state,
                    )
                } else {
                    match content {
                        None => (Err(TraversalErrorView::ReadFailed { path }), state),
                        Some(text) => (
                            Ok(MindmapView::parsed(path, text)),
                            state.with_file(MindmapView::parsed(path, text)),
                        ),
                    }
                },
            }
        },
    }
}

/// The content of the result of a load.
pub open spec fn loaded_view(r: Result<&Mindmap, TraversalError>) -> Result<
    MindmapView,
    TraversalErrorView,
> {
    match r {
        Ok(mm) => Ok(mm@),
        Err(e) => Err(e@),
    }
}

impl View for MindmapCache {
    type V = CacheView;

    closed spec fn view(&self) -> CacheView {
        CacheView {
            root: self.workspace_root@,
            files: Seq::new(self.cache.len() as nat, |i: int| self.cache[i]@),
            max_file_size: self.max_file_size,
            max_depth: self.max_depth,
        }
    }
}

impl MindmapCache {
    /// The invariant of a cache; see [`CacheView::wf`].
    pub open spec fn wf(&self) -> bool {
        self@.wf()
    }

    /// An empty cache for the workspace at `workspace_root`, with the default
    /// limits. The root is made canonical once, here; where that fails it
    /// stands as given.
    pub fn new<C: Fn(&str) -> Option<String>>(workspace_root: String, canonicalize: C) -> (cache:
        MindmapCache)
        requires
            forall|p: &str| call_requires(canonicalize, (p,)),
        ensures
            cache.wf(),
            cache@.files.len() == 0,
            cache@.max_file_size == DEFAULT_MAX_FILE_SIZE,
            cache@.max_depth == DEFAULT_CACHE_MAX_DEPTH,
            exists|canonical: Option<Seq<char>>|
                {
                    &&& #[trigger] canonical_answer(canonicalize, workspace_root@, canonical)
                    &&& cache@.root == or_as_given(canonical, workspace_root@)
                },
    {
        let given = workspace_root.as_str();
        let answer = canonicalize(given);
        proof {
            assert(canonical_answer(canonicalize, workspace_root@, option_text(answer)));
        }
        let root = match answer {
            Some(root) => root,
            None => workspace_root,
        };
        MindmapCache {
            cache: Vec::new(),
            workspace_root: root,
            max_file_size: DEFAULT_MAX_FILE_SIZE,
            max_depth: DEFAULT_CACHE_MAX_DEPTH,
        }
    }

    /// The workspace root.
    pub fn workspace_root(&self) -> (root: &str)
        ensures
            root@ == self@.root,
    {
        self.workspace_root.as_str()
    }

    /// Decides what a reference resolves to, once its target was, or could
    /// not be, made canonical; see [`resolution`].
    pub fn check_target(
        &self,
        relative: &str,
        base_dir: &str,
        target: Option<String>,
    ) -> (r: Result<String, TraversalError>)
        ensures
            resolved_view(r) == resolution(
                self@.root,
                relative@,
                base_dir@,
                option_text(target),
            ),
    {
        match target {
            None => Err(
                TraversalError::PathResolutionFailed {
                    reference: relative.to_owned(),
                    base_dir: base_dir.to_owned(),
                },
            ),
            Some(path) => {
                if is_within(path.as_str(), self.workspace_root.as_str()) {
                    Ok(path)
                } else {
                    Err(TraversalError::PathEscape { reference: relative.to_owned() })
                }
            },
        }
    }

    /// Resolves the reference `relative`, found in `base_file`, to the
    /// canonical path of its target; see [`resolves_to`].
    ///
    /// A path that comes back lies within the workspace root. An absolute
    /// reference is refused without `canonicalize` being asked at all.
    pub fn resolve_path<C: Fn(&str) -> Option<String>>(
        &self,
        base_file: &str,
        relative: &str,
        canonicalize: C,
    ) -> (r: Result<String, TraversalError>)
        requires
            is_absolute_reference(relative@) || forall|p: &str|
                call_requires(canonicalize, (p,)),
        ensures
            resolves_to(canonicalize, self@.root, base_file@, relative@, resolved_view(r)),
            is_absolute_reference(relative@) ==> resolved_view(r) == Err::<
                Seq<char>,
                TraversalErrorView,
            >(TraversalErrorView::AbsolutePathRejected { reference: relative@ }),
            r matches Ok(path) ==> within(path@, self@.root),
    {
        if is_absolute(relative) {
            return Err(TraversalError::AbsolutePathRejected { reference: relative.to_owned() });
        }
        let dir = base_directory_of(base_file, self.workspace_root.as_str());
        let asked_dir = dir.as_str();
        let canonical_dir = canonicalize(asked_dir);
        proof {
            assert(canonical_answer(canonicalize, dir@, option_text(canonical_dir)));
        }
        let candidate = match &canonical_dir {
            Some(d) => join(d.as_str(), relative),
            None => join(asked_dir, relative),
        };
        let asked = candidate.as_str();
        let target = canonicalize(asked);
        let ghost answered_dir = option_text(canonical_dir);
        let ghost answered = option_text(target);
        proof {
            assert(canonical_answer(canonicalize, candidate@, answered));
            assert(candidate@ == joined(or_as_given(answered_dir, dir@), relative@));
        }
        let r = self.check_target(relative, asked_dir, target);
        proof {
            assert(canonical_answer(canonicalize, dir@, answered_dir) && canonical_answer(
                canonicalize,
                joined(or_as_given(answered_dir, dir@), relative@),
                answered,
            ) && resolved_view(r) == resolution(self@.root, relative@, dir@, answered));
        }
        r
    }

    fn find_cached(&self, path: &String) -> (r: Option<usize>)
        requires
            self.wf(),
        ensures
            match r {
                Some(i) => i < self@.files.len() && self@.files[i as int].path == path@
                    && self@.contains(path@) && self@.position(path@) == i,
                None => !self@.contains(path@),
            },
    {
        let mut i: usize = 0;
        while i < self.cache.len()
            invariant
                self.wf(),
                i <= self.cache.len(),
                forall|j: int| 0 <= j < i ==> (#[trigger] self@.files[j]).path != path@,
            decreases self.cache.len() - i,
        {
            if self.cache[i].path == *path {
                assert(self@.files[i as int].path == path@);
                return Some(i);
            }
            i = i + 1;
        }
        None
    }

    /// Loads the file that the reference `relative`, found in `base_file`,
    /// leads to, or hands out the cached one; see [`load_step`].
    ///
    /// `canonicalize` is not asked for an absolute reference, `file_size` is
    /// asked only for a path that is neither visited nor cached, and `read`
    /// only for a path whose size was found within the limit.
    pub fn load<C, S, R>(
        &mut self,
        base_file: &str,
        relative: &str,
        visited: &VisitedSet,
        canonicalize: C,
        file_size: S,
        read: R,
    ) -> (r: Result<&Mindmap, TraversalError>) where
        C: Fn(&str) -> Option<String>,
        S: Fn(&str) -> Option<u64>,
        R: Fn(&str) -> Option<String>,

        requires
            old(self).wf(),
            is_absolute_reference(relative@) || forall|p: &str|
                call_requires(canonicalize, (p,)),
            forall|p: &str|
                !old(self)@.contains(p@) && !visited@.contains(p@) ==> call_requires(
                    file_size,
                    (p,),
                ),
            forall|p: &str, n: u64|
                call_ensures(file_size, (p,), Some(n)) && n <= old(self)@.max_file_size
                    ==> call_requires(read, (p,)),
        ensures
            final(self).wf(),
            exists|
                resolved: Result<Seq<char>, TraversalErrorView>,
                size: Option<u64>,
                content: Option<Seq<char>>,
            |
                {
                    &&& resolves_to(
                        canonicalize,
                        old(self)@.root,
                        base_file@,
                        relative@,
                        resolved,
                    )
                    &&& match stat_target(old(self)@, visited@, resolved) {
                        Some(path) => size_answer(file_size, path, size),
                        None => true,
                    }
                    &&& match read_target(old(self)@, visited@, resolved, size) {
                        Some(path) => read_answer(read, path, content),
                        None => true,
                    }
                    &&& (loaded_view(r), final(self)@) == #[trigger] load_step(
                        old(self)@,
                        base_file@,
                        relative@,
                        visited@,
                        resolved,
                        size,
                        content,
                    )
                },
    {
        let ghost before = self@;
        let resolved = self.resolve_path(base_file, relative, canonicalize);
        let canonical = match resolved {
            Ok(path) => path,
            Err(e) => {
                proof {
                    let none_size: Option<u64> = None;
                    let none_text: Option<Seq<char>> = None;
                    assert((Err::<MindmapView, TraversalErrorView>(e@), self@) == load_step(
                        before,
                        base_file@,
                        relative@,
                        visited@,
                        Err(e@),
                        none_size,
                        none_text,
                    ));
                }
                return Err(e);
            },
        };
        if visited.contains(canonical.as_str()) {
            let e = TraversalError::CircularReference {
                base_file: base_file.to_owned(),
                reference: relative.to_owned(),
            };
            proof {
                let none_size: Option<u64> = None;
                let none_text: Option<Seq<char>> = None;
                assert((Err::<MindmapView, TraversalErrorView>(e@), self@) == load_step(
                    before,
                    base_file@,
                    relative@,
                    visited@,
                    Ok(canonical@),
                    none_size,
                    none_text,
                ));
            }
            return Err(e);
        }
        match self.find_cached(&canonical) {
            Some(i) => {
                proof {
                    let none_size: Option<u64> = None;
                    let none_text: Option<Seq<char>> = None;
                    assert((Ok::<MindmapView, TraversalErrorView>(self.cache[i as int]@), self@)
                        == load_step(
                        before,
                        base_file@,
                        relative@,
                        visited@,
                        Ok(canonical@),
                        none_size,
                        none_text,
                    ));
                }
                return Ok(&self.cache[i]);
            },
            None => {},
        }
        let asked = canonical.as_str();
        let size = file_size(asked);
        proof {
            assert(size_answer(file_size, canonical@, size));
        }
        let n = match size {
            Some(n) => n,
            None => {
                let e = TraversalError::StatFailed { path: canonical };
                proof {
                    let none_text: Option<Seq<char>> = None;
                    assert((Err::<MindmapView, TraversalErrorView>(e@), self@) == load_step(
                        before,
                        base_file@,
                        relative@,
                        visited@,
                        Ok(canonical@),
                        size,
                        none_text,
                    ));
                }
                return Err(e);
            },
        };
        if n > self.max_file_size {
            let e = TraversalError::FileTooLarge { size: n, limit: self.max_file_size };
            proof {
                let none_text: Option<Seq<char>> = None;
                assert((Err::<MindmapView, TraversalErrorView>(e@), self@) == load_step(
                    before,
                    base_file@,
                    relative@,
                    visited@,
                    Ok(canonical@),
                    size,
                    none_text,
                ));
            }
            return Err(e);
        }
        let content = read(asked);
        proof {
            assert(read_answer(read, canonical@, option_text(content)));
        }
        let text = match content {
            Some(text) => text,
            None => {
                let e = TraversalError::ReadFailed { path: canonical };
                proof {
                    assert((Err::<MindmapView, TraversalErrorView>(e@), self@) == load_step(
                        before,
                        base_file@,
                        relative@,
                        visited@,
                        Ok(canonical@),
                        size,
                        option_text(content),
                    ));
                }
                return Err(e);
            },
        };
        let mm = Mindmap::from_string(text.as_str(), canonical);
        let ghost added = mm@;
        self.cache.push(mm);
        let last = self.cache.len() - 1;
        proof {
            assert(self@.files =~= before.files.push(added));
            assert(self@ == before.with_file(added));
            assert((Ok::<MindmapView, TraversalErrorView>(added), self@) == load_step(
                before,
                base_file@,
                relative@,
                visited@,
                Ok(canonical@),
                size,
                option_text(content),
            ));
            assert forall|i: int, j: int| 0 <= i < j < self@.files.len() implies (
            #[trigger] self@.files[i]).path != (#[trigger] self@.files[j]).path by {
                if j == before.files.len() {
                    assert(before.files[i].path != canonical@);
                }
            }
        }
        Ok(&self.cache[last])
    }

    /// Drops every cached file; root and limits stay.
    pub fn clear(&mut self)
        ensures
            final(self)@ == (CacheView { files: Seq::empty(), ..old(self)@ }),
            final(self).wf(),
    {
        self.cache.clear();
        assert(self@.files =~= Seq::<MindmapView>::empty());
    }

    /// The number of cached files, and the number of their nodes together
    /// (which stops at `usize::MAX`).
    pub fn stats(&self) -> (stats: CacheStats)
        ensures
            stats.num_cached == self@.files.len(),
            stats.total_nodes == if total_nodes(self@.files) > usize::MAX {
                usize::MAX as nat
            } else {
                total_nodes(self@.files)
            },
    {
        let mut total: usize = 0;
        let mut i: usize = 0;
        assert(self@.files.subrange(0, 0) =~= Seq::<MindmapView>::empty());
        while i < self.cache.len()
            invariant
                i <= self.cache.len(),
                total == if total_nodes(self@.files.subrange(0, i as int)) > usize::MAX {
                    usize::MAX as nat
                } else {
                    total_nodes(self@.files.subrange(0, i as int))
                },
            decreases self.cache.len() - i,
        {
            let n = self.cache[i].nodes.len();
            proof {
                let upto = self@.files.subrange(0, i + 1);
                assert(upto.drop_last() =~= self@.files.subrange(0, i as int));
                assert(upto.last().nodes.len() == n);
            }
            total = if n > usize::MAX - total {
                usize::MAX
            } else {
                total + n
            };
            i = i + 1;
        }
        assert(self@.files.subrange(0, i as int) =~= self@.files);
        CacheStats { num_cached: self.cache.len(), total_nodes: total }
    }

    /// Replaces the size limit.
    pub fn set_max_file_size(&mut self, size: u64)
        ensures
            final(self)@ == (CacheView { max_file_size: size, ..old(self)@ }),
    {
        self.max_file_size = size;
    }

    /// Replaces the depth limit that the cache carries.
    pub fn set_max_depth(&mut self, depth: usize)
        ensures
            final(self)@ == (CacheView { max_depth: depth, ..old(self)@ }),
    {
        self.max_depth = depth;
    }

    /// The depth limit that the cache carries.
    pub fn max_depth(&self) -> (depth: usize)
        ensures
            depth == self@.max_depth,
    {
        self.max_depth
    }
}

/// A reference in one of the three absolute forms resolves to nothing but
/// `AbsolutePathRejected`, whatever the base file, the root and the file system.
pub proof fn lemma_absolute_reference_is_rejected<C: Fn(&str) -> Option<String>>(
    canonicalize: C,
    root: Seq<char>,
    base_file: Seq<char>,
    reference: Seq<char>,
    outcome: Result<Seq<char>, TraversalErrorView>,
)
    requires
        crate::path::has_root_marker(reference) || crate::path::has_drive_prefix(reference)
            || crate::path::has_unc_prefix(reference),
        resolves_to(canonicalize, root, base_file, reference, outcome),
    ensures
        outcome == Err::<Seq<char>, TraversalErrorView>(
            TraversalErrorView::AbsolutePathRejected { reference },
        ),
{
}

/// A reference whose canonical target lies outside the workspace root is
/// refused as an escape, and only such a one is; a path that resolving
/// hands out lies within the root.
pub proof fn lemma_target_outside_root_escapes(
    root: Seq<char>,
    reference: Seq<char>,
    base_dir: Seq<char>,
    target: Seq<char>,
)
    ensures
        !within(target, root) <==> resolution(root, reference, base_dir, Some(target)) == Err::<
            Seq<char>,
            TraversalErrorView,
        >(TraversalErrorView::PathEscape { reference }),
        within(target, root) <==> resolution(root, reference, base_dir, Some(target)) == Ok::<
            Seq<char>,
            TraversalErrorView,
        >(target),
{
}

/// Whatever resolving hands out lies within the workspace root, and came
/// from a reference that is not absolute. A reference that is not absolute
/// and does not resolve fails as an escape or for want of a canonical target.
pub proof fn lemma_resolved_path_is_within_root<C: Fn(&str) -> Option<String>>(
    canonicalize: C,
    root: Seq<char>,
    base_file: Seq<char>,
    reference: Seq<char>,
    outcome: Result<Seq<char>, TraversalErrorView>,
)
    requires
        resolves_to(canonicalize, root, base_file, reference, outcome),
    ensures
        outcome matches Ok(path) ==> within(path, root) && !is_absolute_reference(reference),
        !is_absolute_reference(reference) ==> (outcome matches Err(e) ==> e
            == (TraversalErrorView::PathEscape { reference }) || e is PathResolutionFailed),
{
}

/// A load keeps the invariant of the cache, and never takes a file out of it.
pub proof fn lemma_load_keeps_invariant(
    state: CacheView,
    base_file: Seq<char>,
    reference: Seq<char>,
    visited: Set<Seq<char>>,
    resolved: Result<Seq<char>, TraversalErrorView>,
    size: Option<u64>,
    content: Option<Seq<char>>,
)
    requires
        state.wf(),
        resolved matches Ok(path) ==> within(path, state.root),
        content matches Some(text) ==> text.len() <= usize::MAX,
    ensures
        load_step(state, base_file, reference, visited, resolved, size, content).1.wf(),
        forall|path: Seq<char>|
            state.contains(path) ==> #[trigger] load_step(
                state,
                base_file,
                reference,
                visited,
                resolved,
                size,
                content,
            ).1.contains(path),
{
    let after = load_step(state, base_file, reference, visited, resolved, size, content).1;
    if after != state {
        let path = resolved->Ok_0;
        let text = content->Some_0;
        let file = MindmapView::parsed(path, text);
        assert(after.files == state.files.push(file));
        crate::mindmap::lemma_parsed_wf(path, text);
        assert forall|i: int, j: int| 0 <= i < j < after.files.len() implies (
        #[trigger] after.files[i]).path != (#[trigger] after.files[j]).path by {
            if j == state.files.len() {
                assert(state.files[i].path != path);
            }
        }
        assert forall|p: Seq<char>| state.contains(p) implies after.contains(p) by {
            let i = state.position(p);
            assert(after.files[i].path == p);
        }
    }
}

/// Loading the same canonical path twice hands out the same record both
/// times, and the second load adds nothing to the cache: it stays as the
/// first load left it, whatever the file system says the second time.
pub proof fn lemma_second_load_is_cached(
    state: CacheView,
    base_file: Seq<char>,
    reference: Seq<char>,
    visited: Set<Seq<char>>,
    path: Seq<char>,
    size: Option<u64>,
    content: Option<Seq<char>>,
    again_base_file: Seq<char>,
    again_reference: Seq<char>,
    again_size: Option<u64>,
    again_content: Option<Seq<char>>,
)
    requires
        state.wf(),
        within(path, state.root),
        content matches Some(text) ==> text.len() <= usize::MAX,
        load_step(state, base_file, reference, visited, Ok(path), size, content).0 is Ok,
    ensures
        ({
            let first = load_step(state, base_file, reference, visited, Ok(path), size, content);
            let second = load_step(
                first.1,
                again_base_file,
                again_reference,
                visited,
                Ok(path),
                again_size,
                again_content,
            );
            &&& second.0 == first.0
            &&& second.1 == first.1
            &&& second.1.files.len() == first.1.files.len()
            &&& state.files.len() == 0 ==> first.1.files.len() == 1
        }),
{
    let first = load_step(state, base_file, reference, visited, Ok(path), size, content);
    lemma_load_keeps_invariant(state, base_file, reference, visited, Ok(path), size, content);
    if state.contains(path) {
        assert(first.1 == state);
    } else {
        let file = MindmapView::parsed(path, content->Some_0);
        assert(first.1.files == state.files.push(file));
        let last = state.files.len() as int;
        assert(first.1.files[last].path == path);
        assert(first.1.contains(path));
        let found = first.1.position(path);
        if found != last {
            if found < last {
                assert(first.1.files[found].path != first.1.files[last].path);
            } else {
                assert(first.1.files[last].path != first.1.files[found].path);
            }
        }
        assert(first.1.file(path) == file);
    }
}

/// A file above the size limit fails with `FileTooLarge`, which reports size
/// and limit; the load asks for no content, and what the content would have
/// been makes no difference: nothing is parsed and the cache stays as it was.
pub proof fn lemma_oversized_file_is_not_read(
    state: CacheView,
    base_file: Seq<char>,
    reference: Seq<char>,
    visited: Set<Seq<char>>,
    path: Seq<char>,
    size: u64,
    content: Option<Seq<char>>,
)
    requires
        !visited.contains(path),
        !state.contains(path),
        size > state.max_file_size,
    ensures
        load_step(state, base_file, reference, visited, Ok(path), Some(size), content) == (
            Err::<MindmapView, TraversalErrorView>(
                TraversalErrorView::FileTooLarge { size, limit: state.max_file_size },
            ),
            state,
        ),
        read_target(state, visited, Ok(path), Some(size)) is None,
{
}

/// A target in the visited set is a cycle, whether it is cached or not.
pub proof fn lemma_visited_target_is_a_cycle(
    state: CacheView,
    base_file: Seq<char>,
    reference: Seq<char>,
    visited: Set<Seq<char>>,
    path: Seq<char>,
    size: Option<u64>,
    content: Option<Seq<char>>,
)
    requires
        visited.contains(path),
    ensures
        load_step(state, base_file, reference, visited, Ok(path), size, content) == (
            Err::<MindmapView, TraversalErrorView>(
                TraversalErrorView::CircularReference { base_file, reference },
            ),
            state,
        ),
{
}

} // verus!
