use mindmap_cli::cache::MindmapCache;
use mindmap_cli::context::{NavigationContext, VisitedSet};
use mindmap_cli::error::TraversalError;
use std::cell::Cell;

/// A file system in memory: absolute paths of directories, and of files with their text.
struct FakeFs {
    dirs: Vec<String>,
    files: Vec<(String, String)>,
    reads: Cell<usize>,
}

fn normalize(path: &str) -> Option<String> {
    let full = if path.starts_with('/') { path.to_string() } else { format!("/ws/{}", path) };
    let mut parts: Vec<&str> = Vec::new();
    for part in full.split('/') {
        if part.is_empty() || part == "." {
            continue;
        }
        if part == ".." {
            parts.pop();
        } else {
            parts.push(part);
        }
    }
    Some(format!("/{}", parts.join("/")))
}

impl FakeFs {
    fn new() -> FakeFs {
        FakeFs {
            dirs: vec![String::from("/"), String::from("/ws"), String::from("/etc")],
            files: vec![(String::from("/etc/passwd"), String::from("root:x:0:0\n"))],
            reads: Cell::new(0),
        }
    }

    fn dir(mut self, path: &str) -> FakeFs {
        self.dirs.push(path.to_string());
        self
    }

    fn file(mut self, path: &str, text: &str) -> FakeFs {
        self.files.push((path.to_string(), text.to_string()));
        self
    }

    fn canonicalize(&self, path: &str) -> Option<String> {
        let full = normalize(path)?;
        if self.dirs.iter().any(|d| *d == full) || self.files.iter().any(|f| f.0 == full) {
            Some(full)
        } else {
            None
        }
    }

    fn file_size(&self, path: &str) -> Option<u64> {
        self.files.iter().find(|f| f.0 == path).map(|f| f.1.len() as u64)
    }

    fn read(&self, path: &str) -> Option<String> {
        self.reads.set(self.reads.get() + 1);
        self.files.iter().find(|f| f.0 == path).map(|f| f.1.clone())
    }
}

#[test]
fn test_cache_new() {
    let fs = FakeFs::new();
    let cache = MindmapCache::new(String::from("."), |p: &str| fs.canonicalize(p));
    assert_eq!(cache.stats().num_cached, 0);
    assert!(cache.workspace_root().starts_with('/'));
    assert_eq!(cache.workspace_root(), "/ws");
    assert_eq!(cache.max_depth(), 50);
}

#[test]
fn new_keeps_the_root_as_given_where_it_cannot_be_made_canonical() {
    let cache = MindmapCache::new(String::from("./nowhere"), |_p: &str| None);
    assert_eq!(cache.workspace_root(), "./nowhere");
}

#[test]
fn test_resolve_path_relative() -> Result<(), TraversalError> {
    let fs = FakeFs::new()
        .dir("/ws/subdir")
        .file("/ws/subdir/MINDMAP.md", "[1] **Test** - body")
        .file("/ws/subdir/other.md", "[2] **Other** - body");
    let canon = |p: &str| fs.canonicalize(p);
    let cache = MindmapCache::new(String::from("/ws"), &canon);

    // Relative path in same directory
    let resolved = cache.resolve_path("/ws/subdir/MINDMAP.md", "./other.md", &canon)?;
    assert!(resolved.ends_with("other.md"));
    assert!(resolved.starts_with(cache.workspace_root()));
    assert_eq!(resolved, "/ws/subdir/other.md");

    Ok(())
}

#[test]
fn test_resolve_path_rejects_absolute_posix() {
    let fs = FakeFs::new();
    let canon = |p: &str| fs.canonicalize(p);
    let cache = MindmapCache::new(String::from("."), &canon);

    // Should reject absolute POSIX path
    let result = cache.resolve_path("MINDMAP.md", "/etc/passwd", &canon);
    assert!(result.is_err());
    assert!(result.unwrap_err().message().contains("Absolute paths not allowed"));
}

#[test]
fn test_resolve_path_rejects_parent_escape() -> Result<(), TraversalError> {
    let fs = FakeFs::new().dir("/ws/subdir").file("/ws/subdir/MINDMAP.md", "[1] **Test** - body");
    let canon = |p: &str| fs.canonicalize(p);
    let cache = MindmapCache::new(String::from("/ws"), &canon);

    let relative = format!("{}{}", std::path::MAIN_SEPARATOR.to_string().repeat(10), "etc/passwd");

    let result = cache.resolve_path("/ws/subdir/MINDMAP.md", &relative, &canon);

    // Should detect escape (path outside workspace) or canonicalization fail
    if result.is_ok() {
        let resolved = result.unwrap();
        assert!(!resolved.starts_with("/ws"), "Should not resolve outside workspace");
    }

    Ok(())
}

#[test]
fn test_load_caches_files() -> Result<(), TraversalError> {
    let fs = FakeFs::new().file("/ws/MINDMAP.md", "[1] **Test** - body\n");
    let canon = |p: &str| fs.canonicalize(p);
    let size = |p: &str| fs.file_size(p);
    let read = |p: &str| fs.read(p);
    let mut cache = MindmapCache::new(String::from("/ws"), &canon);
    let visited = VisitedSet::new();

    // First load
    let first = {
        let mm1 = cache.load("/ws/MINDMAP.md", "./MINDMAP.md", &visited, &canon, &size, &read)?;
        format!("{:p}", mm1)
    };
    assert_eq!(cache.stats().num_cached, 1);

    // Second load should return cached
    let second = {
        let mm2 = cache.load("/ws/MINDMAP.md", "./MINDMAP.md", &visited, &canon, &size, &read)?;
        format!("{:p}", mm2)
    };
    assert_eq!(cache.stats().num_cached, 1);

    // Both should be the same record
    assert_eq!(first, second);
    // and the file was read once
    assert_eq!(fs.reads.get(), 1);

    Ok(())
}

#[test]
fn test_load_detects_cycle() -> Result<(), TraversalError> {
    let fs = FakeFs::new().file("/ws/MINDMAP.md", "[1] **Test** - body\n");
    let canon = |p: &str| fs.canonicalize(p);
    let size = |p: &str| fs.file_size(p);
    let read = |p: &str| fs.read(p);
    let mut cache = MindmapCache::new(String::from("/ws"), &canon);
    let mut visited = VisitedSet::new();

    // First load
    let canonical = cache.resolve_path("/ws/MINDMAP.md", "./MINDMAP.md", &canon)?;
    visited.insert(canonical.clone());

    // Try to load again with visited set - should fail
    let result = cache.load("/ws/MINDMAP.md", "./MINDMAP.md", &visited, &canon, &size, &read);
    assert!(result.is_err());
    assert!(result.err().unwrap().message().contains("Circular reference"));

    Ok(())
}

#[test]
fn test_load_rejects_oversized_file() -> Result<(), TraversalError> {
    // Create a file larger than the test limit
    let content = "x".repeat(1024 * 1024); // 1 MB
    let fs = FakeFs::new().file("/ws/big.md", &content);
    let canon = |p: &str| fs.canonicalize(p);
    let size = |p: &str| fs.file_size(p);
    let read = |p: &str| fs.read(p);

    let mut cache = MindmapCache::new(String::from("/ws"), &canon);
    cache.set_max_file_size(1024); // Set limit to 1 KB

    let visited = VisitedSet::new();
    let result = cache.load("/ws/big.md", "./big.md", &visited, &canon, &size, &read);

    assert!(result.is_err());
    let err = result.err().unwrap();
    assert!(err.message().contains("File too large"));
    assert_eq!(err.message(), "File too large: 1048576 bytes (max: 1024 bytes)");
    // The content was never read, and nothing was cached.
    assert_eq!(fs.reads.get(), 0);
    assert_eq!(cache.stats().num_cached, 0);

    Ok(())
}

#[test]
fn test_cache_stats() -> Result<(), TraversalError> {
    let fs = FakeFs::new().file("/ws/MINDMAP.md", "[1] **Test1** - body\n[2] **Test2** - body\n");
    let canon = |p: &str| fs.canonicalize(p);
    let size = |p: &str| fs.file_size(p);
    let read = |p: &str| fs.read(p);
    let mut cache = MindmapCache::new(String::from("/ws"), &canon);
    let visited = VisitedSet::new();

    cache.load("/ws/MINDMAP.md", "./MINDMAP.md", &visited, &canon, &size, &read)?;
    let stats = cache.stats();

    assert_eq!(stats.num_cached, 1);
    assert_eq!(stats.total_nodes, 2);

    Ok(())
}

#[test]
fn absolute_references_are_rejected_in_every_form() {
    let fs = FakeFs::new().dir("/ws/sub").file("/ws/sub/M.md", "[1] **T** - d");
    let canon = |p: &str| fs.canonicalize(p);
    let cache = MindmapCache::new(String::from("/ws"), &canon);
    for reference in ["/etc/passwd", "/", "C:\\Windows\\system.ini", "c:notes.md", "\\\\server\\share\\x.md"] {
        for base in ["/ws/sub/M.md", "M.md", "", "/"] {
            match cache.resolve_path(base, reference, &canon) {
                Err(TraversalError::AbsolutePathRejected { reference: r }) => assert_eq!(r, reference),
                _ => panic!("expected AbsolutePathRejected"),
            }
        }
    }
}

#[test]
fn scenario_absolute_reference_from_nested_base_file() {
    let fs = FakeFs::new().dir("/ws/sub").file("/ws/sub/M.md", "[1] **T** - d");
    let canon = |p: &str| fs.canonicalize(p);
    let cache = MindmapCache::new(String::from("/ws"), &canon);
    let err = cache.resolve_path("/ws/sub/M.md", "/etc/passwd", &canon).unwrap_err();
    assert!(matches!(err, TraversalError::AbsolutePathRejected { .. }));
    assert_eq!(err.message(), "Absolute paths not allowed: /etc/passwd");
}

#[test]
fn scenario_parent_traversal_escapes_the_workspace() {
    let fs = FakeFs::new().dir("/ws/sub").file("/ws/sub/M.md", "[1] **T** - d");
    let canon = |p: &str| fs.canonicalize(p);
    let cache = MindmapCache::new(String::from("/ws"), &canon);
    let err = cache.resolve_path("/ws/sub/M.md", "../../../../etc/passwd", &canon).unwrap_err();
    assert!(matches!(err, TraversalError::PathEscape { .. }));
    assert_eq!(
        err.message(),
        "Path escape attempt: ../../../../etc/passwd resolves outside workspace"
    );
    // A target that does not exist cannot be made canonical.
    let err = cache.resolve_path("/ws/sub/M.md", "../../../../etc/shadow", &canon).unwrap_err();
    assert!(matches!(err, TraversalError::PathResolutionFailed { .. }));
    assert_eq!(
        err.message(),
        "Failed to resolve path: ../../../../etc/shadow (relative to /ws/sub)"
    );
}

#[test]
fn sibling_directory_with_a_longer_name_is_outside() {
    let fs = FakeFs::new().dir("/ws-old").file("/ws-old/M.md", "[1] **T** - d").file("/ws/A.md", "");
    let canon = |p: &str| fs.canonicalize(p);
    let cache = MindmapCache::new(String::from("/ws"), &canon);
    let err = cache.resolve_path("/ws/A.md", "../ws-old/M.md", &canon).unwrap_err();
    assert!(matches!(err, TraversalError::PathEscape { .. }));
}

#[test]
fn base_file_without_parent_resolves_against_the_root() {
    let fs = FakeFs::new().file("/ws/A.md", "[1] **T** - d");
    let canon = |p: &str| fs.canonicalize(p);
    let cache = MindmapCache::new(String::from("/ws"), &canon);
    assert_eq!(cache.resolve_path("/", "A.md", &canon).unwrap(), "/ws/A.md");
    assert_eq!(cache.resolve_path("", "./A.md", &canon).unwrap(), "/ws/A.md");
}

#[test]
fn scenario_cycle_between_two_files() {
    let fs = FakeFs::new()
        .file("/ws/A.md", "[1] **A** - see [2](./B.md)\n")
        .file("/ws/B.md", "[2] **B** - back to [1](./A.md)\n");
    let canon = |p: &str| fs.canonicalize(p);
    let size = |p: &str| fs.file_size(p);
    let read = |p: &str| fs.read(p);
    let mut cache = MindmapCache::new(String::from("/ws"), &canon);
    let mut ctx = NavigationContext::new();

    // Start at A with nothing visited; mark A before descending into B.
    ctx.mark_visited(String::from("/ws/A.md"));
    let guard = ctx.descend().unwrap();
    let b_path = {
        let b = cache
            .load("/ws/A.md", "./B.md", guard.ctx.visited(), &canon, &size, &read)
            .unwrap();
        assert_eq!(b.nodes.len(), 1);
        b.path.clone()
    };
    assert_eq!(b_path, "/ws/B.md");
    guard.ctx.mark_visited(b_path.clone());

    // B's own reference back to A must fail.
    let back = cache.load(&b_path, "./A.md", guard.ctx.visited(), &canon, &size, &read);
    match back {
        Err(TraversalError::CircularReference { base_file, reference }) => {
            assert_eq!(base_file, "/ws/B.md");
            assert_eq!(reference, "./A.md");
        }
        _ => panic!("expected CircularReference"),
    }
    assert_eq!(
        cache
            .load(&b_path, "./A.md", guard.ctx.visited(), &canon, &size, &read)
            .err()
            .unwrap()
            .message(),
        "Circular reference detected: /ws/B.md -> ./A.md"
    );
}

#[test]
fn file_at_the_size_limit_is_loaded() {
    let fs = FakeFs::new().file("/ws/A.md", "[1] **A** - b\n");
    let canon = |p: &str| fs.canonicalize(p);
    let size = |p: &str| fs.file_size(p);
    let read = |p: &str| fs.read(p);
    let mut cache = MindmapCache::new(String::from("/ws"), &canon);
    let visited = VisitedSet::new();
    cache.set_max_file_size(14);
    assert!(cache.load("/ws/A.md", "A.md", &visited, &canon, &size, &read).is_ok());
    cache.clear();
    cache.set_max_file_size(13);
    match cache.load("/ws/A.md", "A.md", &visited, &canon, &size, &read) {
        Err(TraversalError::FileTooLarge { size, limit }) => {
            assert_eq!(size, 14);
            assert_eq!(limit, 13);
        }
        _ => panic!("expected FileTooLarge"),
    };
}

#[test]
fn stat_and_read_failures_are_reported() {
    let fs = FakeFs::new().file("/ws/A.md", "[1] **A** - b\n");
    let canon = |p: &str| fs.canonicalize(p);
    let size = |p: &str| fs.file_size(p);
    let mut cache = MindmapCache::new(String::from("/ws"), &canon);
    let visited = VisitedSet::new();
    let err = cache
        .load("/ws/A.md", "A.md", &visited, &canon, |_p: &str| None, |_p: &str| None)
        .err()
        .unwrap();
    assert_eq!(err.message(), "Failed to stat file: /ws/A.md");
    let err = cache.load("/ws/A.md", "A.md", &visited, &canon, &size, |_p: &str| None).err().unwrap();
    assert_eq!(err.message(), "Failed to load mindmap: /ws/A.md");
    assert_eq!(cache.stats().num_cached, 0);
}

#[test]
fn clear_drops_all_entries_and_forces_a_reload() {
    let fs = FakeFs::new().file("/ws/A.md", "[1] **A** - b\n").file("/ws/B.md", "[2] **B** - c\n[3] **C** - d\n");
    let canon = |p: &str| fs.canonicalize(p);
    let size = |p: &str| fs.file_size(p);
    let read = |p: &str| fs.read(p);
    let mut cache = MindmapCache::new(String::from("/ws"), &canon);
    let visited = VisitedSet::new();
    cache.load("/ws/A.md", "A.md", &visited, &canon, &size, &read).unwrap();
    cache.load("/ws/A.md", "B.md", &visited, &canon, &size, &read).unwrap();
    let stats = cache.stats();
    assert_eq!(stats.num_cached, 2);
    assert_eq!(stats.total_nodes, 3);
    cache.clear();
    assert_eq!(cache.stats().num_cached, 0);
    assert_eq!(cache.stats().total_nodes, 0);
    cache.load("/ws/A.md", "A.md", &visited, &canon, &size, &read).unwrap();
    assert_eq!(fs.reads.get(), 3);
}

#[test]
fn cache_carries_a_depth_limit() {
    let mut cache = MindmapCache::new(String::from("/ws"), |_p: &str| None);
    assert_eq!(cache.max_depth(), 50);
    cache.set_max_depth(7);
    assert_eq!(cache.max_depth(), 7);
}
