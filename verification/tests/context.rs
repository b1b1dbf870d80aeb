use mindmap_cli::context::{NavigationContext, VisitedSet};
use mindmap_cli::error::TraversalError;

#[test]
fn test_context_new() {
    let ctx = NavigationContext::new();
    assert_eq!(ctx.depth(), 0);
    assert_eq!(ctx.max_depth(), 50);
    assert_eq!(ctx.num_visited(), 0);
}

#[test]
fn test_context_with_max_depth() {
    let ctx = NavigationContext::with_max_depth(10);
    assert_eq!(ctx.max_depth(), 10);
}

#[test]
fn test_descend_increments_depth() -> Result<(), TraversalError> {
    let mut ctx = NavigationContext::new();
    assert_eq!(ctx.depth(), 0);

    {
        let _guard = ctx.descend()?;
        drop(_guard);
    }
    assert_eq!(ctx.depth(), 0);

    Ok(())
}

#[test]
fn test_descend_decrements_on_drop() -> Result<(), TraversalError> {
    let mut ctx = NavigationContext::new();
    {
        let _guard = ctx.descend()?;
        drop(_guard);
    }
    assert_eq!(ctx.depth(), 0);

    Ok(())
}

#[test]
fn test_descend_enforces_max_depth() {
    let mut ctx = NavigationContext::with_max_depth(2);

    // Descend to depth 1; the guard is dropped at once.
    assert!(ctx.descend().is_ok());
    assert_eq!(ctx.depth(), 0);

    let g1 = ctx.descend().unwrap();
    assert_eq!(g1.ctx.depth(), 1);

    let g2 = g1.ctx.descend().unwrap();
    assert_eq!(g2.ctx.depth(), 2);

    // Now try to descend when already at max
    {
        let result = g2.ctx.descend();
        assert!(result.is_err());
    }
    assert_eq!(g2.ctx.depth(), 2); // Should not have incremented
}

#[test]
fn test_visited_tracking() {
    let mut ctx = NavigationContext::new();
    let path1 = String::from("/some/file1.md");
    let path2 = String::from("/some/file2.md");

    assert!(!ctx.is_visited(&path1));
    assert_eq!(ctx.num_visited(), 0);

    ctx.mark_visited(path1.clone());
    assert!(ctx.is_visited(&path1));
    assert!(!ctx.is_visited(&path2));
    assert_eq!(ctx.num_visited(), 1);

    ctx.mark_visited(path2.clone());
    assert!(ctx.is_visited(&path1));
    assert!(ctx.is_visited(&path2));
    assert_eq!(ctx.num_visited(), 2);
}

#[test]
fn test_clear_visited() {
    let mut ctx = NavigationContext::new();
    let path1 = String::from("/some/file1.md");

    ctx.mark_visited(path1.clone());
    assert!(ctx.is_visited(&path1));

    ctx.clear_visited();
    assert!(!ctx.is_visited(&path1));
    assert_eq!(ctx.num_visited(), 0);
}

#[test]
fn test_guard_pattern() -> Result<(), TraversalError> {
    let mut ctx = NavigationContext::new();

    {
        let g1 = ctx.descend()?;
        drop(g1);
        {
            let g2 = ctx.descend()?;
            drop(g2);
        }
    }
    assert_eq!(ctx.depth(), 0);

    Ok(())
}

#[test]
fn test_at_max_depth() {
    let mut ctx = NavigationContext::with_max_depth(2);
    assert!(!ctx.at_max_depth());

    let g1 = ctx.descend().unwrap();
    assert!(!g1.ctx.at_max_depth());

    let g2 = g1.ctx.descend().unwrap();
    assert!(g2.ctx.at_max_depth());
}

#[test]
fn descend_fails_after_max_depth_descents_and_keeps_depth() {
    let mut ctx = NavigationContext::with_max_depth(3);
    let g1 = ctx.descend().unwrap();
    let g2 = g1.ctx.descend().unwrap();
    let g3 = g2.ctx.descend().unwrap();
    assert_eq!(g3.ctx.depth(), 3);
    match g3.ctx.descend() {
        Err(TraversalError::RecursionDepthExceeded { max_depth }) => assert_eq!(max_depth, 3),
        _ => panic!("expected RecursionDepthExceeded"),
    };
    assert_eq!(g3.ctx.depth(), 3);
    assert_eq!(
        g3.ctx.descend().err().unwrap().message(),
        "Recursion depth exceeded (max: 3)"
    );
}

#[test]
fn nested_guards_release_in_reverse_order() {
    let mut ctx = NavigationContext::with_max_depth(5);
    {
        let g1 = ctx.descend().unwrap();
        assert_eq!(g1.ctx.depth(), 1);
        {
            let g2 = g1.ctx.descend().unwrap();
            assert_eq!(g2.ctx.depth(), 2);
            {
                let g3 = g2.ctx.descend().unwrap();
                assert_eq!(g3.ctx.depth(), 3);
            }
            assert_eq!(g2.ctx.depth(), 2);
        }
        assert_eq!(g1.ctx.depth(), 1);
    }
    assert_eq!(ctx.depth(), 0);
}

fn walk_and_fail(ctx: &mut NavigationContext, levels: usize) -> Result<(), TraversalError> {
    let guard = ctx.descend()?;
    if levels == 0 {
        return Err(TraversalError::PathEscape { reference: String::from("../x") });
    }
    walk_and_fail(guard.ctx, levels - 1)
}

#[test]
fn depth_is_restored_when_the_enclosing_call_fails() {
    let mut ctx = NavigationContext::with_max_depth(10);
    assert!(walk_and_fail(&mut ctx, 4).is_err());
    assert_eq!(ctx.depth(), 0);
    // Running into the limit on the way down restores the depth as well.
    let mut shallow = NavigationContext::with_max_depth(2);
    match walk_and_fail(&mut shallow, 4) {
        Err(TraversalError::RecursionDepthExceeded { max_depth }) => assert_eq!(max_depth, 2),
        _ => panic!("expected RecursionDepthExceeded"),
    }
    assert_eq!(shallow.depth(), 0);
}

#[test]
fn zero_max_depth_refuses_every_descent() {
    let mut ctx = NavigationContext::with_max_depth(0);
    assert!(ctx.at_max_depth());
    assert!(ctx.descend().is_err());
    assert_eq!(ctx.depth(), 0);
}

#[test]
fn mark_visited_is_idempotent() {
    let mut ctx = NavigationContext::new();
    ctx.mark_visited(String::from("/ws/A.md"));
    ctx.mark_visited(String::from("/ws/A.md"));
    assert_eq!(ctx.num_visited(), 1);
    assert!(ctx.visited().contains("/ws/A.md"));
    assert!(!ctx.visited().contains("/ws/B.md"));
}

#[test]
fn set_max_depth_replaces_the_limit() {
    let mut ctx = NavigationContext::new();
    ctx.set_max_depth(1);
    assert_eq!(ctx.max_depth(), 1);
    let g = ctx.descend().unwrap();
    assert!(g.ctx.descend().is_err());
}

#[test]
fn default_context_is_a_new_context() {
    let ctx = NavigationContext::default();
    assert_eq!(ctx.depth(), 0);
    assert_eq!(ctx.max_depth(), 50);
}

#[test]
fn visited_set_counts_each_path_once() {
    let mut set = VisitedSet::new();
    assert!(set.insert(String::from("/a")));
    assert!(!set.insert(String::from("/a")));
    assert_eq!(set.len(), 1);
    set.clear();
    assert_eq!(set.len(), 0);
}
