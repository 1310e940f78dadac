use tasknav::project_tree::ProjectTree;

#[test]
fn test_build_simple_tree() {
    let mut tree = ProjectTree::new();
    tree.build_from_projects(&vec![("Work".to_string(), 5), ("Home".to_string(), 3)]);

    assert_eq!(tree.root_indices().len(), 2);
}

#[test]
fn test_build_nested_tree() {
    let mut tree = ProjectTree::new();
    tree.build_from_projects(&vec![
        ("Work.Backend.API".to_string(), 2),
        ("Work.Backend.DB".to_string(), 3),
        ("Work.Frontend".to_string(), 5),
    ]);

    let work_node = tree.find_by_path("Work").unwrap();
    assert_eq!(work_node.task_count, 10);
    assert_eq!(work_node.direct_task_count, 0);

    let backend_node = tree.find_by_path("Work.Backend").unwrap();
    assert_eq!(backend_node.task_count, 5);
}

#[test]
fn test_toggle_expansion() {
    let mut tree = ProjectTree::new();
    tree.build_from_projects(&vec![("Work.Backend".to_string(), 5)]);

    assert!(!tree.find_by_path("Work").unwrap().is_expanded);

    tree.toggle_expansion("Work");
    assert!(tree.find_by_path("Work").unwrap().is_expanded);

    tree.toggle_expansion("Work");
    assert!(!tree.find_by_path("Work").unwrap().is_expanded);
}

#[test]
fn test_direct_counts_sum() {
    let mut tree = ProjectTree::new();
    tree.build_from_projects(&vec![
        ("Work".to_string(), 2),
        ("Work".to_string(), 3),
        ("Work.Backend".to_string(), 4),
        ("".to_string(), 9),
    ]);
    let work = tree.find_by_path("Work").unwrap();
    assert_eq!(work.task_count, 9);
    assert_eq!(work.direct_task_count, 5);
    let backend = tree.find_by_path("Work.Backend").unwrap();
    assert_eq!(backend.task_count, 4);
    assert_eq!(backend.direct_task_count, 4);
    assert!(tree.find_by_path("").is_none());
}

#[test]
fn test_expand_path_expands_ancestors() {
    let mut tree = ProjectTree::new();
    tree.build_from_projects(&vec![("Work.Backend.API".to_string(), 1)]);

    tree.expand_path("Work.Backend.API");
    assert!(tree.find_by_path("Work").unwrap().is_expanded);
    assert!(tree.find_by_path("Work.Backend").unwrap().is_expanded);
    assert!(tree.find_by_path("Work.Backend.API").unwrap().is_expanded);
}

#[test]
fn test_collapse_all() {
    let mut tree = ProjectTree::new();
    tree.build_from_projects(&vec![
        ("Work.Backend".to_string(), 1),
        ("Home".to_string(), 2),
    ]);
    tree.expand_path("Work.Backend");
    tree.collapse_all();
    assert!(!tree.find_by_path("Work").unwrap().is_expanded);
    assert!(!tree.find_by_path("Work.Backend").unwrap().is_expanded);
    assert!(!tree.find_by_path("Home").unwrap().is_expanded);
}

#[test]
fn test_expansion_survives_rebuild() {
    let mut tree = ProjectTree::new();
    let projects = vec![("Work.Backend".to_string(), 5), ("Home".to_string(), 1)];
    tree.build_from_projects(&projects);
    tree.toggle_expansion("Work");
    assert!(tree.find_by_path("Work").unwrap().is_expanded);

    tree.build_from_projects(&projects);
    assert!(tree.find_by_path("Work").unwrap().is_expanded);
    assert!(!tree.find_by_path("Home").unwrap().is_expanded);
}

#[test]
fn test_iter_visible_preorder() {
    let mut tree = ProjectTree::new();
    tree.build_from_projects(&vec![
        ("Work.Backend.API".to_string(), 1),
        ("Home".to_string(), 1),
    ]);

    // collapsed: only the roots are visible, alphabetically
    let visible = tree.iter_visible();
    let paths: Vec<String> = visible.iter().map(|row| row.node.full_path.clone()).collect();
    assert_eq!(paths, vec!["Home".to_string(), "Work".to_string()]);

    tree.toggle_expansion("Work");
    let visible = tree.iter_visible();
    let paths: Vec<String> = visible.iter().map(|row| row.node.full_path.clone()).collect();
    assert_eq!(
        paths,
        vec![
            "Home".to_string(),
            "Work".to_string(),
            "Work.Backend".to_string()
        ]
    );

    tree.expand_path("Work.Backend.API");
    let visible = tree.iter_visible();
    let paths: Vec<String> = visible.iter().map(|row| row.node.full_path.clone()).collect();
    assert_eq!(
        paths,
        vec![
            "Home".to_string(),
            "Work".to_string(),
            "Work.Backend".to_string(),
            "Work.Backend.API".to_string()
        ]
    );
}

#[test]
fn test_siblings_sorted_case_insensitively() {
    let mut tree = ProjectTree::new();
    tree.build_from_projects(&vec![
        ("zeta".to_string(), 1),
        ("Alpha".to_string(), 1),
        ("mid".to_string(), 1),
        ("Work.beta".to_string(), 1),
        ("Work.ALPHA".to_string(), 1),
    ]);
    let roots: Vec<String> = tree
        .root_indices()
        .iter()
        .map(|&i| tree.get_node(i).unwrap().name.clone())
        .collect();
    assert_eq!(
        roots,
        vec![
            "Alpha".to_string(),
            "mid".to_string(),
            "Work".to_string(),
            "zeta".to_string()
        ]
    );
    let work = tree.find_by_path("Work").unwrap();
    let children: Vec<String> = work
        .children_indices
        .iter()
        .map(|&i| tree.get_node(i).unwrap().name.clone())
        .collect();
    assert_eq!(children, vec!["ALPHA".to_string(), "beta".to_string()]);
}

#[test]
fn test_node_fields() {
    let mut tree = ProjectTree::new();
    tree.build_from_projects(&vec![("Work.Backend.API".to_string(), 7)]);
    let api = tree.find_by_path("Work.Backend.API").unwrap();
    assert_eq!(api.name, "API");
    assert_eq!(api.full_path, "Work.Backend.API");
    assert_eq!(api.level, 2);
    assert!(!api.has_children());
    let work = tree.find_by_path("Work").unwrap();
    assert_eq!(work.name, "Work");
    assert_eq!(work.level, 0);
    assert!(work.has_children());
    assert!(tree.find_by_path("Nope").is_none());
    assert!(tree.get_node(0).is_some());
    assert!(tree.get_node(99).is_none());
}
