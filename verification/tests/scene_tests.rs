use vox_scene::scene::{
    assemble_model_names, collect_subassets, find_subasset, join_names, parse_scene_graph,
    resolve_node_into, u32_to_decimal, NodeTransform, RawSceneNode, VoxelNode,
};

fn xform(name: Option<&str>, child: u32) -> RawSceneNode {
    RawSceneNode::Transform {
        name: name.map(|s| s.to_string()),
        transform: NodeTransform { tx: 0, ty: 0, tz: 0, rotation: 0 },
        layer_id: 0,
        child,
    }
}

#[test]
fn name_joining_follows_the_four_cases() {
    assert_eq!(join_names(&None, &None), None);
    assert_eq!(join_names(&None, &Some("b".to_string())), Some("b".to_string()));
    assert_eq!(join_names(&Some("a".to_string()), &None), Some("a".to_string()));
    assert_eq!(
        join_names(&Some("a".to_string()), &Some("b".to_string())),
        Some("a-b".to_string())
    );
}

#[test]
fn transform_group_shape_inherits_the_name_once() {
    // Transform "A" -> Group -> Shape with one model: resolves to exactly "A".
    let graph = vec![
        xform(Some("A"), 1),
        RawSceneNode::Group { children: vec![2] },
        RawSceneNode::Shape { models: vec![0] },
    ];
    let pairs = parse_scene_graph(&graph, 0, &None, graph.len() as u32);
    assert_eq!(pairs.len(), 1);
    assert_eq!(pairs[0].id, 0);
    assert_eq!(pairs[0].name, Some("A".to_string()));
    let names = assemble_model_names(&pairs, 1);
    assert_eq!(names[0], "A");
}

#[test]
fn nested_transform_names_join_with_a_dash() {
    // Transform "A" -> Transform "B" -> Shape: resolves to "A-B".
    let graph = vec![
        xform(Some("A"), 1),
        xform(Some("B"), 2),
        RawSceneNode::Shape { models: vec![0] },
    ];
    let pairs = parse_scene_graph(&graph, 0, &None, graph.len() as u32);
    assert_eq!(pairs.len(), 1);
    assert_eq!(pairs[0].name, Some("A-B".to_string()));
}

#[test]
fn unnamed_model_falls_back_to_synthetic_name() {
    let graph = vec![
        xform(None, 1),
        RawSceneNode::Shape { models: vec![0] },
    ];
    let pairs = parse_scene_graph(&graph, 0, &None, graph.len() as u32);
    let names = assemble_model_names(&pairs, 2);
    assert_eq!(names[0], "model-0");
    // A model no shape references also gets the fallback.
    assert_eq!(names[1], "model-1");
}

#[test]
fn colliding_names_resolve_to_the_latest_traversal_entry() {
    // Two transforms named "A" over shapes with models 0 and 1: the name
    // index keeps the one reached later.
    let graph = vec![
        RawSceneNode::Group { children: vec![1, 3] },
        xform(Some("A"), 2),
        RawSceneNode::Shape { models: vec![0] },
        xform(Some("A"), 4),
        RawSceneNode::Shape { models: vec![1] },
    ];
    let mut arena: Vec<VoxelNode> = Vec::new();
    let root = resolve_node_into(&graph, 0, &None, graph.len() as u32, &mut arena);
    assert_eq!(root, 0);
    let subassets = collect_subassets(&arena);
    assert_eq!(subassets.len(), 2);
    let found = find_subasset(&subassets, &"A".to_string()).expect("name is registered");
    // The later "A" transform was created after the earlier one.
    assert_eq!(found, subassets[1].node);
    assert!(subassets[0].node < subassets[1].node);
}

#[test]
fn group_children_keep_traversal_order() {
    let graph = vec![
        RawSceneNode::Group { children: vec![1, 2] },
        RawSceneNode::Shape { models: vec![4] },
        RawSceneNode::Shape { models: vec![9] },
    ];
    let pairs = parse_scene_graph(&graph, 0, &None, graph.len() as u32);
    assert_eq!(pairs.len(), 2);
    assert_eq!(pairs[0].id, 4);
    assert_eq!(pairs[1].id, 9);
}

#[test]
fn cyclic_graph_terminates_with_bounded_fuel() {
    // A malformed self-referencing transform: the fuel runs out instead of
    // recursing forever.
    let graph = vec![xform(Some("loop"), 0)];
    let pairs = parse_scene_graph(&graph, 0, &None, graph.len() as u32);
    assert_eq!(pairs.len(), 0);
}

#[test]
fn arena_stores_composed_names_on_transforms() {
    let graph = vec![
        xform(Some("A"), 1),
        xform(Some("B"), 2),
        RawSceneNode::Shape { models: vec![0] },
    ];
    let mut arena: Vec<VoxelNode> = Vec::new();
    let root = resolve_node_into(&graph, 0, &None, graph.len() as u32, &mut arena);
    assert_eq!(root, 0);
    assert_eq!(arena[0].name, Some("A".to_string()));
    // The child transform carries the composed path name.
    assert_eq!(arena[arena[0].children[0]].name, Some("A-B".to_string()));
}

#[test]
fn decimal_rendering_is_exact() {
    assert_eq!(u32_to_decimal(0), "0");
    assert_eq!(u32_to_decimal(7), "7");
    assert_eq!(u32_to_decimal(10), "10");
    assert_eq!(u32_to_decimal(254), "254");
    assert_eq!(u32_to_decimal(4294967295), "4294967295");
}

#[test]
fn arena_mirrors_the_raw_tree_structure() {
    let graph = vec![
        RawSceneNode::Group { children: vec![1, 3] },
        xform(Some("T"), 2),
        RawSceneNode::Shape { models: vec![7] },
        RawSceneNode::Shape { models: vec![9] },
    ];
    let mut arena: Vec<VoxelNode> = Vec::new();
    let root = resolve_node_into(&graph, 0, &None, graph.len() as u32, &mut arena);
    assert_eq!(root, 0);
    // The group node carries its two children in raw order.
    assert_eq!(arena[0].children.len(), 2);
    let first = arena[0].children[0];
    let second = arena[0].children[1];
    // First child: the named transform over a shape with model 7.
    assert_eq!(arena[first].name, Some("T".to_string()));
    assert_eq!(arena[first].children.len(), 1);
    let shape = arena[first].children[0];
    assert_eq!(arena[shape].model_ids, vec![7]);
    // Second child: the bare shape with model 9.
    assert_eq!(arena[second].model_ids, vec![9]);
    assert!(arena[second].children.is_empty());
}
